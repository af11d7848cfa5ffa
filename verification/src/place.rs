//! The files and folders that the launcher works on, and where they are.
use vstd::prelude::*;

use crate::text::{chars_of, join, same, Text};

verus! {

/// A file or folder that the launcher works on.
#[derive(Clone, Copy, PartialEq, Eq, Structural)]
pub enum Place {
    /// The settings of the engine.
    S1EngineIni,
    /// The default settings of the engine.
    DefaultEngineIni,
    /// The folder of the game's programs.
    Binaries,
    /// The game.
    TeraExe,
    /// The graphics library that the game loads.
    D3d9Dll,
    /// The settings of the DXVK library.
    DxvkConf,
    /// The folder of the game's data.
    S1Data,
    /// The game's texts.
    DataCenter,
    /// The English texts, kept while another language is installed.
    EnglishBackup,
    /// The mark that the Spanish texts are installed.
    SpanishSentinel,
    /// The DXVK library that comes with the launcher.
    DxvkDllSource,
    /// The DXVK settings that come with the launcher.
    DxvkConfSource,
    /// The Spanish texts that come with the launcher.
    SpanishSource,
}

/// A place, or the backup that is kept beside it.
#[derive(Clone, Copy, PartialEq, Eq, Structural)]
pub struct Location {
    pub place: Place,
    pub backup: bool,
}

impl Location {
    /// The backup of a location.
    pub open spec fn spec_backup(self) -> Location {
        Location { place: self.place, backup: true }
    }

    /// The backup of a location.
    #[verifier::when_used_as_spec(spec_backup)]
    pub fn backup(self) -> (r: Location)
        ensures
            r == self.spec_backup(),
    {
        Location { place: self.place, backup: true }
    }
}

/// A place itself, not its backup.
pub open spec fn spec_at(place: Place) -> Location {
    Location { place, backup: false }
}

/// A place itself, not its backup.
#[verifier::when_used_as_spec(spec_at)]
pub fn at(place: Place) -> (r: Location)
    ensures
        r == spec_at(place),
{
    Location { place, backup: false }
}

/// The folders of a place below the game's folder, and its name there. What comes
/// with the launcher is not below the game's folder.
pub open spec fn folders_and_name(place: Place) -> Option<(Seq<Text>, Text)> {
    match place {
        Place::S1EngineIni => Some((seq!["S1Game"@, "Config"@], "S1Engine.ini"@)),
        Place::DefaultEngineIni => Some((seq!["S1Game"@, "Config"@], "DefaultEngine.ini"@)),
        Place::Binaries => Some((seq![], "Binaries"@)),
        Place::TeraExe => Some((seq!["Binaries"@], "TERA.exe"@)),
        Place::D3d9Dll => Some((seq!["Binaries"@], "d3d9.dll"@)),
        Place::DxvkConf => Some((seq!["Binaries"@], "dxvk.conf"@)),
        Place::S1Data => Some((seq!["S1Game"@], "S1Data"@)),
        Place::DataCenter => Some((seq!["S1Game"@, "S1Data"@], "DataCenter_Final_EUR.dat"@)),
        Place::EnglishBackup => Some(
            (seq!["S1Game"@, "S1Data"@], "DataCenter_Final_EUR.dat"@ + ".english_backup"@),
        ),
        Place::SpanishSentinel => Some((seq!["S1Game"@, "S1Data"@], ".tera_lang_spanish"@)),
        Place::DxvkDllSource => None,
        Place::DxvkConfSource => None,
        Place::SpanishSource => None,
    }
}

/// Whether a file's name has an extension: a dot that is not its first character.
/// The name of the folder above has none.
pub open spec fn has_extension(name: Text) -> bool {
    name != ".."@ && exists|i: int| 0 < i < name.len() && name[i] == '.'
}

/// The name of a file's backup: a further extension, behind `bak` where the file
/// has none.
pub open spec fn backup_name(name: Text) -> Text {
    if has_extension(name) {
        name + ".optimizer_backup"@
    } else {
        name + ".bak.optimizer_backup"@
    }
}

/// The path of a location below the game's folder, in parts.
pub open spec fn path_of(l: Location) -> Option<Seq<Text>> {
    match folders_and_name(l.place) {
        Some((folders, name)) => Some(
            folders.push(
                if l.backup {
                    backup_name(name)
                } else {
                    name
                },
            ),
        ),
        None => None,
    }
}

/// Gives the name of a file's backup.
pub fn name_of_backup(name: &str) -> (r: String)
    ensures
        r@ == backup_name(name@),
{
    let s = chars_of(name);
    let n: usize = s.len();
    let mut found = false;
    let mut i: usize = 1;
    while i < n
        invariant
            n == s@.len(),
            s@ == name@,
            n >= 1 ==> 1 <= i <= n,
            found ==> (exists|k: int| 0 < k < n && name@[k] == '.'),
            !found ==> (forall|k: int| 0 < k < i ==> name@[k] != '.'),
        decreases n - i,
    {
        if s[i] == '.' {
            assert(name@[i as int] == '.');
            found = true;
        }
        i += 1;
    }
    if found && !same(&s, &chars_of("..")) {
        join(name, ".optimizer_backup")
    } else {
        join(name, ".bak.optimizer_backup")
    }
}

/// The texts of several strings.
pub open spec fn strings(v: Seq<String>) -> Seq<Text> {
    v.map_values(|s: String| s@)
}

/// The folders of a place below the game's folder, and its name there.
fn parts_of(place: Place) -> (r: Option<(Vec<&'static str>, String)>)
    ensures
        (match r {
            Some((folders, name)) => Some((folders@.map_values(|s: &'static str| s@), name@)),
            None => None,
        }) == folders_and_name(place),
{
    let config: Vec<&'static str> = vec!["S1Game", "Config"];
    assert(config@.map_values(|s: &'static str| s@) =~= seq!["S1Game"@, "Config"@]);
    let binaries: Vec<&'static str> = vec!["Binaries"];
    assert(binaries@.map_values(|s: &'static str| s@) =~= seq!["Binaries"@]);
    let data: Vec<&'static str> = vec!["S1Game", "S1Data"];
    assert(data@.map_values(|s: &'static str| s@) =~= seq!["S1Game"@, "S1Data"@]);
    match place {
        Place::S1EngineIni => Some((config, "S1Engine.ini".to_owned())),
        Place::DefaultEngineIni => Some((config, "DefaultEngine.ini".to_owned())),
        Place::Binaries => {
            let folders: Vec<&'static str> = Vec::new();
            assert(folders@.map_values(|s: &'static str| s@) =~= Seq::<Text>::empty());
            Some((folders, "Binaries".to_owned()))
        },
        Place::TeraExe => Some((binaries, "TERA.exe".to_owned())),
        Place::D3d9Dll => Some((binaries, "d3d9.dll".to_owned())),
        Place::DxvkConf => Some((binaries, "dxvk.conf".to_owned())),
        Place::S1Data => {
            let folders: Vec<&'static str> = vec!["S1Game"];
            assert(folders@.map_values(|s: &'static str| s@) =~= seq!["S1Game"@]);
            Some((folders, "S1Data".to_owned()))
        },
        Place::DataCenter => Some((data, "DataCenter_Final_EUR.dat".to_owned())),
        Place::EnglishBackup => Some((data, join("DataCenter_Final_EUR.dat", ".english_backup"))),
        Place::SpanishSentinel => Some((data, ".tera_lang_spanish".to_owned())),
        Place::DxvkDllSource => None,
        Place::DxvkConfSource => None,
        Place::SpanishSource => None,
    }
}

/// Gives the path of a location below the game's folder, in parts.
pub fn path_parts(l: Location) -> (r: Option<Vec<String>>)
    ensures
        (match r {
            Some(parts) => Some(strings(parts@)),
            None => None,
        }) == path_of(l),
{
    let (folders, name) = match parts_of(l.place) {
        Some(p) => p,
        None => {
            return None;
        },
    };
    let ghost all = folders@.map_values(|s: &'static str| s@);
    let mut parts: Vec<String> = Vec::new();
    let n: usize = folders.len();
    assert(strings(parts@) =~= all.take(0));
    for i in 0..n
        invariant
            n == folders@.len(),
            all == folders@.map_values(|s: &'static str| s@),
            strings(parts@) == all.take(i as int),
    {
        let ghost before = parts@;
        parts.push(folders[i].to_owned());
        assert(strings(parts@) =~= strings(before).push(all[i as int]));
        assert(all.take(i + 1) =~= all.take(i as int).push(all[i as int]));
    }
    assert(all.take(n as int) =~= all);
    let ghost before = parts@;
    if l.backup {
        parts.push(name_of_backup(&name));
    } else {
        parts.push(name);
    }
    assert(strings(parts@) =~= strings(before).push(parts@.last()@));
    Some(parts)
}

/// The launcher works on these files below the game's folder. What comes with the launcher
/// is not below it.
pub proof fn law_where_the_files_are()
    ensures
        path_of(spec_at(Place::S1EngineIni)) == Some(seq!["S1Game"@, "Config"@, "S1Engine.ini"@]),
        path_of(spec_at(Place::DefaultEngineIni)) == Some(seq!["S1Game"@, "Config"@, "DefaultEngine.ini"@]),
        path_of(spec_at(Place::Binaries)) == Some(seq!["Binaries"@]),
        path_of(spec_at(Place::TeraExe)) == Some(seq!["Binaries"@, "TERA.exe"@]),
        path_of(spec_at(Place::D3d9Dll)) == Some(seq!["Binaries"@, "d3d9.dll"@]),
        path_of(spec_at(Place::DxvkConf)) == Some(seq!["Binaries"@, "dxvk.conf"@]),
        path_of(spec_at(Place::S1Data)) == Some(seq!["S1Game"@, "S1Data"@]),
        path_of(spec_at(Place::DataCenter)) == Some(seq!["S1Game"@, "S1Data"@, "DataCenter_Final_EUR.dat"@]),
        path_of(spec_at(Place::EnglishBackup)) == Some(
            seq!["S1Game"@, "S1Data"@, "DataCenter_Final_EUR.dat.english_backup"@],
        ),
        path_of(spec_at(Place::SpanishSentinel)) == Some(seq!["S1Game"@, "S1Data"@, ".tera_lang_spanish"@]),
        path_of(spec_at(Place::DxvkDllSource)) is None,
        path_of(spec_at(Place::DxvkConfSource)) is None,
        path_of(spec_at(Place::SpanishSource)) is None,
{
    reveal_strlit("DataCenter_Final_EUR.dat");
    reveal_strlit(".english_backup");
    reveal_strlit("DataCenter_Final_EUR.dat.english_backup");
    assert("DataCenter_Final_EUR.dat"@ + ".english_backup"@ =~= "DataCenter_Final_EUR.dat.english_backup"@);
    assert(Seq::<Text>::empty().push("Binaries"@) =~= seq!["Binaries"@]);
    assert(seq!["S1Game"@].push("S1Data"@) =~= seq!["S1Game"@, "S1Data"@]);
    assert(seq!["Binaries"@].push("TERA.exe"@) =~= seq!["Binaries"@, "TERA.exe"@]);
    assert(seq!["Binaries"@].push("d3d9.dll"@) =~= seq!["Binaries"@, "d3d9.dll"@]);
    assert(seq!["Binaries"@].push("dxvk.conf"@) =~= seq!["Binaries"@, "dxvk.conf"@]);
    let config = seq!["S1Game"@, "Config"@];
    assert(config.push("S1Engine.ini"@) =~= seq!["S1Game"@, "Config"@, "S1Engine.ini"@]);
    assert(config.push("DefaultEngine.ini"@) =~= seq!["S1Game"@, "Config"@, "DefaultEngine.ini"@]);
    let data = seq!["S1Game"@, "S1Data"@];
    let dat = "DataCenter_Final_EUR.dat"@;
    assert(data.push(dat) =~= seq!["S1Game"@, "S1Data"@, dat]);
    assert(data.push(".tera_lang_spanish"@) =~= seq!["S1Game"@, "S1Data"@, ".tera_lang_spanish"@]);
    let kept = "DataCenter_Final_EUR.dat.english_backup"@;
    assert(data.push(kept) =~= seq!["S1Game"@, "S1Data"@, kept]);
}

/// The backup of a file stands beside it, under its name with `.optimizer_backup` behind it;
/// behind a name without an extension `.bak` comes first. A dot at the start of a name makes
/// no extension.
pub proof fn law_name_of_a_backup(l: Location, stem: Text, extension: Text)
    requires
        stem.len() > 0,
        !extension.contains('.'),
    ensures
        stem != seq!['.'] || extension.len() > 0 ==> backup_name(stem.push('.') + extension) == stem.push('.')
            + extension + ".optimizer_backup"@,
        backup_name(extension) == extension + ".bak.optimizer_backup"@,
        backup_name(seq!['.'] + extension) == seq!['.'] + extension + ".bak.optimizer_backup"@,
        backup_name(".."@) == "...bak.optimizer_backup"@,
        !l.backup && path_of(l) is Some ==> path_of(l.backup()) == Some(
            path_of(l)->0.drop_last().push(backup_name(path_of(l)->0.last())),
        ),
        path_of(l) is None ==> path_of(l.backup()) is None,
{
    reveal_strlit("..");
    reveal_strlit(".bak.optimizer_backup");
    reveal_strlit("...bak.optimizer_backup");
    assert(".."@ + ".bak.optimizer_backup"@ =~= "...bak.optimizer_backup"@);
    let name = stem.push('.') + extension;
    assert(name[stem.len() as int] == '.');
    if name == ".."@ {
        assert(stem =~= seq!['.']) by {
            assert(stem.len() == 1 && extension.len() == 0) by {
                assert(name.len() == stem.len() + 1 + extension.len());
            }
            assert(name[0] == stem[0]);
        }
    }
    let hidden = seq!['.'] + extension;
    assert forall|i: int| 0 < i < hidden.len() implies hidden[i] != '.' by {
        assert(hidden[i] == extension[i - 1]);
        assert(extension.contains(extension[i - 1]));
    }
    assert forall|i: int| 0 < i < extension.len() implies extension[i] != '.' by {
        assert(extension.contains(extension[i]));
    }
    if path_of(l) is Some {
        let (folders, name) = folders_and_name(l.place)->0;
        if !l.backup {
            assert(path_of(l)->0.drop_last() =~= folders);
        }
    }
}

} // verus!
