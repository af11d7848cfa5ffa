//! Settings of the game and of Windows that make the game run faster.
use vstd::prelude::*;

use crate::dialogue::{
    follow, if_ok, labelled, lemma_follow_then, meets, opt, then_do, Dialogue, Step, Tape,
};
use crate::host::{
    ask_bytes, ask_done, ask_flag, ask_output, ask_size, ask_text, bytes_of, done_of, flag_of,
    output_of, shown_text_of, size_of, unit_view, OutputView, Replies, Reply, Request, RequestView,
    Talk,
};
use crate::ini::{
    applied, apply_patches, default_engine, default_engine_patches, file_text, from_utf8_lossy, patch_views,
    patched, read_text, s1_engine, s1_engine_aggressive, s1_engine_extra, s1_engine_patches, text_file,
    usable, utf8_text, write_text, Patch, PatchView,
};
use crate::number::{dec, decimal};
use crate::pe::{change_string, change_text, has_laa, laa_flag, laa_set, set_laa, Laa, LaaView};
use crate::place::{at, spec_at, strings, Location, Place};
use crate::step::{step_view, tell, told, StepResult, StepView};
use crate::text::{chars_of, has, holds, join, string_of, trim, trimmed, Text};

verus! {

/// Keeps a copy of a file before its first change: where there is a backup, or no
/// file, nothing is done.
pub open spec fn backup_once_talk(l: Location) -> Talk<Result<(), Text>> {
    then_do(
        flag_of(RequestView::Exists(l.backup())),
        |kept: bool|
            if kept {
                Dialogue::End(Ok(()))
            } else {
                then_do(
                    flag_of(RequestView::Exists(l)),
                    |there: bool|
                        if there {
                            then_do(
                                done_of(RequestView::CopyFile(l, l.backup())),
                                |r: Result<(), Text>| Dialogue::End(labelled(r, "backup: "@)),
                            )
                        } else {
                            Dialogue::End(Ok(()))
                        },
                )
            },
    )
}

fn backup_once(t: &mut Replies, l: Location) -> (r: Option<Result<(), String>>)
    requires
        old(t).wf(),
    ensures
        final(t).reached(old(t), backup_once_talk(l), opt(r, |v| unit_view(v))),
{
    broadcast use lemma_follow_then;

    if ask_flag(t, Request::Exists(l.backup()))? {
        return Some(Ok(()));
    }
    if !ask_flag(t, Request::Exists(l))? {
        return Some(Ok(()));
    }
    match ask_done(t, Request::CopyFile(l, l.backup()))? {
        Ok(()) => Some(Ok(())),
        Err(e) => Some(Err(join("backup: ", &e))),
    }
}

/// Puts the backup of a file in its place, where there is one; tells whether
/// there was.
pub open spec fn restore_backup_talk(l: Location) -> Talk<Result<bool, Text>> {
    then_do(
        flag_of(RequestView::Exists(l.backup())),
        |kept: bool|
            if kept {
                if_ok(
                    then_do(
                        done_of(RequestView::CopyFile(l.backup(), l)),
                        |r: Result<(), Text>| Dialogue::End(labelled(r, "restore: "@)),
                    ),
                    |u: ()| Dialogue::End(Ok(true)),
                )
            } else {
                Dialogue::End(Ok(false))
            },
    )
}

/// The model of a yes or no that may fail.
pub open spec fn bool_view(r: Result<bool, String>) -> Result<bool, Text> {
    match r {
        Ok(b) => Ok(b),
        Err(e) => Err(e@),
    }
}

fn restore_backup(t: &mut Replies, l: Location) -> (r: Option<Result<bool, String>>)
    requires
        old(t).wf(),
    ensures
        final(t).reached(old(t), restore_backup_talk(l), opt(r, |v| bool_view(v))),
{
    broadcast use lemma_follow_then;

    if !ask_flag(t, Request::Exists(l.backup()))? {
        return Some(Ok(false));
    }
    match ask_done(t, Request::CopyFile(l.backup(), l))? {
        Ok(()) => Some(Ok(true)),
        Err(e) => Some(Err(join("restore: ", &e))),
    }
}

/// What went wrong with a file: what was done, the path and the cause.
pub open spec fn file_error_talk<T>(l: Location, verb: Text, cause: Text) -> Talk<Result<T, Text>> {
    then_do(
        shown_text_of(RequestView::Quoted(l)),
        |path: Text| Dialogue::End(Err(verb + path + ": "@ + cause)),
    )
}

/// The text of a file and whether it is in UTF-16.
pub open spec fn read_text_talk(l: Location) -> Talk<Result<(Text, bool), Text>> {
    then_do(
        bytes_of(RequestView::Read(l)),
        |r: Result<Seq<u8>, Text>|
            match r {
                Ok(b) => Dialogue::End(file_text(b)),
                Err(e) => file_error_talk(l, "read "@, e),
            },
    )
}

/// The model of the text of a file.
pub open spec fn text_view(r: Result<(Vec<char>, bool), String>) -> Result<(Text, bool), Text> {
    match r {
        Ok((s, utf16)) => Ok((s@, utf16)),
        Err(e) => Err(e@),
    }
}

fn read_text_auto(t: &mut Replies, l: Location) -> (r: Option<Result<(Vec<char>, bool), String>>)
    requires
        old(t).wf(),
    ensures
        final(t).reached(old(t), read_text_talk(l), opt(r, |v| text_view(v))),
{
    broadcast use lemma_follow_then;

    match ask_bytes(t, Request::Read(l))? {
        Ok(b) => Some(read_text(b)),
        Err(e) => {
            let mut message = join("read ", &ask_text(t, Request::Quoted(l))?);
            message.append(": ");
            message.append(&e);
            Some(Err(message))
        },
    }
}

/// Writes a text as a file.
pub open spec fn write_text_talk(l: Location, s: Text, utf16: bool) -> Talk<Result<(), Text>> {
    then_do(
        done_of(RequestView::Write(l, text_file(s, utf16))),
        |r: Result<(), Text>|
            match r {
                Ok(()) => Dialogue::End(Ok(())),
                Err(e) => file_error_talk(l, "write "@, e),
            },
    )
}

fn write_text_auto(t: &mut Replies, l: Location, s: &[char], utf16: bool) -> (r: Option<Result<(), String>>)
    requires
        old(t).wf(),
    ensures
        final(t).reached(old(t), write_text_talk(l, s@, utf16), opt(r, |v| unit_view(v))),
{
    broadcast use lemma_follow_then;

    match ask_done(t, Request::Write(l, write_text(s, utf16)))? {
        Ok(()) => Some(Ok(())),
        Err(e) => {
            let mut message = join("write ", &ask_text(t, Request::Quoted(l))?);
            message.append(": ");
            message.append(&e);
            Some(Err(message))
        },
    }
}

/// Makes replacements in a text file, of which a backup is kept; tells how many
/// of them found something to replace.
pub open spec fn apply_patches_talk(l: Location, patches: Seq<PatchView>) -> Talk<Result<nat, Text>> {
    then_do(
        flag_of(RequestView::Exists(l)),
        |there: bool|
            if !there {
                then_do(
                    shown_text_of(RequestView::Quoted(l)),
                    |path: Text| Dialogue::End(Err("file not found: "@ + path)),
                )
            } else {
                if_ok(
                    backup_once_talk(l),
                    |u: ()|
                        if_ok(
                            read_text_talk(l),
                            |c: (Text, bool)|
                                if_ok(
                                    write_text_talk(l, patched(c.0, patches, patches.len() as int), c.1),
                                    |u: ()|
                                        Dialogue::End(Ok(applied(c.0, patches, patches.len() as int))),
                                ),
                        ),
                )
            },
    )
}

/// The model of a count that may fail.
pub open spec fn count_view(r: Result<usize, String>) -> Result<nat, Text> {
    match r {
        Ok(n) => Ok(n as nat),
        Err(e) => Err(e@),
    }
}

fn apply_patches_to(t: &mut Replies, l: Location, patches: &Vec<Patch>) -> (r: Option<Result<usize, String>>)
    requires
        old(t).wf(),
        usable(patch_views(patches@)),
    ensures
        final(t).reached(old(t), apply_patches_talk(l, patch_views(patches@)), opt(r, |v| count_view(v))),
{
    broadcast use lemma_follow_then;

    if !ask_flag(t, Request::Exists(l))? {
        return Some(Err(join("file not found: ", &ask_text(t, Request::Quoted(l))?)));
    }
    if let Err(e) = backup_once(t, l)? {
        return Some(Err(e));
    }
    let (content, utf16) = match read_text_auto(t, l)? {
        Ok(c) => c,
        Err(e) => {
            return Some(Err(e));
        },
    };
    let (content, count) = apply_patches(content, patches);
    match write_text_auto(t, l, &content, utf16)? {
        Ok(()) => Some(Ok(count)),
        Err(e) => Some(Err(e)),
    }
}

/// The settings of the engine.
pub open spec fn s1_ini() -> Location {
    spec_at(Place::S1EngineIni)
}

/// The default settings of the engine.
pub open spec fn default_ini() -> Location {
    spec_at(Place::DefaultEngineIni)
}

/// The game's program.
pub open spec fn exe() -> Location {
    spec_at(Place::TeraExe)
}

/// The graphics library that the game loads.
pub open spec fn d3d9() -> Location {
    spec_at(Place::D3d9Dll)
}

/// The settings of the DXVK library.
pub open spec fn dxvk_conf() -> Location {
    spec_at(Place::DxvkConf)
}

/// Takes expensive settings out of both settings files.
pub open spec fn patch_ini_files_talk() -> Talk<Result<StepView, Text>> {
    if_ok(
        apply_patches_talk(s1_ini(), s1_engine()),
        |a: nat|
            if_ok(
                apply_patches_talk(default_ini(), default_engine()),
                |b: nat|
                    Dialogue::End(
                        Ok(
                            told(
                                "INI patches"@,
                                true,
                                "S1Engine: "@ + dec(a) + " replacements, DefaultEngine: "@ + dec(b)
                                    + " replacements"@,
                            ),
                        ),
                    ),
            ),
    )
}

fn do_patch_ini_files(t: &mut Replies) -> (r: Option<Result<StepResult, String>>)
    requires
        old(t).wf(),
    ensures
        final(t).reached(old(t), patch_ini_files_talk(), opt(r, |v| step_view(v))),
{
    broadcast use lemma_follow_then;

    let a: usize = match apply_patches_to(t, at(Place::S1EngineIni), &s1_engine_patches())? {
        Ok(n) => n,
        Err(e) => {
            return Some(Err(e));
        },
    };
    let b: usize = match apply_patches_to(t, at(Place::DefaultEngineIni), &default_engine_patches())? {
        Ok(n) => n,
        Err(e) => {
            return Some(Err(e));
        },
    };
    let mut detail = join("S1Engine: ", &decimal(a as u64));
    detail.append(" replacements, DefaultEngine: ");
    detail.append(&decimal(b as u64));
    detail.append(" replacements");
    Some(Ok(tell("INI patches", true, &detail)))
}

/// Takes expensive settings out of both settings files.
pub fn patch_ini_files(replies: &Vec<Reply>) -> (r: Step<Request, Result<StepResult, String>>)
    ensures
        meets(r, |v: Result<StepResult, String>| step_view(v), patch_ini_files_talk(), replies@),
{
    let mut t = Tape::new(replies);
    let r = do_patch_ini_files(&mut t);
    t.finish(r)
}

/// Puts the backups of both settings files in their places.
pub open spec fn revert_ini_files_talk() -> Talk<Result<StepView, Text>> {
    if_ok(
        restore_backup_talk(s1_ini()),
        |a: bool|
            if_ok(
                restore_backup_talk(default_ini()),
                |b: bool|
                    {
                        let restored = (if a { 1nat } else { 0nat }) + (if b { 1nat } else { 0nat });
                        Dialogue::End(
                            Ok(told("INI revert"@, true, dec(restored) + " file(s) restored from backup"@)),
                        )
                    },
            ),
    )
}

fn do_revert_ini_files(t: &mut Replies) -> (r: Option<Result<StepResult, String>>)
    requires
        old(t).wf(),
    ensures
        final(t).reached(old(t), revert_ini_files_talk(), opt(r, |v| step_view(v))),
{
    broadcast use lemma_follow_then;

    let mut restored: u64 = 0;
    match restore_backup(t, at(Place::S1EngineIni))? {
        Ok(b) => {
            if b {
                restored += 1;
            }
        },
        Err(e) => {
            return Some(Err(e));
        },
    }
    match restore_backup(t, at(Place::DefaultEngineIni))? {
        Ok(b) => {
            if b {
                restored += 1;
            }
        },
        Err(e) => {
            return Some(Err(e));
        },
    }
    Some(Ok(tell("INI revert", true, &join(&decimal(restored), " file(s) restored from backup"))))
}

/// Puts the backups of both settings files in their places.
pub fn revert_ini_files(replies: &Vec<Reply>) -> (r: Step<Request, Result<StepResult, String>>)
    ensures
        meets(r, |v: Result<StepResult, String>| step_view(v), revert_ini_files_talk(), replies@),
{
    let mut t = Tape::new(replies);
    let r = do_revert_ini_files(&mut t);
    t.finish(r)
}

/// Takes further settings out of the engine's settings file.
pub open spec fn patch_ini_aggressive_talk() -> Talk<Result<StepView, Text>> {
    if_ok(
        apply_patches_talk(s1_ini(), s1_engine_extra()),
        |a: nat|
            Dialogue::End(Ok(told("INI aggressive"@, true, dec(a) + " aggressive replacements"@))),
    )
}

fn do_patch_ini_aggressive(t: &mut Replies) -> (r: Option<Result<StepResult, String>>)
    requires
        old(t).wf(),
    ensures
        final(t).reached(old(t), patch_ini_aggressive_talk(), opt(r, |v| step_view(v))),
{
    broadcast use lemma_follow_then;

    match apply_patches_to(t, at(Place::S1EngineIni), &s1_engine_aggressive())? {
        Ok(n) => Some(
            Ok(tell("INI aggressive", true, &join(&decimal(n as u64), " aggressive replacements"))),
        ),
        Err(e) => Some(Err(e)),
    }
}

/// Takes further settings out of the engine's settings file, at the cost of how the
/// game looks.
pub fn patch_ini_aggressive(replies: &Vec<Reply>) -> (r: Step<Request, Result<StepResult, String>>)
    ensures
        meets(r, |v: Result<StepResult, String>| step_view(v), patch_ini_aggressive_talk(), replies@),
{
    let mut t = Tape::new(replies);
    let r = do_patch_ini_aggressive(&mut t);
    t.finish(r)
}

/// Sets the flag of the game's program by which it may use large addresses, and
/// keeps a backup of the program.
pub open spec fn patch_exe_laa_talk() -> Talk<Result<StepView, Text>> {
    then_do(
        flag_of(RequestView::Exists(exe())),
        |there: bool|
            if !there {
                then_do(
                    shown_text_of(RequestView::Quoted(exe())),
                    |path: Text| Dialogue::End(Err("exe not found: "@ + path)),
                )
            } else {
                if_ok(
                    backup_once_talk(exe()),
                    |u: ()|
                        if_ok(
                            then_do(
                                bytes_of(RequestView::Read(exe())),
                                |r: Result<Seq<u8>, Text>| Dialogue::End(labelled(r, "read exe: "@)),
                            ),
                            |b: Seq<u8>| set_laa_talk(laa_set(b)),
                        ),
                )
            },
    )
}

/// Writes the program once the flag is set.
pub open spec fn set_laa_talk(set: Result<LaaView, Text>) -> Talk<Result<StepView, Text>> {
    match set {
        Err(e) => Dialogue::End(Err(e)),
        Ok(LaaView::Unchanged) => Dialogue::End(
            Ok(told("LAA patch"@, true, "Already LAA-aware (no change)"@)),
        ),
        Ok(LaaView::Changed { before, after, bytes }) => if_ok(
            then_do(
                done_of(RequestView::Write(exe(), bytes)),
                |r: Result<(), Text>| Dialogue::End(labelled(r, "write exe: "@)),
            ),
            |u: ()| Dialogue::End(Ok(told("LAA patch"@, true, change_text(before, after)))),
        ),
    }
}

fn do_patch_exe_laa(t: &mut Replies) -> (r: Option<Result<StepResult, String>>)
    requires
        old(t).wf(),
    ensures
        final(t).reached(old(t), patch_exe_laa_talk(), opt(r, |v| step_view(v))),
{
    broadcast use lemma_follow_then;

    let exe = at(Place::TeraExe);
    if !ask_flag(t, Request::Exists(exe))? {
        return Some(Err(join("exe not found: ", &ask_text(t, Request::Quoted(exe))?)));
    }
    if let Err(e) = backup_once(t, exe)? {
        return Some(Err(e));
    }
    let b = match ask_bytes(t, Request::Read(exe))? {
        Ok(b) => b,
        Err(e) => {
            return Some(Err(join("read exe: ", &e)));
        },
    };
    match set_laa(b) {
        Err(e) => Some(Err(e)),
        Ok(Laa::Unchanged) => Some(Ok(tell("LAA patch", true, "Already LAA-aware (no change)"))),
        Ok(Laa::Changed { before, after, bytes }) => match ask_done(t, Request::Write(exe, bytes))? {
            Ok(()) => Some(Ok(tell("LAA patch", true, &change_string(before, after)))),
            Err(e) => Some(Err(join("write exe: ", &e))),
        },
    }
}

/// Sets the flag of the game's program by which it may use large addresses.
pub fn patch_exe_laa(replies: &Vec<Reply>) -> (r: Step<Request, Result<StepResult, String>>)
    ensures
        meets(r, |v: Result<StepResult, String>| step_view(v), patch_exe_laa_talk(), replies@),
{
    let mut t = Tape::new(replies);
    let r = do_patch_exe_laa(&mut t);
    t.finish(r)
}

/// Whether the flag of the game's program is set.
pub open spec fn check_exe_laa_talk() -> Talk<Result<bool, Text>> {
    then_do(
        flag_of(RequestView::Exists(exe())),
        |there: bool|
            if there {
                then_do(
                    bytes_of(RequestView::Read(exe())),
                    |r: Result<Seq<u8>, Text>|
                        Dialogue::End(
                            match r {
                                Ok(b) => Ok(laa_flag(b)),
                                Err(e) => Err(e),
                            },
                        ),
                )
            } else {
                Dialogue::End(Ok(false))
            },
    )
}

fn do_check_exe_laa(t: &mut Replies) -> (r: Option<Result<bool, String>>)
    requires
        old(t).wf(),
    ensures
        final(t).reached(old(t), check_exe_laa_talk(), opt(r, |v| bool_view(v))),
{
    broadcast use lemma_follow_then;

    let exe = at(Place::TeraExe);
    if !ask_flag(t, Request::Exists(exe))? {
        return Some(Ok(false));
    }
    match ask_bytes(t, Request::Read(exe))? {
        Ok(b) => Some(Ok(has_laa(b))),
        Err(e) => Some(Err(e)),
    }
}

/// Tells whether the flag of the game's program is set.
pub fn check_exe_laa(replies: &Vec<Reply>) -> (r: Step<Request, Result<bool, String>>)
    ensures
        meets(r, |v: Result<bool, String>| bool_view(v), check_exe_laa_talk(), replies@),
{
    let mut t = Tape::new(replies);
    let r = do_check_exe_laa(&mut t);
    t.finish(r)
}

/// Puts the backup of the game's program in its place.
pub open spec fn revert_exe_laa_talk() -> Talk<Result<StepView, Text>> {
    if_ok(
        restore_backup_talk(exe()),
        |restored: bool|
            Dialogue::End(
                Ok(
                    if restored {
                        told("LAA revert"@, true, "exe restored"@)
                    } else {
                        told("LAA revert"@, false, "no backup found"@)
                    },
                ),
            ),
    )
}

fn do_revert_exe_laa(t: &mut Replies) -> (r: Option<Result<StepResult, String>>)
    requires
        old(t).wf(),
    ensures
        final(t).reached(old(t), revert_exe_laa_talk(), opt(r, |v| step_view(v))),
{
    broadcast use lemma_follow_then;

    match restore_backup(t, at(Place::TeraExe))? {
        Ok(restored) => if restored {
            Some(Ok(tell("LAA revert", true, "exe restored")))
        } else {
            Some(Ok(tell("LAA revert", false, "no backup found")))
        },
        Err(e) => Some(Err(e)),
    }
}

/// Puts the backup of the game's program in its place.
pub fn revert_exe_laa(replies: &Vec<Reply>) -> (r: Step<Request, Result<StepResult, String>>)
    ensures
        meets(r, |v: Result<StepResult, String>| step_view(v), revert_exe_laa_talk(), replies@),
{
    let mut t = Tape::new(replies);
    let r = do_revert_exe_laa(&mut t);
    t.finish(r)
}

/// Keeps a backup of a graphics library that is no DXVK library: one of these has
/// four million bytes or more.
pub open spec fn keep_d3d9_talk() -> Talk<Result<(), Text>> {
    then_do(
        flag_of(RequestView::Exists(d3d9())),
        |there: bool|
            if there {
                if_ok(
                    size_of(RequestView::Size(d3d9())),
                    |n: u64|
                        if n < 4_000_000 {
                            backup_once_talk(d3d9())
                        } else {
                            Dialogue::End(Ok(()))
                        },
                )
            } else {
                Dialogue::End(Ok(()))
            },
    )
}

fn keep_d3d9(t: &mut Replies) -> (r: Option<Result<(), String>>)
    requires
        old(t).wf(),
    ensures
        final(t).reached(old(t), keep_d3d9_talk(), opt(r, |v| unit_view(v))),
{
    broadcast use lemma_follow_then;

    let d3d9 = at(Place::D3d9Dll);
    if !ask_flag(t, Request::Exists(d3d9))? {
        return Some(Ok(()));
    }
    match ask_size(t, Request::Size(d3d9))? {
        Ok(n) => if n < 4_000_000 {
            backup_once(t, d3d9)
        } else {
            Some(Ok(()))
        },
        Err(e) => Some(Err(e)),
    }
}

/// Puts the DXVK settings beside the game, where there are none yet.
pub open spec fn place_conf_talk() -> Talk<Result<(), Text>> {
    then_do(
        flag_of(RequestView::Exists(dxvk_conf())),
        |there: bool|
            if there {
                Dialogue::End(Ok(()))
            } else {
                then_do(
                    done_of(RequestView::CopyFile(spec_at(Place::DxvkConfSource), dxvk_conf())),
                    |r: Result<(), Text>| Dialogue::End(labelled(r, "copy dxvk.conf: "@)),
                )
            },
    )
}

fn place_conf(t: &mut Replies) -> (r: Option<Result<(), String>>)
    requires
        old(t).wf(),
    ensures
        final(t).reached(old(t), place_conf_talk(), opt(r, |v| unit_view(v))),
{
    broadcast use lemma_follow_then;

    let conf = at(Place::DxvkConf);
    if ask_flag(t, Request::Exists(conf))? {
        return Some(Ok(()));
    }
    match ask_done(t, Request::CopyFile(at(Place::DxvkConfSource), conf))? {
        Ok(()) => Some(Ok(())),
        Err(e) => Some(Err(join("copy dxvk.conf: ", &e))),
    }
}

/// Puts the DXVK library and its settings beside the game.
pub open spec fn install_dxvk_talk() -> Talk<Result<StepView, Text>> {
    then_do(
        flag_of(RequestView::Exists(spec_at(Place::Binaries))),
        |there: bool|
            if !there {
                then_do(
                    shown_text_of(RequestView::Quoted(spec_at(Place::Binaries))),
                    |path: Text| Dialogue::End(Err("Binaries dir not found at "@ + path)),
                )
            } else {
                if_ok(
                    keep_d3d9_talk(),
                    |u: ()|
                        if_ok(
                            then_do(
                                done_of(RequestView::CopyFile(spec_at(Place::DxvkDllSource), d3d9())),
                                |r: Result<(), Text>| Dialogue::End(labelled(r, "copy d3d9.dll: "@)),
                            ),
                            |u: ()|
                                if_ok(
                                    place_conf_talk(),
                                    |u: ()|
                                        then_do(
                                            shown_text_of(RequestView::Quoted(d3d9())),
                                            |path: Text|
                                                Dialogue::End(
                                                    Ok(
                                                        told(
                                                            "DXVK install"@,
                                                            true,
                                                            "d3d9.dll -> "@ + path,
                                                        ),
                                                    ),
                                                ),
                                        ),
                                ),
                        ),
                )
            },
    )
}

fn do_install_dxvk(t: &mut Replies) -> (r: Option<Result<StepResult, String>>)
    requires
        old(t).wf(),
    ensures
        final(t).reached(old(t), install_dxvk_talk(), opt(r, |v| step_view(v))),
{
    broadcast use lemma_follow_then;

    let binaries = at(Place::Binaries);
    let d3d9 = at(Place::D3d9Dll);
    if !ask_flag(t, Request::Exists(binaries))? {
        return Some(Err(join("Binaries dir not found at ", &ask_text(t, Request::Quoted(binaries))?)));
    }
    if let Err(e) = keep_d3d9(t)? {
        return Some(Err(e));
    }
    if let Err(e) = ask_done(t, Request::CopyFile(at(Place::DxvkDllSource), d3d9))? {
        return Some(Err(join("copy d3d9.dll: ", &e)));
    }
    if let Err(e) = place_conf(t)? {
        return Some(Err(e));
    }
    let detail = join("d3d9.dll -> ", &ask_text(t, Request::Quoted(d3d9))?);
    Some(Ok(tell("DXVK install", true, &detail)))
}

/// Puts the DXVK library and its settings beside the game.
pub fn install_dxvk(replies: &Vec<Reply>) -> (r: Step<Request, Result<StepResult, String>>)
    ensures
        meets(r, |v: Result<StepResult, String>| step_view(v), install_dxvk_talk(), replies@),
{
    let mut t = Tape::new(replies);
    let r = do_install_dxvk(&mut t);
    t.finish(r)
}

/// Takes the DXVK library away, in favour of the library that was there before.
pub open spec fn uninstall_dxvk_talk() -> Talk<Result<StepView, Text>> {
    then_do(
        flag_of(RequestView::Exists(d3d9())),
        |there: bool|
            if !there {
                Dialogue::End(Ok(told("DXVK uninstall"@, true, "nothing to remove"@)))
            } else {
                if_ok(
                    restore_backup_talk(d3d9()),
                    |restored: bool|
                        if_ok(
                            if restored {
                                Dialogue::End(Ok(()))
                            } else {
                                then_do(
                                    done_of(RequestView::Remove(d3d9())),
                                    |r: Result<(), Text>| Dialogue::End(labelled(r, "remove d3d9: "@)),
                                )
                            },
                            |u: ()|
                                Dialogue::End(
                                    Ok(told("DXVK uninstall"@, true, "d3d9.dll restored/removed"@)),
                                ),
                        ),
                )
            },
    )
}

fn do_uninstall_dxvk(t: &mut Replies) -> (r: Option<Result<StepResult, String>>)
    requires
        old(t).wf(),
    ensures
        final(t).reached(old(t), uninstall_dxvk_talk(), opt(r, |v| step_view(v))),
{
    broadcast use lemma_follow_then;

    let d3d9 = at(Place::D3d9Dll);
    if !ask_flag(t, Request::Exists(d3d9))? {
        return Some(Ok(tell("DXVK uninstall", true, "nothing to remove")));
    }
    let restored = match restore_backup(t, d3d9)? {
        Ok(restored) => restored,
        Err(e) => {
            return Some(Err(e));
        },
    };
    if !restored {
        if let Err(e) = ask_done(t, Request::Remove(d3d9))? {
            return Some(Err(join("remove d3d9: ", &e)));
        }
    }
    Some(Ok(tell("DXVK uninstall", true, "d3d9.dll restored/removed")))
}

/// Takes the DXVK library away, in favour of the library that was there before.
pub fn uninstall_dxvk(replies: &Vec<Reply>) -> (r: Step<Request, Result<StepResult, String>>)
    ensures
        meets(r, |v: Result<StepResult, String>| step_view(v), uninstall_dxvk_talk(), replies@),
{
    let mut t = Tape::new(replies);
    let r = do_uninstall_dxvk(&mut t);
    t.finish(r)
}

/// Whether the game loads the DXVK library: one with more than three million bytes.
pub open spec fn check_dxvk_installed_talk() -> Talk<bool> {
    then_do(
        size_of(RequestView::Size(d3d9())),
        |r: Result<u64, Text>| Dialogue::End(r matches Ok(n) && n > 3_000_000),
    )
}

fn do_check_dxvk_installed(t: &mut Replies) -> (r: Option<bool>)
    requires
        old(t).wf(),
    ensures
        final(t).reached(old(t), check_dxvk_installed_talk(), r),
{
    broadcast use lemma_follow_then;

    match ask_size(t, Request::Size(at(Place::D3d9Dll)))? {
        Ok(n) => Some(n > 3_000_000),
        Err(_) => Some(false),
    }
}

/// Tells whether the game loads the DXVK library.
pub fn check_dxvk_installed(replies: &Vec<Reply>) -> (r: Step<Request, bool>)
    ensures
        meets(r, |b: bool| b, check_dxvk_installed_talk(), replies@),
{
    let mut t = Tape::new(replies);
    let r = do_check_dxvk_installed(&mut t);
    t.finish(r)
}

/// A number to set in the registry.
pub struct RegValue {
    pub key: &'static str,
    pub name: &'static str,
    pub data: &'static str,
}

/// [`RegValue`] in the model.
pub struct RegView {
    pub key: Text,
    pub name: Text,
    pub data: Text,
}

impl View for RegValue {
    type V = RegView;

    open spec fn view(&self) -> RegView {
        RegView { key: self.key@, name: self.name@, data: self.data@ }
    }
}

impl RegView {
    /// What to tell the registry tool.
    pub open spec fn add_args(self) -> Seq<Text> {
        seq![
            "add"@,
            self.key,
            "/v"@,
            self.name,
            "/t"@,
            "REG_DWORD"@,
            "/d"@,
            self.data,
            "/f"@,
        ]
    }

    /// How the value is called in messages: with its key, or without.
    pub open spec fn label(self, with_key: bool) -> Text {
        if with_key {
            self.key + "\\"@ + self.name
        } else {
            self.name
        }
    }

    /// What went wrong when the value was set, if anything did.
    pub open spec fn failure(self, with_key: bool, r: Result<OutputView, Text>) -> Option<Text> {
        match r {
            Ok(o) => if o.success {
                None
            } else {
                Some(self.label(with_key) + ": "@ + trimmed(utf8_text(o.stderr)))
            },
            Err(e) => Some(self.label(with_key) + ": "@ + e),
        }
    }
}

/// `words` as strings.
fn owned(words: &[&str]) -> (r: Vec<String>)
    ensures
        strings(r@) == words@.map_values(|w: &str| w@),
{
    let mut r: Vec<String> = Vec::new();
    let n: usize = words.len();
    for i in 0..n
        invariant
            n == words@.len(),
            strings(r@) == words@.map_values(|w: &str| w@).take(i as int),
    {
        let ghost before = r@;
        r.push(words[i].to_owned());
        assert(strings(r@) =~= strings(before).push(words@[i as int]@));
        assert(words@.map_values(|w: &str| w@).take(i + 1) =~= words@.map_values(|w: &str| w@).take(
            i as int,
        ).push(words@[i as int]@));
    }
    assert(words@.map_values(|w: &str| w@).take(n as int) =~= words@.map_values(|w: &str| w@));
    r
}

impl RegValue {
    /// What to tell the registry tool.
    fn add_request(&self) -> (q: Request)
        ensures
            q@ == RequestView::Registry(self@.add_args()),
    {
        let words: [&str; 9] = [
            "add",
            self.key,
            "/v",
            self.name,
            "/t",
            "REG_DWORD",
            "/d",
            self.data,
            "/f",
        ];
        assert(words@.map_values(|w: &str| w@) =~= self@.add_args());
        Request::Registry(owned(&words))
    }

    /// How the value is called in messages.
    fn label(&self, with_key: bool) -> (s: String)
        ensures
            s@ == self@.label(with_key),
    {
        if with_key {
            let mut s = join(self.key, "\\");
            s.append(self.name);
            s
        } else {
            self.name.to_owned()
        }
    }
}

/// Sets the values from index `i` on, one after the other, and gathers what goes
/// wrong behind what has before.
pub open spec fn set_values_talk(values: Seq<RegView>, with_key: bool, i: int, errors: Seq<Text>) -> Talk<
    Seq<Text>,
>
    decreases values.len() - i,
{
    if i < 0 || i >= values.len() {
        Dialogue::End(errors)
    } else {
        then_do(
            output_of(RequestView::Registry(values[i].add_args())),
            |r: Result<OutputView, Text>|
                set_values_talk(
                    values,
                    with_key,
                    i + 1,
                    match values[i].failure(with_key, r) {
                        Some(e) => errors.push(e),
                        None => errors,
                    },
                ),
        )
    }
}

/// The model of a list of values.
pub open spec fn reg_views(values: Seq<RegValue>) -> Seq<RegView> {
    values.map_values(|v: RegValue| v@)
}

fn set_values(t: &mut Replies, values: &Vec<RegValue>, with_key: bool) -> (r: Option<Vec<String>>)
    requires
        old(t).wf(),
    ensures
        final(t).reached(
            old(t),
            set_values_talk(reg_views(values@), with_key, 0, Seq::empty()),
            opt(r, |v: Vec<String>| strings(v@)),
        ),
{
    broadcast use lemma_follow_then;

    let mut errors: Vec<String> = Vec::new();
    let ghost views = reg_views(values@);
    let ghost all = set_values_talk(views, with_key, 0, Seq::empty());
    let ghost replies = old(t).replies();
    let ghost start = old(t).at();
    let n: usize = values.len();
    assert(strings(errors@) =~= Seq::<Text>::empty());
    for i in 0..n
        invariant
            n == values@.len(),
            views == reg_views(values@),
            all == set_values_talk(views, with_key, 0, Seq::empty()),
            t.wf(),
            t.replies() == replies,
            old(t).replies() == replies,
            start == old(t).at(),
            follow(all, replies, start) == follow(
                set_values_talk(views, with_key, i as int, strings(errors@)),
                replies,
                t.at(),
            ),
    {
        broadcast use lemma_follow_then;

        let value = &values[i];
        let ghost before = errors@;
        match ask_output(t, value.add_request())? {
            Ok(o) => {
                if !o.success {
                    let mut message = value.label(with_key);
                    message.append(": ");
                    message.append(&string_of(&trim(&chars_of(&from_utf8_lossy(o.stderr)))));
                    errors.push(message);
                    assert(strings(errors@) =~= strings(before).push(message@));
                }
            },
            Err(e) => {
                let mut message = value.label(with_key);
                message.append(": ");
                message.append(&e);
                errors.push(message);
                assert(strings(errors@) =~= strings(before).push(message@));
            },
        }
    }
    Some(errors)
}

/// Texts, one after the other, with `" | "` between each two.
pub open spec fn barred(texts: Seq<Text>) -> Text
    decreases texts.len(),
{
    if texts.len() == 0 {
        Seq::empty()
    } else if texts.len() == 1 {
        texts[0]
    } else {
        barred(texts.drop_last()) + " | "@ + texts.last()
    }
}

/// Puts texts one after the other, with `" | "` between each two.
fn join_barred(texts: &Vec<String>) -> (s: String)
    ensures
        s@ == barred(strings(texts@)),
{
    let ghost all = strings(texts@);
    let n: usize = texts.len();
    let mut s = "".to_owned();
    proof {
        reveal_strlit("");
    }
    assert(s@ =~= barred(all.take(0)));
    for i in 0..n
        invariant
            n == texts@.len(),
            all == strings(texts@),
            s@ == barred(all.take(i as int)),
            i == 0 ==> s@.len() == 0,
    {
        let ghost before = s@;
        if i > 0 {
            s.append(" | ");
        }
        s.append(&texts[i]);
        assert(all.take(i + 1).drop_last() =~= all.take(i as int));
        assert(all.take(i + 1).last() == all[i as int]);
        if i == 0 {
            assert(s@ =~= all[0]);
        }
    }
    assert(all.take(n as int) =~= all);
    s
}

/// What is told of values that were set.
pub open spec fn set_report(name: Text, errors: Seq<Text>, fine: Text) -> StepView {
    if errors.len() == 0 {
        told(name, true, fine)
    } else {
        told(name, false, dec(errors.len()) + " key(s) failed (admin?): "@ + barred(errors))
    }
}

/// Tells of values that were set.
fn report_set(name: &str, errors: &Vec<String>, fine: &str) -> (r: StepResult)
    ensures
        r@ == set_report(name@, strings(errors@), fine@),
{
    if errors.len() == 0 {
        tell(name, true, fine)
    } else {
        let mut detail = join(&decimal(errors.len() as u64), " key(s) failed (admin?): ");
        detail.append(&join_barred(errors));
        tell(name, false, &detail)
    }
}

/// The value by which Windows gives the game a heap that fragments less.
pub open spec fn lfh_value() -> RegView {
    RegView {
        key: "HKLM\\SOFTWARE\\Microsoft\\Windows NT\\CurrentVersion\\Image File Execution Options\\TERA.exe"@,
        name: "FrontEndHeapDebugOptions"@,
        data: "8"@,
    }
}

/// Has Windows give the game a heap that fragments less.
pub open spec fn enable_lfh_talk(windows: bool) -> Talk<Result<StepView, Text>> {
    if windows {
        then_do(
            output_of(RequestView::Registry(lfh_value().add_args())),
            |r: Result<OutputView, Text>|
                Dialogue::End(
                    match r {
                        Err(e) => Err("reg.exe: "@ + e),
                        Ok(o) => Ok(
                            if o.success {
                                told("LFH enable"@, true, "registry key set"@)
                            } else {
                                told(
                                    "LFH enable"@,
                                    false,
                                    "reg.exe failed (admin required?): "@ + trimmed(utf8_text(o.stderr)),
                                )
                            },
                        ),
                    },
                ),
        )
    } else {
        Dialogue::End(Ok(told("LFH enable"@, false, "Windows only"@)))
    }
}

fn do_enable_lfh(t: &mut Replies, windows: bool) -> (r: Option<Result<StepResult, String>>)
    requires
        old(t).wf(),
    ensures
        final(t).reached(old(t), enable_lfh_talk(windows), opt(r, |v| step_view(v))),
{
    broadcast use lemma_follow_then;

    if !windows {
        return Some(Ok(tell("LFH enable", false, "Windows only")));
    }
    let value = RegValue {
        key: "HKLM\\SOFTWARE\\Microsoft\\Windows NT\\CurrentVersion\\Image File Execution Options\\TERA.exe",
        name: "FrontEndHeapDebugOptions",
        data: "8",
    };
    match ask_output(t, value.add_request())? {
        Err(e) => Some(Err(join("reg.exe: ", &e))),
        Ok(o) => if o.success {
            Some(Ok(tell("LFH enable", true, "registry key set")))
        } else {
            let cause = string_of(&trim(&chars_of(&from_utf8_lossy(o.stderr))));
            Some(Ok(tell("LFH enable", false, &join("reg.exe failed (admin required?): ", &cause))))
        },
    }
}

/// Has Windows give the game a heap that fragments less. It takes an administrator.
pub fn enable_lfh(windows: bool, replies: &Vec<Reply>) -> (r: Step<Request, Result<StepResult, String>>)
    ensures
        meets(r, |v: Result<StepResult, String>| step_view(v), enable_lfh_talk(windows), replies@),
{
    let mut t = Tape::new(replies);
    let r = do_enable_lfh(&mut t, windows);
    t.finish(r)
}

/// What to tell the registry tool to have it show a value.
pub open spec fn query_args(key: Text, name: Text) -> Seq<Text> {
    seq!["query"@, key, "/v"@, name]
}

/// Whether what the registry tool shows of a value holds both texts.
pub open spec fn query_talk(windows: bool, key: Text, name: Text, a: Text, b: Text) -> Talk<bool> {
    if windows {
        then_do(
            output_of(RequestView::Registry(query_args(key, name))),
            |r: Result<OutputView, Text>|
                Dialogue::End(
                    match r {
                        Ok(o) => holds(utf8_text(o.stdout), a) && holds(utf8_text(o.stdout), b),
                        Err(_) => false,
                    },
                ),
        )
    } else {
        Dialogue::End(false)
    }
}

fn query(t: &mut Replies, windows: bool, key: &str, name: &str, a: &str, b: &str) -> (r: Option<bool>)
    requires
        old(t).wf(),
    ensures
        final(t).reached(old(t), query_talk(windows, key@, name@, a@, b@), r),
{
    broadcast use lemma_follow_then;

    if !windows {
        return Some(false);
    }
    let words: [&str; 4] = ["query", key, "/v", name];
    assert(words@.map_values(|w: &str| w@) =~= query_args(key@, name@));
    match ask_output(t, Request::Registry(owned(&words)))? {
        Ok(o) => {
            let shown = chars_of(&from_utf8_lossy(o.stdout));
            Some(has(&shown, &chars_of(a)) && has(&shown, &chars_of(b)))
        },
        Err(_) => Some(false),
    }
}

/// Whether Windows gives the game a heap that fragments less.
pub open spec fn check_lfh_enabled_talk(windows: bool) -> Talk<bool> {
    query_talk(windows, lfh_value().key, lfh_value().name, "FrontEndHeapDebugOptions"@, "0x8"@)
}

fn do_check_lfh_enabled(t: &mut Replies, windows: bool) -> (r: Option<bool>)
    requires
        old(t).wf(),
    ensures
        final(t).reached(old(t), check_lfh_enabled_talk(windows), r),
{
    query(
        t,
        windows,
        "HKLM\\SOFTWARE\\Microsoft\\Windows NT\\CurrentVersion\\Image File Execution Options\\TERA.exe",
        "FrontEndHeapDebugOptions",
        "FrontEndHeapDebugOptions",
        "0x8",
    )
}

/// Tells whether Windows gives the game a heap that fragments less.
pub fn check_lfh_enabled(windows: bool, replies: &Vec<Reply>) -> (r: Step<Request, bool>)
    ensures
        meets(r, |b: bool| b, check_lfh_enabled_talk(windows), replies@),
{
    let mut t = Tape::new(replies);
    let r = do_check_lfh_enabled(&mut t, windows);
    t.finish(r)
}

/// Whether the engine's settings file can be read and holds both texts.
pub open spec fn settings_hold_talk(a: Text, b: Text) -> Talk<bool> {
    then_do(
        flag_of(RequestView::Exists(s1_ini())),
        |there: bool|
            if there {
                then_do(
                    bytes_of(RequestView::Read(s1_ini())),
                    |r: Result<Seq<u8>, Text>|
                        Dialogue::End(
                            match r {
                                Ok(bytes) => file_text(bytes) matches Ok(c) && holds(c.0, a) && holds(c.0, b),
                                Err(_) => false,
                            },
                        ),
                )
            } else {
                Dialogue::End(false)
            },
    )
}

fn settings_hold(t: &mut Replies, a: &str, b: &str) -> (r: Option<bool>)
    requires
        old(t).wf(),
    ensures
        final(t).reached(old(t), settings_hold_talk(a@, b@), r),
{
    broadcast use lemma_follow_then;

    let ini = at(Place::S1EngineIni);
    if !ask_flag(t, Request::Exists(ini))? {
        return Some(false);
    }
    match ask_bytes(t, Request::Read(ini))? {
        Ok(bytes) => match read_text(bytes) {
            Ok((s, _)) => Some(has(&s, &chars_of(a)) && has(&s, &chars_of(b))),
            Err(_) => Some(false),
        },
        Err(_) => Some(false),
    }
}

/// Whether the expensive settings are taken out of the engine's settings file.
pub open spec fn check_ini_patched_talk() -> Talk<bool> {
    settings_hold_talk("OneFrameThreadLag=True"@, "MotionBlur=False"@)
}

fn do_check_ini_patched(t: &mut Replies) -> (r: Option<bool>)
    requires
        old(t).wf(),
    ensures
        final(t).reached(old(t), check_ini_patched_talk(), r),
{
    settings_hold(t, "OneFrameThreadLag=True", "MotionBlur=False")
}

/// Tells whether the expensive settings are taken out of the engine's settings file.
pub fn check_ini_patched(replies: &Vec<Reply>) -> (r: Step<Request, bool>)
    ensures
        meets(r, |b: bool| b, check_ini_patched_talk(), replies@),
{
    let mut t = Tape::new(replies);
    let r = do_check_ini_patched(&mut t);
    t.finish(r)
}

/// Whether the further settings are taken out of the engine's settings file.
pub open spec fn check_ini_aggressive_talk() -> Talk<bool> {
    settings_hold_talk("DynamicShadows=False"@, "SkeletalMeshLODBias=2"@)
}

fn do_check_ini_aggressive(t: &mut Replies) -> (r: Option<bool>)
    requires
        old(t).wf(),
    ensures
        final(t).reached(old(t), check_ini_aggressive_talk(), r),
{
    settings_hold(t, "DynamicShadows=False", "SkeletalMeshLODBias=2")
}

/// Tells whether the further settings are taken out of the engine's settings file.
pub fn check_ini_aggressive(replies: &Vec<Reply>) -> (r: Step<Request, bool>)
    ensures
        meets(r, |b: bool| b, check_ini_aggressive_talk(), replies@),
{
    let mut t = Tape::new(replies);
    let r = do_check_ini_aggressive(&mut t);
    t.finish(r)
}

/// The values that turn the recording of games by Windows off.
pub open spec fn game_bar_off_values() -> Seq<RegView> {
    seq![
        RegView {
            key: "HKCU\\SOFTWARE\\Microsoft\\GameBar"@,
            name: "AllowAutoGameMode"@,
            data: "0"@,
        },
        RegView {
            key: "HKCU\\SOFTWARE\\Microsoft\\GameBar"@,
            name: "AutoGameModeEnabled"@,
            data: "0"@,
        },
        RegView {
            key: "HKCU\\System\\GameConfigStore"@,
            name: "GameDVR_Enabled"@,
            data: "0"@,
        },
        RegView {
            key: "HKLM\\SOFTWARE\\Policies\\Microsoft\\Windows\\GameDVR"@,
            name: "AllowGameDVR"@,
            data: "0"@,
        },
        RegView {
            key: "HKLM\\SOFTWARE\\Microsoft\\PolicyManager\\default\\ApplicationManagement\\AllowGameDVR"@,
            name: "value"@,
            data: "0"@,
        },
    ]
}

/// The values that turn the recording of games by Windows off.
fn game_bar_off() -> (r: Vec<RegValue>)
    ensures
        reg_views(r@) == game_bar_off_values(),
{
    let r = vec![
        RegValue {
            key: "HKCU\\SOFTWARE\\Microsoft\\GameBar",
            name: "AllowAutoGameMode",
            data: "0",
        },
        RegValue {
            key: "HKCU\\SOFTWARE\\Microsoft\\GameBar",
            name: "AutoGameModeEnabled",
            data: "0",
        },
        RegValue {
            key: "HKCU\\System\\GameConfigStore",
            name: "GameDVR_Enabled",
            data: "0",
        },
        RegValue {
            key: "HKLM\\SOFTWARE\\Policies\\Microsoft\\Windows\\GameDVR",
            name: "AllowGameDVR",
            data: "0",
        },
        RegValue {
            key: "HKLM\\SOFTWARE\\Microsoft\\PolicyManager\\default\\ApplicationManagement\\AllowGameDVR",
            name: "value",
            data: "0",
        },
    ];
    assert(reg_views(r@) =~= game_bar_off_values());
    r
}

/// The values that turn the recording of games by Windows on.
pub open spec fn game_bar_on_values() -> Seq<RegView> {
    seq![
        RegView {
            key: "HKCU\\SOFTWARE\\Microsoft\\GameBar"@,
            name: "AllowAutoGameMode"@,
            data: "1"@,
        },
        RegView {
            key: "HKCU\\SOFTWARE\\Microsoft\\GameBar"@,
            name: "AutoGameModeEnabled"@,
            data: "1"@,
        },
        RegView {
            key: "HKCU\\System\\GameConfigStore"@,
            name: "GameDVR_Enabled"@,
            data: "1"@,
        },
    ]
}

/// The values that turn the recording of games by Windows on.
fn game_bar_on() -> (r: Vec<RegValue>)
    ensures
        reg_views(r@) == game_bar_on_values(),
{
    let r = vec![
        RegValue {
            key: "HKCU\\SOFTWARE\\Microsoft\\GameBar",
            name: "AllowAutoGameMode",
            data: "1",
        },
        RegValue {
            key: "HKCU\\SOFTWARE\\Microsoft\\GameBar",
            name: "AutoGameModeEnabled",
            data: "1",
        },
        RegValue {
            key: "HKCU\\System\\GameConfigStore",
            name: "GameDVR_Enabled",
            data: "1",
        },
    ];
    assert(reg_views(r@) =~= game_bar_on_values());
    r
}

/// The values by which the NVIDIA driver favours speed.
pub open spec fn nvidia_values() -> Seq<RegView> {
    seq![
        RegView {
            key: "HKCU\\Software\\NVIDIA Corporation\\Global\\NVTweak"@,
            name: "PowerMizerLevelAC"@,
            data: "1"@,
        },
        RegView {
            key: "HKCU\\Software\\NVIDIA Corporation\\Global\\FTS"@,
            name: "EnableRID66610"@,
            data: "1"@,
        },
        RegView {
            key: "HKLM\\SYSTEM\\CurrentControlSet\\Services\\nvlddmkm\\Global\\Startup"@,
            name: "DisableShaderDiskCache"@,
            data: "0"@,
        },
    ]
}

/// The values by which the NVIDIA driver favours speed.
fn nvidia() -> (r: Vec<RegValue>)
    ensures
        reg_views(r@) == nvidia_values(),
{
    let r = vec![
        RegValue {
            key: "HKCU\\Software\\NVIDIA Corporation\\Global\\NVTweak",
            name: "PowerMizerLevelAC",
            data: "1",
        },
        RegValue {
            key: "HKCU\\Software\\NVIDIA Corporation\\Global\\FTS",
            name: "EnableRID66610",
            data: "1",
        },
        RegValue {
            key: "HKLM\\SYSTEM\\CurrentControlSet\\Services\\nvlddmkm\\Global\\Startup",
            name: "DisableShaderDiskCache",
            data: "0",
        },
    ];
    assert(reg_views(r@) =~= nvidia_values());
    r
}

/// Turns the recording of games by Windows off.
pub open spec fn disable_game_bar_talk(windows: bool) -> Talk<Result<StepView, Text>> {
    if windows {
        then_do(
            set_values_talk(game_bar_off_values(), true, 0, Seq::empty()),
            |errors: Seq<Text>|
                Dialogue::End(
                    Ok(
                        set_report(
                            "Game Bar disable"@,
                            errors,
                            "all keys set"@,
                        ),
                    ),
                ),
        )
    } else {
        Dialogue::End(Ok(told("Game Bar disable"@, false, "Windows only"@)))
    }
}

fn do_disable_game_bar(t: &mut Replies, windows: bool) -> (r: Option<Result<StepResult, String>>)
    requires
        old(t).wf(),
    ensures
        final(t).reached(old(t), disable_game_bar_talk(windows), opt(r, |v| step_view(v))),
{
    broadcast use lemma_follow_then;

    if !windows {
        return Some(Ok(tell("Game Bar disable", false, "Windows only")));
    }
    let errors = set_values(t, &game_bar_off(), true)?;
    Some(
        Ok(
            report_set(
                "Game Bar disable",
                &errors,
                "all keys set",
            ),
        ),
    )
}

/// Turns the recording of games by Windows off.
pub fn disable_game_bar(windows: bool, replies: &Vec<Reply>) -> (r: Step<Request, Result<StepResult, String>>)
    ensures
        meets(r, |v: Result<StepResult, String>| step_view(v), disable_game_bar_talk(windows), replies@),
{
    let mut t = Tape::new(replies);
    let r = do_disable_game_bar(&mut t, windows);
    t.finish(r)
}

/// Turns the recording of games by Windows on again, as far as that succeeds.
pub open spec fn enable_game_bar_talk(windows: bool) -> Talk<Result<StepView, Text>> {
    if windows {
        then_do(
            set_values_talk(game_bar_on_values(), true, 0, Seq::empty()),
            |errors: Seq<Text>| Dialogue::End(Ok(told("Game Bar revert"@, true, "defaults restored"@))),
        )
    } else {
        Dialogue::End(Ok(told("Game Bar revert"@, false, "Windows only"@)))
    }
}

fn do_enable_game_bar(t: &mut Replies, windows: bool) -> (r: Option<Result<StepResult, String>>)
    requires
        old(t).wf(),
    ensures
        final(t).reached(old(t), enable_game_bar_talk(windows), opt(r, |v| step_view(v))),
{
    broadcast use lemma_follow_then;

    if !windows {
        return Some(Ok(tell("Game Bar revert", false, "Windows only")));
    }
    set_values(t, &game_bar_on(), true)?;
    Some(Ok(tell("Game Bar revert", true, "defaults restored")))
}

/// Turns the recording of games by Windows on again, as far as that succeeds.
pub fn enable_game_bar(windows: bool, replies: &Vec<Reply>) -> (r: Step<Request, Result<StepResult, String>>)
    ensures
        meets(r, |v: Result<StepResult, String>| step_view(v), enable_game_bar_talk(windows), replies@),
{
    let mut t = Tape::new(replies);
    let r = do_enable_game_bar(&mut t, windows);
    t.finish(r)
}

/// Whether the recording of games by Windows is off.
pub open spec fn check_game_bar_disabled_talk(windows: bool) -> Talk<bool> {
    query_talk(windows, "HKCU\\System\\GameConfigStore"@, "GameDVR_Enabled"@, "0x0"@, "0x0"@)
}

fn do_check_game_bar_disabled(t: &mut Replies, windows: bool) -> (r: Option<bool>)
    requires
        old(t).wf(),
    ensures
        final(t).reached(old(t), check_game_bar_disabled_talk(windows), r),
{
    query(t, windows, "HKCU\\System\\GameConfigStore", "GameDVR_Enabled", "0x0", "0x0")
}

/// Tells whether the recording of games by Windows is off.
pub fn check_game_bar_disabled(windows: bool, replies: &Vec<Reply>) -> (r: Step<Request, bool>)
    ensures
        meets(r, |b: bool| b, check_game_bar_disabled_talk(windows), replies@),
{
    let mut t = Tape::new(replies);
    let r = do_check_game_bar_disabled(&mut t, windows);
    t.finish(r)
}

/// Has the NVIDIA driver favour speed.
pub open spec fn apply_nvidia_tweaks_talk(windows: bool) -> Talk<Result<StepView, Text>> {
    if windows {
        then_do(
            set_values_talk(nvidia_values(), false, 0, Seq::empty()),
            |errors: Seq<Text>|
                Dialogue::End(
                    Ok(
                        set_report(
                            "NVIDIA tweaks"@,
                            errors,
                            "registry hints applied — for full effect use NVIDIA Control Panel per-app or Inspector"@,
                        ),
                    ),
                ),
        )
    } else {
        Dialogue::End(Ok(told("NVIDIA tweaks"@, false, "Windows only"@)))
    }
}

fn do_apply_nvidia_tweaks(t: &mut Replies, windows: bool) -> (r: Option<Result<StepResult, String>>)
    requires
        old(t).wf(),
    ensures
        final(t).reached(old(t), apply_nvidia_tweaks_talk(windows), opt(r, |v| step_view(v))),
{
    broadcast use lemma_follow_then;

    if !windows {
        return Some(Ok(tell("NVIDIA tweaks", false, "Windows only")));
    }
    let errors = set_values(t, &nvidia(), false)?;
    Some(
        Ok(
            report_set(
                "NVIDIA tweaks",
                &errors,
                "registry hints applied — for full effect use NVIDIA Control Panel per-app or Inspector",
            ),
        ),
    )
}

/// Has the NVIDIA driver favour speed.
pub fn apply_nvidia_tweaks(windows: bool, replies: &Vec<Reply>) -> (r: Step<Request, Result<StepResult, String>>)
    ensures
        meets(r, |v: Result<StepResult, String>| step_view(v), apply_nvidia_tweaks_talk(windows), replies@),
{
    let mut t = Tape::new(replies);
    let r = do_apply_nvidia_tweaks(&mut t, windows);
    t.finish(r)
}

/// Whether the NVIDIA driver was told to favour speed.
pub open spec fn check_nvidia_tweaks_talk(windows: bool) -> Talk<bool> {
    query_talk(
        windows,
        "HKCU\\Software\\NVIDIA Corporation\\Global\\NVTweak"@,
        "PowerMizerLevelAC"@,
        "PowerMizerLevelAC"@,
        "PowerMizerLevelAC"@,
    )
}

fn do_check_nvidia_tweaks(t: &mut Replies, windows: bool) -> (r: Option<bool>)
    requires
        old(t).wf(),
    ensures
        final(t).reached(old(t), check_nvidia_tweaks_talk(windows), r),
{
    query(
        t,
        windows,
        "HKCU\\Software\\NVIDIA Corporation\\Global\\NVTweak",
        "PowerMizerLevelAC",
        "PowerMizerLevelAC",
        "PowerMizerLevelAC",
    )
}

/// Tells whether the NVIDIA driver was told to favour speed.
pub fn check_nvidia_tweaks(windows: bool, replies: &Vec<Reply>) -> (r: Step<Request, bool>)
    ensures
        meets(r, |b: bool| b, check_nvidia_tweaks_talk(windows), replies@),
{
    let mut t = Tape::new(replies);
    let r = do_check_nvidia_tweaks(&mut t, windows);
    t.finish(r)
}

/// Which of the settings are made.
pub struct OptimizationStatus {
    pub ini_patched: bool,
    pub ini_aggressive: bool,
    pub laa_patched: bool,
    pub dxvk_installed: bool,
    pub lfh_enabled: bool,
    pub game_bar_disabled: bool,
    pub nvidia_tweaks_applied: bool,
}

/// Which of the settings are made.
pub open spec fn get_status_talk(windows: bool) -> Talk<OptimizationStatus> {
    then_do(
        check_ini_patched_talk(),
        |ini_patched: bool|
            then_do(
                check_ini_aggressive_talk(),
                |ini_aggressive: bool|
                    then_do(
                        check_exe_laa_talk(),
                        |laa: Result<bool, Text>|
                            then_do(
                                check_dxvk_installed_talk(),
                                |dxvk_installed: bool|
                                    then_do(
                                        check_lfh_enabled_talk(windows),
                                        |lfh_enabled: bool|
                                            then_do(
                                                check_game_bar_disabled_talk(windows),
                                                |game_bar_disabled: bool|
                                                    then_do(
                                                        check_nvidia_tweaks_talk(windows),
                                                        |nvidia_tweaks_applied: bool|
                                                            Dialogue::End(
                                                                OptimizationStatus {
                                                                    ini_patched,
                                                                    ini_aggressive,
                                                                    laa_patched: laa == Ok::<bool, Text>(true),
                                                                    dxvk_installed,
                                                                    lfh_enabled,
                                                                    game_bar_disabled,
                                                                    nvidia_tweaks_applied,
                                                                },
                                                            ),
                                                    ),
                                            ),
                                    ),
                            ),
                    ),
            ),
    )
}

fn do_get_status(t: &mut Replies, windows: bool) -> (r: Option<OptimizationStatus>)
    requires
        old(t).wf(),
    ensures
        final(t).reached(old(t), get_status_talk(windows), r),
{
    broadcast use lemma_follow_then;

    let ini_patched = do_check_ini_patched(t)?;
    let ini_aggressive = do_check_ini_aggressive(t)?;
    let laa_patched = match do_check_exe_laa(t)? {
        Ok(b) => b,
        Err(_) => false,
    };
    let dxvk_installed = do_check_dxvk_installed(t)?;
    let lfh_enabled = do_check_lfh_enabled(t, windows)?;
    let game_bar_disabled = do_check_game_bar_disabled(t, windows)?;
    let nvidia_tweaks_applied = do_check_nvidia_tweaks(t, windows)?;
    Some(
        OptimizationStatus {
            ini_patched,
            ini_aggressive,
            laa_patched,
            dxvk_installed,
            lfh_enabled,
            game_bar_disabled,
            nvidia_tweaks_applied,
        },
    )
}

/// Tells which of the settings are made.
pub fn get_status(windows: bool, replies: &Vec<Reply>) -> (r: Step<Request, OptimizationStatus>)
    ensures
        meets(r, |v: OptimizationStatus| v, get_status_talk(windows), replies@),
{
    let mut t = Tape::new(replies);
    let r = do_get_status(&mut t, windows);
    t.finish(r)
}

/// How far to go.
#[derive(Clone, Copy, PartialEq, Eq, Structural)]
pub enum Profile {
    /// The settings files alone.
    Safe,
    /// The settings files, large addresses and the heap.
    Balanced,
    /// The settings files, large addresses, the heap and DXVK.
    Maximum,
    /// All of these, the further settings, no recording of games, and the driver.
    Ultra,
}

/// What became of several steps. It is a success where every step is.
pub struct OptimizationReport {
    pub success: bool,
    pub steps: Vec<StepResult>,
}

/// [`OptimizationReport`] in the model.
pub struct ReportView {
    pub success: bool,
    pub steps: Seq<StepView>,
}

/// The model of a list of steps.
pub open spec fn step_views(steps: Seq<StepResult>) -> Seq<StepView> {
    steps.map_values(|s: StepResult| s@)
}

impl View for OptimizationReport {
    type V = ReportView;

    open spec fn view(&self) -> ReportView {
        ReportView { success: self.success, steps: step_views(self.steps@) }
    }
}

/// The report on some steps.
pub open spec fn report(steps: Seq<StepView>) -> ReportView {
    ReportView {
        success: forall|i: int| 0 <= i < steps.len() ==> (#[trigger] steps[i]).ok,
        steps,
    }
}

/// Reports on some steps.
fn report_on(steps: Vec<StepResult>) -> (r: OptimizationReport)
    ensures
        r@ == report(step_views(steps@)),
{
    let n: usize = steps.len();
    let mut success = true;
    for i in 0..n
        invariant
            n == steps@.len(),
            success == (forall|k: int| 0 <= k < i ==> (#[trigger] step_views(steps@)[k]).ok),
    {
        assert(step_views(steps@)[i as int].ok == steps@[i as int].ok);
        success = success && steps[i].ok;
    }
    OptimizationReport { success, steps }
}

/// A step as it stands in a report: one that failed under its name, with the
/// cause.
pub open spec fn entered(r: Result<StepView, Text>, name: Text) -> StepView {
    match r {
        Ok(s) => s,
        Err(e) => told(name, false, e),
    }
}

/// Puts a step behind others.
fn enter(steps: &mut Vec<StepResult>, r: Result<StepResult, String>, name: &str)
    ensures
        step_views(final(steps)@) == step_views(old(steps)@).push(entered(step_view(r), name@)),
{
    let s = match r {
        Ok(s) => s,
        Err(e) => StepResult { name: name.to_owned(), ok: false, detail: e },
    };
    steps.push(s);
    assert(step_views(steps@) =~= step_views(old(steps)@).push(s@));
}

/// Goes on with a step and puts it behind others.
pub open spec fn and_step(
    steps: Seq<StepView>,
    step: Talk<Result<StepView, Text>>,
    name: Text,
    rest: spec_fn(Seq<StepView>) -> Talk<Seq<StepView>>,
) -> Talk<Seq<StepView>> {
    then_do(step, |r: Result<StepView, Text>| rest(steps.push(entered(r, name))))
}

/// The steps that let the game use more memory.
pub open spec fn memory_talk(profile: Profile, windows: bool, steps: Seq<StepView>) -> Talk<Seq<StepView>> {
    if profile == Profile::Safe {
        Dialogue::End(steps)
    } else {
        and_step(
            steps,
            patch_exe_laa_talk(),
            "LAA patch"@,
            |s: Seq<StepView>|
                and_step(s, enable_lfh_talk(windows), "LFH enable"@, |s: Seq<StepView>| Dialogue::End(s)),
        )
    }
}

/// The step that installs DXVK, where it comes with the launcher.
pub open spec fn dxvk_talk(profile: Profile, bundled: bool, steps: Seq<StepView>) -> Talk<Seq<StepView>> {
    if profile == Profile::Safe || profile == Profile::Balanced {
        Dialogue::End(steps)
    } else if bundled {
        and_step(steps, install_dxvk_talk(), "DXVK install"@, |s: Seq<StepView>| Dialogue::End(s))
    } else {
        Dialogue::End(
            steps.push(told("DXVK install"@, false, "bundled DXVK resources not provided"@)),
        )
    }
}

/// The steps that go furthest.
pub open spec fn extras_talk(profile: Profile, windows: bool, steps: Seq<StepView>) -> Talk<Seq<StepView>> {
    if profile == Profile::Ultra {
        and_step(
            steps,
            patch_ini_aggressive_talk(),
            "INI aggressive"@,
            |s: Seq<StepView>|
                and_step(
                    s,
                    disable_game_bar_talk(windows),
                    "Game Bar disable"@,
                    |s: Seq<StepView>|
                        and_step(
                            s,
                            apply_nvidia_tweaks_talk(windows),
                            "NVIDIA tweaks"@,
                            |s: Seq<StepView>| Dialogue::End(s),
                        ),
                ),
        )
    } else {
        Dialogue::End(steps)
    }
}

/// Makes the settings of a profile, each step whatever became of those before.
/// `bundled` says whether the DXVK files come with the launcher.
pub open spec fn apply_profile_talk(profile: Profile, bundled: bool, windows: bool) -> Talk<ReportView> {
    then_do(
        and_step(
            Seq::empty(),
            patch_ini_files_talk(),
            "INI patches"@,
            |s: Seq<StepView>| memory_talk(profile, windows, s),
        ),
        |s: Seq<StepView>|
            then_do(
                dxvk_talk(profile, bundled, s),
                |s: Seq<StepView>|
                    then_do(
                        extras_talk(profile, windows, s),
                        |s: Seq<StepView>| Dialogue::End(report(s)),
                    ),
            ),
    )
}

fn add_memory(t: &mut Replies, profile: Profile, windows: bool, steps: &mut Vec<StepResult>) -> (r: Option<()>)
    requires
        old(t).wf(),
    ensures
        final(t).reached(
            old(t),
            memory_talk(profile, windows, step_views(old(steps)@)),
            opt(r, |u: ()| step_views(final(steps)@)),
        ),
{
    broadcast use lemma_follow_then;

    if profile != Profile::Safe {
        let laa = do_patch_exe_laa(t)?;
        enter(steps, laa, "LAA patch");
        let lfh = do_enable_lfh(t, windows)?;
        enter(steps, lfh, "LFH enable");
    }
    Some(())
}

fn add_dxvk(t: &mut Replies, profile: Profile, bundled: bool, steps: &mut Vec<StepResult>) -> (r: Option<()>)
    requires
        old(t).wf(),
    ensures
        final(t).reached(
            old(t),
            dxvk_talk(profile, bundled, step_views(old(steps)@)),
            opt(r, |u: ()| step_views(final(steps)@)),
        ),
{
    broadcast use lemma_follow_then;

    if profile == Profile::Maximum || profile == Profile::Ultra {
        if bundled {
            let dxvk = do_install_dxvk(t)?;
            enter(steps, dxvk, "DXVK install");
        } else {
            enter(
                steps,
                Ok(tell("DXVK install", false, "bundled DXVK resources not provided")),
                "DXVK install",
            );
        }
    }
    Some(())
}

fn add_extras(t: &mut Replies, profile: Profile, windows: bool, steps: &mut Vec<StepResult>) -> (r: Option<()>)
    requires
        old(t).wf(),
    ensures
        final(t).reached(
            old(t),
            extras_talk(profile, windows, step_views(old(steps)@)),
            opt(r, |u: ()| step_views(final(steps)@)),
        ),
{
    broadcast use lemma_follow_then;

    if profile == Profile::Ultra {
        let ini = do_patch_ini_aggressive(t)?;
        enter(steps, ini, "INI aggressive");
        let bar = do_disable_game_bar(t, windows)?;
        enter(steps, bar, "Game Bar disable");
        let nvidia = do_apply_nvidia_tweaks(t, windows)?;
        enter(steps, nvidia, "NVIDIA tweaks");
    }
    Some(())
}

fn do_apply_profile(t: &mut Replies, profile: Profile, bundled: bool, windows: bool) -> (r: Option<OptimizationReport>)
    requires
        old(t).wf(),
    ensures
        final(t).reached(old(t), apply_profile_talk(profile, bundled, windows), opt(r, |v: OptimizationReport| v@)),
{
    broadcast use lemma_follow_then;

    let mut steps: Vec<StepResult> = Vec::new();
    assert(step_views(steps@) =~= Seq::empty());
    let ini = do_patch_ini_files(t)?;
    enter(&mut steps, ini, "INI patches");
    add_memory(t, profile, windows, &mut steps)?;
    add_dxvk(t, profile, bundled, &mut steps)?;
    add_extras(t, profile, windows, &mut steps)?;
    Some(report_on(steps))
}

/// Makes the settings of a profile, each step whatever became of those before.
/// `bundled` says whether the DXVK files come with the launcher.
pub fn apply_profile(profile: Profile, bundled: bool, windows: bool, replies: &Vec<Reply>) -> (r: Step<Request, OptimizationReport>)
    ensures
        meets(r, |v: OptimizationReport| v@, apply_profile_talk(profile, bundled, windows), replies@),
{
    let mut t = Tape::new(replies);
    let r = do_apply_profile(&mut t, profile, bundled, windows);
    t.finish(r)
}

/// Undoes the settings, each step whatever became of those before.
pub open spec fn revert_all_talk(windows: bool) -> Talk<ReportView> {
    then_do(
        and_step(
            Seq::empty(),
            revert_ini_files_talk(),
            "INI revert"@,
            |s: Seq<StepView>|
                and_step(
                    s,
                    revert_exe_laa_talk(),
                    "LAA revert"@,
                    |s: Seq<StepView>|
                        and_step(
                            s,
                            uninstall_dxvk_talk(),
                            "DXVK uninstall"@,
                            |s: Seq<StepView>|
                                and_step(
                                    s,
                                    enable_game_bar_talk(windows),
                                    "Game Bar revert"@,
                                    |s: Seq<StepView>| Dialogue::End(s),
                                ),
                        ),
                ),
        ),
        |s: Seq<StepView>| Dialogue::End(report(s)),
    )
}

fn do_revert_all(t: &mut Replies, windows: bool) -> (r: Option<OptimizationReport>)
    requires
        old(t).wf(),
    ensures
        final(t).reached(old(t), revert_all_talk(windows), opt(r, |v: OptimizationReport| v@)),
{
    broadcast use lemma_follow_then;

    let mut steps: Vec<StepResult> = Vec::new();
    assert(step_views(steps@) =~= Seq::empty());
    let ini = do_revert_ini_files(t)?;
    enter(&mut steps, ini, "INI revert");
    let laa = do_revert_exe_laa(t)?;
    enter(&mut steps, laa, "LAA revert");
    let dxvk = do_uninstall_dxvk(t)?;
    enter(&mut steps, dxvk, "DXVK uninstall");
    let bar = do_enable_game_bar(t, windows)?;
    enter(&mut steps, bar, "Game Bar revert");
    Some(report_on(steps))
}

/// Undoes the settings, each step whatever became of those before.
pub fn revert_all(windows: bool, replies: &Vec<Reply>) -> (r: Step<Request, OptimizationReport>)
    ensures
        meets(r, |v: OptimizationReport| v@, revert_all_talk(windows), replies@),
{
    let mut t = Tape::new(replies);
    let r = do_revert_all(&mut t, windows);
    t.finish(r)
}

} // verus!
