//! The settings, made and undone on a machine in memory.
use teralaunch::dialogue::Step;
use teralaunch::host::{Reply, Request};
use teralaunch::ini::{apply_patches, default_engine_patches, s1_engine_aggressive, s1_engine_patches};
use teralaunch::language;
use teralaunch::optimizer::{
    apply_nvidia_tweaks, apply_profile, check_dxvk_installed, check_exe_laa, check_game_bar_disabled,
    check_ini_aggressive, check_ini_patched, check_lfh_enabled, check_nvidia_tweaks, disable_game_bar,
    enable_game_bar, enable_lfh, get_status, install_dxvk, patch_exe_laa, patch_ini_aggressive, patch_ini_files,
    revert_all, revert_exe_laa, revert_ini_files, uninstall_dxvk, Profile,
};
use teralaunch::pe::{change_string, has_laa, set_laa, Laa};
use teralaunch::place::{at, name_of_backup, path_parts, Location, Place};
use teralaunch::step::StepResult;

struct Machine {
    files: Vec<(Location, Vec<u8>)>,
    folders: Vec<Place>,
    /// What the registry tool was told.
    registry: Vec<Vec<String>>,
    /// How the registry tool ends.
    tool: Option<(bool, &'static str, &'static str)>,
    /// Requests that fail, by a word.
    broken: Vec<&'static str>,
}

impl Machine {
    fn new() -> Machine {
        Machine {
            files: vec![],
            folders: vec![Place::Binaries, Place::S1Data],
            registry: vec![],
            tool: Some((true, "", "")),
            broken: vec![],
        }
    }

    fn with(mut self, place: Place, bytes: &[u8]) -> Machine {
        self.put(at(place), bytes.to_vec());
        self
    }

    fn get(&self, l: Location) -> Option<Vec<u8>> {
        self.files.iter().find(|f| f.0 == l).map(|f| f.1.clone())
    }

    fn put(&mut self, l: Location, bytes: Vec<u8>) {
        self.files.retain(|f| f.0 != l);
        self.files.push((l, bytes));
    }

    fn path(l: Location) -> String {
        match path_parts(l) {
            Some(parts) => parts.join("/"),
            None => "bundled".to_string(),
        }
    }

    fn fails(&self, word: &str) -> bool {
        self.broken.iter().any(|w| *w == word)
    }

    fn serve(&mut self, q: Request) -> Reply {
        let failed = || Reply::Failed("broken".to_string());
        match q {
            Request::Exists(l) => Reply::Flag(self.get(l).is_some() || (!l.backup && self.folders.contains(&l.place))),
            Request::Read(l) if !self.fails("read") => match self.get(l) {
                Some(b) => Reply::Bytes(b),
                None => failed(),
            },
            Request::Write(l, b) if !self.fails("write") => {
                self.put(l, b);
                Reply::Done
            }
            Request::CopyFile(a, b) if !self.fails("copy") => match self.get(a) {
                Some(bytes) => {
                    self.put(b, bytes);
                    Reply::Done
                }
                None => failed(),
            },
            Request::Remove(l) if !self.fails("remove") => {
                self.files.retain(|f| f.0 != l);
                Reply::Done
            }
            Request::Size(l) if !self.fails("size") => match self.get(l) {
                Some(b) => Reply::Size(b.len() as u64),
                None => failed(),
            },
            Request::Quoted(l) => Reply::Text(format!("{:?}", Machine::path(l))),
            Request::Shown(l) => Reply::Text(Machine::path(l)),
            Request::Registry(args) => {
                self.registry.push(args);
                match self.tool {
                    Some((success, stdout, stderr)) => Reply::Output {
                        success,
                        stdout: stdout.as_bytes().to_vec(),
                        stderr: stderr.as_bytes().to_vec(),
                    },
                    None => failed(),
                }
            }
            _ => failed(),
        }
    }

    fn run<T>(&mut self, op: impl Fn(&Vec<Reply>) -> Step<Request, T>) -> T {
        let mut replies = Vec::new();
        loop {
            match op(&replies) {
                Step::Done(t) => return t,
                Step::Ask(q) => {
                    let reply = self.serve(q);
                    replies.push(reply);
                }
            }
        }
    }
}

fn told(r: Result<StepResult, String>) -> (String, bool, String) {
    match r {
        Ok(s) => (s.name, s.ok, s.detail),
        Err(e) => ("error".to_string(), false, e),
    }
}

fn said(name: &str, ok: bool, detail: &str) -> (String, bool, String) {
    (name.to_string(), ok, detail.to_string())
}

const S1: &str = "[Engine]\r\nbSmoothFrameRate=TRUE\r\nOneFrameThreadLag=False\r\nMotionBlur=True\r\nPoolSize=2048\r\n\
    MaxShadowResolution=2048\r\nDynamicShadows=True\r\nSkeletalMeshLODBias=0\r\n";
const DEFAULT: &str = "MaxSmoothedFrameRate=80\r\nAmbientOcclusion=True\r\n";

/// The machine has these files and no others.
fn assert_same(m: &Machine, files: &[(Location, Vec<u8>)]) {
    assert_eq!(m.files.len(), files.len());
    for (l, bytes) in files {
        assert_eq!(&m.get(*l).unwrap(), bytes);
    }
}

fn exe(characteristics: u16) -> Vec<u8> {
    let mut b = vec![0u8; 0x100];
    b[0x3C] = 0x80;
    b[0x80..0x84].copy_from_slice(b"PE\0\0");
    b[0x96..0x98].copy_from_slice(&characteristics.to_le_bytes());
    b
}

fn game() -> Machine {
    Machine::new()
        .with(Place::S1EngineIni, S1.as_bytes())
        .with(Place::DefaultEngineIni, DEFAULT.as_bytes())
        .with(Place::TeraExe, &exe(0x0102))
        .with(Place::DxvkDllSource, &vec![7; 4_500_000])
        .with(Place::DxvkConfSource, b"dxgi.maxFrameRate = 0")
}

#[test]
fn replacements_build_on_each_other() {
    let (s, n) = apply_patches(S1.chars().collect(), &s1_engine_patches());
    let s: String = s.into_iter().collect();
    assert_eq!(n, 5);
    assert!(s.contains("PoolSize=3072") && s.contains("MaxShadowResolution=1024") && s.contains("OneFrameThreadLag=True"));
    let (s, n) = apply_patches(s.chars().collect(), &s1_engine_aggressive());
    let s: String = s.into_iter().collect();
    assert_eq!(n, 4);
    assert!(s.contains("PoolSize=4096") && s.contains("MaxShadowResolution=512") && s.contains("SkeletalMeshLODBias=2"));
    assert_eq!((s1_engine_patches().len(), s1_engine_aggressive().len(), default_engine_patches().len()), (18, 22, 3));
    let (s, n) = apply_patches("nothing here".chars().collect(), &default_engine_patches());
    assert_eq!((s.into_iter().collect::<String>(), n), ("nothing here".to_string(), 0));
}

#[test]
fn settings_files_are_patched_and_restored() {
    let mut m = game();
    assert!(!m.run(check_ini_patched));
    assert_eq!(
        told(m.run(patch_ini_files)),
        said("INI patches", true, "S1Engine: 5 replacements, DefaultEngine: 2 replacements")
    );
    assert!(m.run(check_ini_patched));
    assert!(!m.run(check_ini_aggressive));
    assert_eq!(
        String::from_utf8(m.get(at(Place::DefaultEngineIni)).unwrap()).unwrap(),
        "MaxSmoothedFrameRate=300\r\nAmbientOcclusion=False\r\n"
    );
    assert_eq!(m.get(at(Place::S1EngineIni).backup()).unwrap(), S1.as_bytes());
    assert_eq!(told(m.run(patch_ini_aggressive)), said("INI aggressive", true, "4 aggressive replacements"));
    assert!(m.run(check_ini_aggressive));
    assert!(m.run(check_ini_patched));
    assert_eq!(m.get(at(Place::S1EngineIni).backup()).unwrap(), S1.as_bytes());
    assert_eq!(told(m.run(revert_ini_files)), said("INI revert", true, "2 file(s) restored from backup"));
    assert_eq!(m.get(at(Place::S1EngineIni)).unwrap(), S1.as_bytes());
    assert_eq!(m.get(at(Place::DefaultEngineIni)).unwrap(), DEFAULT.as_bytes());
    assert!(!m.run(check_ini_patched));
    let mut fresh = game();
    assert_eq!(told(fresh.run(revert_ini_files)), said("INI revert", true, "0 file(s) restored from backup"));
}

#[test]
fn settings_are_changed_once_and_reverted_as_often_as_wanted() {
    let mut m = game();
    let before = m.files.clone();
    assert!(m.run(patch_ini_files).is_ok());
    let made = m.files.clone();
    assert_eq!(
        told(m.run(patch_ini_files)),
        said("INI patches", true, "S1Engine: 0 replacements, DefaultEngine: 0 replacements")
    );
    assert_same(&m, &made);
    assert!(m.run(patch_ini_aggressive).is_ok());
    let made = m.files.clone();
    assert_eq!(told(m.run(patch_ini_aggressive)), said("INI aggressive", true, "0 aggressive replacements"));
    assert_same(&m, &made);
    for _ in 0..2 {
        assert_eq!(told(m.run(revert_ini_files)), said("INI revert", true, "2 file(s) restored from backup"));
        for (l, bytes) in &before {
            assert_eq!(&m.get(*l).unwrap(), bytes);
        }
        assert!(!m.run(check_ini_patched));
    }
}

#[test]
fn the_largest_profiles_are_undone() {
    for profile in [Profile::Maximum, Profile::Ultra] {
        for library in [None, Some(vec![9u8; 100])] {
            let mut m = game();
            if let Some(bytes) = &library {
                m = m.with(Place::D3d9Dll, bytes);
            }
            let before = m.files.clone();
            assert!(m.run(|r| apply_profile(profile, true, true, r)).success);
            assert_eq!(m.get(at(Place::D3d9Dll)).unwrap().len(), 4_500_000);
            let report = m.run(|r| revert_all(true, r));
            assert!(report.success);
            assert_eq!(m.get(at(Place::D3d9Dll)), library);
            for (l, bytes) in before {
                assert_eq!(m.get(l).unwrap(), bytes);
            }
        }
    }
}

#[test]
fn settings_that_are_not_there_are_not_found() {
    let mut m = Machine::new();
    assert!(!m.run(check_ini_patched));
    let mut m = game().with(Place::S1EngineIni, b"PoolSize=2048");
    assert!(m.run(patch_ini_files).is_ok());
    assert!(!m.run(check_ini_patched));
    let mut m = game().with(Place::S1EngineIni, b"MotionBlur=MotionBlur=TrueOneFrameThreadLag=TrueMotionBlur=True");
    assert!(m.run(patch_ini_files).is_ok());
    assert!(m.run(check_ini_patched));
}

#[test]
fn utf16_settings_stay_utf16() {
    let mut bytes = vec![0xFF, 0xFE];
    bytes.extend(S1.encode_utf16().flat_map(|u| u.to_le_bytes()));
    let mut m = game().with(Place::S1EngineIni, &bytes);
    assert!(m.run(patch_ini_files).is_ok());
    let after = m.get(at(Place::S1EngineIni)).unwrap();
    assert_eq!(&after[..2], &[0xFF, 0xFE]);
    assert!(m.run(check_ini_patched));
    m.run(revert_ini_files).ok();
    assert_eq!(m.get(at(Place::S1EngineIni)).unwrap(), bytes);
}

#[test]
fn faults_with_settings_files_are_told() {
    let error = |m: &mut Machine| told(m.run(patch_ini_files)).2;
    let mut m = Machine::new();
    assert_eq!(error(&mut m), "file not found: \"S1Game/Config/S1Engine.ini\"");
    for (word, message) in [
        ("copy", "backup: broken"),
        ("read", "read \"S1Game/Config/S1Engine.ini\": broken"),
        ("write", "write \"S1Game/Config/S1Engine.ini\": broken"),
    ] {
        let mut m = game();
        m.broken.push(word);
        assert_eq!(error(&mut m), message);
    }
    let mut m = game().with(Place::S1EngineIni, &[0xFF, 0xFE, 0x00, 0xD8]);
    assert_eq!(error(&mut m), "utf16 decode: invalid utf-16: lone surrogate found");
    assert!(!m.run(check_ini_patched));
    let mut m = game();
    m.run(patch_ini_files).ok();
    m.broken.push("copy");
    assert_eq!(told(m.run(revert_ini_files)).2, "restore: broken");
    m.broken.push("read");
    assert!(!m.run(check_ini_patched));
}

#[test]
fn the_flag_for_large_addresses() {
    assert!(!has_laa(&exe(0x0102)));
    match set_laa(&exe(0x0102)).unwrap() {
        Laa::Changed { before, after, bytes } => {
            assert_eq!((before, after), (0x0102, 0x0122));
            assert_eq!(bytes, exe(0x0122));
            assert!(has_laa(&bytes));
            assert!(matches!(set_laa(&bytes), Ok(Laa::Unchanged)));
            assert_eq!(change_string(before, after), "Characteristics 0x0102 -> 0x0122");
        }
        Laa::Unchanged => panic!("unchanged"),
    }
    let error = |b: Vec<u8>| match set_laa(&b) {
        Ok(_) => panic!("no error"),
        Err(e) => e,
    };
    assert_eq!(error(vec![0; 0x3F]), "file too small to be a PE");
    let mut far = exe(0);
    far[0x3C] = 0xE9;
    assert_eq!(error(far.clone()), "invalid PE offset");
    assert!(!has_laa(&far));
    let mut unsigned = exe(0);
    unsigned[0x80] = b'M';
    assert_eq!(error(unsigned.clone()), "PE signature not found");
    assert!(!has_laa(&unsigned));
    let mut huge = exe(0);
    huge[0x3C..0x40].copy_from_slice(&[0xFF; 4]);
    assert_eq!(error(huge), "invalid PE offset");
    let short = exe(0x20)[..0x97].to_vec();
    assert_eq!(error(short.clone()), "invalid PE offset");
    assert!(!has_laa(&short));
    assert!(has_laa(&exe(0x20)[..0x98].to_vec()));
}

#[test]
fn the_program_is_patched_and_restored() {
    let mut m = game();
    assert_eq!(m.run(check_exe_laa), Ok(false));
    assert_eq!(told(m.run(revert_exe_laa)), said("LAA revert", false, "no backup found"));
    assert_eq!(told(m.run(patch_exe_laa)), said("LAA patch", true, "Characteristics 0x0102 -> 0x0122"));
    assert_eq!(m.run(check_exe_laa), Ok(true));
    assert_eq!(told(m.run(patch_exe_laa)), said("LAA patch", true, "Already LAA-aware (no change)"));
    assert_eq!(m.get(at(Place::TeraExe)).unwrap(), exe(0x0122));
    assert_eq!(told(m.run(revert_exe_laa)), said("LAA revert", true, "exe restored"));
    assert_eq!(m.get(at(Place::TeraExe)).unwrap(), exe(0x0102));
    let mut none = Machine::new();
    assert_eq!(told(none.run(patch_exe_laa)).2, "exe not found: \"Binaries/TERA.exe\"");
    assert_eq!(none.run(check_exe_laa), Ok(false));
    for (word, message) in [("read", "read exe: broken"), ("write", "write exe: broken"), ("copy", "backup: broken")] {
        let mut m = game();
        m.broken.push(word);
        assert_eq!(told(m.run(patch_exe_laa)).2, message);
    }
    let mut m = game();
    m.broken.push("read");
    assert_eq!(m.run(check_exe_laa), Err("broken".to_string()));
}

#[test]
fn dxvk_is_installed_and_taken_away() {
    let mut m = game();
    assert!(!m.run(check_dxvk_installed));
    assert_eq!(told(m.run(install_dxvk)), said("DXVK install", true, "d3d9.dll -> \"Binaries/d3d9.dll\""));
    assert!(m.run(check_dxvk_installed));
    assert_eq!(m.get(at(Place::DxvkConf)).unwrap(), b"dxgi.maxFrameRate = 0");
    assert_eq!(told(m.run(uninstall_dxvk)), said("DXVK uninstall", true, "d3d9.dll restored/removed"));
    assert_eq!(m.get(at(Place::D3d9Dll)), None);
    assert_eq!(told(m.run(uninstall_dxvk)), said("DXVK uninstall", true, "nothing to remove"));
    let mut m = game().with(Place::D3d9Dll, b"stub").with(Place::DxvkConf, b"mine");
    m.run(install_dxvk).ok();
    assert_eq!(m.get(at(Place::D3d9Dll).backup()).unwrap(), b"stub");
    assert_eq!(m.get(at(Place::DxvkConf)).unwrap(), b"mine");
    m.run(uninstall_dxvk).ok();
    assert_eq!(m.get(at(Place::D3d9Dll)).unwrap(), b"stub");
    let mut m = game().with(Place::D3d9Dll, &vec![1; 4_000_000]);
    m.run(install_dxvk).ok();
    assert_eq!(m.get(at(Place::D3d9Dll).backup()), None);
    let mut m = game();
    m.folders.clear();
    assert_eq!(told(m.run(install_dxvk)).2, "Binaries dir not found at \"Binaries\"");
    let mut m = game();
    m.broken.push("copy");
    assert_eq!(told(m.run(install_dxvk)).2, "copy d3d9.dll: broken");
    let mut m = game().with(Place::D3d9Dll, b"stub");
    m.broken.push("size");
    assert_eq!(told(m.run(install_dxvk)).2, "broken");
    let mut m = game().with(Place::D3d9Dll, b"stub");
    m.broken.push("remove");
    assert_eq!(told(m.run(uninstall_dxvk)).2, "remove d3d9: broken");
    let mut m = game();
    m.files.retain(|f| f.0 != at(Place::DxvkConfSource));
    assert_eq!(told(m.run(install_dxvk)).2, "copy dxvk.conf: broken");
}

#[test]
fn the_registry_is_told() {
    let mut m = game();
    assert_eq!(told(m.run(|r| enable_lfh(true, r))), said("LFH enable", true, "registry key set"));
    assert_eq!(
        m.registry,
        vec![vec![
            "add",
            r"HKLM\SOFTWARE\Microsoft\Windows NT\CurrentVersion\Image File Execution Options\TERA.exe",
            "/v",
            "FrontEndHeapDebugOptions",
            "/t",
            "REG_DWORD",
            "/d",
            "8",
            "/f"
        ]]
    );
    m.tool = Some((false, "", " Access is denied.\r\n"));
    assert_eq!(
        told(m.run(|r| enable_lfh(true, r))),
        said("LFH enable", false, "reg.exe failed (admin required?): Access is denied.")
    );
    assert_eq!(
        told(m.run(|r| apply_nvidia_tweaks(true, r))),
        said(
            "NVIDIA tweaks",
            false,
            "3 key(s) failed (admin?): PowerMizerLevelAC: Access is denied. | EnableRID66610: Access is denied. | \
             DisableShaderDiskCache: Access is denied."
        )
    );
    let bar = told(m.run(|r| disable_game_bar(true, r)));
    assert!(bar.2.starts_with(
        r"5 key(s) failed (admin?): HKCU\SOFTWARE\Microsoft\GameBar\AllowAutoGameMode: Access is denied. | "
    ));
    m.tool = None;
    assert_eq!(told(m.run(|r| enable_lfh(true, r))).2, "reg.exe: broken");
    assert!(told(m.run(|r| apply_nvidia_tweaks(true, r))).2.contains("EnableRID66610: broken"));
    assert_eq!(told(m.run(|r| enable_game_bar(true, r))), said("Game Bar revert", true, "defaults restored"));
    m.tool = Some((true, "", ""));
    assert_eq!(told(m.run(|r| disable_game_bar(true, r))), said("Game Bar disable", true, "all keys set"));
    assert_eq!(
        told(m.run(|r| apply_nvidia_tweaks(true, r))).2,
        "registry hints applied — for full effect use NVIDIA Control Panel per-app or Inspector"
    );
    m.registry.clear();
    m.run(|r| enable_game_bar(true, r)).ok();
    assert_eq!(m.registry.len(), 3);
    assert_eq!(m.registry[2][1..4], [r"HKCU\System\GameConfigStore", "/v", "GameDVR_Enabled"]);
    assert_eq!(m.registry[2][7], "1");
}

#[test]
fn the_registry_is_read() {
    let mut m = game();
    m.tool = Some((true, "FrontEndHeapDebugOptions REG_DWORD 0x8", ""));
    assert!(m.run(|r| check_lfh_enabled(true, r)));
    assert!(!m.run(|r| check_game_bar_disabled(true, r)));
    assert!(!m.run(|r| check_nvidia_tweaks(true, r)));
    m.tool = Some((true, "GameDVR_Enabled REG_DWORD 0x0", ""));
    assert!(!m.run(|r| check_lfh_enabled(true, r)));
    assert!(m.run(|r| check_game_bar_disabled(true, r)));
    m.tool = Some((true, "PowerMizerLevelAC REG_DWORD 0x1", ""));
    assert!(m.run(|r| check_nvidia_tweaks(true, r)));
    m.tool = None;
    assert!(!m.run(|r| check_nvidia_tweaks(true, r)));
    assert_eq!(m.registry.last().unwrap()[0], "query");
    assert_eq!(m.registry.last().unwrap().len(), 4);
}

#[test]
fn elsewhere_there_is_no_registry() {
    let mut m = game();
    assert_eq!(told(m.run(|r| enable_lfh(false, r))), said("LFH enable", false, "Windows only"));
    assert_eq!(told(m.run(|r| disable_game_bar(false, r))), said("Game Bar disable", false, "Windows only"));
    assert_eq!(told(m.run(|r| enable_game_bar(false, r))), said("Game Bar revert", false, "Windows only"));
    assert_eq!(told(m.run(|r| apply_nvidia_tweaks(false, r))), said("NVIDIA tweaks", false, "Windows only"));
    assert!(!m.run(|r| check_lfh_enabled(false, r)));
    assert!(!m.run(|r| check_game_bar_disabled(false, r)));
    assert!(!m.run(|r| check_nvidia_tweaks(false, r)));
    assert!(m.registry.is_empty());
}

#[test]
fn profiles_take_their_steps() {
    for (profile, names) in [
        (Profile::Safe, vec!["INI patches"]),
        (Profile::Balanced, vec!["INI patches", "LAA patch", "LFH enable"]),
        (Profile::Maximum, vec!["INI patches", "LAA patch", "LFH enable", "DXVK install"]),
        (
            Profile::Ultra,
            vec![
                "INI patches",
                "LAA patch",
                "LFH enable",
                "DXVK install",
                "INI aggressive",
                "Game Bar disable",
                "NVIDIA tweaks",
            ],
        ),
    ] {
        let mut m = game();
        let before = m.files.clone();
        let report = m.run(|r| apply_profile(profile, true, true, r));
        assert!(report.success);
        assert_eq!(report.steps.iter().map(|s| s.name.as_str()).collect::<Vec<_>>(), names);
        let report = m.run(|r| revert_all(true, r));
        assert_eq!(
            report.steps.iter().map(|s| s.name.as_str()).collect::<Vec<_>>(),
            vec!["INI revert", "LAA revert", "DXVK uninstall", "Game Bar revert"]
        );
        assert_eq!(report.success, profile != Profile::Safe);
        for (l, bytes) in before {
            assert_eq!(m.get(l).unwrap(), bytes);
        }
    }
}

#[test]
fn a_step_that_fails_does_not_stop_the_others() {
    let mut m = Machine::new();
    let report = m.run(|r| apply_profile(Profile::Ultra, false, false, r));
    assert!(!report.success);
    let details: Vec<&str> = report.steps.iter().map(|s| s.detail.as_str()).collect();
    assert_eq!(
        details,
        vec![
            "file not found: \"S1Game/Config/S1Engine.ini\"",
            "exe not found: \"Binaries/TERA.exe\"",
            "Windows only",
            "bundled DXVK resources not provided",
            "file not found: \"S1Game/Config/S1Engine.ini\"",
            "Windows only",
            "Windows only",
        ]
    );
    assert!(report.steps.iter().all(|s| !s.ok));
}

#[test]
fn the_state_of_the_settings() {
    let mut m = game();
    m.tool = Some((true, "FrontEndHeapDebugOptions PowerMizerLevelAC 0x8 0x0", ""));
    let s = m.run(|r| get_status(true, r));
    assert!(!s.ini_patched && !s.ini_aggressive && !s.laa_patched && !s.dxvk_installed);
    assert!(s.lfh_enabled && s.game_bar_disabled && s.nvidia_tweaks_applied);
    m.run(|r| apply_profile(Profile::Ultra, true, true, r));
    let before = m.files.clone();
    let s = m.run(|r| get_status(true, r));
    assert!(s.ini_patched && s.ini_aggressive && s.laa_patched && s.dxvk_installed);
    assert!(m.files == before);
    m.broken.push("read");
    m.broken.push("size");
    let s = m.run(|r| get_status(false, r));
    assert!(!s.ini_patched && !s.ini_aggressive && !s.laa_patched && !s.dxvk_installed && !s.lfh_enabled);
}

#[test]
fn places_and_their_backups() {
    let path = |l: Location| path_parts(l).map(|p| p.join("/"));
    assert_eq!(path(at(Place::TeraExe)).unwrap(), "Binaries/TERA.exe");
    assert_eq!(path(at(Place::TeraExe).backup()).unwrap(), "Binaries/TERA.exe.optimizer_backup");
    assert_eq!(path(at(Place::DefaultEngineIni).backup()).unwrap(), "S1Game/Config/DefaultEngine.ini.optimizer_backup");
    assert_eq!(path(at(Place::Binaries)).unwrap(), "Binaries");
    assert_eq!(path(at(Place::S1Data)).unwrap(), "S1Game/S1Data");
    assert_eq!(path(at(Place::DataCenter)).unwrap(), "S1Game/S1Data/DataCenter_Final_EUR.dat");
    assert_eq!(path(at(Place::EnglishBackup)).unwrap(), "S1Game/S1Data/DataCenter_Final_EUR.dat.english_backup");
    assert_eq!(path(at(Place::SpanishSentinel)).unwrap(), "S1Game/S1Data/.tera_lang_spanish");
    assert_eq!(path(at(Place::SpanishSource)), None);
    for name in ["TERA.exe", "noext", ".hidden", "a.b.c", "ends.", "..", "x"] {
        if name != ".." {
            let p = std::path::Path::new(name);
            let ext = p.extension().and_then(|s| s.to_str()).unwrap_or("bak");
            let theirs = p.with_extension(format!("{}.optimizer_backup", ext));
            assert_eq!(name_of_backup(name), theirs.to_str().unwrap());
        }
    }
}

fn texts() -> Machine {
    Machine::new().with(Place::DataCenter, b"english").with(Place::SpanishSource, b"espanol!")
}

#[test]
fn languages_are_switched_there_and_back() {
    let mut m = texts();
    let s = m.run(|r| language::get_status(true, r));
    assert_eq!((s.current.as_str(), s.spanish_available, s.english_backup_exists, s.dat_size), ("english", true, false, 7));
    assert_eq!(s.dat_path, "S1Game/S1Data/DataCenter_Final_EUR.dat");
    assert_eq!(
        told(m.run(language::switch_to_spanish)),
        said("Switch to Spanish", true, "Installed Spanish DataCenter (8 bytes)")
    );
    assert_eq!(m.get(at(Place::SpanishSentinel)).unwrap(), b"spanish");
    assert_eq!(m.get(at(Place::EnglishBackup)).unwrap(), b"english");
    let s = m.run(|r| language::get_status(false, r));
    assert_eq!((s.current.as_str(), s.spanish_available, s.english_backup_exists, s.dat_size), ("spanish", false, true, 8));
    assert!(m.run(language::switch_to_spanish).unwrap().ok);
    assert_eq!(m.get(at(Place::EnglishBackup)).unwrap(), b"english");
    assert_eq!(
        told(m.run(language::switch_to_english)),
        said("Switch to English", true, "Restored English DataCenter (7 bytes)")
    );
    assert_eq!(m.get(at(Place::DataCenter)).unwrap(), b"english");
    assert_eq!(m.get(at(Place::SpanishSentinel)), None);
    assert_eq!(m.run(|r| language::get_status(true, r)).current, "english");
}

#[test]
fn switches_that_cannot_be_made() {
    let mut m = Machine::new();
    assert_eq!(
        told(m.run(language::switch_to_spanish)),
        said("Switch to Spanish", false, "Bundled Spanish file not found at: bundled")
    );
    assert_eq!(m.run(|r| language::get_status(true, r)).current, "unknown");
    let mut m = texts();
    m.folders.clear();
    assert_eq!(
        told(m.run(language::switch_to_spanish)),
        said(
            "Switch to Spanish",
            false,
            "S1Data folder not found near: S1Game/S1Data/DataCenter_Final_EUR.dat"
        )
    );
    let mut m = texts();
    m.broken.push("copy");
    assert_eq!(told(m.run(language::switch_to_spanish)).2, "Backup failed: broken");
    m.put(at(Place::EnglishBackup), b"english".to_vec());
    assert_eq!(told(m.run(language::switch_to_spanish)).2, "Copy Spanish failed: broken");
    assert_eq!(told(m.run(language::switch_to_english)).2, "Restore failed: broken");
    let mut m = texts();
    m.broken.push("write");
    assert_eq!(told(m.run(language::switch_to_spanish)).2, "Sentinel write failed: broken");
    let mut m = texts();
    m.put(at(Place::SpanishSentinel), b"spanish".to_vec());
    assert_eq!(
        told(m.run(language::switch_to_english)),
        said("Switch to English", true, "Already English (no backup found)")
    );
    assert_eq!(m.get(at(Place::SpanishSentinel)), None);
}

#[test]
fn spanish_texts_are_not_kept_as_english() {
    let mut m = texts();
    m.put(at(Place::SpanishSentinel), b"spanish".to_vec());
    assert!(m.run(language::switch_to_spanish).unwrap().ok);
    assert_eq!(m.get(at(Place::EnglishBackup)), None);
}
