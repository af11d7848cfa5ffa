//! Getting the server list, running the game, the window, the log and updates.
use teralaunch::catalog::ServerCatalog;
use teralaunch::credentials::Credentials;
use teralaunch::dialogue::Step;
use teralaunch::fetch;
use teralaunch::file_log;
use teralaunch::file_log::Level;
use teralaunch::file_log::Reply as Log;
use teralaunch::launch;
use teralaunch::launch::Reply as Game;
use teralaunch::self_update;
use teralaunch::self_update::Reply as Update;
use teralaunch::path::parent_of;
use teralaunch::server_list::{parse_server_list_xml, XmlServer};
use teralaunch::version::is_newer;
use teralaunch::window;
use teralaunch::window::Reply as Pane;

/// Holds a conversation with replies that are given in advance; the requests and
/// the result.
fn hold<Q, A, T>(op: impl Fn(&Vec<A>) -> Step<Q, T>, mut replies: Vec<A>) -> (Vec<Q>, Option<T>) {
    let mut given: Vec<A> = Vec::new();
    let mut requests = Vec::new();
    replies.reverse();
    loop {
        match op(&given) {
            Step::Done(t) => return (requests, Some(t)),
            Step::Ask(q) => {
                requests.push(q);
                match replies.pop() {
                    Some(a) => given.push(a),
                    None => return (requests, None),
                }
            }
        }
    }
}

fn head(success: bool, status: &str, content_type: &str) -> fetch::Reply {
    fetch::Reply::Head {
        success,
        status: status.to_string(),
        content_type: content_type.to_string(),
    }
}

fn fetched(replies: Vec<fetch::Reply>) -> (usize, usize, Result<Vec<u8>, String>) {
    let (requests, r) = hold(|a| fetch::prefetch_server_list("http://portal/list", "1|1,2|", a), replies);
    let gets = requests.iter().filter(|q| matches!(q, fetch::Request::Get(u) if u == "http://portal/list")).count();
    let pauses =
        requests.iter().filter(|q| matches!(q, fetch::Request::Pause { milliseconds: 400 })).count();
    assert!(matches!(requests[0], fetch::Request::Connect { timeout_seconds: 8 }));
    (gets, pauses, r.unwrap().map(|mut c| c.answer(&[])))
}

const JSON: &str = r#"  {"servers": [{"id": 1, "name": "A", "title": "A", "category": "", "queue": "", "population": "",
    "address": "1.2.3.4", "port": 1, "available": 1}]}"#;

fn server() -> XmlServer {
    XmlServer {
        id: 1,
        ip: "1.2.3.4".to_string(),
        port: 1,
        category: "".to_string(),
        raw_name: "A".to_string(),
        name: "".to_string(),
        crowdness: "".to_string(),
        open: "x".to_string(),
        popup: "".to_string(),
    }
}

#[test]
fn json_is_told_by_its_type_or_its_brace() {
    assert!(fetch::looks_like_json("Application/JSON; charset=utf-8", "<x/>"));
    assert!(fetch::looks_like_json("text/plain", " \n{}"));
    assert!(!fetch::looks_like_json("text/xml", "<serverlist/>"));
    assert!(!fetch::looks_like_json("", ""));
}

#[test]
fn the_list_is_got_at_the_first_attempt() {
    let (gets, pauses, r) = fetched(vec![
        fetch::Reply::Done,
        head(true, "200 OK", "application/json"),
        fetch::Reply::Body(JSON.to_string()),
    ]);
    assert_eq!((gets, pauses), (1, 0));
    assert_eq!(r.unwrap()[2..7], [0x0D, 1, 0, 0, 0][..]);
    let (gets, _, r) = fetched(vec![
        fetch::Reply::Done,
        head(true, "200 OK", "text/xml"),
        fetch::Reply::Body("<serverlist/>".to_string()),
        fetch::Reply::Servers(vec![server()]),
    ]);
    assert_eq!(gets, 1);
    assert!(r.is_ok());
}

#[test]
fn misses_are_tried_again_three_times_in_all() {
    let (gets, pauses, r) = fetched(vec![
        fetch::Reply::Done,
        head(false, "503 Service Unavailable", ""),
        fetch::Reply::Done,
        fetch::Reply::Failed("timed out".to_string()),
        fetch::Reply::Done,
        head(true, "200 OK", "application/json"),
        fetch::Reply::Body(JSON.to_string()),
    ]);
    assert_eq!((gets, pauses), (3, 2));
    assert!(r.is_ok());
    let (gets, pauses, r) = fetched(vec![
        fetch::Reply::Done,
        fetch::Reply::Failed("refused".to_string()),
        fetch::Reply::Done,
        fetch::Reply::Failed("timed out".to_string()),
        fetch::Reply::Done,
        head(false, "404 Not Found", ""),
        fetch::Reply::Done,
    ]);
    assert_eq!((gets, pauses), (3, 3));
    assert_eq!(r, Err("HTTP 404 Not Found".to_string()));
    let (_, _, r) = fetched(vec![
        fetch::Reply::Done,
        head(false, "404 Not Found", ""),
        fetch::Reply::Done,
        head(false, "404 Not Found", ""),
        fetch::Reply::Done,
        fetch::Reply::Failed("timed out".to_string()),
        fetch::Reply::Done,
    ]);
    assert_eq!(r, Err("transport: timed out".to_string()));
}

#[test]
fn faults_in_the_document_end_it_at_once() {
    let (gets, pauses, r) = fetched(vec![
        fetch::Reply::Done,
        head(true, "200 OK", "json"),
        fetch::Reply::Body("{}".to_string()),
    ]);
    assert_eq!((gets, pauses, r), (1, 0, Err("No servers found in JSON".to_string())));
    let (_, _, r) = fetched(vec![
        fetch::Reply::Done,
        head(true, "200 OK", ""),
        fetch::Reply::Body("<a/>".to_string()),
        fetch::Reply::Servers(vec![]),
    ]);
    assert_eq!(r, Err("No servers found in XML".to_string()));
    let (_, _, r) = fetched(vec![
        fetch::Reply::Done,
        head(true, "200 OK", ""),
        fetch::Reply::Body("<a".to_string()),
        fetch::Reply::Failed("no XML".to_string()),
    ]);
    assert_eq!(r, Err("no XML".to_string()));
    let (_, _, r) =
        fetched(vec![fetch::Reply::Done, head(true, "200 OK", ""), fetch::Reply::Failed("cut off".to_string())]);
    assert_eq!(r, Err("cut off".to_string()));
    let (_, _, r) = fetched(vec![fetch::Reply::Failed("no TLS".to_string())]);
    assert_eq!(r, Err("no TLS".to_string()));
}

fn who() -> Credentials {
    Credentials {
        account_name: "a".to_string(),
        characters_count: "1|1,2|".to_string(),
        ticket: "t".to_string(),
        game_lang: "EUR".to_string(),
        game_path: "C:\\TERA\\Binaries\\TERA.exe".to_string(),
    }
}

fn launched(replies: Vec<launch::Reply>) -> (Vec<String>, Option<Result<Option<i32>, String>>) {
    let (requests, r) = hold(|a| launch::run_game(&who(), a), replies);
    let names = requests
        .iter()
        .map(|q| match q {
            launch::Request::IsRunning => "running?".to_string(),
            launch::Request::StoreCredentials(c) => {
                format!(
                    "store {} {} {} {} {}",
                    c.account_name, c.characters_count, c.ticket, c.game_lang, c.game_path
                )
            }
            launch::Request::SetRunning(b) => format!("running={}", b),
            launch::Request::OpenWindow => "window".to_string(),
            launch::Request::FetchServerList { characters_count } => format!("fetch {}", characters_count),
            launch::Request::KeepServerList(Some(list)) => format!("keep {:?}", list.copy().answer(&[])),
            launch::Request::KeepServerList(None) => "keep none".to_string(),
            launch::Request::Spawn { program, arguments, folder, log_file } => {
                format!("spawn {} {} in {} {}", program, arguments.join(" "), folder, log_file)
            }
            launch::Request::KeepProcess(pid) => format!("pid={}", pid),
            launch::Request::WaitForExit => "wait".to_string(),
            launch::Request::WindowHandle => "handle?".to_string(),
            launch::Request::PostGameExited(h) => format!("post {}", h),
            launch::Request::JoinWindow => "join".to_string(),
        })
        .collect();
    (names, r)
}

const STORE: &str = "store a 1|1,2| t EUR C:\\TERA\\Binaries\\TERA.exe";
const SPAWN: &str = "spawn C:\\TERA\\Binaries\\TERA.exe -LANGUAGEEXT=EUR in C:\\TERA\\Binaries tera_launch.log";

fn server_list() -> ServerCatalog {
    let list = parse_server_list_xml(&vec![server()], "1|1,2|").unwrap();
    ServerCatalog::new(list, "1|1,2|")
}

#[test]
fn the_game_is_seen_through_to_its_end() {
    let (requests, r) = launched(vec![
        Game::Flag(false),
        Game::Done,
        Game::Flag(false),
        Game::Done,
        Game::Done,
        Game::ServerList(server_list()),
        Game::Done,
        Game::Spawned(42),
        Game::Done,
        Game::Exited(Some(3)),
        Game::Done,
        Game::Handle(Some(9)),
        Game::Done,
        Game::Done,
    ]);
    assert_eq!(
        requests,
        vec![
            "running?",
            STORE,
            "running?",
            "running=true",
            "window",
            "fetch 1|1,2|",
            &format!("keep {:?}", server_list().answer(&[])),
            SPAWN,
            "pid=42",
            "wait",
            "running=false",
            "handle?",
            "post 9",
            "join"
        ]
    );
    assert_eq!(r, Some(Ok(Some(3))));
}

#[test]
fn a_running_game_is_not_started_again() {
    let (requests, r) = launched(vec![launch::Reply::Flag(true)]);
    assert_eq!(requests, vec!["running?"]);
    assert_eq!(r, Some(Err("Game is already running".to_string())));
    let (requests, r) = launched(vec![launch::Reply::Flag(false), launch::Reply::Done, launch::Reply::Flag(true)]);
    assert_eq!(requests.len(), 3);
    assert_eq!(r, Some(Err("Game is already running".to_string())));
}

#[test]
fn faults_of_the_game_are_told() {
    let start = || vec![Game::Flag(false), Game::Done, Game::Flag(false), Game::Done, Game::Done, Game::Failed("offline".to_string()), Game::Done];
    let mut replies = start();
    replies.push(Game::Failed("not found".to_string()));
    replies.push(Game::Done);
    let (requests, r) = launched(replies);
    assert_eq!(requests[6], "keep none");
    assert_eq!(requests.last().unwrap(), "running=false");
    assert_eq!(r, Some(Err("Failed to launch TERA.exe: not found".to_string())));
    let mut replies = start();
    replies.extend([Game::Spawned(1), Game::Done, Game::Failed("lost".to_string())]);
    let (requests, r) = launched(replies);
    assert_eq!(requests.last().unwrap(), "wait");
    assert_eq!(r, Some(Err("lost".to_string())));
    let mut replies = start();
    replies.extend([Game::Spawned(1), Game::Done, Game::Exited(None), Game::Done, Game::Handle(None), Game::Failed("panicked".to_string())]);
    let (requests, r) = launched(replies);
    assert_eq!(requests[requests.len() - 2..], ["handle?", "join"]);
    assert_eq!(r, Some(Err("panicked".to_string())));
}

#[test]
fn the_folder_that_holds_the_game() {
    for (path, folder) in [
        ("C:\\TERA\\Binaries\\TERA.exe", Some("C:\\TERA\\Binaries")),
        ("C:/TERA/TERA.exe", Some("C:/TERA")),
        ("C:\\TERA\\\\TERA.exe\\", Some("C:\\TERA")),
        ("C:\\TERA.exe", Some("C:\\")),
        ("C:TERA.exe", Some("C:")),
        ("TERA.exe", Some("")),
        ("/TERA.exe", Some("/")),
        ("C:\\", None),
        ("/", None),
        ("", None),
        ("x/.", Some("")),
        ("a/./b", Some("a")),
        ("a/b/./", Some("a")),
        ("./TERA.exe", Some(".")),
        ("./.", Some("")),
        (".", Some("")),
        ("..", Some("")),
        ("a/..", Some("a")),
        ("C:.", None),
        ("C:.\\x", Some("C:.")),
        ("C:\\.\\TERA.exe", Some("C:\\")),
        ("\\\\server\\share\\TERA.exe", Some("\\\\server\\share\\")),
        ("//server/share/a/TERA.exe", Some("//server/share/a")),
        ("\\\\server\\share\\", None),
        ("\\\\server\\share", None),
        ("\\\\server", Some("\\")),
        ("\\\\.\\COM1\\x", Some("\\\\.\\COM1\\")),
        ("\\\\?\\C:\\TERA.exe", Some("\\\\?\\C:\\")),
        ("\\\\?\\C:\\a\\.", Some("\\\\?\\C:\\a")),
        ("\\\\?\\UNC\\server\\share\\a\\b/c", Some("\\\\?\\UNC\\server\\share\\a")),
        ("\\\\?\\name", None),
    ] {
        assert_eq!(parent_of(path).as_deref(), folder);
    }
    let nowhere = Credentials { game_path: String::new(), ..who() };
    let replies = vec![Game::Flag(false), Game::Done, Game::Flag(false), Game::Done, Game::Done, Game::Done, Game::Done];
    let (requests, _) = hold(|a| launch::run_game(&nowhere, a), replies);
    assert!(matches!(requests.last(), Some(launch::Request::Spawn { folder, .. }) if folder == "."));
}

#[test]
fn the_state_of_the_game() {
    let mut state = launch::GameState::new();
    assert!(!state.is_game_running());
    assert!(state.set_running(true));
    state.window = Some(5);
    assert!(state.is_game_running());
    assert!(!state.reset_global_state());
    assert!(!state.is_game_running());
    assert_eq!(state.window, None);
}

#[test]
fn the_window_is_opened() {
    let class: Vec<u16> = "LAUNCHER_CLASS\0".encode_utf16().collect();
    let title: Vec<u16> = "LAUNCHER_WINDOW\0".encode_utf16().collect();
    let (requests, r) = hold(|a| window::open_window(a), vec![Pane::Flag(true), Pane::Handle(Some(7)), Pane::Done, Pane::Done, Pane::Done]);
    assert_eq!(r, Some(Some(7)));
    assert!(matches!(&requests[0], window::Request::RegisterClass(c) if *c == class));
    assert!(matches!(&requests[1], window::Request::CreateWindow { class: c, title: t } if *c == class && *t == title));
    assert!(matches!(requests[2], window::Request::AllowCopyData(7)));
    assert!(matches!(requests[3], window::Request::StoreHandle(7)));
    assert!(matches!(requests[4], window::Request::NotifyReady));
    let (requests, r) = hold(|a| window::open_window(a), vec![Pane::Flag(false)]);
    assert_eq!((requests.len(), r), (1, Some(None)));
    let (requests, r) = hold(|a| window::open_window(a), vec![Pane::Flag(true), Pane::Handle(None), Pane::Done]);
    assert_eq!(r, Some(None));
    assert!(matches!(&requests[2], window::Request::UnregisterClass(c) if *c == class));
    assert_eq!(window::launcher_class(), class);
}

#[test]
fn the_window_is_closed() {
    let (requests, r) = hold(|a| window::close_window(7, a), vec![Pane::Done, Pane::Done, Pane::Done, Pane::Done, Pane::Flag(true), Pane::Done]);
    assert_eq!(r, Some(()));
    assert!(matches!(requests[0], window::Request::DestroyWindow(7)));
    assert!(matches!(requests[1], window::Request::UnregisterClass(_)));
    assert!(matches!(requests[2], window::Request::ResetState));
    assert!(matches!(requests[3], window::Request::DestroyLeftovers(_)));
    assert!(matches!(requests[4], window::Request::IsClassKnown(_)));
    assert!(matches!(requests[5], window::Request::UnregisterClass(_)));
    let (requests, _) = hold(|a| window::close_window(7, a), vec![Pane::Done, Pane::Done, Pane::Done, Pane::Done, Pane::Flag(false)]);
    assert_eq!(requests.len(), 5);
    assert!(window::goes_on(1, 0x10));
    assert!(!window::goes_on(1, 0x401));
    assert!(!window::goes_on(0, 0x10));
    assert!(!window::goes_on(-1, 0x10));
}

#[test]
fn records_that_are_put_down() {
    for target in ["teralib::game", "teralaunch", "launcher", "file_log", "self_update", "language", "optimizer"] {
        assert!(file_log::target_is_app(target));
        assert!(file_log::enabled(Level::Trace, target));
    }
    for target in ["tao::window", "", "tera", "my_teralib"] {
        assert!(!file_log::target_is_app(target));
        assert!(!file_log::enabled(Level::Info, target));
        assert!(file_log::enabled(Level::Warn, target));
        assert!(file_log::enabled(Level::Error, target));
    }
    assert!(file_log::shown_in_window(Level::Info, "teralib::game"));
    assert!(!file_log::shown_in_window(Level::Debug, "teralib::game"));
    assert!(!file_log::shown_in_window(Level::Error, "teralaunch"));
    assert_eq!(file_log::window_line(Level::Warn, "x"), "WARN - x");
}

#[test]
fn lines_of_the_log() {
    assert_eq!(
        file_log::format_line("2026-05-13 00:00:00.000", Level::Info, "teralib", "hello"),
        "2026-05-13 00:00:00.000 [INFO ] [teralib] hello"
    );
    assert_eq!(file_log::format_line("t", Level::Error, "a", "b"), "t [ERROR] [a] b");
    assert_eq!(file_log::format_line("t", Level::Warn, "a", "b"), "t [WARN ] [a] b");
    assert_eq!(file_log::format_line("t", Level::Debug, "a", "b"), "t [DEBUG] [a] b");
    let prefix = "t [INFO ] [a] ";
    let exact = "x".repeat(8192 - prefix.len());
    assert_eq!(file_log::format_line("t", Level::Info, "a", &exact), format!("{}{}", prefix, exact));
    let over = file_log::format_line("t", Level::Info, "a", &format!("{}y", exact));
    assert_eq!(over, format!("{}{} ...[truncated]", prefix, exact));
    let wide = format!("{}é", "x".repeat(8191 - prefix.len()));
    let cut = file_log::format_line("t", Level::Info, "a", &wide);
    assert_eq!(cut, format!("{}{} ...[truncated]", prefix, "x".repeat(8191 - prefix.len())));
    assert_eq!(
        file_log::session_banner("now", true, 12, "windows"),
        "\n========== launcher session started now ==========\nbuild: teralaunch (debug=true) pid=12 os=windows\n"
    );
}

#[test]
fn paths_of_the_log() {
    let (root, parts) = file_log::log_file_path(true);
    assert!(root == file_log::Root::AppData);
    assert_eq!(parts, vec!["teralaunch", "launcher.log"]);
    let (root, parts) = file_log::log_file_path(false);
    assert!(root == file_log::Root::Temp);
    assert_eq!(parts, vec!["teralaunch-launcher.log"]);
    assert_eq!(file_log::log_dir(true).1, vec!["teralaunch"]);
    assert_eq!(file_log::log_dir(false).1, Vec::<String>::new());
    assert_eq!(file_log::rotated_path(true).1, vec!["teralaunch", "launcher.log.1"]);
    assert_eq!(file_log::rotated_path(false).1, vec!["teralaunch-launcher.log.1"]);
}

fn log_requests(requests: &[file_log::Request]) -> Vec<String> {
    requests
        .iter()
        .map(|q| match q {
            file_log::Request::CreateFolder => "folder".to_string(),
            file_log::Request::LogSize => "size".to_string(),
            file_log::Request::RemoveRotated => "remove".to_string(),
            file_log::Request::RotateLog => "rotate".to_string(),
            file_log::Request::Open => "open".to_string(),
            file_log::Request::IsOpen => "open?".to_string(),
            file_log::Request::OpenSize => "open size".to_string(),
            file_log::Request::Close => "close".to_string(),
            file_log::Request::Append(line) => format!("+{}", line),
            file_log::Request::Flush => "flush".to_string(),
        })
        .collect()
}

#[test]
fn the_log_gives_way_when_it_is_too_large() {
    let log = |replies| log_requests(&hold(|a| file_log::log("x", a), replies).0);
    assert_eq!(log(vec![Log::Flag(false)]), vec!["open?"]);
    assert_eq!(
        log(vec![Log::Flag(true), Log::Size(1_048_576), Log::Done, Log::Done]),
        vec!["open?", "open size", "+x", "flush"]
    );
    assert_eq!(log(vec![Log::Flag(true), Log::Failed, Log::Done, Log::Done]), vec!["open?", "open size", "+x", "flush"]);
    assert_eq!(
        log(vec![Log::Flag(true), Log::Size(1_048_577), Log::Done, Log::Size(1_048_577), Log::Done, Log::Done, Log::Flag(true), Log::Done, Log::Done]),
        vec!["open?", "open size", "close", "size", "remove", "rotate", "open", "+x", "flush"]
    );
    assert_eq!(
        log(vec![Log::Flag(true), Log::Size(1_048_577), Log::Done, Log::Size(5), Log::Flag(false)]),
        vec!["open?", "open size", "close", "size", "open"]
    );
    let open = |replies| log_requests(&hold(|a| file_log::open_log("b", a), replies).0);
    assert_eq!(open(vec![Log::Done, Log::Failed, Log::Flag(true), Log::Done]), vec!["folder", "size", "open", "+b"]);
    assert_eq!(
        open(vec![Log::Done, Log::Size(2_000_000), Log::Done, Log::Done, Log::Flag(false)]),
        vec!["folder", "size", "remove", "rotate", "open"]
    );
}

#[test]
fn newer_versions() {
    for (remote, local) in [
        ("0.0.8", "0.0.7"),
        ("0.1", "0.0.9"),
        ("1.10.0", "1.9.9"),
        ("1.0.0.1", "1.0.0"),
        ("2", "1.9"),
        ("1.0.0-rc2", "1.0.0-rc1"),
        ("1.0.1-a", "1.0.0-z"),
    ] {
        assert!(is_newer(remote, local));
        assert!(!is_newer(local, remote));
    }
    for (a, b) in [("0.0.7", "0.0.7"), ("1.0", "1"), ("1.0.0", "1"), ("01.2", "1.2"), ("", "0"), ("", "")] {
        assert!(!is_newer(a, b));
        assert!(!is_newer(b, a));
    }
    assert!(!is_newer("99999999999999999999.0", "0.0.1"));
    assert!(is_newer("18446744073709551615", "18446744073709551614"));
}

#[test]
fn where_the_newest_launcher_is_told() {
    for (server, url) in [
        ("http://host:8090/public", "http://host:8090/tera/launcher/launcher-version.json"),
        ("http://host:8090", "http://host:8090/tera/launcher/launcher-version.json"),
        ("http://host:8090/", "http://host:8090/tera/launcher/launcher-version.json"),
        ("https://h/a/b?c=d", "https://h/tera/launcher/launcher-version.json"),
        ("host/", "host/tera/launcher/launcher-version.json"),
        ("host/public", "host/public/tera/launcher/launcher-version.json"),
        ("", "/tera/launcher/launcher-version.json"),
    ] {
        assert_eq!(self_update::manifest_url(server), url);
    }
}

fn manifest(version: &str) -> self_update::LauncherVersionManifest {
    self_update::LauncherVersionManifest {
        version: version.to_string(),
        url: "http://h/new.exe".to_string(),
        notes: "n".to_string(),
        sha256: "".to_string(),
        mandatory: true,
    }
}

#[test]
fn updates_are_looked_for() {
    let check = |replies| hold(|a| self_update::check_for_update("http://h/public", "0.0.7", a), replies);
    let ok = || Update::Head { success: true, status: "200 OK".to_string() };
    let (requests, r) = check(vec![Update::Done, ok(), Update::Manifest(manifest("0.0.8"))]);
    assert!(matches!(requests[0], self_update::Request::Connect { timeout_seconds: Some(8) }));
    assert!(
        matches!(&requests[1], self_update::Request::Get(u) if u == "http://h/tera/launcher/launcher-version.json")
    );
    let r = r.unwrap().unwrap();
    assert!(r.update_available && r.mandatory);
    assert_eq!(
        (r.current_version.as_str(), r.latest_version.as_str(), r.notes.as_str(), r.url.as_str()),
        ("0.0.7", "0.0.8", "n", "http://h/new.exe")
    );
    let (_, r) = check(vec![Update::Done, ok(), Update::Manifest(manifest("0.0.7"))]);
    assert!(!r.unwrap().unwrap().update_available);
    let error = |replies| match check(replies).1 {
        Some(Err(e)) => e,
        _ => panic!("no error"),
    };
    assert_eq!(error(vec![Update::Failed("x".to_string())]), "http client: x");
    assert_eq!(error(vec![Update::Done, Update::Failed("x".to_string())]), "request failed: x");
    assert_eq!(
        error(vec![Update::Done, Update::Head { success: false, status: "404 Not Found".to_string() }]),
        "manifest HTTP 404 Not Found"
    );
    assert_eq!(error(vec![Update::Done, ok(), Update::Failed("x".to_string())]), "invalid manifest JSON: x");
}

const ABC: &str = "ba7816bf8f01cfea414140de5dae2223b00361a396177a9cb410ff61f20015ad";

fn update_names(requests: &[self_update::Request]) -> Vec<String> {
    requests
        .iter()
        .map(|q| match q {
            self_update::Request::Connect { timeout_seconds } => format!("connect {:?}", timeout_seconds),
            self_update::Request::Get(u) => format!("get {}", u),
            self_update::Request::Manifest => "manifest".to_string(),
            self_update::Request::Body => "body".to_string(),
            self_update::Request::CurrentExe => "exe".to_string(),
            self_update::Request::CreateTemp(n) => format!("create {}", n),
            self_update::Request::WriteTemp(b) => format!("write {} bytes", b.len()),
            self_update::Request::TempPath(n) => format!("path {}", n),
            self_update::Request::WriteText { name, text } => {
                assert!(text.contains("set TARGET=\"old.exe\"\r\nset SOURCE=\"tmp/new.exe\"\r\n"));
                format!("script {}", name)
            }
            self_update::Request::Spawn { program, arguments, script } => format!("spawn {} {:?} {}", program, arguments, script),
            self_update::Request::Pause { milliseconds } => format!("pause {}", milliseconds),
            self_update::Request::Exit => "exit".to_string(),
        })
        .collect()
}

fn update_replies(b: &[u8]) -> Vec<self_update::Reply> {
    vec![
        Update::Path("old.exe".to_string()),
        Update::Done,
        Update::Head { success: true, status: "200 OK".to_string() },
        Update::Bytes(b.to_vec()),
        Update::Done,
        Update::Done,
        Update::Path("tmp/new.exe".to_string()),
        Update::Done,
        Update::Done,
        Update::Done,
        Update::Done,
    ]
}

#[test]
fn an_update_is_made() {
    for expected in [None, Some("".to_string()), Some(ABC.to_string()), Some(ABC.to_uppercase())] {
        let (requests, r) = hold(
            |a| self_update::apply_launcher_update("http://h/new.exe", &expected, 12, true, a),
            update_replies(b"abc"),
        );
        assert_eq!(r, Some(Ok(())));
        assert_eq!(
            update_names(&requests),
            vec![
                "exe",
                "connect None",
                "get http://h/new.exe",
                "body",
                "create teralaunch_new_12.exe",
                "write 3 bytes",
                "path teralaunch_new_12.exe",
                "script teralaunch_update_12.bat",
                "spawn cmd [\"/C\", \"start\", \"\", \"/min\"] teralaunch_update_12.bat",
                "pause 500",
                "exit"
            ]
        );
    }
    let (requests, r) =
        hold(|a| self_update::download_and_apply("u", &None, 12, false, a), update_replies(b"abc"));
    assert_eq!(r, Some(Ok(())));
    assert_eq!(update_names(&requests)[8], "spawn sh [] teralaunch_update_12.bat");
    assert_eq!(requests.len(), 9);
}

#[test]
fn a_wrong_download_is_not_installed() {
    let expected = Some(ABC.to_string());
    let (requests, r) = hold(
        |a| self_update::apply_launcher_update("u", &expected, 12, true, a),
        update_replies(b"abd"),
    );
    assert_eq!(requests.len(), 4);
    let message = r.unwrap().unwrap_err();
    assert_eq!(
        message,
        format!(
            "sha256 mismatch (expected {}, got a52d159f262b2c6ddb724a61840befc36eb30c88877a4030b65cbe86298449c9)",
            ABC
        )
    );
}

#[test]
fn digests_in_either_case() {
    assert!(self_update::check_digest(&[0xAB, 0x01], &Some("aB01".to_string())).is_ok());
    assert!(self_update::check_digest(&[0xAB, 0x01], &None).is_ok());
    assert!(self_update::check_digest(&[0xAB, 0x01], &Some("".to_string())).is_ok());
    assert_eq!(
        self_update::check_digest(&[0xAB, 0x01], &Some("ab02".to_string())),
        Err("sha256 mismatch (expected ab02, got ab01)".to_string())
    );
    assert!(self_update::check_download(b"", &Some(
        "E3B0C44298FC1C149AFBF4C8996FB92427AE41E4649B934CA495991B7852B855".to_string()
    ))
    .is_ok());
}

#[test]
fn faults_of_an_update_are_told() {
    let failed = || Update::Failed("x".to_string());
    for (at, message) in [
        (0usize, "current_exe: x"),
        (1, "http client: x"),
        (2, "download request: x"),
        (3, "download body: x"),
        (4, "create temp exe: x"),
        (5, "write temp exe: x"),
        (7, "write helper bat: x"),
        (8, "spawn helper: x"),
    ] {
        let mut replies = update_replies(b"abc");
        replies[at] = failed();
        let (_, r) = hold(|a| self_update::download_and_apply("u", &None, 1, true, a), replies);
        assert_eq!(r, Some(Err(message.to_string())));
    }
    let mut replies = update_replies(b"abc");
    replies[2] = Update::Head { success: false, status: "500 Internal Server Error".to_string() };
    let (_, r) = hold(|a| self_update::download_and_apply("u", &None, 1, true, a), replies);
    assert_eq!(r, Some(Err("download HTTP 500 Internal Server Error".to_string())));
    let (requests, r) = hold(|a| self_update::download_and_apply("", &None, 1, true, a), vec![]);
    assert_eq!((requests.len(), r), (0, Some(Err("empty download URL".to_string()))));
}

#[test]
fn the_script_that_replaces_the_launcher() {
    let script = self_update::helper_script("C:\\a b\\l.exe", "C:\\t\\n.exe", 77);
    let expected = [
        "@echo off",
        "setlocal",
        "set TARGET=\"C:\\a b\\l.exe\"",
        "set SOURCE=\"C:\\t\\n.exe\"",
        "echo Waiting for launcher (PID 77) to exit...",
        ":wait",
        "tasklist /FI \"PID eq 77\" 2>NUL | find /I \"77\" >NUL",
        "if not errorlevel 1 (",
        "timeout /t 1 /nobreak >NUL",
        "goto wait",
        ")",
        "echo Replacing launcher binary...",
        "move /Y %SOURCE% %TARGET% >NUL",
        "if errorlevel 1 (",
        "echo Update failed: could not replace %TARGET%.",
        "pause",
        "exit /b 1",
        ")",
        "echo Restarting launcher...",
        "start \"\" %TARGET%",
        "del \"%~f0\" 2>NUL",
        "endlocal",
        "",
    ]
    .join("\r\n");
    assert_eq!(script, expected);
}
