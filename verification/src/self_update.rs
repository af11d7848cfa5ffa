//! Updating the launcher itself.
use sha2::Digest;
use vstd::prelude::*;

use crate::dialogue::{
    asked, follow, group_sent, if_ok, lemma_follow_then, lemma_sent_if_ok, meets, opt, sent, then_do, Dialogue, Stage, Step, Tape,
};
use crate::number::{dec, decimal, hex, hex_of, law_hexadecimal_digits};
use crate::place::strings;
use crate::text::{
    chars_of, copy_range, find, first_at, holds, join, joined, law_end_is_taken_off, law_first_place, lowered, same,
    stands_at, string_of, to_lower, trim_end_of, trimmed_end_of, Text,
};
use crate::version::{is_newer, law_greater_number_is_newer, law_newer_is_an_order, newer, nth};

verus! {

/// What the server says of the newest launcher.
pub struct LauncherVersionManifest {
    pub version: String,
    /// Where the program is.
    pub url: String,
    /// What is new.
    pub notes: String,
    /// The SHA-256 of the program in hexadecimal, or nothing.
    pub sha256: String,
    /// Whether the user has to update.
    pub mandatory: bool,
}

/// [`LauncherVersionManifest`] in the model.
pub struct ManifestView {
    pub version: Text,
    pub url: Text,
    pub notes: Text,
    pub sha256: Text,
    pub mandatory: bool,
}

impl View for LauncherVersionManifest {
    type V = ManifestView;

    open spec fn view(&self) -> ManifestView {
        ManifestView {
            version: self.version@,
            url: self.url@,
            notes: self.notes@,
            sha256: self.sha256@,
            mandatory: self.mandatory,
        }
    }
}

/// Whether there is a newer launcher, and what is said of it.
pub struct UpdateCheckResult {
    pub update_available: bool,
    pub current_version: String,
    pub latest_version: String,
    pub notes: String,
    pub mandatory: bool,
    pub url: String,
}

/// [`UpdateCheckResult`] in the model.
pub struct UpdateCheckView {
    pub update_available: bool,
    pub current_version: Text,
    pub latest_version: Text,
    pub notes: Text,
    pub mandatory: bool,
    pub url: Text,
}

impl View for UpdateCheckResult {
    type V = UpdateCheckView;

    open spec fn view(&self) -> UpdateCheckView {
        UpdateCheckView {
            update_available: self.update_available,
            current_version: self.current_version@,
            latest_version: self.latest_version@,
            notes: self.notes@,
            mandatory: self.mandatory,
            url: self.url@,
        }
    }
}

/// What a launcher of the version `current` makes of what the server says.
pub open spec fn checked(current: Text, manifest: ManifestView) -> UpdateCheckView {
    UpdateCheckView {
        update_available: newer(manifest.version, current),
        current_version: current,
        latest_version: manifest.version,
        notes: manifest.notes,
        mandatory: manifest.mandatory,
        url: manifest.url,
    }
}

/// Makes of what the server says what a launcher of the version `current` has to
/// know.
pub fn check_manifest(current: &str, manifest: &LauncherVersionManifest) -> (r: UpdateCheckResult)
    ensures
        r@ == checked(current@, manifest@),
{
    UpdateCheckResult {
        update_available: is_newer(&manifest.version, current),
        current_version: current.to_owned(),
        latest_version: manifest.version.clone(),
        notes: manifest.notes.clone(),
        mandatory: manifest.mandatory,
        url: manifest.url.clone(),
    }
}

/// The scheme and host of a URL: what stands before the first slash behind the
/// scheme. A text without a scheme is taken whole.
pub open spec fn host_of(url: Text) -> Text {
    match first_at(url, "://"@, 0) {
        Some(i) => match first_at(url, "/"@, i + 3) {
            Some(k) => url.take(k),
            None => url,
        },
        None => url,
    }
}

/// Where the server says what the newest launcher is.
pub open spec fn manifest_at(file_server: Text) -> Text {
    trimmed_end_of(host_of(file_server), '/') + "/tera/launcher/launcher-version.json"@
}

/// Gives where the server says what the newest launcher is, on the host of the file
/// server.
pub fn manifest_url(file_server: &str) -> (r: String)
    ensures
        r@ == manifest_at(file_server@),
{
    let url = chars_of(file_server);
    let n: usize = url.len();
    proof {
        reveal_strlit("://");
        reveal_strlit("/");
    }
    let host = match find(&url, &chars_of("://"), 0) {
        Some(i) => {
            assert(i + 3 <= n);
            match find(&url, &chars_of("/"), i + 3) {
                Some(k) => {
                    let host = copy_range(&url, 0, k);
                    assert(host@ =~= url@.take(k as int));
                    host
                },
                None => url,
            }
        },
        None => url,
    };
    join(&string_of(&trim_end_of(&host, '/')), "/tera/launcher/launcher-version.json")
}

/// Something that an update takes.
pub enum Request {
    /// Make ready for requests that go straight to the server, each of which may
    /// take this long.
    Connect { timeout_seconds: Option<u64> },
    /// Ask for a document.
    Get(String),
    /// Read the document that was asked for as what is said of the newest launcher.
    Manifest,
    /// Read the document that was asked for.
    Body,
    /// The path of the running program.
    CurrentExe,
    /// Create a file that need not last.
    CreateTemp(String),
    /// Write the file that was created, and see that it is on disk.
    WriteTemp(Vec<u8>),
    /// The path of a file that need not last.
    TempPath(String),
    /// Write a text as a file that need not last.
    WriteText { name: String, text: String },
    /// Start a program apart from this one: its arguments and, behind them, the path
    /// of a file that need not last.
    Spawn { program: String, arguments: Vec<String>, script: String },
    /// Wait.
    Pause { milliseconds: u64 },
    /// End the launcher.
    Exit,
}

/// [`Request`] in the model.
pub enum RequestView {
    Connect { timeout_seconds: Option<u64> },
    Get(Text),
    Manifest,
    Body,
    CurrentExe,
    CreateTemp(Text),
    WriteTemp(Seq<u8>),
    TempPath(Text),
    WriteText { name: Text, text: Text },
    Spawn { program: Text, arguments: Seq<Text>, script: Text },
    Pause { milliseconds: u64 },
    Exit,
}

impl View for Request {
    type V = RequestView;

    open spec fn view(&self) -> RequestView {
        match *self {
            Request::Connect { timeout_seconds } => RequestView::Connect { timeout_seconds },
            Request::Get(url) => RequestView::Get(url@),
            Request::Manifest => RequestView::Manifest,
            Request::Body => RequestView::Body,
            Request::CurrentExe => RequestView::CurrentExe,
            Request::CreateTemp(name) => RequestView::CreateTemp(name@),
            Request::WriteTemp(b) => RequestView::WriteTemp(b@),
            Request::TempPath(name) => RequestView::TempPath(name@),
            Request::WriteText { name, text } => RequestView::WriteText { name: name@, text: text@ },
            Request::Spawn { program, arguments, script } => RequestView::Spawn {
                program: program@,
                arguments: strings(arguments@),
                script: script@,
            },
            Request::Pause { milliseconds } => RequestView::Pause { milliseconds },
            Request::Exit => RequestView::Exit,
        }
    }
}

/// What came of a request.
pub enum Reply {
    /// It was done.
    Done,
    /// It could not be done, and why.
    Failed(String),
    /// The document can be had, or not.
    Head { success: bool, status: String },
    /// What is said of the newest launcher.
    Manifest(LauncherVersionManifest),
    /// The document.
    Bytes(Vec<u8>),
    /// A path.
    Path(String),
}

/// [`Reply`] in the model.
pub enum ReplyView {
    Done,
    Failed(Text),
    Head { success: bool, status: Text },
    Manifest(ManifestView),
    Bytes(Seq<u8>),
    Path(Text),
}

impl View for Reply {
    type V = ReplyView;

    open spec fn view(&self) -> ReplyView {
        match *self {
            Reply::Done => ReplyView::Done,
            Reply::Failed(e) => ReplyView::Failed(e@),
            Reply::Head { success, status } => ReplyView::Head { success, status: status@ },
            Reply::Manifest(m) => ReplyView::Manifest(m@),
            Reply::Bytes(b) => ReplyView::Bytes(b@),
            Reply::Path(p) => ReplyView::Path(p@),
        }
    }
}

/// A conversation about an update.
pub type Talk<R> = Dialogue<RequestView, ReplyView, R>;

/// What went wrong, where a reply is none of those that were to be expected.
pub open spec fn cause(a: ReplyView) -> Text {
    match a {
        ReplyView::Failed(e) => e,
        _ => "unexpected reply"@,
    }
}

/// What went wrong, with a label in front.
fn fault(label: &str, a: &Reply) -> (s: String)
    ensures
        s@ == label@ + cause(a@),
{
    match a {
        Reply::Failed(e) => join(label, e),
        _ => join(label, "unexpected reply"),
    }
}

/// Asks for something to be done; what goes wrong is told with a label in front.
pub open spec fn done_talk(q: RequestView, label: Text) -> Talk<Result<(), Text>> {
    then_do(
        asked(q),
        |a: ReplyView|
            Dialogue::End(
                match a {
                    ReplyView::Failed(e) => Err(label + e),
                    _ => Ok(()),
                },
            ),
    )
}

/// The model of a result without a value.
pub open spec fn unit_view(r: Result<(), String>) -> Result<(), Text> {
    match r {
        Ok(()) => Ok(()),
        Err(e) => Err(e@),
    }
}

fn done(t: &mut Tape<Request, Reply>, q: Request, label: &str) -> (r: Option<Result<(), String>>)
    requires
        old(t).wf(),
    ensures
        final(t).reached(old(t), done_talk(q@, label@), opt(r, |v| unit_view(v))),
{
    broadcast use lemma_follow_then;

    match t.ask_for(q)? {
        Reply::Failed(e) => Some(Err(join(label, e))),
        _ => Some(Ok(())),
    }
}

/// Asks for a document and sees that it can be had.
pub open spec fn get_talk(url: Text, failed: Text, refused: Text) -> Talk<Result<(), Text>> {
    then_do(
        asked(RequestView::Get(url)),
        |a: ReplyView|
            Dialogue::End(
                match a {
                    ReplyView::Head { success, status } => if success {
                        Ok(())
                    } else {
                        Err(refused + status)
                    },
                    _ => Err(failed + cause(a)),
                },
            ),
    )
}

fn get(t: &mut Tape<Request, Reply>, url: &str, failed: &str, refused: &str) -> (r: Option<Result<(), String>>)
    requires
        old(t).wf(),
    ensures
        final(t).reached(old(t), get_talk(url@, failed@, refused@), opt(r, |v| unit_view(v))),
{
    broadcast use lemma_follow_then;

    let a = t.ask_for(Request::Get(url.to_owned()))?;
    match a {
        Reply::Head { success, status } => if *success {
            Some(Ok(()))
        } else {
            Some(Err(join(refused, status)))
        },
        _ => Some(Err(fault(failed, a))),
    }
}

/// Asks the server whether there is a newer launcher than this one.
pub open spec fn check_for_update_talk(file_server: Text, current: Text) -> Talk<Result<UpdateCheckView, Text>> {
    if_ok(
        done_talk(RequestView::Connect { timeout_seconds: Some(8) }, "http client: "@),
        |u: ()|
            if_ok(
                get_talk(manifest_at(file_server), "request failed: "@, "manifest HTTP "@),
                |u: ()|
                    then_do(
                        asked(RequestView::Manifest),
                        |a: ReplyView|
                            Dialogue::End(
                                match a {
                                    ReplyView::Manifest(m) => Ok(checked(current, m)),
                                    _ => Err("invalid manifest JSON: "@ + cause(a)),
                                },
                            ),
                    ),
            ),
    )
}

/// The model of what the server was asked.
pub open spec fn check_view(r: Result<UpdateCheckResult, String>) -> Result<UpdateCheckView, Text> {
    match r {
        Ok(c) => Ok(c@),
        Err(e) => Err(e@),
    }
}

fn do_check_for_update(t: &mut Tape<Request, Reply>, file_server: &str, current: &str) -> (r: Option<
    Result<UpdateCheckResult, String>,
>)
    requires
        old(t).wf(),
    ensures
        final(t).reached(old(t), check_for_update_talk(file_server@, current@), opt(r, |v| check_view(v))),
{
    broadcast use lemma_follow_then;

    if let Err(e) = done(t, Request::Connect { timeout_seconds: Some(8) }, "http client: ")? {
        return Some(Err(e));
    }
    if let Err(e) = get(t, &manifest_url(file_server), "request failed: ", "manifest HTTP ")? {
        return Some(Err(e));
    }
    let a = t.ask_for(Request::Manifest)?;
    match a {
        Reply::Manifest(m) => Some(Ok(check_manifest(current, m))),
        _ => Some(Err(fault("invalid manifest JSON: ", a))),
    }
}

/// Asks the server whether there is a newer launcher than this one, of the version
/// `current`.
pub fn check_for_update(file_server: &str, current: &str, replies: &Vec<Reply>) -> (r: Step<
    Request,
    Result<UpdateCheckResult, String>,
>)
    ensures
        meets(
            r,
            |v: Result<UpdateCheckResult, String>| check_view(v),
            check_for_update_talk(file_server@, current@),
            replies@,
        ),
{
    let mut t = Tape::new(replies);
    let r = do_check_for_update(&mut t, file_server, current);
    t.finish(r)
}

/// The SHA-256 of bytes.
pub uninterp spec fn sha256(b: Seq<u8>) -> Seq<u8>;

/// `sha2::Sha256::digest` gives the SHA-256 of bytes: 32 bytes. How it comes about
/// is left to it.
#[verifier::external_body]
fn sha256_of(b: &[u8]) -> (r: Vec<u8>)
    ensures
        r@ == sha256(b@),
        r@.len() == 32,
{
    sha2::Sha256::digest(b).to_vec()
}

/// Whether a digest is the one that was expected: in hexadecimal, in whatever case,
/// or none.
pub open spec fn digest_result(digest: Seq<u8>, expected: Option<Text>) -> Result<(), Text> {
    match expected {
        Some(e) if e.len() > 0 => if lowered(hex(digest, false)) == lowered(e) {
            Ok(())
        } else {
            Err("sha256 mismatch (expected "@ + e + ", got "@ + hex(digest, false) + ")"@)
        },
        _ => Ok(()),
    }
}

/// The text of an optional string.
pub open spec fn text_of(s: Option<String>) -> Option<Text> {
    match s {
        Some(s) => Some(s@),
        None => None,
    }
}

/// Whether `s` is a text that is not empty.
fn is_given(s: &Option<String>) -> (r: bool)
    ensures
        r == (text_of(*s) matches Some(e) && e.len() > 0),
{
    match s {
        Some(e) => !e.as_str().is_empty(),
        None => false,
    }
}

/// Holds a digest against the one that was expected.
pub fn check_digest(digest: &[u8], expected: &Option<String>) -> (r: Result<(), String>)
    ensures
        unit_view(r) == digest_result(digest@, text_of(*expected)),
{
    match expected {
        Some(e) => {
            if e.as_str().is_empty() {
                return Ok(());
            }
            let got = hex_of(digest, false);
            if same(&to_lower(&got), &to_lower(&chars_of(e))) {
                Ok(())
            } else {
                let mut message = join("sha256 mismatch (expected ", e);
                message.append(", got ");
                message.append(&string_of(&got));
                message.append(")");
                Err(message)
            }
        },
        None => Ok(()),
    }
}

/// Holds a download against the digest that was expected, where one was.
pub fn check_download(b: &[u8], expected: &Option<String>) -> (r: Result<(), String>)
    ensures
        unit_view(r) == digest_result(sha256(b@), text_of(*expected)),
{
    if is_given(expected) {
        check_digest(&sha256_of(b), expected)
    } else {
        Ok(())
    }
}

/// The file that the new program is downloaded to.
pub open spec fn new_exe_name(pid: u32) -> Text {
    "teralaunch_new_"@ + dec(pid as nat) + ".exe"@
}

/// The file of the script that replaces the program.
pub open spec fn script_name(pid: u32) -> Text {
    "teralaunch_update_"@ + dec(pid as nat) + ".bat"@
}

/// `head`, a number, `tail`.
fn numbered(head: &str, n: u32, tail: &str) -> (s: String)
    ensures
        s@ == head@ + dec(n as nat) + tail@,
{
    let mut s = join(head, &decimal(n as u64));
    s.append(tail);
    s
}

/// The script that waits for this process to end, puts the new program in the place
/// of the old one and starts it.
pub open spec fn script(target: Text, source: Text, pid: u32) -> Text {
    "@echo off\r\nsetlocal\r\nset TARGET=\""@ + target + "\"\r\nset SOURCE=\""@ + source
        + "\"\r\necho Waiting for launcher (PID "@ + dec(pid as nat)
        + ") to exit...\r\n:wait\r\ntasklist /FI \"PID eq "@ + dec(pid as nat) + "\" 2>NUL | find /I \""@ + dec(
        pid as nat,
    )
        + "\" >NUL\r\nif not errorlevel 1 (\r\ntimeout /t 1 /nobreak >NUL\r\ngoto wait\r\n)\r\necho Replacing launcher binary...\r\nmove /Y %SOURCE% %TARGET% >NUL\r\nif errorlevel 1 (\r\necho Update failed: could not replace %TARGET%.\r\npause\r\nexit /b 1\r\n)\r\necho Restarting launcher...\r\nstart \"\" %TARGET%\r\ndel \"%~f0\" 2>NUL\r\nendlocal\r\n"@
}

/// Writes the script that replaces the program.
pub fn helper_script(target: &str, source: &str, pid: u32) -> (s: String)
    ensures
        s@ == script(target@, source@, pid),
{
    let number = decimal(pid as u64);
    let mut s = join("@echo off\r\nsetlocal\r\nset TARGET=\"", target);
    s.append("\"\r\nset SOURCE=\"");
    s.append(source);
    s.append("\"\r\necho Waiting for launcher (PID ");
    s.append(&number);
    s.append(") to exit...\r\n:wait\r\ntasklist /FI \"PID eq ");
    s.append(&number);
    s.append("\" 2>NUL | find /I \"");
    s.append(&number);
    s.append(
        "\" >NUL\r\nif not errorlevel 1 (\r\ntimeout /t 1 /nobreak >NUL\r\ngoto wait\r\n)\r\necho Replacing launcher binary...\r\nmove /Y %SOURCE% %TARGET% >NUL\r\nif errorlevel 1 (\r\necho Update failed: could not replace %TARGET%.\r\npause\r\nexit /b 1\r\n)\r\necho Restarting launcher...\r\nstart \"\" %TARGET%\r\ndel \"%~f0\" 2>NUL\r\nendlocal\r\n",
    );
    s
}

/// How the script is started, apart from the launcher.
pub open spec fn spawn_script(windows: bool, pid: u32) -> RequestView {
    if windows {
        RequestView::Spawn {
            program: "cmd"@,
            arguments: seq!["/C"@, "start"@, ""@, "/min"@],
            script: script_name(pid),
        }
    } else {
        RequestView::Spawn { program: "sh"@, arguments: seq![], script: script_name(pid) }
    }
}

fn script_start(windows: bool, pid: u32) -> (q: Request)
    ensures
        q@ == spawn_script(windows, pid),
{
    let name = numbered("teralaunch_update_", pid, ".bat");
    if windows {
        let arguments = vec!["/C".to_owned(), "start".to_owned(), "".to_owned(), "/min".to_owned()];
        assert(strings(arguments@) =~= seq!["/C"@, "start"@, ""@, "/min"@]);
        Request::Spawn { program: "cmd".to_owned(), arguments, script: name }
    } else {
        let arguments: Vec<String> = Vec::new();
        assert(strings(arguments@) =~= Seq::<Text>::empty());
        Request::Spawn { program: "sh".to_owned(), arguments, script: name }
    }
}

/// A path, or that it cannot be had.
pub open spec fn path_talk(q: RequestView, label: Text) -> Talk<Result<Text, Text>> {
    then_do(
        asked(q),
        |a: ReplyView|
            Dialogue::End(
                match a {
                    ReplyView::Path(p) => Ok(p),
                    _ => Err(label + cause(a)),
                },
            ),
    )
}

/// The model of a path.
pub open spec fn path_view(r: Result<String, String>) -> Result<Text, Text> {
    match r {
        Ok(p) => Ok(p@),
        Err(e) => Err(e@),
    }
}

fn path(t: &mut Tape<Request, Reply>, q: Request, label: &str) -> (r: Option<Result<String, String>>)
    requires
        old(t).wf(),
    ensures
        final(t).reached(old(t), path_talk(q@, label@), opt(r, |v| path_view(v))),
{
    broadcast use lemma_follow_then;

    let a = t.ask_for(q)?;
    match a {
        Reply::Path(p) => Some(Ok(p.clone())),
        _ => Some(Err(fault(label, a))),
    }
}

/// The path of a file that need not last.
pub open spec fn temp_path_talk(name: Text) -> Talk<Text> {
    then_do(
        asked(RequestView::TempPath(name)),
        |a: ReplyView|
            Dialogue::End(
                match a {
                    ReplyView::Path(p) => p,
                    _ => ""@,
                },
            ),
    )
}

fn temp_path(t: &mut Tape<Request, Reply>, name: String) -> (r: Option<String>)
    requires
        old(t).wf(),
    ensures
        final(t).reached(old(t), temp_path_talk(name@), opt(r, |s: String| s@)),
{
    broadcast use lemma_follow_then;

    match t.ask_for(Request::TempPath(name))? {
        Reply::Path(p) => Some(p.clone()),
        _ => Some("".to_owned()),
    }
}

/// The new program is downloaded.
pub open spec fn download_talk(url: Text) -> Talk<Result<Seq<u8>, Text>> {
    if_ok(
        done_talk(RequestView::Connect { timeout_seconds: None }, "http client: "@),
        |u: ()|
            if_ok(
                get_talk(url, "download request: "@, "download HTTP "@),
                |u: ()|
                    then_do(
                        asked(RequestView::Body),
                        |a: ReplyView|
                            Dialogue::End(
                                match a {
                                    ReplyView::Bytes(b) => Ok(b),
                                    _ => Err("download body: "@ + cause(a)),
                                },
                            ),
                    ),
            ),
    )
}

/// The model of a download.
pub open spec fn bytes_view(r: Result<&Vec<u8>, String>) -> Result<Seq<u8>, Text> {
    match r {
        Ok(b) => Ok(b@),
        Err(e) => Err(e@),
    }
}

fn download<'a>(t: &mut Tape<'a, Request, Reply>, url: &str) -> (r: Option<Result<&'a Vec<u8>, String>>)
    requires
        old(t).wf(),
    ensures
        final(t).reached(old(t), download_talk(url@), opt(r, |v| bytes_view(v))),
{
    broadcast use lemma_follow_then;

    if let Err(e) = done(t, Request::Connect { timeout_seconds: None }, "http client: ")? {
        return Some(Err(e));
    }
    if let Err(e) = get(t, url, "download request: ", "download HTTP ")? {
        return Some(Err(e));
    }
    let a = t.ask_for(Request::Body)?;
    match a {
        Reply::Bytes(b) => Some(Ok(b)),
        _ => Some(Err(fault("download body: ", a))),
    }
}

/// The new program is put down beside the script that replaces the old one, and the
/// script is started.
pub open spec fn install_talk(target: Text, b: Seq<u8>, pid: u32, windows: bool) -> Talk<Result<(), Text>> {
    if_ok(
        done_talk(RequestView::CreateTemp(new_exe_name(pid)), "create temp exe: "@),
        |u: ()|
            if_ok(
                done_talk(RequestView::WriteTemp(b), "write temp exe: "@),
                |u: ()|
                    then_do(
                        temp_path_talk(new_exe_name(pid)),
                        |source: Text|
                            if_ok(
                                done_talk(
                                    RequestView::WriteText {
                                        name: script_name(pid),
                                        text: script(target, source, pid),
                                    },
                                    "write helper bat: "@,
                                ),
                                |u: ()| done_talk(spawn_script(windows, pid), "spawn helper: "@),
                            ),
                    ),
            ),
    )
}

fn install(t: &mut Tape<Request, Reply>, target: &str, b: &Vec<u8>, pid: u32, windows: bool) -> (r: Option<
    Result<(), String>,
>)
    requires
        old(t).wf(),
    ensures
        final(t).reached(old(t), install_talk(target@, b@, pid, windows), opt(r, |v| unit_view(v))),
{
    broadcast use lemma_follow_then;

    let create = Request::CreateTemp(numbered("teralaunch_new_", pid, ".exe"));
    if let Err(e) = done(t, create, "create temp exe: ")? {
        return Some(Err(e));
    }
    if let Err(e) = done(t, Request::WriteTemp(b.clone()), "write temp exe: ")? {
        return Some(Err(e));
    }
    let source = temp_path(t, numbered("teralaunch_new_", pid, ".exe"))?;
    let write = Request::WriteText {
        name: numbered("teralaunch_update_", pid, ".bat"),
        text: helper_script(target, &source, pid),
    };
    if let Err(e) = done(t, write, "write helper bat: ")? {
        return Some(Err(e));
    }
    done(t, script_start(windows, pid), "spawn helper: ")
}

/// The new program is held against its digest and installed.
pub open spec fn check_and_install_talk(
    target: Text,
    b: Seq<u8>,
    expected: Option<Text>,
    pid: u32,
    windows: bool,
) -> Talk<Result<(), Text>> {
    match digest_result(sha256(b), expected) {
        Ok(()) => install_talk(target, b, pid, windows),
        Err(e) => Dialogue::End(Err(e)),
    }
}

/// The new program is downloaded, held against its digest and installed.
pub open spec fn download_and_apply_talk(url: Text, expected: Option<Text>, pid: u32, windows: bool) -> Talk<
    Result<(), Text>,
> {
    if url.len() == 0 {
        Dialogue::End(Err("empty download URL"@))
    } else {
        if_ok(
            path_talk(RequestView::CurrentExe, "current_exe: "@),
            |target: Text|
                if_ok(
                    download_talk(url),
                    |b: Seq<u8>| check_and_install_talk(target, b, expected, pid, windows),
                ),
        )
    }
}

fn do_download_and_apply(
    t: &mut Tape<Request, Reply>,
    url: &str,
    expected: &Option<String>,
    pid: u32,
    windows: bool,
) -> (r: Option<Result<(), String>>)
    requires
        old(t).wf(),
    ensures
        final(t).reached(
            old(t),
            download_and_apply_talk(url@, text_of(*expected), pid, windows),
            opt(r, |v| unit_view(v)),
        ),
{
    broadcast use lemma_follow_then;

    if url.is_empty() {
        return Some(Err("empty download URL".to_owned()));
    }
    let target = match path(t, Request::CurrentExe, "current_exe: ")? {
        Ok(p) => p,
        Err(e) => {
            return Some(Err(e));
        },
    };
    let b = match download(t, url)? {
        Ok(b) => b,
        Err(e) => {
            return Some(Err(e));
        },
    };
    if let Err(e) = check_download(b, expected) {
        return Some(Err(e));
    }
    install(t, &target, b, pid, windows)
}

/// Downloads the new program, holds it against its digest, and has a script put it
/// in the place of this one, whose process is `pid`, once that has ended.
pub fn download_and_apply(
    url: &str,
    expected_sha256: &Option<String>,
    pid: u32,
    windows: bool,
    replies: &Vec<Reply>,
) -> (r: Step<Request, Result<(), String>>)
    ensures
        meets(
            r,
            |v: Result<(), String>| unit_view(v),
            download_and_apply_talk(url@, text_of(*expected_sha256), pid, windows),
            replies@,
        ),
{
    let mut t = Tape::new(replies);
    let r = do_download_and_apply(&mut t, url, expected_sha256, pid, windows);
    t.finish(r)
}

/// The update is made, and the launcher gives way to it: it waits a moment and ends.
pub open spec fn apply_launcher_update_talk(url: Text, expected: Option<Text>, pid: u32, windows: bool) -> Talk<
    Result<(), Text>,
> {
    if_ok(
        download_and_apply_talk(url, expected, pid, windows),
        |u: ()|
            then_do(
                asked(RequestView::Pause { milliseconds: 500 }),
                |a: ReplyView| then_do(asked(RequestView::Exit), |a: ReplyView| Dialogue::End(Ok(()))),
            ),
    )
}

fn do_apply_launcher_update(
    t: &mut Tape<Request, Reply>,
    url: &str,
    expected: &Option<String>,
    pid: u32,
    windows: bool,
) -> (r: Option<Result<(), String>>)
    requires
        old(t).wf(),
    ensures
        final(t).reached(
            old(t),
            apply_launcher_update_talk(url@, text_of(*expected), pid, windows),
            opt(r, |v| unit_view(v)),
        ),
{
    broadcast use lemma_follow_then;

    if let Err(e) = do_download_and_apply(t, url, expected, pid, windows)? {
        return Some(Err(e));
    }
    t.ask_for(Request::Pause { milliseconds: 500 })?;
    t.ask_for(Request::Exit)?;
    Some(Ok(()))
}

/// Makes the update and ends the launcher.
pub fn apply_launcher_update(
    url: &str,
    sha256: &Option<String>,
    pid: u32,
    windows: bool,
    replies: &Vec<Reply>,
) -> (r: Step<Request, Result<(), String>>)
    ensures
        meets(
            r,
            |v: Result<(), String>| unit_view(v),
            apply_launcher_update_talk(url@, text_of(*sha256), pid, windows),
            replies@,
        ),
{
    let mut t = Tape::new(replies);
    let r = do_apply_launcher_update(&mut t, url, sha256, pid, windows);
    t.finish(r)
}

/// A launcher of the newest version is offered no update, and neither is one that is
/// newer still.
pub proof fn law_update_is_offered_upwards(current: Text, manifest: ManifestView)
    ensures
        manifest.version == current ==> !checked(current, manifest).update_available,
        newer(current, manifest.version) ==> !checked(current, manifest).update_available,
{
    law_newer_is_an_order(current, manifest.version, current);
}

/// A download that does not have the digest that was expected is not put down: after
/// it nothing is asked for any more, and the result says so.
pub proof fn law_wrong_download_is_not_installed(
    url: Text,
    expected: Option<Text>,
    pid: u32,
    windows: bool,
    replies: Seq<ReplyView>,
    b: Seq<u8>,
)
    requires
        url.len() > 0,
        replies.len() >= 4,
        replies[0] is Path,
        !(replies[1] is Failed),
        replies[2] matches ReplyView::Head { success, .. } && success,
        replies[3] == ReplyView::Bytes(b),
        digest_result(sha256(b), expected) is Err,
    ensures
        sent(download_and_apply_talk(url, expected, pid, windows), replies, 0) == seq![
            RequestView::CurrentExe,
            RequestView::Connect { timeout_seconds: None },
            RequestView::Get(url),
            RequestView::Body,
        ],
        follow(download_and_apply_talk(url, expected, pid, windows), replies, 0) == Stage::<
            RequestView,
            Result<(), Text>,
        >::Finished(digest_result(sha256(b), expected), 4),
{
    broadcast use group_sent;

    assert(sent(download_and_apply_talk(url, expected, pid, windows), replies, 0) =~= seq![
        RequestView::CurrentExe,
        RequestView::Connect { timeout_seconds: None },
        RequestView::Get(url),
        RequestView::Body,
    ]);
}

/// Asking for the path of the running program puts nothing down.
proof fn lemma_path_sent(q: RequestView, label: Text, h: Seq<ReplyView>, i: int)
    ensures
        sent(path_talk(q, label), h, i) == seq![q],
        follow(path_talk(q, label), h, i) matches Stage::Finished(_, j) ==> j == i + 1,
{
    broadcast use group_sent;

    assert(seq![q] + Seq::<RequestView>::empty() =~= seq![q]);
}

/// Downloading puts nothing down, and what comes of it is the reply to the last
/// request.
proof fn lemma_download_sent(url: Text, h: Seq<ReplyView>, i: int)
    requires
        0 <= i,
    ensures
        forall|k: int|
            0 <= k < sent(download_talk(url), h, i).len() ==> !((#[trigger] sent(download_talk(url), h, i)[k]) is WriteTemp),
        follow(download_talk(url), h, i) matches Stage::Finished(Ok(b), _) ==> h[i + 2] == ReplyView::Bytes(b),
{
    broadcast use group_sent;

}

/// What is put down by the installation is what is to be installed.
proof fn lemma_install_sent(target: Text, b: Seq<u8>, pid: u32, windows: bool, h: Seq<ReplyView>, i: int)
    ensures
        forall|k: int|
            0 <= k < sent(install_talk(target, b, pid, windows), h, i).len() ==> (#[trigger] sent(
                install_talk(target, b, pid, windows),
                h,
                i,
            )[k] matches RequestView::WriteTemp(c) ==> c == b),
{
    broadcast use group_sent;

}

/// What is put down as the new program is what was downloaded, and it has the digest
/// that was expected.
pub proof fn law_only_the_download_is_installed(
    url: Text,
    expected: Option<Text>,
    pid: u32,
    windows: bool,
    replies: Seq<ReplyView>,
    k: int,
)
    requires
        0 <= k < sent(download_and_apply_talk(url, expected, pid, windows), replies, 0).len(),
        sent(download_and_apply_talk(url, expected, pid, windows), replies, 0)[k] is WriteTemp,
    ensures
        ({
            let b = sent(download_and_apply_talk(url, expected, pid, windows), replies, 0)[k]->WriteTemp_0;
            replies[3] == ReplyView::Bytes(b) && digest_result(sha256(b), expected) is Ok
        }),
{
    let path = path_talk(RequestView::CurrentExe, "current_exe: "@);
    let load = download_talk(url);
    let fetch = |target: Text|
        if_ok(load, |b: Seq<u8>| check_and_install_talk(target, b, expected, pid, windows));
    lemma_path_sent(RequestView::CurrentExe, "current_exe: "@, replies, 0);
    lemma_sent_if_ok(path, fetch, replies, 0);
    let all = sent(if_ok(path, fetch), replies, 0);
    assert(sent(path, replies, 0)[0] == RequestView::CurrentExe);
    if let Stage::Finished(Ok(target), _) = follow(path, replies, 0) {
        let put = |b: Seq<u8>| check_and_install_talk(target, b, expected, pid, windows);
        lemma_download_sent(url, replies, 1);
        lemma_sent_if_ok(load, put, replies, 1);
        let n = sent(load, replies, 1).len() as int;
        if 1 <= k < n + 1 {
            assert(all[k] == sent(load, replies, 1)[k - 1]);
        } else if let Stage::Finished(Ok(b), j) = follow(load, replies, 1) {
            assert(all[k] == sent(put(b), replies, j)[k - 1 - n]);
            if digest_result(sha256(b), expected) is Ok {
                lemma_install_sent(target, b, pid, windows, replies, j);
            }
        }
    }
}

/// Whatever path the file server's URL has, what the newest launcher is stands on the
/// same host, under one path.
pub proof fn law_manifest_is_on_the_same_host(scheme: Text, host: Text, path: Text)
    requires
        !scheme.contains(':'),
        host.len() > 0,
        !host.contains('/'),
    ensures
        manifest_at(scheme + "://"@ + host + "/"@ + path) == scheme + "://"@ + host
            + "/tera/launcher/launcher-version.json"@,
        manifest_at(scheme + "://"@ + host) == scheme + "://"@ + host + "/tera/launcher/launcher-version.json"@,
{
    reveal_strlit("://");
    reveal_strlit("/");
    let base = scheme + "://"@ + host;
    let url = base + "/"@ + path;
    let n = scheme.len() as int;
    let m = base.len() as int;
    assert forall|i: int| 0 <= i < n implies url[i] != ':' && base[i] != ':' by {
        assert(scheme.contains(scheme[i]) && url[i] == scheme[i] && base[i] == scheme[i]);
    }
    assert forall|i: int| n + 3 <= i < m implies url[i] != '/' && base[i] != '/' by {
        assert(host.contains(host[i - n - 3]) && url[i] == host[i - n - 3] && base[i] == host[i - n - 3]);
    }
    lemma_first(url, "://"@, 0, n);
    lemma_first(base, "://"@, 0, n);
    lemma_first(url, "/"@, n + 3, m);
    lemma_nowhere(base, n + 3);
    assert(url.take(m) =~= base);
    assert(base.last() != '/');
}

/// What stands at `k`, and whose first character stands nowhere before, is first
/// found there.
proof fn lemma_first(s: Text, p: Text, i: int, k: int)
    requires
        0 <= i <= k,
        p.len() > 0,
        k + p.len() <= s.len(),
        forall|j: int| 0 <= j < p.len() ==> s[k + j] == p[j],
        forall|j: int| i <= j < k ==> s[j] != p[0],
    ensures
        first_at(s, p, i) == Some(k),
    decreases k - i,
{
    if i < k {
        lemma_first(s, p, i + 1, k);
        assert(s.subrange(i, i + p.len())[0] == s[i]);
    } else {
        assert(s.subrange(k, k + p.len()) =~= p);
    }
}

/// Where no slash stands none is found.
proof fn lemma_nowhere(s: Text, i: int)
    requires
        0 <= i <= s.len(),
        forall|j: int| i <= j < s.len() ==> s[j] != '/',
    ensures
        first_at(s, "/"@, i) is None,
    decreases s.len() - i,
{
    reveal_strlit("/");
    if i < s.len() {
        lemma_nowhere(s, i + 1);
        assert(s.subrange(i, i + 1)[0] == s[i]);
    }
}

/// What the server says of the newest launcher is told as it is, with the version of this
/// one; of two versions made of numbers with dots between them the update is offered exactly
/// where the number of the server's is the greater at the first place at which they differ.
pub proof fn law_what_the_server_says_is_told(current: Text, manifest: ManifestView, a: Seq<nat>, b: Seq<nat>)
    requires
        a.len() > 0,
        b.len() > 0,
        forall|i: int| 0 <= i < a.len() ==> #[trigger] a[i] <= u64::MAX,
        forall|i: int| 0 <= i < b.len() ==> #[trigger] b[i] <= u64::MAX,
    ensures
        checked(current, manifest).current_version == current,
        checked(current, manifest).latest_version == manifest.version,
        checked(current, manifest).notes == manifest.notes,
        checked(current, manifest).mandatory == manifest.mandatory,
        checked(current, manifest).url == manifest.url,
        manifest.version == joined(a.map_values(|n: nat| dec(n)), '.') && current == joined(
            b.map_values(|n: nat| dec(n)),
            '.',
        ) ==> (checked(current, manifest).update_available <==> exists|k: int|
            {
                &&& 0 <= k
                &&& #[trigger] nth(a, k) > nth(b, k)
                &&& forall|i: int| 0 <= i < k ==> #[trigger] nth(a, i) == nth(b, i)
            }),
{
    law_greater_number_is_newer(a, b);
}

/// A digest is held against the one that was expected, byte by byte: the one that was
/// expected has two hexadecimal digits for each byte, in either case, and nothing besides.
/// Where none was expected every digest will do.
pub proof fn law_digests_are_compared(digest: Seq<u8>, expected: Text, i: int)
    ensures
        digest_result(digest, None) is Ok,
        digest_result(digest, Some(Seq::empty())) is Ok,
        digest_result(digest, Some(hex(digest, false))) is Ok,
        digest_result(digest, Some(hex(digest, true))) is Ok,
        expected.len() > 0 && expected.len() != 2 * digest.len() ==> digest_result(digest, Some(expected)) is Err,
        expected.len() > 0 && 0 <= i < digest.len() && digest_result(digest, Some(expected)) is Ok ==> ({
            let high = digest[i] as int / 16;
            let low = digest[i] as int % 16;
            &&& high < 10 ==> expected[2 * i] == (('0' as int) + high) as char
            &&& high >= 10 ==> expected[2 * i] == (('a' as int) + high - 10) as char || expected[2 * i] == (('A' as int)
                + high - 10) as char
            &&& low < 10 ==> expected[2 * i + 1] == (('0' as int) + low) as char
            &&& low >= 10 ==> expected[2 * i + 1] == (('a' as int) + low - 10) as char || expected[2 * i + 1] == ((
            'A' as int) + low - 10) as char
        }),
        digest_result(digest, Some(expected)) is Err ==> digest_result(digest, Some(expected)) == Err::<(), Text>(
            "sha256 mismatch (expected "@ + expected + ", got "@ + hex(digest, false) + ")"@,
        ),
{
    lemma_hex_case(digest);
    let (h, l) = (lowered(hex(digest, false)), lowered(expected));
    if 0 <= i < digest.len() {
        law_hexadecimal_digits(digest, false, i, digest[i] as int / 16, digest[i] as int % 16);
        if h == l {
            assert(h[2 * i] == l[2 * i] && h[2 * i + 1] == l[2 * i + 1]);
        }
    }
    if h == l {
        assert(h.len() == l.len());
    }
}

/// Hexadecimal digits are the same in either case.
proof fn lemma_hex_case(digest: Seq<u8>)
    ensures
        hex(digest, false).len() == 2 * digest.len(),
        lowered(hex(digest, true)) == lowered(hex(digest, false)),
    decreases digest.len(),
{
    if digest.len() > 0 {
        lemma_hex_case(digest.drop_last());
        let (u, v) = (hex(digest, true), hex(digest, false));
        let (p, q) = (hex(digest.drop_last(), true), hex(digest.drop_last(), false));
        assert(lowered(p).len() == lowered(q).len());
        assert forall|k: int| 0 <= k < u.len() implies lowered(u)[k] == lowered(v)[k] by {
            if k < p.len() {
                assert(lowered(p)[k] == lowered(q)[k]);
            }
        }
        assert(lowered(u) =~= lowered(v));
    }
}

/// A download that is in order is put down, then the script that puts it in the place of
/// this program, and the script is started: with these requests, in this order, and a
/// success. The launcher then waits for half a second and ends.
#[verifier::spinoff_prover]
#[verifier::rlimit(40)]
pub proof fn law_what_an_update_takes(
    url: Text,
    expected: Option<Text>,
    pid: u32,
    windows: bool,
    replies: Seq<ReplyView>,
    target: Text,
    source: Text,
    b: Seq<u8>,
)
    requires
        url.len() > 0,
        replies.len() == 11,
        replies[0] == ReplyView::Path(target),
        forall|i: int| 0 <= i < 11 ==> !((#[trigger] replies[i]) is Failed),
        replies[2] matches ReplyView::Head { success, .. } && success,
        replies[3] == ReplyView::Bytes(b),
        digest_result(sha256(b), expected) is Ok,
        replies[6] == ReplyView::Path(source),
    ensures
        ({
            let program = "teralaunch_new_"@ + dec(pid as nat) + ".exe"@;
            let batch = "teralaunch_update_"@ + dec(pid as nat) + ".bat"@;
            let all = seq![
                RequestView::CurrentExe,
                RequestView::Connect { timeout_seconds: None },
                RequestView::Get(url),
                RequestView::Body,
                RequestView::CreateTemp(program),
                RequestView::WriteTemp(b),
                RequestView::TempPath(program),
                RequestView::WriteText { name: batch, text: script(target, source, pid) },
                RequestView::Spawn {
                    program: if windows { "cmd"@ } else { "sh"@ },
                    arguments: if windows { seq!["/C"@, "start"@, ""@, "/min"@] } else { Seq::<Text>::empty() },
                    script: batch,
                },
            ];
            &&& sent(download_and_apply_talk(url, expected, pid, windows), replies, 0) == all
            &&& follow(download_and_apply_talk(url, expected, pid, windows), replies, 0) == Stage::<
                RequestView,
                Result<(), Text>,
            >::Finished(Ok(()), 9)
            &&& sent(apply_launcher_update_talk(url, expected, pid, windows), replies, 0) == all + seq![
                RequestView::Pause { milliseconds: 500 },
                RequestView::Exit,
            ]
            &&& follow(apply_launcher_update_talk(url, expected, pid, windows), replies, 0) == Stage::<
                RequestView,
                Result<(), Text>,
            >::Finished(Ok(()), 11)
        }),
{
    broadcast use group_sent;

    let program = "teralaunch_new_"@ + dec(pid as nat) + ".exe"@;
    let batch = "teralaunch_update_"@ + dec(pid as nat) + ".bat"@;
    let all = seq![
        RequestView::CurrentExe,
        RequestView::Connect { timeout_seconds: None },
        RequestView::Get(url),
        RequestView::Body,
        RequestView::CreateTemp(program),
        RequestView::WriteTemp(b),
        RequestView::TempPath(program),
        RequestView::WriteText { name: batch, text: script(target, source, pid) },
        RequestView::Spawn {
            program: if windows { "cmd"@ } else { "sh"@ },
            arguments: if windows { seq!["/C"@, "start"@, ""@, "/min"@] } else { Seq::<Text>::empty() },
            script: batch,
        },
    ];
    assert(sent(download_and_apply_talk(url, expected, pid, windows), replies, 0) =~= all);
    assert(sent(apply_launcher_update_talk(url, expected, pid, windows), replies, 0) =~= all + seq![
        RequestView::Pause { milliseconds: 500 },
        RequestView::Exit,
    ]);
}

/// An end with something to tell, after so many replies.
pub open spec fn told(message: Text, replies: int) -> Stage<RequestView, Result<(), Text>> {
    Stage::Finished(Err(message), replies)
}

/// What goes wrong on the way ends the update and is told; nothing is put down before the
/// download is there, the launcher does not end, and without an address nothing is asked.
pub proof fn law_failed_update_is_told(
    url: Text,
    expected: Option<Text>,
    pid: u32,
    windows: bool,
    replies: Seq<ReplyView>,
    e: Text,
)
    requires
        replies.len() >= 4,
    ensures
        ({
            let talk = apply_launcher_update_talk(url, expected, pid, windows);
            let asked = sent(talk, replies, 0);
            let end = follow(talk, replies, 0);
            let there = url.len() > 0 && replies[0] is Path;
            let linked = there && !(replies[1] is Failed);
            let found = linked && (replies[2] matches ReplyView::Head { success, .. } && success);
            &&& url.len() == 0 ==> asked == Seq::<RequestView>::empty() && end == told("empty download URL"@, 0)
            &&& url.len() > 0 && replies[0] == ReplyView::Failed(e) ==> asked.len() == 1 && end == told("current_exe: "@ + e, 1)
            &&& there && replies[1] == ReplyView::Failed(e) ==> asked.len() == 2 && end == told("http client: "@ + e, 2)
            &&& linked && replies[2] == ReplyView::Failed(e) ==> asked.len() == 3 && end == told("download request: "@ + e, 3)
            &&& linked && (replies[2] matches ReplyView::Head { success, status } && !success && status == e)
                ==> asked.len() == 3 && end == told("download HTTP "@ + e, 3)
            &&& found && replies[3] == ReplyView::Failed(e) ==> asked.len() == 4 && end == told("download body: "@ + e, 4)
        }),
{
    broadcast use group_sent;

    let talk = apply_launcher_update_talk(url, expected, pid, windows);
    let asked = sent(talk, replies, 0);
    let end = follow(talk, replies, 0);
    if url.len() == 0 {
        assert(asked =~= Seq::<RequestView>::empty());
        assert(end == told("empty download URL"@, 0));
    } else if replies[0] == ReplyView::Failed(e) {
        assert(asked.len() == 1);
        assert(end == told("current_exe: "@ + e, 1));
    } else if replies[0] is Path && replies[1] == ReplyView::Failed(e) {
        assert(asked.len() == 2);
        assert(end == told("http client: "@ + e, 2));
    } else if replies[0] is Path && !(replies[1] is Failed) {
        if replies[2] == ReplyView::Failed(e) {
            assert(asked.len() == 3);
            assert(end == told("download request: "@ + e, 3));
        } else if let ReplyView::Head { success, status } = replies[2] {
            if !success && status == e {
                assert(asked.len() == 3);
                assert(end == told("download HTTP "@ + e, 3));
            } else if success && replies[3] == ReplyView::Failed(e) {
                assert(asked.len() == 4);
                assert(end == told("download body: "@ + e, 4));
            }
        }
    }
}

/// Whether there is a newer launcher is asked of the server once, within eight seconds, and
/// what goes wrong is told.
pub proof fn law_what_a_check_takes(
    file_server: Text,
    current: Text,
    replies: Seq<ReplyView>,
    m: ManifestView,
    e: Text,
)
    requires
        replies.len() >= 3,
    ensures
        ({
            let talk = check_for_update_talk(file_server, current);
            let asked = sent(talk, replies, 0);
            let comes_to = |r: Result<UpdateCheckView, Text>, n: int|
                follow(talk, replies, 0) == Stage::<RequestView, Result<UpdateCheckView, Text>>::Finished(r, n);
            let connect = RequestView::Connect { timeout_seconds: Some(8u64) };
            let get = RequestView::Get(manifest_at(file_server));
            let linked = !(replies[0] is Failed);
            let found = linked && (replies[1] matches ReplyView::Head { success, .. } && success);
            &&& replies[0] == ReplyView::Failed(e) ==> asked == seq![connect] && comes_to(Err("http client: "@ + e), 1)
            &&& linked && replies[1] == ReplyView::Failed(e) ==> asked == seq![connect, get] && comes_to(
                Err("request failed: "@ + e),
                2,
            )
            &&& linked && (replies[1] matches ReplyView::Head { success, status } && !success && status == e)
                ==> asked == seq![connect, get] && comes_to(Err("manifest HTTP "@ + e), 2)
            &&& found ==> asked == seq![connect, get, RequestView::Manifest]
            &&& found && replies[2] == ReplyView::Failed(e) ==> comes_to(Err("invalid manifest JSON: "@ + e), 3)
            &&& found && replies[2] == ReplyView::Manifest(m) ==> comes_to(Ok(checked(current, m)), 3)
        }),
{
    broadcast use group_sent;

    let talk = check_for_update_talk(file_server, current);
    let asked = sent(talk, replies, 0);
    let connect = RequestView::Connect { timeout_seconds: Some(8u64) };
    let get = RequestView::Get(manifest_at(file_server));
    if replies[0] is Failed {
        assert(asked =~= seq![connect]);
    } else if replies[1] matches ReplyView::Head { success, .. } && success {
        assert(asked =~= seq![connect, get, RequestView::Manifest]);
    } else {
        assert(asked =~= seq![connect, get]);
    }
}

/// The script has the old program for its target and the new one for its source. Then it
/// waits until the process is gone, moves the one over the other, stops where that cannot
/// be done, starts the program and deletes itself, in this order.
pub proof fn law_what_the_script_does(target: Text, source: Text, pid: u32)
    ensures
        ("@echo off\r\nsetlocal\r\nset TARGET=\""@ + target + "\"\r\nset SOURCE=\""@ + source
            + "\"\r\n"@).is_prefix_of(script(target, source, pid)),
        (":wait\r\ntasklist /FI \"PID eq "@ + dec(pid as nat) + "\" 2>NUL | find /I \""@ + dec(pid as nat)
            + "\" >NUL\r\nif not errorlevel 1 (\r\ntimeout /t 1 /nobreak >NUL\r\ngoto wait\r\n)\r\necho Replacing launcher binary...\r\nmove /Y %SOURCE% %TARGET% >NUL\r\nif errorlevel 1 (\r\necho Update failed: could not replace %TARGET%.\r\npause\r\nexit /b 1\r\n)\r\necho Restarting launcher...\r\nstart \"\" %TARGET%\r\ndel \"%~f0\" 2>NUL\r\nendlocal\r\n"@).is_suffix_of(
            script(target, source, pid),
        ),
{
    let s = script(target, source, pid);
    let n = dec(pid as nat);
    let h1 = "@echo off\r\nsetlocal\r\nset TARGET=\""@;
    let h2 = "\"\r\nset SOURCE=\""@;
    let h3 = "\"\r\necho Waiting for launcher (PID "@;
    let h4 = ") to exit...\r\n:wait\r\ntasklist /FI \"PID eq "@;
    let h5 = "\" 2>NUL | find /I \""@;
    let h6 =
        "\" >NUL\r\nif not errorlevel 1 (\r\ntimeout /t 1 /nobreak >NUL\r\ngoto wait\r\n)\r\necho Replacing launcher binary...\r\nmove /Y %SOURCE% %TARGET% >NUL\r\nif errorlevel 1 (\r\necho Update failed: could not replace %TARGET%.\r\npause\r\nexit /b 1\r\n)\r\necho Restarting launcher...\r\nstart \"\" %TARGET%\r\ndel \"%~f0\" 2>NUL\r\nendlocal\r\n"@;
    reveal_strlit("\"\r\necho Waiting for launcher (PID ");
    reveal_strlit(") to exit...\r\n:wait\r\ntasklist /FI \"PID eq ");
    reveal_strlit("\"\r\n");
    reveal_strlit(":wait\r\ntasklist /FI \"PID eq ");
    assert(s == h1 + target + h2 + source + h3 + n + h4 + n + h5 + n + h6);
    assert(h3.take(3) =~= "\"\r\n"@);
    let front = h1 + target + h2 + source + "\"\r\n"@;
    assert(s.take(front.len() as int) =~= front);
    let w = ":wait\r\ntasklist /FI \"PID eq "@;
    assert(h4.skip(14) =~= w);
    let rest = w + n + h5 + n + h6;
    assert(s.skip(s.len() - rest.len()) =~= rest);
}

/// A file server without a scheme is taken as it stands, but for slashes at its end.
pub proof fn law_manifest_without_a_scheme(base: Text, n: nat)
    requires
        !holds(base + Seq::new(n, |i: int| '/'), "://"@),
        base.len() > 0 ==> base.last() != '/',
    ensures
        manifest_at(base + Seq::new(n, |i: int| '/')) == base + "/tera/launcher/launcher-version.json"@,
{
    let url = base + Seq::new(n, |i: int| '/');
    reveal_strlit("://");
    law_first_place(url, "://"@, 0, 0);
    if first_at(url, "://"@, 0) is Some {
        let k = first_at(url, "://"@, 0)->0;
        law_first_place(url, "://"@, 0, k);
        assert(stands_at(url, "://"@, k));
    }
    law_end_is_taken_off(base, '/', n);
}

/// What goes wrong once the download is there ends the update and is told too, and the
/// launcher does not end.
pub proof fn law_failed_installation_is_told(
    url: Text,
    expected: Option<Text>,
    pid: u32,
    windows: bool,
    replies: Seq<ReplyView>,
    b: Seq<u8>,
    e: Text,
)
    requires
        url.len() > 0,
        replies.len() >= 9,
        replies[0] is Path,
        !(replies[1] is Failed),
        replies[2] matches ReplyView::Head { success, .. } && success,
        replies[3] == ReplyView::Bytes(b),
        digest_result(sha256(b), expected) is Ok,
    ensures
        ({
            let talk = apply_launcher_update_talk(url, expected, pid, windows);
            let asked = sent(talk, replies, 0);
            let end = follow(talk, replies, 0);
            let created = !(replies[4] is Failed);
            let put = created && !(replies[5] is Failed);
            let written = put && !(replies[7] is Failed);
            &&& replies[4] == ReplyView::Failed(e) ==> asked.len() == 5 && end == told("create temp exe: "@ + e, 5)
            &&& created && replies[5] == ReplyView::Failed(e) ==> asked.len() == 6 && end == told(
                "write temp exe: "@ + e,
                6,
            )
            &&& put && replies[7] == ReplyView::Failed(e) ==> asked.len() == 8 && end == told(
                "write helper bat: "@ + e,
                8,
            )
            &&& written && replies[8] == ReplyView::Failed(e) ==> asked.len() == 9 && end == told("spawn helper: "@ + e, 9)
        }),
{
    broadcast use group_sent;

    let talk = apply_launcher_update_talk(url, expected, pid, windows);
    let asked = sent(talk, replies, 0);
    let end = follow(talk, replies, 0);
    if replies[4] == ReplyView::Failed(e) {
        assert(asked.len() == 5);
        assert(end == told("create temp exe: "@ + e, 5));
    } else if !(replies[4] is Failed) {
        if replies[5] == ReplyView::Failed(e) {
            assert(asked.len() == 6);
            assert(end == told("write temp exe: "@ + e, 6));
        } else if !(replies[5] is Failed) {
            if replies[7] == ReplyView::Failed(e) {
                assert(asked.len() == 8);
                assert(end == told("write helper bat: "@ + e, 8));
            } else if !(replies[7] is Failed) && replies[8] == ReplyView::Failed(e) {
                assert(asked.len() == 9);
                assert(end == told("spawn helper: "@ + e, 9));
            }
        }
    }
}

} // verus!
