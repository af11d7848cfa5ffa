//! The launcher's log: which records are put down, how a line looks, and when the
//! file gives way to a new one.
use vstd::prelude::*;
use vstd::utf8::{char_is_scalar, encode_scalar, encode_utf8};

use crate::dialogue::{
    asked, group_sent, lemma_follow_then, lemma_run_then, meets, run, sent, then_do, Dialogue, Step, Tape,
};
use crate::number::{dec, push_decimal};
use crate::place::strings;
use crate::text::{begins, chars_of, copy_range, join, string_of, Text};

verus! {

/// How much a record matters, the most first.
#[derive(Clone, Copy, PartialEq, Eq, Structural)]
pub enum Level {
    Error,
    Warn,
    Info,
    Debug,
    Trace,
}

impl Level {
    /// The name of a level.
    pub open spec fn spec_name(self) -> Text {
        match self {
            Level::Error => "ERROR"@,
            Level::Warn => "WARN"@,
            Level::Info => "INFO"@,
            Level::Debug => "DEBUG"@,
            Level::Trace => "TRACE"@,
        }
    }

    /// The name of a level, in five columns.
    pub open spec fn column(self) -> Text {
        match self {
            Level::Warn => "WARN "@,
            Level::Info => "INFO "@,
            _ => self.spec_name(),
        }
    }

    /// The name of a level.
    pub fn name(self) -> (s: &'static str)
        ensures
            s@ == self.spec_name(),
    {
        match self {
            Level::Error => "ERROR",
            Level::Warn => "WARN",
            Level::Info => "INFO",
            Level::Debug => "DEBUG",
            Level::Trace => "TRACE",
        }
    }

    /// The name of a level, in five columns.
    fn padded_name(self) -> (s: &'static str)
        ensures
            s@ == self.column(),
    {
        match self {
            Level::Error => "ERROR",
            Level::Warn => "WARN ",
            Level::Info => "INFO ",
            Level::Debug => "DEBUG",
            Level::Trace => "TRACE",
        }
    }
}

/// What the launcher's own records are from: the beginnings of their targets.
pub open spec fn app_targets() -> Seq<Text> {
    seq![
        "teralib"@,
        "teralaunch"@,
        "launcher"@,
        "teralauncher"@,
        "file_log"@,
        "self_update"@,
        "language"@,
        "optimizer"@,
    ]
}

/// Whether a record is the launcher's own.
pub open spec fn is_app(target: Text) -> bool {
    exists|i: int| 0 <= i < app_targets().len() && (#[trigger] app_targets()[i]).is_prefix_of(target)
}

/// Whether a record is the launcher's own.
pub fn target_is_app(target: &str) -> (r: bool)
    ensures
        r == is_app(target@),
{
    let t = chars_of(target);
    let names: [&str; 8] = [
        "teralib",
        "teralaunch",
        "launcher",
        "teralauncher",
        "file_log",
        "self_update",
        "language",
        "optimizer",
    ];
    assert(names@.map_values(|s: &str| s@) =~= app_targets());
    let n: usize = 8;
    for i in 0..n
        invariant
            n == 8,
            t@ == target@,
            names@.len() == 8,
            names@.map_values(|s: &str| s@) == app_targets(),
            forall|k: int| 0 <= k < i ==> !(#[trigger] app_targets()[k]).is_prefix_of(target@),
    {
        assert(app_targets()[i as int] == names@[i as int]@);
        if begins(&t, &chars_of(names[i])) {
            return true;
        }
    }
    false
}

/// Whether a record is put down: errors and warnings always, the rest where it is
/// the launcher's own.
pub open spec fn is_enabled(level: Level, target: Text) -> bool {
    level == Level::Error || level == Level::Warn || is_app(target)
}

/// Whether a record is put down.
pub fn enabled(level: Level, target: &str) -> (r: bool)
    ensures
        r == is_enabled(level, target@),
{
    match level {
        Level::Error | Level::Warn => true,
        _ => target_is_app(target),
    }
}

/// Whether a record is shown in the window: the game's, unless it is only for
/// debugging.
pub open spec fn is_shown(level: Level, target: Text) -> bool {
    "teralib"@.is_prefix_of(target) && (level == Level::Error || level == Level::Warn || level == Level::Info)
}

/// Whether a record is shown in the window: the game's, unless it is only for
/// debugging.
pub fn shown_in_window(level: Level, target: &str) -> (r: bool)
    ensures
        r == is_shown(level, target@),
{
    begins(&chars_of(target), &chars_of("teralib")) && match level {
        Level::Error | Level::Warn | Level::Info => true,
        _ => false,
    }
}

/// A record as it is shown in the window.
pub open spec fn shown_line(level: Level, message: Text) -> Text {
    level.spec_name() + " - "@ + message
}

/// A record as it is shown in the window.
pub fn window_line(level: Level, message: &str) -> (s: String)
    ensures
        s@ == shown_line(level, message@),
{
    let mut s = join(level.name(), " - ");
    s.append(message);
    s
}

/// How many bytes a line may have, beside the mark that it was cut.
pub const MAX_LINE_BYTES: usize = 8192;

/// How many bytes the file may have before the next record starts a new one.
pub const MAX_LOG_BYTES: u64 = 1_048_576;

/// How many bytes a character has in UTF-8.
pub open spec fn width(c: char) -> nat {
    encode_scalar(c as u32).len()
}

/// How many characters at the start of `s` fit into so many bytes.
pub open spec fn fitting(s: Text, room: int) -> nat
    decreases s.len(),
{
    if s.len() == 0 || width(s[0]) > room {
        0
    } else {
        1 + fitting(s.skip(1), room - width(s[0]))
    }
}

/// A line as it is put down: a long one is cut and marked.
pub open spec fn capped(s: Text) -> Text {
    let n = fitting(s, MAX_LINE_BYTES as int);
    if n == s.len() {
        s
    } else {
        s.take(n as int) + " ...[truncated]"@
    }
}

/// How many bytes a character has in UTF-8.
fn char_width(c: char) -> (n: usize)
    ensures
        n == width(c),
        1 <= n <= 4,
{
    proof {
        char_is_scalar(c);
    }
    let v: u32 = c as u32;
    if v <= 0x7F {
        1
    } else if v <= 0x7FF {
        2
    } else if v <= 0xFFFF {
        3
    } else {
        4
    }
}

/// Cuts and marks a long line.
fn cap_line(s: Vec<char>) -> (r: Vec<char>)
    ensures
        r@ == capped(s@),
{
    let n: usize = s.len();
    let mut room: usize = MAX_LINE_BYTES;
    let mut i: usize = 0;
    assert(s@.skip(0) =~= s@);
    while i < n
        invariant
            n == s@.len(),
            i <= n,
            room <= MAX_LINE_BYTES,
            fitting(s@, MAX_LINE_BYTES as int) == i + fitting(s@.skip(i as int), room as int),
        decreases n - i,
    {
        let w: usize = char_width(s[i]);
        assert(s@.skip(i as int).skip(1) =~= s@.skip(i + 1));
        if w > room {
            let mut r = copy_range(&s, 0, i);
            assert(r@ =~= s@.take(i as int));
            r.extend_from_slice(&chars_of(" ...[truncated]"));
            assert(r@ =~= capped(s@));
            return r;
        }
        room -= w;
        i += 1;
    }
    s
}

/// The line of a record, before it is cut.
pub open spec fn full_line(timestamp: Text, level: Level, target: Text, message: Text) -> Text {
    timestamp + " ["@ + level.column() + "] ["@ + target + "] "@ + message
}

/// The line of a record as it is put down.
pub open spec fn line_of(timestamp: Text, level: Level, target: Text, message: Text) -> Text {
    capped(full_line(timestamp, level, target, message))
}

/// Writes the line of a record.
pub fn format_line(timestamp: &str, level: Level, target: &str, message: &str) -> (s: String)
    ensures
        s@ == line_of(timestamp@, level, target@, message@),
{
    let mut line = chars_of(timestamp);
    line.extend_from_slice(&chars_of(" ["));
    line.extend_from_slice(&chars_of(level.padded_name()));
    line.extend_from_slice(&chars_of("] ["));
    line.extend_from_slice(&chars_of(target));
    line.extend_from_slice(&chars_of("] "));
    line.extend_from_slice(&chars_of(message));
    assert(line@ =~= full_line(timestamp@, level, target@, message@));
    string_of(&cap_line(line))
}

/// What is put down when the launcher starts.
pub open spec fn banner(timestamp: Text, debug: bool, pid: u32, os: Text) -> Text {
    "\n========== launcher session started "@ + timestamp + " ==========\nbuild: teralaunch (debug="@ + (if debug {
        "true"@
    } else {
        "false"@
    }) + ") pid="@ + dec(pid as nat) + " os="@ + os + "\n"@
}

/// Writes what is put down when the launcher starts.
pub fn session_banner(timestamp: &str, debug: bool, pid: u32, os: &str) -> (s: String)
    ensures
        s@ == banner(timestamp@, debug, pid, os@),
{
    let mut out = chars_of("\n========== launcher session started ");
    out.extend_from_slice(&chars_of(timestamp));
    out.extend_from_slice(&chars_of(" ==========\nbuild: teralaunch (debug="));
    if debug {
        out.extend_from_slice(&chars_of("true"));
    } else {
        out.extend_from_slice(&chars_of("false"));
    }
    out.extend_from_slice(&chars_of(") pid="));
    push_decimal(pid as u64, &mut out);
    out.extend_from_slice(&chars_of(" os="));
    out.extend_from_slice(&chars_of(os));
    out.extend_from_slice(&chars_of("\n"));
    assert(out@ =~= banner(timestamp@, debug, pid, os@));
    string_of(&out)
}

/// Below which folder a path lies.
#[derive(Clone, Copy, PartialEq, Eq, Structural)]
pub enum Root {
    /// The folder of the user's settings.
    AppData,
    /// The folder of files that do not last.
    Temp,
}

/// The path of the log: below the folder of the user's settings where there is one,
/// else below that of files that do not last.
pub open spec fn log_path(has_app_data: bool) -> (Root, Seq<Text>) {
    if has_app_data {
        (Root::AppData, seq!["teralaunch"@, "launcher.log"@])
    } else {
        (Root::Temp, seq!["teralaunch-launcher.log"@])
    }
}

/// Gives the path of the log, in parts.
pub fn log_file_path(has_app_data: bool) -> (r: (Root, Vec<String>))
    ensures
        (r.0, strings(r.1@)) == log_path(has_app_data),
{
    if has_app_data {
        let parts = vec!["teralaunch".to_owned(), "launcher.log".to_owned()];
        assert(strings(parts@) =~= log_path(true).1);
        (Root::AppData, parts)
    } else {
        let parts = vec!["teralaunch-launcher.log".to_owned()];
        assert(strings(parts@) =~= log_path(false).1);
        (Root::Temp, parts)
    }
}

/// The path of the folder that holds the log.
pub open spec fn log_folder(has_app_data: bool) -> (Root, Seq<Text>) {
    (log_path(has_app_data).0, log_path(has_app_data).1.drop_last())
}

/// The path of the file that the log gives way to: that of the log with a further extension.
pub open spec fn old_log_path(has_app_data: bool) -> (Root, Seq<Text>) {
    let (root, parts) = log_path(has_app_data);
    (root, parts.drop_last().push(parts.last() + ".1"@))
}

/// Gives the path of the folder that holds the log, in parts.
pub fn log_dir(has_app_data: bool) -> (r: (Root, Vec<String>))
    ensures
        (r.0, strings(r.1@)) == log_folder(has_app_data),
{
    let (root, mut parts) = log_file_path(has_app_data);
    let ghost all = parts@;
    parts.pop();
    assert(strings(parts@) =~= strings(all).drop_last());
    (root, parts)
}

/// Gives the path of the file that the log gives way to, in parts.
pub fn rotated_path(has_app_data: bool) -> (r: (Root, Vec<String>))
    ensures
        (r.0, strings(r.1@)) == old_log_path(has_app_data),
{
    let (root, mut parts) = log_file_path(has_app_data);
    let ghost all = parts@;
    let n: usize = parts.len();
    assert(strings(all).len() == all.len());
    let name = join(&parts[n - 1], ".1");
    parts.pop();
    parts.push(name);
    assert(strings(parts@) =~= strings(all).drop_last().push(strings(all).last() + ".1"@));
    (root, parts)
}

/// Something that keeping the log takes.
pub enum Request {
    /// Make sure that the log's folder is there.
    CreateFolder,
    /// The size of the log.
    LogSize,
    /// Delete the file that the log gave way to before.
    RemoveRotated,
    /// Have the log give way.
    RotateLog,
    /// Open the log to write behind what is there.
    Open,
    /// Whether the log is open.
    IsOpen,
    /// The size of the log that is open.
    OpenSize,
    /// Close the log.
    Close,
    /// Write a line.
    Append(String),
    /// See that what was written is on disk.
    Flush,
}

/// [`Request`] in the model.
pub enum RequestView {
    CreateFolder,
    LogSize,
    RemoveRotated,
    RotateLog,
    Open,
    IsOpen,
    OpenSize,
    Close,
    Append(Text),
    Flush,
}

impl View for Request {
    type V = RequestView;

    open spec fn view(&self) -> RequestView {
        match *self {
            Request::CreateFolder => RequestView::CreateFolder,
            Request::LogSize => RequestView::LogSize,
            Request::RemoveRotated => RequestView::RemoveRotated,
            Request::RotateLog => RequestView::RotateLog,
            Request::Open => RequestView::Open,
            Request::IsOpen => RequestView::IsOpen,
            Request::OpenSize => RequestView::OpenSize,
            Request::Close => RequestView::Close,
            Request::Append(line) => RequestView::Append(line@),
            Request::Flush => RequestView::Flush,
        }
    }
}

/// What came of a request.
#[derive(Clone, Copy, PartialEq, Eq, Structural)]
pub enum Reply {
    Flag(bool),
    Size(u64),
    Done,
    Failed,
}

impl View for Reply {
    type V = Reply;

    open spec fn view(&self) -> Reply {
        *self
    }
}

/// A conversation about the log.
pub type Talk<R> = Dialogue<RequestView, Reply, R>;

/// Whether a size is known and too large.
pub open spec fn too_large(a: Reply) -> bool {
    a matches Reply::Size(n) && n > MAX_LOG_BYTES
}

fn is_too_large(a: &Reply) -> (r: bool)
    ensures
        r == too_large(*a),
{
    match a {
        Reply::Size(n) => *n > MAX_LOG_BYTES,
        _ => false,
    }
}

/// A log that is too large gives way.
pub open spec fn rotate_talk() -> Talk<()> {
    then_do(
        asked(RequestView::LogSize),
        |a: Reply|
            if too_large(a) {
                then_do(
                    asked(RequestView::RemoveRotated),
                    |a: Reply| then_do(asked(RequestView::RotateLog), |a: Reply| Dialogue::End(())),
                )
            } else {
                Dialogue::End(())
            },
    )
}

fn rotate_if_needed(t: &mut Tape<Request, Reply>) -> (r: Option<()>)
    requires
        old(t).wf(),
    ensures
        final(t).reached(old(t), rotate_talk(), r),
{
    broadcast use lemma_follow_then;

    if is_too_large(t.ask_for(Request::LogSize)?) {
        t.ask_for(Request::RemoveRotated)?;
        t.ask_for(Request::RotateLog)?;
    }
    Some(())
}

/// The log is opened for a new session, which is put down.
pub open spec fn open_log_talk(banner: Text) -> Talk<()> {
    then_do(
        asked(RequestView::CreateFolder),
        |a: Reply|
            then_do(
                rotate_talk(),
                |u: ()|
                    then_do(
                        asked(RequestView::Open),
                        |a: Reply|
                            if a == Reply::Flag(true) {
                                then_do(asked(RequestView::Append(banner)), |a: Reply| Dialogue::End(()))
                            } else {
                                Dialogue::End(())
                            },
                    ),
            ),
    )
}

fn do_open_log(t: &mut Tape<Request, Reply>, banner: &str) -> (r: Option<()>)
    requires
        old(t).wf(),
    ensures
        final(t).reached(old(t), open_log_talk(banner@), r),
{
    broadcast use lemma_follow_then;

    t.ask_for(Request::CreateFolder)?;
    rotate_if_needed(t)?;
    match t.ask_for(Request::Open)? {
        Reply::Flag(true) => {
            t.ask_for(Request::Append(banner.to_owned()))?;
        },
        _ => {},
    }
    Some(())
}

/// Opens the log for a new session, which is put down.
pub fn open_log(banner: &str, replies: &Vec<Reply>) -> (r: Step<Request, ()>)
    ensures
        meets(r, |v: ()| v, open_log_talk(banner@), replies@),
{
    let mut t = Tape::new(replies);
    let r = do_open_log(&mut t, banner);
    t.finish(r)
}

/// A line is put down and is on disk.
pub open spec fn append_talk(line: Text) -> Talk<()> {
    then_do(
        asked(RequestView::Append(line)),
        |a: Reply| then_do(asked(RequestView::Flush), |a: Reply| Dialogue::End(())),
    )
}

fn append(t: &mut Tape<Request, Reply>, line: &str) -> (r: Option<()>)
    requires
        old(t).wf(),
    ensures
        final(t).reached(old(t), append_talk(line@), r),
{
    broadcast use lemma_follow_then;

    t.ask_for(Request::Append(line.to_owned()))?;
    t.ask_for(Request::Flush)?;
    Some(())
}

/// A line is put down in the log, where that is open. One that has grown too large
/// gives way first.
pub open spec fn log_talk(line: Text) -> Talk<()> {
    then_do(
        asked(RequestView::IsOpen),
        |a: Reply|
            if a != Reply::Flag(true) {
                Dialogue::End(())
            } else {
                then_do(
                    asked(RequestView::OpenSize),
                    |a: Reply|
                        if too_large(a) {
                            then_do(
                                asked(RequestView::Close),
                                |a: Reply|
                                    then_do(
                                        rotate_talk(),
                                        |u: ()|
                                            then_do(
                                                asked(RequestView::Open),
                                                |a: Reply|
                                                    if a == Reply::Flag(true) {
                                                        append_talk(line)
                                                    } else {
                                                        Dialogue::End(())
                                                    },
                                            ),
                                    ),
                            )
                        } else {
                            append_talk(line)
                        },
                )
            },
    )
}

fn do_log(t: &mut Tape<Request, Reply>, line: &str) -> (r: Option<()>)
    requires
        old(t).wf(),
    ensures
        final(t).reached(old(t), log_talk(line@), r),
{
    broadcast use lemma_follow_then;

    match t.ask_for(Request::IsOpen)? {
        Reply::Flag(true) => {},
        _ => {
            return Some(());
        },
    }
    if !is_too_large(t.ask_for(Request::OpenSize)?) {
        return append(t, line);
    }
    t.ask_for(Request::Close)?;
    rotate_if_needed(t)?;
    match t.ask_for(Request::Open)? {
        Reply::Flag(true) => append(t, line),
        _ => Some(()),
    }
}

/// Puts a line down in the log, where that is open.
pub fn log(line: &str, replies: &Vec<Reply>) -> (r: Step<Request, ()>)
    ensures
        meets(r, |v: ()| v, log_talk(line@), replies@),
{
    let mut t = Tape::new(replies);
    let r = do_log(&mut t, line);
    t.finish(r)
}

/// The bytes of a text are those of its characters.
proof fn lemma_utf8_len(s: Text)
    requires
        s.len() > 0,
    ensures
        encode_utf8(s).len() == width(s[0]) + encode_utf8(s.skip(1)).len(),
{
    assert(s.drop_first() =~= s.skip(1));
}

/// What fits is as much as fits.
proof fn lemma_fitting(s: Text, room: int)
    requires
        room >= 0,
    ensures
        fitting(s, room) <= s.len(),
        encode_utf8(s.take(fitting(s, room) as int)).len() <= room,
        fitting(s, room) < s.len() ==> encode_utf8(s.take(fitting(s, room) as int + 1)).len() > room,
        fitting(s, room) == s.len() <==> encode_utf8(s).len() <= room,
    decreases s.len(),
{
    let k = fitting(s, room) as int;
    if s.len() == 0 {
        assert(s.take(0) =~= Seq::<char>::empty());
    } else if width(s[0]) > room {
        assert(s.take(0) =~= Seq::<char>::empty());
        lemma_utf8_len(s);
        lemma_utf8_len(s.take(1));
    } else {
        let rest = s.skip(1);
        lemma_fitting(rest, room - width(s[0]));
        lemma_utf8_len(s);
        lemma_utf8_len(s.take(k));
        assert(s.take(k).skip(1) =~= rest.take(k - 1));
        if k < s.len() {
            lemma_utf8_len(s.take(k + 1));
            assert(s.take(k + 1).skip(1) =~= rest.take(k));
        }
    }
}

/// A line that fits is put down as it is. A longer one is put down as far as it
/// fits, to the last whole character, with the mark that it was cut.
pub proof fn law_long_lines_are_cut(s: Text)
    ensures
        encode_utf8(s).len() <= 8192 ==> capped(s) == s,
        encode_utf8(s).len() > 8192 ==> exists|k: int|
            {
                &&& 0 <= k < s.len()
                &&& capped(s) == #[trigger] s.take(k) + " ...[truncated]"@
                &&& encode_utf8(s.take(k)).len() <= 8192
                &&& encode_utf8(s.take(k + 1)).len() > 8192
            },
{
    lemma_fitting(s, MAX_LINE_BYTES as int);
    let k = fitting(s, MAX_LINE_BYTES as int) as int;
    if k < s.len() {
        assert(capped(s) == s.take(k) + " ...[truncated]"@);
    }
}

/// Errors and warnings are put down whatever they come from, and of the rest exactly
/// what is the launcher's own.
pub proof fn law_failures_are_put_down(level: Level, target: Text)
    ensures
        level == Level::Error || level == Level::Warn ==> is_enabled(level, target),
        !(level == Level::Error || level == Level::Warn) ==> is_enabled(level, target) == is_app(target),
{
}

/// The log on a disk: the file, the one that it gave way to before, and whether it
/// is open.
pub struct LogDisk {
    pub log: Option<Seq<u8>>,
    pub rotated: Option<Seq<u8>>,
    pub open: bool,
}

/// What becomes of a request on a disk where everything succeeds.
pub open spec fn serve(d: LogDisk, q: RequestView) -> (LogDisk, Reply) {
    match q {
        RequestView::CreateFolder => (d, Reply::Done),
        RequestView::LogSize => match d.log {
            Some(b) => (d, Reply::Size(b.len() as u64)),
            None => (d, Reply::Failed),
        },
        RequestView::RemoveRotated => (LogDisk { rotated: None, ..d }, Reply::Done),
        RequestView::RotateLog => (LogDisk { log: None, rotated: d.log, ..d }, Reply::Done),
        RequestView::Open => match d.log {
            Some(_) => (LogDisk { open: true, ..d }, Reply::Flag(true)),
            None => (LogDisk { log: Some(Seq::empty()), open: true, ..d }, Reply::Flag(true)),
        },
        RequestView::IsOpen => (d, Reply::Flag(d.open)),
        RequestView::OpenSize => match d.log {
            Some(b) if d.open => (d, Reply::Size(b.len() as u64)),
            _ => (d, Reply::Failed),
        },
        RequestView::Close => (LogDisk { open: false, ..d }, Reply::Done),
        RequestView::Append(line) => match d.log {
            Some(b) if d.open => (LogDisk { log: Some(b + line_bytes(line)), ..d }, Reply::Done),
            _ => (d, Reply::Failed),
        },
        RequestView::Flush => (d, Reply::Done),
    }
}

/// The bytes of a line in the file, with its end.
pub open spec fn line_bytes(line: Text) -> Seq<u8> {
    encode_utf8(line).push(0x0A)
}

/// Holding a conversation about the log with a disk.
pub open spec fn kept<R>(t: Talk<R>, d: LogDisk) -> LogDisk {
    run(t, d, |d: LogDisk, q: RequestView| serve(d, q)).0
}

/// A line is put down behind what is there. A log that is too large gives way: what
/// it held is the file that it gave way to, and the line is the first of the new
/// log. So the log never has more bytes than that and one line.
pub proof fn law_log_gives_way(d: LogDisk, line: Text)
    requires
        d.open,
        d.log matches Some(b) && b.len() <= u64::MAX,
    ensures
        ({
            let after = kept(log_talk(line), d);
            &&& after.open
            &&& d.log->0.len() <= 1_048_576 ==> after.log == Some(d.log->0 + line_bytes(line)) && after.rotated
                == d.rotated
            &&& d.log->0.len() > 1_048_576 ==> after.log == Some(line_bytes(line)) && after.rotated == d.log
            &&& after.log matches Some(b) && b.len() <= 1_048_576 + line_bytes(line).len()
        }),
{
    broadcast use lemma_run_then;

    reveal_with_fuel(run, 3);
    let after = kept(log_talk(line), d);
    if d.log->0.len() > MAX_LOG_BYTES {
        assert(Seq::<u8>::empty() + line_bytes(line) =~= line_bytes(line));
    }
}

/// The launcher's own records are those whose targets begin with one of eight names.
pub proof fn law_own_records(target: Text)
    ensures
        is_app(target) <==> {
            ||| "teralib"@.is_prefix_of(target)
            ||| "teralaunch"@.is_prefix_of(target)
            ||| "launcher"@.is_prefix_of(target)
            ||| "teralauncher"@.is_prefix_of(target)
            ||| "file_log"@.is_prefix_of(target)
            ||| "self_update"@.is_prefix_of(target)
            ||| "language"@.is_prefix_of(target)
            ||| "optimizer"@.is_prefix_of(target)
        },
{
    let a = app_targets();
    assert(a.len() == 8);
    assert(a[0] == "teralib"@ && a[1] == "teralaunch"@ && a[2] == "launcher"@ && a[3] == "teralauncher"@);
    assert(a[4] == "file_log"@ && a[5] == "self_update"@ && a[6] == "language"@ && a[7] == "optimizer"@);
}

/// The line of a record that fits has the time, the level in five columns, the target and
/// the message, each in its place.
pub proof fn law_line_of_a_record(timestamp: Text, level: Level, target: Text, message: Text)
    ensures
        ({
            let name = match level {
                Level::Error => "ERROR"@,
                Level::Warn => "WARN "@,
                Level::Info => "INFO "@,
                Level::Debug => "DEBUG"@,
                Level::Trace => "TRACE"@,
            };
            let line = timestamp + " ["@ + name + "] ["@ + target + "] "@ + message;
            &&& name.len() == 5
            &&& encode_utf8(line).len() <= 8192 ==> line_of(timestamp, level, target, message) == line
            &&& line_of(timestamp, level, target, message) == capped(line)
            &&& level == Level::Warn ==> level.spec_name() == "WARN"@
            &&& level == Level::Info ==> level.spec_name() == "INFO"@
            &&& level != Level::Warn && level != Level::Info ==> level.spec_name() == name
        }),
{
    reveal_strlit("ERROR");
    reveal_strlit("WARN ");
    reveal_strlit("INFO ");
    reveal_strlit("DEBUG");
    reveal_strlit("TRACE");
    law_long_lines_are_cut(full_line(timestamp, level, target, message));
}

/// What is put down when the launcher starts tells when that is, how it was built, its
/// process and the system.
pub proof fn law_session_is_told(timestamp: Text, pid: u32, os: Text)
    ensures
        banner(timestamp, true, pid, os) == "\n========== launcher session started "@ + timestamp
            + " ==========\nbuild: teralaunch (debug="@ + "true"@ + ") pid="@ + dec(pid as nat) + " os="@ + os + "\n"@,
        banner(timestamp, false, pid, os) == "\n========== launcher session started "@ + timestamp
            + " ==========\nbuild: teralaunch (debug="@ + "false"@ + ") pid="@ + dec(pid as nat) + " os="@ + os + "\n"@,
{
}

/// The log is `teralaunch\launcher.log` in the folder of the user's settings, or without
/// that folder `teralaunch-launcher.log` among the files that do not last.
/// Beside it stands the file that it gives way to, with `.1` behind its name.
pub proof fn law_path_of_the_log()
    ensures
        log_path(true) == (Root::AppData, seq!["teralaunch"@, "launcher.log"@]),
        log_path(false) == (Root::Temp, seq!["teralaunch-launcher.log"@]),
        log_folder(true) == (Root::AppData, seq!["teralaunch"@]),
        log_folder(false) == (Root::Temp, Seq::<Text>::empty()),
        old_log_path(true) == (Root::AppData, seq!["teralaunch"@, "launcher.log.1"@]),
        old_log_path(false) == (Root::Temp, seq!["teralaunch-launcher.log.1"@]),
{
    reveal_strlit("launcher.log");
    reveal_strlit("teralaunch-launcher.log");
    reveal_strlit(".1");
    reveal_strlit("launcher.log.1");
    reveal_strlit("teralaunch-launcher.log.1");
    assert("launcher.log"@ + ".1"@ =~= "launcher.log.1"@);
    assert("teralaunch-launcher.log"@ + ".1"@ =~= "teralaunch-launcher.log.1"@);
    assert(log_path(true).1.drop_last() =~= seq!["teralaunch"@]);
    assert(log_path(false).1.drop_last() =~= Seq::<Text>::empty());
    assert(old_log_path(true).1 =~= seq!["teralaunch"@, "launcher.log.1"@]);
    assert(old_log_path(false).1 =~= seq!["teralaunch-launcher.log.1"@]);
}

/// The window shows what comes from the game's library, unless it is only for debugging, as
/// the level, a dash and the message.
pub proof fn law_what_the_window_shows(level: Level, target: Text, message: Text)
    ensures
        is_shown(level, target) <==> "teralib"@.is_prefix_of(target) && level != Level::Debug && level != Level::Trace,
        shown_line(Level::Error, message) == "ERROR - "@ + message,
        shown_line(Level::Warn, message) == "WARN - "@ + message,
        shown_line(Level::Info, message) == "INFO - "@ + message,
{
    reveal_strlit("ERROR");
    reveal_strlit("WARN");
    reveal_strlit("INFO");
    reveal_strlit(" - ");
    reveal_strlit("ERROR - ");
    reveal_strlit("WARN - ");
    reveal_strlit("INFO - ");
    assert("ERROR"@ + " - "@ =~= "ERROR - "@);
    assert("WARN"@ + " - "@ =~= "WARN - "@);
    assert("INFO"@ + " - "@ =~= "INFO - "@);
}

/// A new session is put down behind what the log holds, or as the first of a new log where
/// it is too large or there is none: what it held is then the file that it gave way to. A
/// line is put down only in a log that is open.
pub proof fn law_session_is_put_down(d: LogDisk, banner: Text)
    requires
        d.log matches Some(b) ==> b.len() <= u64::MAX,
    ensures
        ({
            let after = kept(open_log_talk(banner), d);
            &&& after.open
            &&& d.log is None ==> after.log == Some(line_bytes(banner)) && after.rotated == d.rotated
            &&& d.log matches Some(b) ==> {
                &&& b.len() <= 1_048_576 ==> after.log == Some(b + line_bytes(banner)) && after.rotated == d.rotated
                &&& b.len() > 1_048_576 ==> after.log == Some(line_bytes(banner)) && after.rotated == d.log
            }
        }),
        !d.open ==> kept(log_talk(banner), d) == d,
{
    broadcast use lemma_run_then;

    reveal_with_fuel(run, 3);
    assert(Seq::<u8>::empty() + line_bytes(banner) =~= line_bytes(banner));
}

/// A line goes to the log and then to disk, where the log is open. One that is too large
/// is closed first, gives way and is opened anew; where it cannot be opened, and where the
/// log is not open, nothing is written.
pub proof fn law_what_a_line_takes(line: Text, replies: Seq<Reply>, n: u64)
    requires
        replies.len() >= 9,
    ensures
        replies[0] != Reply::Flag(true) ==> sent(log_talk(line), replies, 0) == seq![RequestView::IsOpen],
        replies[0] == Reply::Flag(true) && !(replies[1] is Size) ==> sent(log_talk(line), replies, 0) == seq![
            RequestView::IsOpen,
            RequestView::OpenSize,
            RequestView::Append(line),
            RequestView::Flush,
        ],
        replies[0] == Reply::Flag(true) && replies[1] == Reply::Size(n) && n <= 1_048_576 ==> sent(
            log_talk(line),
            replies,
            0,
        ) == seq![RequestView::IsOpen, RequestView::OpenSize, RequestView::Append(line), RequestView::Flush],
        replies[0] == Reply::Flag(true) && replies[1] == Reply::Size(n) && n > 1_048_576 && replies[3]
            == replies[1] ==> ({
            let all = sent(log_talk(line), replies, 0);
            &&& all.take(7) == seq![
                RequestView::IsOpen,
                RequestView::OpenSize,
                RequestView::Close,
                RequestView::LogSize,
                RequestView::RemoveRotated,
                RequestView::RotateLog,
                RequestView::Open,
            ]
            &&& replies[6] == Reply::Flag(true) ==> all.skip(7) == seq![RequestView::Append(line), RequestView::Flush]
            &&& replies[6] != Reply::Flag(true) ==> all.len() == 7
        }),
{
    broadcast use group_sent;

    let all = sent(log_talk(line), replies, 0);
    if replies[0] != Reply::Flag(true) {
        assert(all =~= seq![RequestView::IsOpen]);
    } else if !too_large(replies[1]) {
        assert(all =~= seq![
            RequestView::IsOpen,
            RequestView::OpenSize,
            RequestView::Append(line),
            RequestView::Flush,
        ]);
    } else if replies[3] == replies[1] {
        let start = seq![
            RequestView::IsOpen,
            RequestView::OpenSize,
            RequestView::Close,
            RequestView::LogSize,
            RequestView::RemoveRotated,
            RequestView::RotateLog,
            RequestView::Open,
        ];
        if replies[6] == Reply::Flag(true) {
            assert(all =~= start + seq![RequestView::Append(line), RequestView::Flush]);
        } else {
            assert(all =~= start);
        }
        assert(all.take(7) =~= start);
        assert(replies[6] == Reply::Flag(true) ==> all.skip(7) =~= seq![RequestView::Append(line), RequestView::Flush]);
    }
}

/// A session is put down only in a log that could be opened, behind what it takes to keep
/// the log small.
pub proof fn law_what_a_session_takes(banner: Text, replies: Seq<Reply>, n: u64)
    requires
        replies.len() >= 6,
    ensures
        replies[1] == Reply::Size(n) && n > 1_048_576 ==> sent(open_log_talk(banner), replies, 0) == seq![
            RequestView::CreateFolder,
            RequestView::LogSize,
            RequestView::RemoveRotated,
            RequestView::RotateLog,
            RequestView::Open,
        ] + (if replies[4] == Reply::Flag(true) {
            seq![RequestView::Append(banner)]
        } else {
            Seq::empty()
        }),
        (replies[1] == Reply::Size(n) && n <= 1_048_576) || !(replies[1] is Size) ==> sent(
            open_log_talk(banner),
            replies,
            0,
        ) == seq![RequestView::CreateFolder, RequestView::LogSize, RequestView::Open] + (if replies[2]
            == Reply::Flag(true) {
            seq![RequestView::Append(banner)]
        } else {
            Seq::empty()
        }),
{
    broadcast use group_sent;

    let all = sent(open_log_talk(banner), replies, 0);
    if too_large(replies[1]) {
        let start = seq![
            RequestView::CreateFolder,
            RequestView::LogSize,
            RequestView::RemoveRotated,
            RequestView::RotateLog,
            RequestView::Open,
        ];
        assert(all =~= start + (if replies[4] == Reply::Flag(true) {
            seq![RequestView::Append(banner)]
        } else {
            Seq::empty()
        }));
    } else {
        let start = seq![RequestView::CreateFolder, RequestView::LogSize, RequestView::Open];
        assert(all =~= start + (if replies[2] == Reply::Flag(true) {
            seq![RequestView::Append(banner)]
        } else {
            Seq::empty()
        }));
    }
}

} // verus!
