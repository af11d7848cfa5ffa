//! What the launcher asks of the machine for the game's files and the registry.
use vstd::prelude::*;

use crate::dialogue::{follow, opt, Dialogue, Tape};
use crate::place::{strings, Location};
use crate::text::Text;

verus! {

/// Something that the launcher asks of the machine.
pub enum Request {
    /// Whether there is such a file or folder.
    Exists(Location),
    /// The contents of a file.
    Read(Location),
    /// Write a file.
    Write(Location, Vec<u8>),
    /// Copy the first file over the second.
    CopyFile(Location, Location),
    /// Delete a file.
    Remove(Location),
    /// The size of a file.
    Size(Location),
    /// The path, quoted and escaped.
    Quoted(Location),
    /// The path.
    Shown(Location),
    /// Run the registry tool with these arguments.
    Registry(Vec<String>),
}

/// [`Request`] in the model.
pub enum RequestView {
    Exists(Location),
    Read(Location),
    Write(Location, Seq<u8>),
    CopyFile(Location, Location),
    Remove(Location),
    Size(Location),
    Quoted(Location),
    Shown(Location),
    Registry(Seq<Text>),
}

impl View for Request {
    type V = RequestView;

    open spec fn view(&self) -> RequestView {
        match *self {
            Request::Exists(l) => RequestView::Exists(l),
            Request::Read(l) => RequestView::Read(l),
            Request::Write(l, b) => RequestView::Write(l, b@),
            Request::CopyFile(a, b) => RequestView::CopyFile(a, b),
            Request::Remove(l) => RequestView::Remove(l),
            Request::Size(l) => RequestView::Size(l),
            Request::Quoted(l) => RequestView::Quoted(l),
            Request::Shown(l) => RequestView::Shown(l),
            Request::Registry(a) => RequestView::Registry(strings(a@)),
        }
    }
}

/// What the machine answers.
pub enum Reply {
    Flag(bool),
    Bytes(Vec<u8>),
    Size(u64),
    Text(String),
    /// It was done.
    Done,
    /// It could not be done, and why.
    Failed(String),
    /// How a tool ended and what it wrote.
    Output { success: bool, stdout: Vec<u8>, stderr: Vec<u8> },
}

/// [`Reply`] in the model.
pub enum ReplyView {
    Flag(bool),
    Bytes(Seq<u8>),
    Size(u64),
    Text(Text),
    Done,
    Failed(Text),
    Output { success: bool, stdout: Seq<u8>, stderr: Seq<u8> },
}

impl View for Reply {
    type V = ReplyView;

    open spec fn view(&self) -> ReplyView {
        match *self {
            Reply::Flag(b) => ReplyView::Flag(b),
            Reply::Bytes(b) => ReplyView::Bytes(b@),
            Reply::Size(n) => ReplyView::Size(n),
            Reply::Text(s) => ReplyView::Text(s@),
            Reply::Done => ReplyView::Done,
            Reply::Failed(e) => ReplyView::Failed(e@),
            Reply::Output { success, stdout, stderr } => ReplyView::Output {
                success,
                stdout: stdout@,
                stderr: stderr@,
            },
        }
    }
}

/// A conversation with the machine.
pub type Talk<R> = Dialogue<RequestView, ReplyView, R>;

/// The replies of the machine.
pub type Replies<'a> = Tape<'a, Request, Reply>;

/// What a failed request comes to when the reply does not say why.
pub open spec fn unexplained() -> Text {
    "unexpected reply"@
}

/// The answer to a yes-or-no question; any other reply is a no.
pub open spec fn flag_in(a: ReplyView) -> bool {
    a matches ReplyView::Flag(b) && b
}

/// Whether something was done; any reply but a failure says so.
pub open spec fn done_in(a: ReplyView) -> Result<(), Text> {
    match a {
        ReplyView::Failed(e) => Err(e),
        _ => Ok(()),
    }
}

pub open spec fn bytes_in(a: ReplyView) -> Result<Seq<u8>, Text> {
    match a {
        ReplyView::Bytes(b) => Ok(b),
        ReplyView::Failed(e) => Err(e),
        _ => Err(unexplained()),
    }
}

pub open spec fn size_in(a: ReplyView) -> Result<u64, Text> {
    match a {
        ReplyView::Size(n) => Ok(n),
        ReplyView::Failed(e) => Err(e),
        _ => Err(unexplained()),
    }
}

/// A text; any other reply is an empty one.
pub open spec fn text_in(a: ReplyView) -> Text {
    match a {
        ReplyView::Text(s) => s,
        _ => ""@,
    }
}

/// How a tool ended and what it wrote.
pub struct OutputView {
    pub success: bool,
    pub stdout: Seq<u8>,
    pub stderr: Seq<u8>,
}

pub open spec fn output_in(a: ReplyView) -> Result<OutputView, Text> {
    match a {
        ReplyView::Output { success, stdout, stderr } => Ok(OutputView { success, stdout, stderr }),
        ReplyView::Failed(e) => Err(e),
        _ => Err(unexplained()),
    }
}

pub open spec fn flag_of(q: RequestView) -> Talk<bool> {
    Dialogue::Ask(q, |a: ReplyView| Dialogue::End(flag_in(a)))
}

pub open spec fn done_of(q: RequestView) -> Talk<Result<(), Text>> {
    Dialogue::Ask(q, |a: ReplyView| Dialogue::End(done_in(a)))
}

pub open spec fn bytes_of(q: RequestView) -> Talk<Result<Seq<u8>, Text>> {
    Dialogue::Ask(q, |a: ReplyView| Dialogue::End(bytes_in(a)))
}

pub open spec fn size_of(q: RequestView) -> Talk<Result<u64, Text>> {
    Dialogue::Ask(q, |a: ReplyView| Dialogue::End(size_in(a)))
}

pub open spec fn shown_text_of(q: RequestView) -> Talk<Text> {
    Dialogue::Ask(q, |a: ReplyView| Dialogue::End(text_in(a)))
}

pub open spec fn output_of(q: RequestView) -> Talk<Result<OutputView, Text>> {
    Dialogue::Ask(q, |a: ReplyView| Dialogue::End(output_in(a)))
}

/// The model of a result without a value.
pub open spec fn unit_view(r: Result<(), String>) -> Result<(), Text> {
    match r {
        Ok(()) => Ok(()),
        Err(e) => Err(e@),
    }
}

/// Asks a yes-or-no question.
pub fn ask_flag(t: &mut Replies, q: Request) -> (r: Option<bool>)
    requires
        old(t).wf(),
    ensures
        final(t).reached(old(t), flag_of(q@), r),
{
    proof {
        reveal_with_fuel(follow, 3);
    }
    if !t.answered() {
        t.ask(q);
        return None;
    }
    match t.take() {
        Reply::Flag(b) => Some(*b),
        _ => Some(false),
    }
}

/// Asks for something to be done.
pub fn ask_done(t: &mut Replies, q: Request) -> (r: Option<Result<(), String>>)
    requires
        old(t).wf(),
    ensures
        final(t).reached(old(t), done_of(q@), opt(r, |v| unit_view(v))),
{
    proof {
        reveal_with_fuel(follow, 3);
    }
    if !t.answered() {
        t.ask(q);
        return None;
    }
    match t.take() {
        Reply::Failed(e) => Some(Err(e.clone())),
        _ => Some(Ok(())),
    }
}

/// The model of the contents of a file.
pub open spec fn bytes_view(r: Result<&Vec<u8>, String>) -> Result<Seq<u8>, Text> {
    match r {
        Ok(b) => Ok(b@),
        Err(e) => Err(e@),
    }
}

/// Asks for the contents of a file.
pub fn ask_bytes<'a>(t: &mut Replies<'a>, q: Request) -> (r: Option<Result<&'a Vec<u8>, String>>)
    requires
        old(t).wf(),
    ensures
        final(t).reached(old(t), bytes_of(q@), opt(r, |v| bytes_view(v))),
{
    proof {
        reveal_with_fuel(follow, 3);
    }
    if !t.answered() {
        t.ask(q);
        return None;
    }
    match t.take() {
        Reply::Bytes(b) => Some(Ok(b)),
        Reply::Failed(e) => Some(Err(e.clone())),
        _ => Some(Err("unexpected reply".to_owned())),
    }
}

/// The model of the size of a file.
pub open spec fn size_view(r: Result<u64, String>) -> Result<u64, Text> {
    match r {
        Ok(n) => Ok(n),
        Err(e) => Err(e@),
    }
}

/// Asks for the size of a file.
pub fn ask_size(t: &mut Replies, q: Request) -> (r: Option<Result<u64, String>>)
    requires
        old(t).wf(),
    ensures
        final(t).reached(old(t), size_of(q@), opt(r, |v| size_view(v))),
{
    proof {
        reveal_with_fuel(follow, 3);
    }
    if !t.answered() {
        t.ask(q);
        return None;
    }
    match t.take() {
        Reply::Size(n) => Some(Ok(*n)),
        Reply::Failed(e) => Some(Err(e.clone())),
        _ => Some(Err("unexpected reply".to_owned())),
    }
}

/// Asks for a text.
pub fn ask_text(t: &mut Replies, q: Request) -> (r: Option<String>)
    requires
        old(t).wf(),
    ensures
        final(t).reached(old(t), shown_text_of(q@), opt(r, |s: String| s@)),
{
    proof {
        reveal_with_fuel(follow, 3);
    }
    if !t.answered() {
        t.ask(q);
        return None;
    }
    match t.take() {
        Reply::Text(s) => Some(s.clone()),
        _ => Some("".to_owned()),
    }
}

/// How a tool ended and what it wrote.
pub struct Output<'a> {
    pub success: bool,
    pub stdout: &'a Vec<u8>,
    pub stderr: &'a Vec<u8>,
}

/// The model of the output of a tool.
pub open spec fn output_view(r: Result<Output, String>) -> Result<OutputView, Text> {
    match r {
        Ok(o) => Ok(OutputView { success: o.success, stdout: o.stdout@, stderr: o.stderr@ }),
        Err(e) => Err(e@),
    }
}

/// Asks for a tool to be run.
pub fn ask_output<'a>(t: &mut Replies<'a>, q: Request) -> (r: Option<Result<Output<'a>, String>>)
    requires
        old(t).wf(),
    ensures
        final(t).reached(old(t), output_of(q@), opt(r, |v| output_view(v))),
{
    proof {
        reveal_with_fuel(follow, 3);
    }
    if !t.answered() {
        t.ask(q);
        return None;
    }
    match t.take() {
        Reply::Output { success, stdout, stderr } => Some(
            Ok(Output { success: *success, stdout, stderr }),
        ),
        Reply::Failed(e) => Some(Err(e.clone())),
        _ => Some(Err("unexpected reply".to_owned())),
    }
}

} // verus!
