//! The launcher's window: opened before the game starts, closed when it is over.
use vstd::prelude::*;

use crate::dialogue::{
    asked, follow, group_sent, lemma_follow_then, meets, sent, then_do, Dialogue, Stage, Step, Tape,
};
use crate::protocol::WM_GAME_EXITED;
use crate::utf16::{to_wstring, utf16};

verus! {

/// Something that opening or closing the window takes. Names are wide strings with
/// a terminating zero.
pub enum Request {
    /// Register a class of windows.
    RegisterClass(Vec<u16>),
    /// Create a window of a class, with a title.
    CreateWindow { class: Vec<u16>, title: Vec<u16> },
    /// Let messages of the game through, at whatever integrity level that runs.
    AllowCopyData(usize),
    /// Keep the window.
    StoreHandle(usize),
    /// Tell that the window is there.
    NotifyReady,
    /// Destroy the window.
    DestroyWindow(usize),
    /// Take back the class.
    UnregisterClass(Vec<u16>),
    /// Forget the game and the window.
    ResetState,
    /// Destroy the windows of a class that are left over.
    DestroyLeftovers(Vec<u16>),
    /// Whether there is such a class.
    IsClassKnown(Vec<u16>),
}

/// [`Request`] in the model.
pub enum RequestView {
    RegisterClass(Seq<u16>),
    CreateWindow { class: Seq<u16>, title: Seq<u16> },
    AllowCopyData(usize),
    StoreHandle(usize),
    NotifyReady,
    DestroyWindow(usize),
    UnregisterClass(Seq<u16>),
    ResetState,
    DestroyLeftovers(Seq<u16>),
    IsClassKnown(Seq<u16>),
}

impl View for Request {
    type V = RequestView;

    open spec fn view(&self) -> RequestView {
        match *self {
            Request::RegisterClass(c) => RequestView::RegisterClass(c@),
            Request::CreateWindow { class, title } => RequestView::CreateWindow { class: class@, title: title@ },
            Request::AllowCopyData(h) => RequestView::AllowCopyData(h),
            Request::StoreHandle(h) => RequestView::StoreHandle(h),
            Request::NotifyReady => RequestView::NotifyReady,
            Request::DestroyWindow(h) => RequestView::DestroyWindow(h),
            Request::UnregisterClass(c) => RequestView::UnregisterClass(c@),
            Request::ResetState => RequestView::ResetState,
            Request::DestroyLeftovers(c) => RequestView::DestroyLeftovers(c@),
            Request::IsClassKnown(c) => RequestView::IsClassKnown(c@),
        }
    }
}

/// What came of a request.
#[derive(Clone, Copy, PartialEq, Eq, Structural)]
pub enum Reply {
    Flag(bool),
    Done,
    /// A window, where there is one.
    Handle(Option<usize>),
}

impl View for Reply {
    type V = Reply;

    open spec fn view(&self) -> Reply {
        *self
    }
}

/// A conversation about the window.
pub type Talk<R> = Dialogue<RequestView, Reply, R>;

/// The class by which the game finds the window.
pub open spec fn class_name() -> Seq<u16> {
    utf16("LAUNCHER_CLASS"@).push(0)
}

/// The title of the window.
pub open spec fn window_name() -> Seq<u16> {
    utf16("LAUNCHER_WINDOW"@).push(0)
}

/// The class by which the game finds the window.
pub fn launcher_class() -> (r: Vec<u16>)
    ensures
        r@ == class_name(),
{
    to_wstring("LAUNCHER_CLASS")
}

/// The title of the window.
fn launcher_title() -> (r: Vec<u16>)
    ensures
        r@ == window_name(),
{
    to_wstring("LAUNCHER_WINDOW")
}

/// The window is opened: its handle, or `None` where that failed. A class whose
/// window cannot be created is taken back.
pub open spec fn open_window_talk() -> Talk<Option<usize>> {
    then_do(
        asked(RequestView::RegisterClass(class_name())),
        |a: Reply|
            if a != Reply::Flag(true) {
                Dialogue::End(None)
            } else {
                then_do(
                    asked(RequestView::CreateWindow { class: class_name(), title: window_name() }),
                    |a: Reply|
                        match a {
                            Reply::Handle(Some(h)) => then_do(
                                asked(RequestView::AllowCopyData(h)),
                                |a: Reply|
                                    then_do(
                                        asked(RequestView::StoreHandle(h)),
                                        |a: Reply|
                                            then_do(
                                                asked(RequestView::NotifyReady),
                                                |a: Reply| Dialogue::End(Some(h)),
                                            ),
                                    ),
                            ),
                            _ => then_do(
                                asked(RequestView::UnregisterClass(class_name())),
                                |a: Reply| Dialogue::End(None),
                            ),
                        },
                )
            },
    )
}

fn do_open_window(t: &mut Tape<Request, Reply>) -> (r: Option<Option<usize>>)
    requires
        old(t).wf(),
    ensures
        final(t).reached(old(t), open_window_talk(), r),
{
    broadcast use lemma_follow_then;

    match t.ask_for(Request::RegisterClass(launcher_class()))? {
        Reply::Flag(true) => {},
        _ => {
            return Some(None);
        },
    }
    let request = Request::CreateWindow { class: launcher_class(), title: launcher_title() };
    match t.ask_for(request)? {
        Reply::Handle(Some(h)) => {
            t.ask_for(Request::AllowCopyData(*h))?;
            t.ask_for(Request::StoreHandle(*h))?;
            t.ask_for(Request::NotifyReady)?;
            Some(Some(*h))
        },
        _ => {
            t.ask_for(Request::UnregisterClass(launcher_class()))?;
            Some(None)
        },
    }
}

/// Opens the window: its handle, or `None` where that failed.
pub fn open_window(replies: &Vec<Reply>) -> (r: Step<Request, Option<usize>>)
    ensures
        meets(r, |v: Option<usize>| v, open_window_talk(), replies@),
{
    let mut t = Tape::new(replies);
    let r = do_open_window(&mut t);
    t.finish(r)
}

/// Whether to go on with the message loop.
pub open spec fn continues(received: i32, message: u32) -> bool {
    received > 0 && message != WM_GAME_EXITED
}

/// Whether to go on with the message loop: `received` is what receiving a message
/// came to, `message` the message. The loop ends with the loop's own end, a fault,
/// and the message that the game is over.
pub fn goes_on(received: i32, message: u32) -> (r: bool)
    ensures
        r == continues(received, message),
{
    received > 0 && message != WM_GAME_EXITED
}

/// The window is closed, and nothing of it is left.
pub open spec fn close_window_talk(h: usize) -> Talk<()> {
    then_do(
        asked(RequestView::DestroyWindow(h)),
        |a: Reply|
            then_do(
                asked(RequestView::UnregisterClass(class_name())),
                |a: Reply|
                    then_do(
                        asked(RequestView::ResetState),
                        |a: Reply|
                            then_do(
                                asked(RequestView::DestroyLeftovers(class_name())),
                                |a: Reply|
                                    then_do(
                                        asked(RequestView::IsClassKnown(class_name())),
                                        |a: Reply|
                                            if a == Reply::Flag(true) {
                                                then_do(
                                                    asked(RequestView::UnregisterClass(class_name())),
                                                    |a: Reply| Dialogue::End(()),
                                                )
                                            } else {
                                                Dialogue::End(())
                                            },
                                    ),
                            ),
                    ),
            ),
    )
}

fn do_close_window(t: &mut Tape<Request, Reply>, h: usize) -> (r: Option<()>)
    requires
        old(t).wf(),
    ensures
        final(t).reached(old(t), close_window_talk(h), r),
{
    broadcast use lemma_follow_then;

    t.ask_for(Request::DestroyWindow(h))?;
    t.ask_for(Request::UnregisterClass(launcher_class()))?;
    t.ask_for(Request::ResetState)?;
    t.ask_for(Request::DestroyLeftovers(launcher_class()))?;
    match t.ask_for(Request::IsClassKnown(launcher_class()))? {
        Reply::Flag(true) => {
            t.ask_for(Request::UnregisterClass(launcher_class()))?;
        },
        _ => {},
    }
    Some(())
}

/// Closes the window, so that nothing of it is left.
pub fn close_window(h: usize, replies: &Vec<Reply>) -> (r: Step<Request, ()>)
    ensures
        meets(r, |v: ()| v, close_window_talk(h), replies@),
{
    let mut t = Tape::new(replies);
    let r = do_close_window(&mut t, h);
    t.finish(r)
}

/// A window that cannot be opened leaves no class behind: the last request is to take
/// it back, unless the class was not registered in the first place.
pub proof fn law_failed_window_leaves_no_class(replies: Seq<Reply>, used: int)
    requires
        follow(open_window_talk(), replies, 0) == Stage::<RequestView, Option<usize>>::Finished(None, used),
    ensures
        ({
            let requests = sent(open_window_talk(), replies, 0);
            ||| replies[0] != Reply::Flag(true)
            ||| requests.last() == RequestView::UnregisterClass(class_name())
        }),
{
    broadcast use group_sent;

}

/// That the window is there is told exactly where it is, after it was kept.
pub proof fn law_ready_is_told_of_a_window(replies: Seq<Reply>, r: Option<usize>, used: int)
    requires
        follow(open_window_talk(), replies, 0) == Stage::<RequestView, Option<usize>>::Finished(r, used),
    ensures
        ({
            let requests = sent(open_window_talk(), replies, 0);
            let n = requests.len();
            &&& r is Some <==> requests.contains(RequestView::NotifyReady)
            &&& r matches Some(h) ==> n >= 2 && requests[n - 1] == RequestView::NotifyReady && requests[n - 2]
                == RequestView::StoreHandle(h)
        }),
{
    broadcast use group_sent;

    let requests = sent(open_window_talk(), replies, 0);
    if r is Some {
        assert(requests[requests.len() - 1] == RequestView::NotifyReady);
    }
}

/// The window is opened with these requests, in this order, under the names by which the
/// game finds it; where a step fails the rest is left out.
pub proof fn law_what_a_window_takes(replies: Seq<Reply>, h: usize)
    requires
        replies.len() >= 5,
    ensures
        ({
            let class = utf16("LAUNCHER_CLASS"@).push(0);
            let title = utf16("LAUNCHER_WINDOW"@).push(0);
            let asked = sent(open_window_talk(), replies, 0);
            let end = follow(open_window_talk(), replies, 0);
            let registered = replies[0] == Reply::Flag(true);
            let create = RequestView::CreateWindow { class, title };
            &&& !registered ==> asked == seq![RequestView::RegisterClass(class)] && end == opened(None, 1)
            &&& registered && replies[1] == Reply::Handle(Some(h)) ==> asked == seq![
                RequestView::RegisterClass(class),
                create,
                RequestView::AllowCopyData(h),
                RequestView::StoreHandle(h),
                RequestView::NotifyReady,
            ] && end == opened(Some(h), 5)
            &&& registered && !(replies[1] matches Reply::Handle(Some(_))) ==> asked == seq![
                RequestView::RegisterClass(class),
                create,
                RequestView::UnregisterClass(class),
            ] && end == opened(None, 3)
        }),
{
    broadcast use group_sent;

    let class = class_name();
    let title = window_name();
    let asked = sent(open_window_talk(), replies, 0);
    let end = follow(open_window_talk(), replies, 0);
    let create = RequestView::CreateWindow { class, title };
    if replies[0] != Reply::Flag(true) {
        assert(asked =~= seq![RequestView::RegisterClass(class)]);
        assert(end == opened(None, 1));
    } else if replies[1] == Reply::Handle(Some(h)) {
        assert(asked =~= seq![
            RequestView::RegisterClass(class),
            create,
            RequestView::AllowCopyData(h),
            RequestView::StoreHandle(h),
            RequestView::NotifyReady,
        ]);
        assert(end == opened(Some(h), 5));
    } else if !(replies[1] matches Reply::Handle(Some(_))) {
        assert(asked =~= seq![RequestView::RegisterClass(class), create, RequestView::UnregisterClass(class)]);
        assert(end == opened(None, 3));
    }
}

/// An end of opening the window, after so many replies.
pub open spec fn opened(handle: Option<usize>, replies: int) -> Stage<RequestView, Option<usize>> {
    Stage::Finished(handle, replies)
}

/// The window is closed with these requests, in this order; the class is taken back once
/// more where it is still known.
pub proof fn law_what_closing_takes(h: usize, replies: Seq<Reply>)
    requires
        replies.len() >= 6,
    ensures
        ({
            let class = utf16("LAUNCHER_CLASS"@).push(0);
            let start = seq![
                RequestView::DestroyWindow(h),
                RequestView::UnregisterClass(class),
                RequestView::ResetState,
                RequestView::DestroyLeftovers(class),
                RequestView::IsClassKnown(class),
            ];
            sent(close_window_talk(h), replies, 0) == (if replies[4] == Reply::Flag(true) {
                start.push(RequestView::UnregisterClass(class))
            } else {
                start
            })
        }),
{
    broadcast use group_sent;

    let class = class_name();
    let start = seq![
        RequestView::DestroyWindow(h),
        RequestView::UnregisterClass(class),
        RequestView::ResetState,
        RequestView::DestroyLeftovers(class),
        RequestView::IsClassKnown(class),
    ];
    if replies[4] == Reply::Flag(true) {
        assert(sent(close_window_talk(h), replies, 0) =~= start.push(RequestView::UnregisterClass(class)));
    } else {
        assert(sent(close_window_talk(h), replies, 0) =~= start);
    }
}

/// The message loop goes on with every message but the launcher's word that the game is over,
/// and ends where there is no message or none can be had.
pub proof fn law_message_loop(received: i32, message: u32)
    ensures
        received <= 0 ==> !continues(received, message),
        received > 0 ==> (continues(received, message) <==> message != 0x401),
{
}

} // verus!
