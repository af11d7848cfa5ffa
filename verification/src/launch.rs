//! Starting the game and seeing it through to its end.
use vstd::prelude::*;

use crate::catalog::{CatalogView, ServerCatalog};
use crate::credentials::{Credentials, CredentialsView};
use crate::dialogue::{
    asked, follow, group_sent, lemma_follow_then, meets, opt, sent, then_do, Dialogue, Stage, Step, Tape,
};
use crate::path::{parent, parent_of};
use crate::place::strings;
use crate::protocol::cache_view;
use crate::text::{join, Text};

verus! {

/// What the launcher knows of the game while it runs.
pub struct GameState {
    /// Whether the game is running.
    pub running: bool,
    /// The launcher's window that the game talks to.
    pub window: Option<usize>,
}

impl GameState {
    /// No game, and no window.
    pub fn new() -> (r: Self)
        ensures
            !r.running,
            r.window is None,
    {
        GameState { running: false, window: None }
    }

    /// Whether the game is running.
    pub fn is_game_running(&self) -> (r: bool)
        ensures
            r == self.running,
    {
        self.running
    }

    /// Notes that the game is running, or not; gives what there is to be told of it.
    pub fn set_running(&mut self, running: bool) -> (told: bool)
        ensures
            told == running,
            *final(self) == (GameState { running, ..*old(self) }),
    {
        self.running = running;
        running
    }

    /// Goes back to no game and no window; gives what there is to be told of the
    /// game.
    pub fn reset_global_state(&mut self) -> (told: bool)
        ensures
            !told,
            !final(self).running,
            final(self).window is None,
    {
        self.running = false;
        self.window = None;
        false
    }
}

/// Something that starting the game takes.
pub enum Request {
    /// Whether the game is running.
    IsRunning,
    /// Keep what the game will ask for.
    StoreCredentials(Credentials),
    /// Note that the game is running, or not, and tell.
    SetRunning(bool),
    /// Open the window that the game talks to, and wait until it is there.
    OpenWindow,
    /// Get the server list for an account with these characters.
    FetchServerList { characters_count: String },
    /// Keep this server list for the game, or have none.
    KeepServerList(Option<ServerCatalog>),
    /// Start a program in a folder, with a log there of what it writes.
    Spawn { program: String, arguments: Vec<String>, folder: String, log_file: String },
    /// Keep the number of the game's process.
    KeepProcess(u32),
    /// Wait until the game ends.
    WaitForExit,
    /// The launcher's window.
    WindowHandle,
    /// Tell the window that the game is over.
    PostGameExited(usize),
    /// Wait until the window is gone.
    JoinWindow,
}

/// [`Request`] in the model.
pub enum RequestView {
    IsRunning,
    StoreCredentials(CredentialsView),
    SetRunning(bool),
    OpenWindow,
    FetchServerList { characters_count: Text },
    KeepServerList(Option<CatalogView>),
    Spawn { program: Text, arguments: Seq<Text>, folder: Text, log_file: Text },
    KeepProcess(u32),
    WaitForExit,
    WindowHandle,
    PostGameExited(usize),
    JoinWindow,
}

impl View for Request {
    type V = RequestView;

    open spec fn view(&self) -> RequestView {
        match *self {
            Request::IsRunning => RequestView::IsRunning,
            Request::StoreCredentials(c) => RequestView::StoreCredentials(c@),
            Request::SetRunning(b) => RequestView::SetRunning(b),
            Request::OpenWindow => RequestView::OpenWindow,
            Request::FetchServerList { characters_count } => RequestView::FetchServerList {
                characters_count: characters_count@,
            },
            Request::KeepServerList(list) => RequestView::KeepServerList(cache_view(list)),
            Request::Spawn { program, arguments, folder, log_file } => RequestView::Spawn {
                program: program@,
                arguments: strings(arguments@),
                folder: folder@,
                log_file: log_file@,
            },
            Request::KeepProcess(pid) => RequestView::KeepProcess(pid),
            Request::WaitForExit => RequestView::WaitForExit,
            Request::WindowHandle => RequestView::WindowHandle,
            Request::PostGameExited(h) => RequestView::PostGameExited(h),
            Request::JoinWindow => RequestView::JoinWindow,
        }
    }
}

/// What came of a request.
pub enum Reply {
    Flag(bool),
    /// It was done.
    Done,
    /// It could not be done, and why.
    Failed(String),
    /// The server list.
    ServerList(ServerCatalog),
    /// The number of the process that was started.
    Spawned(u32),
    /// The code with which the game ended, where there is one.
    Exited(Option<i32>),
    /// A window, where there is one.
    Handle(Option<usize>),
}

/// [`Reply`] in the model.
pub enum ReplyView {
    Flag(bool),
    Done,
    Failed(Text),
    ServerList(CatalogView),
    Spawned(u32),
    Exited(Option<i32>),
    Handle(Option<usize>),
}

impl View for Reply {
    type V = ReplyView;

    open spec fn view(&self) -> ReplyView {
        match *self {
            Reply::Flag(b) => ReplyView::Flag(b),
            Reply::Done => ReplyView::Done,
            Reply::Failed(e) => ReplyView::Failed(e@),
            Reply::ServerList(list) => ReplyView::ServerList(list@),
            Reply::Spawned(pid) => ReplyView::Spawned(pid),
            Reply::Exited(code) => ReplyView::Exited(code),
            Reply::Handle(h) => ReplyView::Handle(h),
        }
    }
}

/// A conversation about the game.
pub type Talk<R> = Dialogue<RequestView, ReplyView, R>;

/// What went wrong, where a reply is none of those that were to be expected.
pub open spec fn cause(a: ReplyView) -> Text {
    match a {
        ReplyView::Failed(e) => e,
        _ => "unexpected reply"@,
    }
}

/// What went wrong.
fn cause_of(a: &Reply) -> (s: String)
    ensures
        s@ == cause(a@),
{
    match a {
        Reply::Failed(e) => e.clone(),
        _ => "unexpected reply".to_owned(),
    }
}

/// Asks for something of which the reply does not matter.
pub open spec fn done_talk(q: RequestView) -> Talk<()> {
    then_do(asked(q), |a: ReplyView| Dialogue::End(()))
}

fn done(t: &mut Tape<Request, Reply>, q: Request) -> (r: Option<()>)
    requires
        old(t).wf(),
    ensures
        final(t).reached(old(t), done_talk(q@), r),
{
    broadcast use lemma_follow_then;

    t.ask_for(q)?;
    Some(())
}

/// Asks a yes-or-no question; any other reply is a no.
pub open spec fn flag_talk(q: RequestView) -> Talk<bool> {
    then_do(asked(q), |a: ReplyView| Dialogue::End(a == ReplyView::Flag(true)))
}

fn flag(t: &mut Tape<Request, Reply>, q: Request) -> (r: Option<bool>)
    requires
        old(t).wf(),
    ensures
        final(t).reached(old(t), flag_talk(q@), r),
{
    broadcast use lemma_follow_then;

    match t.ask_for(q)? {
        Reply::Flag(b) => Some(*b),
        _ => Some(false),
    }
}

/// The result of a game: the code with which it ended, or what went wrong.
pub type Outcome = Result<Option<i32>, Text>;

/// The model of a result.
pub open spec fn outcome(r: Result<Option<i32>, String>) -> Outcome {
    match r {
        Ok(code) => Ok(code),
        Err(e) => Err(e@),
    }
}

/// What remains to be done when the game has ended: it is told, and the window is
/// closed.
pub open spec fn ended_talk(code: Option<i32>) -> Talk<Outcome> {
    then_do(
        done_talk(RequestView::SetRunning(false)),
        |u: ()|
            then_do(
                asked(RequestView::WindowHandle),
                |a: ReplyView|
                    then_do(
                        match a {
                            ReplyView::Handle(Some(h)) => done_talk(RequestView::PostGameExited(h)),
                            _ => Dialogue::End(()),
                        },
                        |u: ()|
                            then_do(
                                asked(RequestView::JoinWindow),
                                |a: ReplyView|
                                    Dialogue::End(
                                        match a {
                                            ReplyView::Failed(e) => Err(e),
                                            _ => Ok(code),
                                        },
                                    ),
                            ),
                    ),
            ),
    )
}

fn ended(t: &mut Tape<Request, Reply>, code: Option<i32>) -> (r: Option<Result<Option<i32>, String>>)
    requires
        old(t).wf(),
    ensures
        final(t).reached(old(t), ended_talk(code), opt(r, |v| outcome(v))),
{
    broadcast use lemma_follow_then;

    done(t, Request::SetRunning(false))?;
    if let Reply::Handle(Some(h)) = t.ask_for(Request::WindowHandle)? {
        done(t, Request::PostGameExited(*h))?;
    }
    match t.ask_for(Request::JoinWindow)? {
        Reply::Failed(e) => Some(Err(e.clone())),
        _ => Some(Ok(code)),
    }
}

/// The game that was started is seen through to its end.
pub open spec fn spawned_talk(pid: u32) -> Talk<Outcome> {
    then_do(
        done_talk(RequestView::KeepProcess(pid)),
        |u: ()|
            then_do(
                asked(RequestView::WaitForExit),
                |a: ReplyView|
                    match a {
                        ReplyView::Exited(code) => ended_talk(code),
                        _ => Dialogue::End(Err(cause(a))),
                    },
            ),
    )
}

fn spawned(t: &mut Tape<Request, Reply>, pid: u32) -> (r: Option<Result<Option<i32>, String>>)
    requires
        old(t).wf(),
    ensures
        final(t).reached(old(t), spawned_talk(pid), opt(r, |v| outcome(v))),
{
    broadcast use lemma_follow_then;

    done(t, Request::KeepProcess(pid))?;
    let a = t.ask_for(Request::WaitForExit)?;
    match a {
        Reply::Exited(code) => ended(t, *code),
        _ => Some(Err(cause_of(a))),
    }
}

/// The folder that the game is started in: the one that holds it. There it finds its
/// libraries.
pub open spec fn game_folder(game_path: Text) -> Text {
    match parent(game_path) {
        Some(folder) => folder,
        None => "."@,
    }
}

/// How the game is started.
pub open spec fn spawn_request(c: CredentialsView) -> RequestView {
    RequestView::Spawn {
        program: c.game_path,
        arguments: seq!["-LANGUAGEEXT="@ + c.game_lang],
        folder: game_folder(c.game_path),
        log_file: "tera_launch.log"@,
    }
}

fn spawn_game(credentials: &Credentials) -> (q: Request)
    ensures
        q@ == spawn_request(credentials@),
{
    let arguments = vec![join("-LANGUAGEEXT=", &credentials.game_lang)];
    assert(strings(arguments@) =~= seq!["-LANGUAGEEXT="@ + credentials.game_lang@]);
    let folder = match parent_of(&credentials.game_path) {
        Some(folder) => folder,
        None => ".".to_owned(),
    };
    Request::Spawn {
        program: credentials.game_path.clone(),
        arguments,
        folder,
        log_file: "tera_launch.log".to_owned(),
    }
}

/// The game is started. Where that fails it is told.
pub open spec fn start_talk(c: CredentialsView) -> Talk<Outcome> {
    then_do(
        asked(spawn_request(c)),
        |a: ReplyView|
            match a {
                ReplyView::Spawned(pid) => spawned_talk(pid),
                _ => then_do(
                    done_talk(RequestView::SetRunning(false)),
                    |u: ()| Dialogue::End(Err("Failed to launch TERA.exe: "@ + cause(a))),
                ),
            },
    )
}

fn start(t: &mut Tape<Request, Reply>, credentials: &Credentials) -> (r: Option<Result<Option<i32>, String>>)
    requires
        old(t).wf(),
    ensures
        final(t).reached(
            old(t),
            start_talk(credentials@),
            opt(r, |v| outcome(v)),
        ),
{
    broadcast use lemma_follow_then;

    let a = t.ask_for(spawn_game(credentials))?;
    match a {
        Reply::Spawned(pid) => spawned(t, *pid),
        _ => {
            done(t, Request::SetRunning(false))?;
            Some(Err(join("Failed to launch TERA.exe: ", &cause_of(a))))
        },
    }
}

/// The server list that was got.
pub open spec fn got(a: ReplyView) -> Option<CatalogView> {
    match a {
        ReplyView::ServerList(list) => Some(list),
        _ => None,
    }
}

/// Asks for the server list and keeps it, or none where it was not got.
pub open spec fn server_list_talk(characters_count: Text) -> Talk<()> {
    then_do(
        asked(RequestView::FetchServerList { characters_count }),
        |a: ReplyView| done_talk(RequestView::KeepServerList(got(a))),
    )
}

fn get_server_list(t: &mut Tape<Request, Reply>, characters_count: &str) -> (r: Option<()>)
    requires
        old(t).wf(),
    ensures
        final(t).reached(old(t), server_list_talk(characters_count@), r),
{
    broadcast use lemma_follow_then;

    let list = match t.ask_for(Request::FetchServerList { characters_count: characters_count.to_owned() })? {
        Reply::ServerList(list) => Some(list.copy()),
        _ => None,
    };
    done(t, Request::KeepServerList(list))
}

/// The window is opened and the server list got before the game is started, so
/// that the game can be answered at once. The game is started without the list too.
pub open spec fn launch_game_talk(c: CredentialsView) -> Talk<Outcome> {
    then_do(
        flag_talk(RequestView::IsRunning),
        |running: bool|
            if running {
                Dialogue::End(Err("Game is already running"@))
            } else {
                then_do(
                    done_talk(RequestView::SetRunning(true)),
                    |u: ()|
                        then_do(
                            done_talk(RequestView::OpenWindow),
                            |u: ()|
                                then_do(
                                    server_list_talk(c.characters_count),
                                    |u: ()| start_talk(c),
                                ),
                        ),
                )
            },
    )
}

fn launch_game(t: &mut Tape<Request, Reply>, credentials: &Credentials) -> (r: Option<Result<Option<i32>, String>>)
    requires
        old(t).wf(),
    ensures
        final(t).reached(
            old(t),
            launch_game_talk(credentials@),
            opt(r, |v| outcome(v)),
        ),
{
    broadcast use lemma_follow_then;

    if flag(t, Request::IsRunning)? {
        return Some(Err("Game is already running".to_owned()));
    }
    done(t, Request::SetRunning(true))?;
    done(t, Request::OpenWindow)?;
    get_server_list(t, &credentials.characters_count)?;
    start(t, credentials)
}

/// Starts the game, unless it is running, and sees it through to its end.
pub open spec fn run_game_talk(c: CredentialsView) -> Talk<Outcome> {
    then_do(
        flag_talk(RequestView::IsRunning),
        |running: bool|
            if running {
                Dialogue::End(Err("Game is already running"@))
            } else {
                then_do(
                    done_talk(RequestView::StoreCredentials(c)),
                    |u: ()| launch_game_talk(c),
                )
            },
    )
}

fn do_run_game(t: &mut Tape<Request, Reply>, credentials: &Credentials) -> (r: Option<Result<Option<i32>, String>>)
    requires
        old(t).wf(),
    ensures
        final(t).reached(
            old(t),
            run_game_talk(credentials@),
            opt(r, |v| outcome(v)),
        ),
{
    broadcast use lemma_follow_then;

    if flag(t, Request::IsRunning)? {
        return Some(Err("Game is already running".to_owned()));
    }
    done(t, Request::StoreCredentials(credentials.copy()))?;
    launch_game(t, credentials)
}

/// Starts the game, unless it is running, and sees it through to its end.
pub fn run_game(credentials: &Credentials, replies: &Vec<Reply>) -> (r: Step<
    Request,
    Result<Option<i32>, String>,
>)
    ensures
        meets(
            r,
            |v: Result<Option<i32>, String>| outcome(v),
            run_game_talk(credentials@),
            replies@,
        ),
{
    let mut t = Tape::new(replies);
    let r = do_run_game(&mut t, credentials);
    t.finish(r)
}

/// A game that is running is left alone: nothing is asked but whether it is, and
/// the result says so.
pub proof fn law_running_game_is_left_alone(c: CredentialsView, replies: Seq<ReplyView>)
    requires
        replies.len() > 0,
        replies[0] == ReplyView::Flag(true),
    ensures
        sent(run_game_talk(c), replies, 0) == seq![RequestView::IsRunning],
        follow(run_game_talk(c), replies, 0) == Stage::<RequestView, Outcome>::Finished(
            Err("Game is already running"@),
            1,
        ),
{
    broadcast use group_sent;

    assert(seq![RequestView::IsRunning] + Seq::<RequestView>::empty() =~= seq![RequestView::IsRunning]);
}

/// Whether the game counts as running once these requests are fulfilled, where it
/// did not before.
pub open spec fn counts_as_running(requests: Seq<RequestView>) -> bool
    decreases requests.len(),
{
    if requests.len() == 0 {
        false
    } else {
        match requests.last() {
            RequestView::SetRunning(b) => b,
            _ => counts_as_running(requests.drop_last()),
        }
    }
}

/// Requests that do not speak of the game's running change nothing about it.
proof fn lemma_counts_as_running(a: Seq<RequestView>, b: Seq<RequestView>)
    ensures
        (forall|i: int| 0 <= i < b.len() ==> !((#[trigger] b[i]) is SetRunning)) ==> counts_as_running(a + b)
            == counts_as_running(a),
        b.len() > 0 && b.last() is SetRunning ==> counts_as_running(a + b) == b.last()->SetRunning_0,
    decreases b.len(),
{
    if b.len() == 0 {
        assert(a + b =~= a);
    } else {
        assert((a + b).drop_last() =~= a + b.drop_last());
        assert((a + b).last() == b.last());
        lemma_counts_as_running(a, b.drop_last());
        if forall|i: int| 0 <= i < b.len() ==> !((#[trigger] b[i]) is SetRunning) {
            assert(!(b[b.len() - 1] is SetRunning));
            assert forall|i: int| 0 <= i < b.len() - 1 implies !((#[trigger] b.drop_last()[i]) is SetRunning) by {
                assert(b.drop_last()[i] == b[i]);
            }
        }
    }
}

/// What is sent when the game has ended begins with the note that it is not running
/// any more, and there is no other.
proof fn lemma_ended(code: Option<i32>, h: Seq<ReplyView>, i: int)
    ensures
        ({
            let s = sent(ended_talk(code), h, i);
            &&& s.len() > 0
            &&& s[0] == RequestView::SetRunning(false)
            &&& forall|k: int| 0 < k < s.len() ==> !((#[trigger] s[k]) is SetRunning)
            &&& s.last() != RequestView::WaitForExit
        }),
{
    broadcast use group_sent;

}

/// What is sent behind the start of the game.
proof fn lemma_start(c: CredentialsView, h: Seq<ReplyView>, i: int)
    ensures
        ({
            let s = sent(start_talk(c), h, i);
            &&& s.len() > 0
            &&& s[0] == spawn_request(c)
            &&& forall|k: int| 0 < k < s.len() ==> !((#[trigger] s[k]) is Spawn)
            &&& follow(start_talk(c), h, i) is Finished ==> s.last()
                == RequestView::WaitForExit || (exists|k: int|
                0 < k < s.len() && #[trigger] s[k] == RequestView::SetRunning(false) && (forall|j: int|
                    k < j < s.len() ==> !((#[trigger] s[j]) is SetRunning)))
        }),
{
    broadcast use group_sent;

    let s = sent(start_talk(c), h, i);
    if 0 <= i < h.len() {
        match h[i] {
            ReplyView::Spawned(pid) => {
                let t = sent(spawned_talk(pid), h, i + 1);
                assert(s =~= seq![spawn_request(c)] + t);
                if 0 <= i + 2 < h.len() {
                    match h[i + 2] {
                        ReplyView::Exited(code) => {
                            lemma_ended(code, h, i + 3);
                            let u = sent(ended_talk(code), h, i + 3);
                            assert(t =~= seq![RequestView::KeepProcess(pid), RequestView::WaitForExit] + u);
                            assert(s[3] == u[0]);
                            assert forall|k: int| 3 < k < s.len() implies !((#[trigger] s[k]) is SetRunning) by {
                                assert(s[k] == u[k - 3]);
                            }
                            assert forall|k: int| 0 < k < s.len() implies !((#[trigger] s[k]) is Spawn) by {
                                if k >= 3 {
                                    assert(s[k] == u[k - 3]);
                                    lemma_ended_spawns_nothing(code, h, i + 3);
                                }
                            }
                        },
                        _ => {
                            assert(t =~= seq![RequestView::KeepProcess(pid), RequestView::WaitForExit]);
                        },
                    }
                }
            },
            _ => {
                assert(s =~= seq![spawn_request(c), RequestView::SetRunning(false)]);
            },
        }
    }
}

/// Nothing is started when the game has ended.
proof fn lemma_ended_spawns_nothing(code: Option<i32>, h: Seq<ReplyView>, i: int)
    ensures
        forall|k: int|
            0 <= k < sent(ended_talk(code), h, i).len() ==> !((#[trigger] sent(ended_talk(code), h, i)[k]) is Spawn),
{
    broadcast use group_sent;

}

/// What is sent before the game is started.
pub open spec fn preparations(c: CredentialsView, list: Option<CatalogView>) -> Seq<RequestView> {
    seq![
        RequestView::IsRunning,
        RequestView::StoreCredentials(c),
        RequestView::IsRunning,
        RequestView::SetRunning(true),
        RequestView::OpenWindow,
        RequestView::FetchServerList { characters_count: c.characters_count },
        RequestView::KeepServerList(list),
    ]
}

/// What is sent in all: the preparations as far as they get, then what starting the
/// game takes.
#[verifier::spinoff_prover]
#[verifier::rlimit(30)]
proof fn lemma_run_game(c: CredentialsView, h: Seq<ReplyView>)
    ensures
        ({
            let s = sent(run_game_talk(c), h, 0);
            let goes = h.len() >= 7 && h[0] != ReplyView::Flag(true) && h[2] != ReplyView::Flag(true);
            if goes {
                &&& s == preparations(c, got(h[5])) + sent(start_talk(c), h, 7)
                &&& follow(run_game_talk(c), h, 0) == follow(
                    start_talk(c),
                    h,
                    7,
                )
            } else {
                &&& s.len() <= 7
                &&& forall|k: int| 0 <= k < s.len() ==> !((#[trigger] s[k]) is Spawn)
                &&& follow(run_game_talk(c), h, 0) is Finished ==> forall|k: int|
                    0 <= k < s.len() ==> !((#[trigger] s[k]) is SetRunning)
            }
        }),
{
    broadcast use group_sent;

    let s = sent(run_game_talk(c), h, 0);
    if h.len() >= 7 && h[0] != ReplyView::Flag(true) && h[2] != ReplyView::Flag(true) {
        assert(s =~= preparations(c, got(h[5])) + sent(
            start_talk(c),
            h,
            7,
        ));
    }
}

/// The game is started at most once, in its own folder, and only when what it will ask
/// for is stored, its window is there and the server list that was got is kept.
pub proof fn law_window_and_list_come_first(c: CredentialsView, replies: Seq<ReplyView>, k: int)
    requires
        0 <= k < sent(run_game_talk(c), replies, 0).len(),
        sent(run_game_talk(c), replies, 0)[k] is Spawn,
    ensures
        ({
            let s = sent(run_game_talk(c), replies, 0);
            &&& k == 7
            &&& s[k] == spawn_request(c)
            &&& s[k]->folder == game_folder(c.game_path)
            &&& s[1] == RequestView::StoreCredentials(c)
            &&& s[6] == RequestView::KeepServerList(got(replies[5]))
            &&& s.take(7) == preparations(c, got(replies[5]))
        }),
{
    let s = sent(run_game_talk(c), replies, 0);
    lemma_run_game(c, replies);
    lemma_start(c, replies, 7);
    let t = sent(start_talk(c), replies, 7);
    let p = preparations(c, got(replies[5]));
    assert(s == p + t);
    if k > 7 {
        assert(s[k] == t[k - 7]);
    }
    assert(s.take(7) =~= p);
}

/// When all is over the game does not count as running, whatever went wrong. Left
/// out is one fault: that the launcher cannot wait for the game's end.
pub proof fn law_game_does_not_stay_running(
    c: CredentialsView,
    replies: Seq<ReplyView>,
    r: Outcome,
    used: int,
)
    requires
        follow(run_game_talk(c), replies, 0) == Stage::<RequestView, Outcome>::Finished(
            r,
            used,
        ),
        sent(run_game_talk(c), replies, 0).last() != RequestView::WaitForExit,
    ensures
        !counts_as_running(sent(run_game_talk(c), replies, 0)),
{
    let s = sent(run_game_talk(c), replies, 0);
    lemma_run_game(c, replies);
    if replies.len() >= 7 && replies[0] != ReplyView::Flag(true) && replies[2] != ReplyView::Flag(true) {
        let p = preparations(c, got(replies[5]));
        let t = sent(start_talk(c), replies, 7);
        lemma_start(c, replies, 7);
        assert(s.last() == t.last());
        let k = choose|k: int|
            0 < k < t.len() && #[trigger] t[k] == RequestView::SetRunning(false) && (forall|j: int|
                k < j < t.len() ==> !((#[trigger] t[j]) is SetRunning));
        let head = t.take(k + 1);
        let tail = t.skip(k + 1);
        assert(s =~= p + head + tail);
        assert(head.last() == t[k]);
        lemma_counts_as_running(p, head);
        assert forall|i: int| 0 <= i < tail.len() implies !((#[trigger] tail[i]) is SetRunning) by {
            assert(tail[i] == t[k + 1 + i]);
        }
        lemma_counts_as_running(p + head, tail);
    } else {
        lemma_counts_as_running(Seq::empty(), s);
        assert(Seq::<RequestView>::empty() + s =~= s);
    }
}

/// The game is started as the player says: the program, with the language, in the folder
/// that holds it, or in the folder of the launcher where the path has none.
pub proof fn law_how_the_game_is_started(c: CredentialsView)
    ensures
        spawn_request(c) is Spawn,
        spawn_request(c)->program == c.game_path,
        spawn_request(c)->arguments == seq!["-LANGUAGEEXT="@ + c.game_lang],
        spawn_request(c)->log_file == "tera_launch.log"@,
        parent(c.game_path) matches Some(folder) ==> spawn_request(c)->folder == folder,
        parent(c.game_path) is None ==> spawn_request(c)->folder == "."@,
{
}

/// An end of a game, after so many replies.
pub open spec fn over(r: Outcome, replies: int) -> Stage<RequestView, Outcome> {
    Stage::Finished(r, replies)
}

/// A game that is not running is prepared, started and seen through to its end with these
/// requests, in this order. The result is the code with which it ended.
pub proof fn law_what_a_game_takes(
    c: CredentialsView,
    replies: Seq<ReplyView>,
    pid: u32,
    code: Option<i32>,
    h: usize,
    e: Text,
)
    requires
        replies.len() >= 14,
        replies[0] != ReplyView::Flag(true),
        replies[2] != ReplyView::Flag(true),
        replies[7] == ReplyView::Spawned(pid),
        replies[9] == ReplyView::Exited(code),
    ensures
        ({
            let asked = sent(run_game_talk(c), replies, 0);
            let end = follow(run_game_talk(c), replies, 0);
            let list = if replies[5] is ServerList { Some(replies[5]->ServerList_0) } else { None };
            let start = seq![
                RequestView::IsRunning,
                RequestView::StoreCredentials(c),
                RequestView::IsRunning,
                RequestView::SetRunning(true),
                RequestView::OpenWindow,
                RequestView::FetchServerList { characters_count: c.characters_count },
                RequestView::KeepServerList(list),
                spawn_request(c),
                RequestView::KeepProcess(pid),
                RequestView::WaitForExit,
                RequestView::SetRunning(false),
                RequestView::WindowHandle,
            ];
            let open = replies[11] == ReplyView::Handle(Some(h));
            let closed = !(replies[11] matches ReplyView::Handle(Some(_)));
            &&& open ==> asked == start + seq![RequestView::PostGameExited(h), RequestView::JoinWindow]
            &&& closed ==> asked == start.push(RequestView::JoinWindow)
            &&& open && !(replies[13] is Failed) ==> end == over(Ok(code), 14)
            &&& open && replies[13] == ReplyView::Failed(e) ==> end == over(Err(e), 14)
            &&& closed && !(replies[12] is Failed) ==> end == over(Ok(code), 13)
            &&& closed && replies[12] == ReplyView::Failed(e) ==> end == over(Err(e), 13)
        }),
{
    lemma_run_game(c, replies);
    lemma_game_seen_through(c, replies, pid, code, h, e);
    let p = preparations(c, got(replies[5]));
    let s = sent(start_talk(c), replies, 7);
    let list = if replies[5] is ServerList { Some(replies[5]->ServerList_0) } else { None };
    let start = seq![
        RequestView::IsRunning,
        RequestView::StoreCredentials(c),
        RequestView::IsRunning,
        RequestView::SetRunning(true),
        RequestView::OpenWindow,
        RequestView::FetchServerList { characters_count: c.characters_count },
        RequestView::KeepServerList(list),
        spawn_request(c),
        RequestView::KeepProcess(pid),
        RequestView::WaitForExit,
        RequestView::SetRunning(false),
        RequestView::WindowHandle,
    ];
    if replies[11] == ReplyView::Handle(Some(h)) {
        assert(p + s =~= start + seq![RequestView::PostGameExited(h), RequestView::JoinWindow]);
    } else if !(replies[11] matches ReplyView::Handle(Some(_))) {
        assert(p + s =~= start.push(RequestView::JoinWindow));
    }
}

proof fn lemma_game_seen_through(
    c: CredentialsView,
    replies: Seq<ReplyView>,
    pid: u32,
    code: Option<i32>,
    h: usize,
    e: Text,
)
    requires
        replies.len() >= 14,
        replies[7] == ReplyView::Spawned(pid),
        replies[9] == ReplyView::Exited(code),
    ensures
        ({
            let asked = sent(start_talk(c), replies, 7);
            let end = follow(start_talk(c), replies, 7);
            let start = seq![
                spawn_request(c),
                RequestView::KeepProcess(pid),
                RequestView::WaitForExit,
                RequestView::SetRunning(false),
                RequestView::WindowHandle,
            ];
            let open = replies[11] == ReplyView::Handle(Some(h));
            let closed = !(replies[11] matches ReplyView::Handle(Some(_)));
            &&& open ==> asked == start + seq![RequestView::PostGameExited(h), RequestView::JoinWindow]
            &&& closed ==> asked == start.push(RequestView::JoinWindow)
            &&& open && !(replies[13] is Failed) ==> end == over(Ok(code), 14)
            &&& open && replies[13] == ReplyView::Failed(e) ==> end == over(Err(e), 14)
            &&& closed && !(replies[12] is Failed) ==> end == over(Ok(code), 13)
            &&& closed && replies[12] == ReplyView::Failed(e) ==> end == over(Err(e), 13)
        }),
{
    broadcast use group_sent;

    let asked = sent(start_talk(c), replies, 7);
    let start = seq![
        spawn_request(c),
        RequestView::KeepProcess(pid),
        RequestView::WaitForExit,
        RequestView::SetRunning(false),
        RequestView::WindowHandle,
    ];
    if replies[11] == ReplyView::Handle(Some(h)) {
        assert(asked =~= start + seq![RequestView::PostGameExited(h), RequestView::JoinWindow]);
    } else if !(replies[11] matches ReplyView::Handle(Some(_))) {
        assert(asked =~= start.push(RequestView::JoinWindow));
    }
}

/// A game that cannot be started, or whose end cannot be waited for, is told of; in the
/// former case it does not count as running any more.
pub proof fn law_failed_start_is_told(c: CredentialsView, replies: Seq<ReplyView>, pid: u32, e: Text)
    requires
        replies.len() >= 10,
        replies[0] != ReplyView::Flag(true),
        replies[2] != ReplyView::Flag(true),
    ensures
        replies[7] == ReplyView::Failed(e) ==> {
            &&& follow(run_game_talk(c), replies, 0) == over(Err("Failed to launch TERA.exe: "@ + e), 9)
            &&& sent(run_game_talk(c), replies, 0).len() == 9
            &&& sent(run_game_talk(c), replies, 0)[8] == RequestView::SetRunning(false)
        },
        replies[7] == ReplyView::Spawned(pid) && replies[9] == ReplyView::Failed(e) ==> {
            &&& follow(run_game_talk(c), replies, 0) == over(Err(e), 10)
            &&& sent(run_game_talk(c), replies, 0).len() == 10
        },
{
    lemma_run_game(c, replies);
    lemma_start_fails(c, replies, pid, e);
}

proof fn lemma_start_fails(c: CredentialsView, replies: Seq<ReplyView>, pid: u32, e: Text)
    requires
        replies.len() >= 10,
    ensures
        replies[7] == ReplyView::Failed(e) ==> {
            &&& follow(start_talk(c), replies, 7) == over(Err("Failed to launch TERA.exe: "@ + e), 9)
            &&& sent(start_talk(c), replies, 7) == seq![spawn_request(c), RequestView::SetRunning(false)]
        },
        replies[7] == ReplyView::Spawned(pid) && replies[9] == ReplyView::Failed(e) ==> {
            &&& follow(start_talk(c), replies, 7) == over(Err(e), 10)
            &&& sent(start_talk(c), replies, 7) == seq![
                spawn_request(c),
                RequestView::KeepProcess(pid),
                RequestView::WaitForExit,
            ]
        },
{
    broadcast use group_sent;

    let s = sent(start_talk(c), replies, 7);
    if replies[7] == ReplyView::Failed(e) {
        assert(s =~= seq![spawn_request(c), RequestView::SetRunning(false)]);
    } else if replies[7] == ReplyView::Spawned(pid) && replies[9] == ReplyView::Failed(e) {
        assert(s =~= seq![spawn_request(c), RequestView::KeepProcess(pid), RequestView::WaitForExit]);
    }
}

/// A game that starts in between is left alone too.
pub proof fn law_game_is_not_started_twice(c: CredentialsView, replies: Seq<ReplyView>)
    requires
        replies.len() >= 3,
        replies[0] != ReplyView::Flag(true),
        replies[2] == ReplyView::Flag(true),
    ensures
        sent(run_game_talk(c), replies, 0) == seq![
            RequestView::IsRunning,
            RequestView::StoreCredentials(c),
            RequestView::IsRunning,
        ],
        follow(run_game_talk(c), replies, 0) == over(Err("Game is already running"@), 3),
{
    broadcast use group_sent;

    assert(sent(run_game_talk(c), replies, 0) =~= seq![
        RequestView::IsRunning,
        RequestView::StoreCredentials(c),
        RequestView::IsRunning,
    ]);
}

} // verus!
