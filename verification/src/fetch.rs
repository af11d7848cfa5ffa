//! Getting the server list from the portal.
use vstd::prelude::*;

use crate::catalog::{fresh, CatalogView, ServerCatalog};
use crate::dialogue::{
    asked, follow, group_sent, if_ok, lemma_follow_then, lemma_sent_then, meets, opt, sent, then_do, Dialogue,
    Stage, Step, Tape,
};
use crate::server_list::{
    list_of_json_text, list_view, parse_server_list_xml, server_list_of_json_text, xml_list, XmlServer,
    XmlServerView,
};
use crate::text::{
    chars_of, has, holds, is_white_space, join, lemma_trimmed_front, lowered, to_lower, trimmed_start, white_space, Text,
};
use crate::wire::{ServerList, ServerListView};

verus! {

/// Something that getting the server list takes.
pub enum Request {
    /// Make ready for requests, each of which may take this long.
    Connect { timeout_seconds: u64 },
    /// Ask for a document.
    Get(String),
    /// Read the document that was asked for.
    Body,
    /// Read a text as an XML server list.
    ParseXml(String),
    /// Wait.
    Pause { milliseconds: u64 },
}

/// [`Request`] in the model.
pub enum RequestView {
    Connect { timeout_seconds: u64 },
    Get(Text),
    Body,
    ParseXml(Text),
    Pause { milliseconds: u64 },
}

impl View for Request {
    type V = RequestView;

    open spec fn view(&self) -> RequestView {
        match *self {
            Request::Connect { timeout_seconds } => RequestView::Connect { timeout_seconds },
            Request::Get(url) => RequestView::Get(url@),
            Request::Body => RequestView::Body,
            Request::ParseXml(s) => RequestView::ParseXml(s@),
            Request::Pause { milliseconds } => RequestView::Pause { milliseconds },
        }
    }
}

/// What came of a request.
pub enum Reply {
    /// It was done.
    Done,
    /// It could not be done, and why.
    Failed(String),
    /// The document can be had, or not; and the kind that it is said to be of.
    Head { success: bool, status: String, content_type: String },
    /// The document.
    Body(String),
    /// The servers of an XML server list.
    Servers(Vec<XmlServer>),
}

/// [`Reply`] in the model.
pub enum ReplyView {
    Done,
    Failed(Text),
    Head { success: bool, status: Text, content_type: Text },
    Body(Text),
    Servers(Seq<XmlServerView>),
}

impl View for Reply {
    type V = ReplyView;

    open spec fn view(&self) -> ReplyView {
        match *self {
            Reply::Done => ReplyView::Done,
            Reply::Failed(e) => ReplyView::Failed(e@),
            Reply::Head { success, status, content_type } => ReplyView::Head {
                success,
                status: status@,
                content_type: content_type@,
            },
            Reply::Body(s) => ReplyView::Body(s@),
            Reply::Servers(v) => ReplyView::Servers(v@.map_values(|s: XmlServer| s@)),
        }
    }
}

/// A conversation with the network.
pub type Talk<R> = Dialogue<RequestView, ReplyView, R>;

/// What went wrong, where a reply is none of those that were to be expected.
pub open spec fn cause(a: ReplyView) -> Text {
    match a {
        ReplyView::Failed(e) => e,
        _ => "unexpected reply"@,
    }
}

/// What went wrong.
fn cause_of(a: &Reply) -> (s: String)
    ensures
        s@ == cause(a@),
{
    match a {
        Reply::Failed(e) => e.clone(),
        _ => "unexpected reply".to_owned(),
    }
}

/// Whether a document is JSON: it is said to be, or begins with a brace.
pub open spec fn is_json(content_type: Text, body: Text) -> bool {
    let visible = trimmed_start(body);
    holds(lowered(content_type), "json"@) || (visible.len() > 0 && visible[0] == '{')
}

/// Whether a document begins with a brace.
fn begins_with_brace(body: &str) -> (r: bool)
    ensures
        r == (trimmed_start(body@).len() > 0 && trimmed_start(body@)[0] == '{'),
{
    let s = chars_of(body);
    let n: usize = s.len();
    let mut i: usize = 0;
    assert(s@.skip(0) =~= s@);
    while i < n && is_white_space(s[i])
        invariant
            n == s@.len(),
            i <= n,
            trimmed_start(s@.skip(i as int)) == trimmed_start(s@),
        decreases n - i,
    {
        assert(s@.skip(i as int).skip(1) =~= s@.skip(i + 1));
        i += 1;
    }
    i < n && s[i] == '{'
}

/// Whether a document is JSON.
pub fn looks_like_json(content_type: &str, body: &str) -> (r: bool)
    ensures
        r == is_json(content_type@, body@),
{
    has(&to_lower(&chars_of(content_type)), &chars_of("json")) || begins_with_brace(body)
}

/// The server list of a document.
pub open spec fn read_talk(content_type: Text, body: Text, characters_count: Text) -> Talk<
    Result<ServerListView, Text>,
> {
    if is_json(content_type, body) {
        Dialogue::End(list_of_json_text(body, characters_count))
    } else {
        then_do(
            asked(RequestView::ParseXml(body)),
            |a: ReplyView|
                Dialogue::End(
                    match a {
                        ReplyView::Servers(servers) => xml_list(servers, characters_count),
                        _ => Err(cause(a)),
                    },
                ),
        )
    }
}

fn read_document(t: &mut Tape<Request, Reply>, content_type: &str, body: &str, characters_count: &str) -> (r: Option<
    Result<ServerList, String>,
>)
    requires
        old(t).wf(),
    ensures
        final(t).reached(
            old(t),
            read_talk(content_type@, body@, characters_count@),
            opt(r, |v| list_view(v)),
        ),
{
    broadcast use lemma_follow_then;

    if looks_like_json(content_type, body) {
        return Some(server_list_of_json_text(body, characters_count));
    }
    let a = t.ask_for(Request::ParseXml(body.to_owned()))?;
    match a {
        Reply::Servers(servers) => Some(parse_server_list_xml(servers, characters_count)),
        _ => Some(Err(cause_of(a))),
    }
}

/// What an attempt comes to: the server list or a fault that ends it all, or a
/// fault that another attempt may mend.
pub enum Attempt<T, E> {
    Ended(Result<T, E>),
    Missed(E),
}

/// One attempt to get the server list.
pub open spec fn attempt_talk(url: Text, characters_count: Text) -> Talk<Attempt<ServerListView, Text>> {
    then_do(
        asked(RequestView::Get(url)),
        |a: ReplyView|
            match a {
                ReplyView::Head { success, status, content_type } => if success {
                    then_do(
                        asked(RequestView::Body),
                        |b: ReplyView|
                            match b {
                                ReplyView::Body(body) => then_do(
                                    read_talk(content_type, body, characters_count),
                                    |r: Result<ServerListView, Text>| Dialogue::End(Attempt::Ended(r)),
                                ),
                                _ => Dialogue::End(Attempt::Ended(Err(cause(b)))),
                            },
                    )
                } else {
                    Dialogue::End(Attempt::Missed("HTTP "@ + status))
                },
                _ => Dialogue::End(Attempt::Missed("transport: "@ + cause(a))),
            },
    )
}

/// The model of an attempt.
pub open spec fn attempt_view(r: Attempt<ServerList, String>) -> Attempt<ServerListView, Text> {
    match r {
        Attempt::Ended(r) => Attempt::Ended(list_view(r)),
        Attempt::Missed(e) => Attempt::Missed(e@),
    }
}

fn attempt(t: &mut Tape<Request, Reply>, url: &str, characters_count: &str) -> (r: Option<
    Attempt<ServerList, String>,
>)
    requires
        old(t).wf(),
    ensures
        final(t).reached(old(t), attempt_talk(url@, characters_count@), opt(r, |v| attempt_view(v))),
{
    broadcast use lemma_follow_then;

    let a = t.ask_for(Request::Get(url.to_owned()))?;
    match a {
        Reply::Head { success, status, content_type } => {
            if !*success {
                return Some(Attempt::Missed(join("HTTP ", status)));
            }
            let b = t.ask_for(Request::Body)?;
            match b {
                Reply::Body(body) => {
                    let r = read_document(t, content_type, body, characters_count)?;
                    Some(Attempt::Ended(r))
                },
                _ => Some(Attempt::Ended(Err(cause_of(b)))),
            }
        },
        _ => Some(Attempt::Missed(join("transport: ", &cause_of(a)))),
    }
}

/// Waits before the next attempt.
pub open spec fn pause_talk() -> Talk<()> {
    then_do(asked(RequestView::Pause { milliseconds: 400 }), |a: ReplyView| Dialogue::End(()))
}

fn pause(t: &mut Tape<Request, Reply>) -> (r: Option<()>)
    requires
        old(t).wf(),
    ensures
        final(t).reached(old(t), pause_talk(), r),
{
    broadcast use lemma_follow_then;

    t.ask_for(Request::Pause { milliseconds: 400 })?;
    Some(())
}

/// At most `left` attempts to get the server list, a pause behind each that misses.
/// `last` is what went wrong before.
pub open spec fn attempts_talk(url: Text, characters_count: Text, left: nat, last: Text) -> Talk<
    Result<ServerListView, Text>,
>
    decreases left,
{
    if left == 0 {
        Dialogue::End(Err(last))
    } else {
        then_do(
            attempt_talk(url, characters_count),
            |r: Attempt<ServerListView, Text>|
                match r {
                    Attempt::Ended(r) => Dialogue::End(r),
                    Attempt::Missed(e) => then_do(
                        pause_talk(),
                        |u: ()| attempts_talk(url, characters_count, (left - 1) as nat, e),
                    ),
                },
        )
    }
}

fn attempts(t: &mut Tape<Request, Reply>, url: &str, characters_count: &str, left: u32, last: String) -> (r: Option<
    Result<ServerList, String>,
>)
    requires
        old(t).wf(),
    ensures
        final(t).reached(
            old(t),
            attempts_talk(url@, characters_count@, left as nat, last@),
            opt(r, |v| list_view(v)),
        ),
    decreases left,
{
    broadcast use lemma_follow_then;

    if left == 0 {
        return Some(Err(last));
    }
    match attempt(t, url, characters_count)? {
        Attempt::Ended(r) => Some(r),
        Attempt::Missed(e) => {
            pause(t)?;
            attempts(t, url, characters_count, left - 1, e)
        },
    }
}

/// Gets the server list: at most three attempts of at most eight seconds.
pub open spec fn prefetch_talk(url: Text, characters_count: Text) -> Talk<Result<CatalogView, Text>> {
    then_do(
        asked(RequestView::Connect { timeout_seconds: 8 }),
        |a: ReplyView|
            match a {
                ReplyView::Failed(e) => Dialogue::End(Err(e)),
                _ => if_ok(
                    attempts_talk(url, characters_count, 3, "unknown server list fetch error"@),
                    |list: ServerListView| Dialogue::End(Ok(fresh(list, characters_count))),
                ),
            },
    )
}

/// The model of a server list that was got.
pub open spec fn catalog_view(r: Result<ServerCatalog, String>) -> Result<CatalogView, Text> {
    match r {
        Ok(c) => Ok(c@),
        Err(e) => Err(e@),
    }
}

fn do_prefetch_server_list(t: &mut Tape<Request, Reply>, url: &str, characters_count: &str) -> (r: Option<
    Result<ServerCatalog, String>,
>)
    requires
        old(t).wf(),
    ensures
        final(t).reached(old(t), prefetch_talk(url@, characters_count@), opt(r, |v| catalog_view(v))),
        r matches Some(Ok(c)) ==> c@.wf(),
{
    broadcast use lemma_follow_then;

    if let Reply::Failed(e) = t.ask_for(Request::Connect { timeout_seconds: 8 })? {
        return Some(Err(e.clone()));
    }
    match attempts(t, url, characters_count, 3, "unknown server list fetch error".to_owned())? {
        Ok(list) => Some(Ok(ServerCatalog::new(list, characters_count))),
        Err(e) => Some(Err(e)),
    }
}

/// Gets the server list from `url`, in either of the forms in which the portal
/// publishes it.
pub fn prefetch_server_list(url: &str, characters_count: &str, replies: &Vec<Reply>) -> (r: Step<
    Request,
    Result<ServerCatalog, String>,
>)
    ensures
        meets(
            r,
            |v: Result<ServerCatalog, String>| catalog_view(v),
            prefetch_talk(url@, characters_count@),
            replies@,
        ),
        r matches Step::Done(Ok(c)) ==> c@.wf(),
{
    let mut t = Tape::new(replies);
    let r = do_prefetch_server_list(&mut t, url, characters_count);
    t.finish(r)
}

/// How many documents are asked for.
pub open spec fn gets(requests: Seq<RequestView>) -> nat
    decreases requests.len(),
{
    if requests.len() == 0 {
        0
    } else {
        gets(requests.drop_last()) + (if requests.last() is Get {
            1nat
        } else {
            0nat
        })
    }
}

proof fn lemma_gets(a: Seq<RequestView>, b: Seq<RequestView>)
    ensures
        gets(a + b) == gets(a) + gets(b),
    decreases b.len(),
{
    if b.len() == 0 {
        assert(a + b =~= a);
    } else {
        lemma_gets(a, b.drop_last());
        assert((a + b).drop_last() =~= a + b.drop_last());
    }
}

/// An attempt asks for one document.
proof fn lemma_attempt_gets(url: Text, characters_count: Text, h: Seq<ReplyView>, i: int)
    ensures
        gets(sent(attempt_talk(url, characters_count), h, i)) <= 1,
        gets(sent(pause_talk(), h, i)) == 0,
{
    broadcast use group_sent;

    reveal_with_fuel(gets, 4);
    let s = sent(attempt_talk(url, characters_count), h, i);
    assert(s.len() <= 3 && (s.len() > 0 ==> s[0] is Get) && (s.len() > 1 ==> !(s[1] is Get)) && (s.len() > 2
        ==> !(s[2] is Get)));
    assert(sent(pause_talk(), h, i) =~= seq![RequestView::Pause { milliseconds: 400 }]);
}

/// So many attempts ask for no more than so many documents.
proof fn lemma_attempts_gets(url: Text, characters_count: Text, left: nat, last: Text, h: Seq<ReplyView>, i: int)
    ensures
        gets(sent(attempts_talk(url, characters_count, left, last), h, i)) <= left,
    decreases left,
{
    if left > 0 {
        let all = sent(attempts_talk(url, characters_count, left, last), h, i);
        let first = sent(attempt_talk(url, characters_count), h, i);
        lemma_attempt_gets(url, characters_count, h, i);
        match follow(attempt_talk(url, characters_count), h, i) {
            Stage::Finished(Attempt::Missed(e), j) => {
                let wait = sent(pause_talk(), h, j);
                lemma_attempt_gets(url, characters_count, h, j);
                match follow(pause_talk(), h, j) {
                    Stage::Finished(u, k) => {
                        let again = sent(attempts_talk(url, characters_count, (left - 1) as nat, e), h, k);
                        lemma_attempts_gets(url, characters_count, (left - 1) as nat, e, h, k);
                        assert(all == first + (wait + again)) by {
                            broadcast use {lemma_follow_then, lemma_sent_then};

                        }
                        lemma_gets(first, wait + again);
                        lemma_gets(wait, again);
                    },
                    _ => {
                        assert(all == first + (wait + Seq::empty())) by {
                            broadcast use {lemma_follow_then, lemma_sent_then};

                        }
                        lemma_gets(first, wait + Seq::empty());
                        lemma_gets(wait, Seq::empty());
                    },
                }
            },
            _ => {
                assert(all == first + Seq::empty()) by {
                    broadcast use {lemma_follow_then, lemma_sent_then};

                }
                lemma_gets(first, Seq::empty());
            },
        }
    }
}

/// Whatever is replied, the portal is asked for the server list no more than three
/// times.
pub proof fn law_at_most_three_attempts(url: Text, characters_count: Text, replies: Seq<ReplyView>)
    ensures
        gets(sent(prefetch_talk(url, characters_count), replies, 0)) <= 3,
{
    let connect = RequestView::Connect { timeout_seconds: 8 };
    let attempts = attempts_talk(url, characters_count, 3, "unknown server list fetch error"@);
    lemma_attempts_gets(url, characters_count, 3, "unknown server list fetch error"@, replies, 1);
    let s = sent(prefetch_talk(url, characters_count), replies, 0);
    assert(s == seq![connect] + Seq::empty() || s == seq![connect] + sent(attempts, replies, 1)) by {
        broadcast use group_sent;

    }
    reveal_with_fuel(gets, 3);
    lemma_gets(seq![connect], Seq::empty());
    lemma_gets(seq![connect], sent(attempts, replies, 1));
}

/// A document is JSON where its kind has `json` in it, in whatever case, or where the first
/// of its characters that is no white space is a brace. Otherwise it is XML.
pub proof fn law_json_is_told_from_xml(content_type: Text, front: Text, c: char, rest: Text)
    requires
        forall|i: int| 0 <= i < front.len() ==> white_space(#[trigger] front[i]),
        !white_space(c),
    ensures
        is_json(content_type, front + seq![c] + rest) <==> holds(lowered(content_type), "json"@) || c == '{',
        is_json(content_type, front) <==> holds(lowered(content_type), "json"@),
{
    let visible = seq![c] + rest;
    assert(front + seq![c] + rest =~= front + visible);
    lemma_trimmed_front(front, visible);
    lemma_trimmed_front(front, Seq::empty());
    assert(front + Seq::<char>::empty() =~= front);
    assert(visible[0] == c);
}

/// A document that comes at the first attempt is read, as what it is, and the server list is
/// kept as it is read, or what is wrong with it is told: no second attempt is made then.
pub proof fn law_what_a_list_takes(
    url: Text,
    characters_count: Text,
    replies: Seq<ReplyView>,
    status: Text,
    content_type: Text,
    body: Text,
    servers: Seq<XmlServerView>,
    e: Text,
)
    requires
        replies.len() >= 4,
        !(replies[0] is Failed),
        replies[1] == (ReplyView::Head { success: true, status, content_type }),
    ensures
        ({
            let talk = prefetch_talk(url, characters_count);
            let asked = sent(talk, replies, 0);
            let end = follow(talk, replies, 0);
            let start = seq![
                RequestView::Connect { timeout_seconds: 8 },
                RequestView::Get(url),
                RequestView::Body,
            ];
            let read = if is_json(content_type, body) {
                list_of_json_text(body, characters_count)
            } else {
                xml_list(servers, characters_count)
            };
            let n: int = if is_json(content_type, body) { 3 } else { 4 };
            let there = replies[2] == ReplyView::Body(body) && (is_json(content_type, body) || replies[3]
                == ReplyView::Servers(servers));
            &&& replies[2] == ReplyView::Failed(e) ==> asked == start && end == failed(e, 3)
            &&& replies[2] == ReplyView::Body(body) && is_json(content_type, body) ==> asked == start
            &&& replies[2] == ReplyView::Body(body) && !is_json(content_type, body) ==> asked == start.push(
                RequestView::ParseXml(body),
            )
            &&& replies[2] == ReplyView::Body(body) && !is_json(content_type, body) && replies[3] == ReplyView::Failed(
                e,
            ) ==> end == failed(e, 4)
            &&& there ==> (read matches Ok(list) ==> end == Stage::<RequestView, Result<CatalogView, Text>>::Finished(
                Ok(fresh(list, characters_count)),
                n,
            ))
            &&& there ==> (read matches Err(m) ==> end == failed(m, n))
        }),
{
    broadcast use group_sent;

    reveal_with_fuel(attempts_talk, 2);
    let talk = prefetch_talk(url, characters_count);
    let asked = sent(talk, replies, 0);
    let end = follow(talk, replies, 0);
    let start = seq![RequestView::Connect { timeout_seconds: 8 }, RequestView::Get(url), RequestView::Body];
    if replies[2] == ReplyView::Failed(e) {
        assert(asked =~= start);
        assert(end == failed(e, 3));
    } else if replies[2] == ReplyView::Body(body) {
        if is_json(content_type, body) {
            assert(asked =~= start);
            match list_of_json_text(body, characters_count) {
                Ok(list) => {
                    assert(end == Stage::<RequestView, Result<CatalogView, Text>>::Finished(
                        Ok(fresh(list, characters_count)),
                        3,
                    ));
                },
                Err(m) => {
                    assert(end == failed(m, 3));
                },
            }
        } else {
            assert(asked =~= start.push(RequestView::ParseXml(body)));
            if replies[3] == ReplyView::Failed(e) {
                assert(end == failed(e, 4));
            } else if replies[3] == ReplyView::Servers(servers) {
                match xml_list(servers, characters_count) {
                    Ok(list) => {
                        assert(end == Stage::<RequestView, Result<CatalogView, Text>>::Finished(
                            Ok(fresh(list, characters_count)),
                            4,
                        ));
                    },
                    Err(m) => {
                        assert(end == failed(m, 4));
                    },
                }
            }
        }
    }
}

/// An end with something to tell, after so many replies.
pub open spec fn failed(message: Text, replies: int) -> Stage<RequestView, Result<CatalogView, Text>> {
    Stage::Finished(Err(message), replies)
}

/// What is told of an attempt that missed.
pub open spec fn missed(a: ReplyView, m: Text) -> bool {
    ||| a matches ReplyView::Failed(e) && m == "transport: "@ + e
    ||| a matches ReplyView::Head { success, status, .. } && !success && m == "HTTP "@ + status
}

/// Three attempts are made where the first two miss, each after a pause of 400 milliseconds,
/// and where the third misses too, that is what is told.
pub proof fn law_three_attempts_are_made(
    url: Text,
    characters_count: Text,
    replies: Seq<ReplyView>,
    first: Text,
    second: Text,
    third: Text,
)
    requires
        replies.len() >= 7,
        !(replies[0] is Failed),
        missed(replies[1], first),
        missed(replies[3], second),
    ensures
        ({
            let talk = prefetch_talk(url, characters_count);
            let asked = sent(talk, replies, 0);
            let pause = RequestView::Pause { milliseconds: 400 };
            let get = RequestView::Get(url);
            &&& asked.len() >= 6
            &&& asked.take(6) == seq![RequestView::Connect { timeout_seconds: 8 }, get, pause, get, pause, get]
            &&& missed(replies[5], third) ==> asked.len() == 7 && asked[6] == pause && follow(talk, replies, 0) == failed(
                third,
                7,
            )
            &&& (replies[5] matches ReplyView::Head { success, .. } && success) ==> asked.len() >= 7 && asked[6]
                == RequestView::Body
        }),
{
    broadcast use group_sent;

    reveal_with_fuel(attempts_talk, 4);
    let talk = prefetch_talk(url, characters_count);
    let asked = sent(talk, replies, 0);
    let pause = RequestView::Pause { milliseconds: 400 };
    let get = RequestView::Get(url);
    let start = seq![RequestView::Connect { timeout_seconds: 8 }, get, pause, get, pause, get];
    assert(asked.take(6) =~= start);
    if missed(replies[5], third) {
        assert(asked =~= start.push(pause));
        assert(follow(talk, replies, 0) == failed(third, 7));
    }
}

/// Where the launcher cannot make ready, nothing is asked for and it is told why.
pub proof fn law_nothing_is_asked_unready(url: Text, characters_count: Text, replies: Seq<ReplyView>, e: Text)
    requires
        replies.len() >= 1,
        replies[0] == ReplyView::Failed(e),
    ensures
        sent(prefetch_talk(url, characters_count), replies, 0) == seq![RequestView::Connect { timeout_seconds: 8 }],
        follow(prefetch_talk(url, characters_count), replies, 0) == failed(e, 1),
{
    broadcast use group_sent;

    assert(sent(prefetch_talk(url, characters_count), replies, 0) =~= seq![RequestView::Connect { timeout_seconds: 8 }]);
}

} // verus!
