//! The conversation between the game and the launcher's window: the game asks and
//! tells, and the launcher answers what it is asked and nothing else.
use vstd::prelude::*;
use vstd::slice::slice_to_vec;
use vstd::utf8::{decode_utf8, encode_utf8, encode_utf8_decode_utf8};

use crate::catalog::{
    after_request, answer_list, law_every_server_is_answered_once, CatalogView, ServerCatalog,
};
use crate::credentials::Credentials;
use crate::number::{dec, hex_byte, push_decimal, push_hex_byte};
use crate::text::{chars_of, string_of, Text};
use crate::utf16::{decoded, le_units, lemma_text_of_utf16_le, utf16_le, utf16_to_bytes};
use crate::wire::{law_no_required_field_is_missing, read_fields};

verus! {

/// The window message that carries what the game asks and what the launcher
/// answers.
pub const WM_COPYDATA: u32 = 0x004A;

/// The window message by which the launcher tells its window that the game is over.
pub const WM_GAME_EXITED: u32 = 0x0401;

/// What goes back to the game: to a window, from a window, what it is, and the rest.
pub struct Response {
    pub recipient: usize,
    pub sender: usize,
    pub event: usize,
    pub payload: Vec<u8>,
}

/// [`Response`] in the model.
pub struct ResponseView {
    pub recipient: usize,
    pub sender: usize,
    pub event: usize,
    pub payload: Seq<u8>,
}

impl View for Response {
    type V = ResponseView;

    open spec fn view(&self) -> ResponseView {
        ResponseView {
            recipient: self.recipient,
            sender: self.sender,
            event: self.event,
            payload: self.payload@,
        }
    }
}

/// What the game tells without being answered.
#[derive(Clone, Copy, PartialEq, Eq, Structural)]
pub enum Notice {
    /// It has started.
    Started,
    /// Something happened in it, by its number.
    Event(usize),
    /// It has ended.
    Exited,
    /// It has crashed.
    Crashed,
    /// Something that the launcher does not know.
    Unknown(usize),
}

/// What to do about a message of the game.
pub enum Answer {
    /// Send this back.
    Send(Response),
    /// Get the server list first: there is none yet.
    FetchServerList,
    /// Send nothing.
    Nothing(Notice),
}

/// [`Answer`] in the model.
pub enum AnswerView {
    Send(ResponseView),
    FetchServerList,
    Nothing(Notice),
}

impl View for Answer {
    type V = AnswerView;

    open spec fn view(&self) -> AnswerView {
        match *self {
            Answer::Send(r) => AnswerView::Send(r@),
            Answer::FetchServerList => AnswerView::FetchServerList,
            Answer::Nothing(n) => AnswerView::Nothing(n),
        }
    }
}

/// What to do about a window message.
pub enum Reaction {
    /// It came from the game; the message's result is 1.
    Answered(Answer),
    /// End the message loop; the message's result is 0.
    Quit,
    /// Leave it to Windows.
    Default,
}

/// [`Reaction`] in the model.
pub enum ReactionView {
    Answered(AnswerView),
    Quit,
    Default,
}

impl View for Reaction {
    type V = ReactionView;

    open spec fn view(&self) -> ReactionView {
        match *self {
            Reaction::Answered(a) => ReactionView::Answered(a@),
            Reaction::Quit => ReactionView::Quit,
            Reaction::Default => ReactionView::Default,
        }
    }
}

/// The model of a server list that may not be there yet.
pub open spec fn cache_view(cache: Option<ServerCatalog>) -> Option<CatalogView> {
    match cache {
        Some(c) => Some(c@),
        None => None,
    }
}

/// Whether the server list, where it is there, is in order.
pub open spec fn cache_wf(cache: Option<ServerCatalog>) -> bool {
    cache matches Some(c) ==> c@.wf()
}

/// What the game tells with an event that is not answered.
pub open spec fn notice_of(event: usize) -> Notice {
    if event == 1000 {
        Notice::Started
    } else if 1001 <= event <= 1016 {
        Notice::Event(event)
    } else if event == 1020 {
        Notice::Exited
    } else if event == 1021 {
        Notice::Crashed
    } else {
        Notice::Unknown(event)
    }
}

/// What to do about a message of the game: 1 asks for the account's name, 3 for the
/// ticket, 5 for the server list and 7 for its own payload back.
pub open spec fn answer_to(
    game: usize,
    window: usize,
    event: usize,
    payload: Seq<u8>,
    account_name: Text,
    ticket: Text,
    cache: Option<CatalogView>,
) -> AnswerView {
    if event == 1 {
        AnswerView::Send(
            ResponseView { recipient: game, sender: window, event: 2, payload: utf16_le(account_name) },
        )
    } else if event == 3 {
        AnswerView::Send(
            ResponseView { recipient: game, sender: window, event: 4, payload: encode_utf8(ticket) },
        )
    } else if event == 5 {
        match cache {
            Some(c) => AnswerView::Send(
                ResponseView {
                    recipient: game,
                    sender: window,
                    event: 6,
                    payload: answer_list(c, payload).message(),
                },
            ),
            None => AnswerView::FetchServerList,
        }
    } else if event == 7 {
        AnswerView::Send(ResponseView { recipient: game, sender: window, event: 8, payload })
    } else {
        AnswerView::Nothing(notice_of(event))
    }
}

/// The server list after a message of the game.
pub open spec fn cache_after(cache: Option<CatalogView>, event: usize, payload: Seq<u8>) -> Option<CatalogView> {
    match cache {
        Some(c) if event == 5 => Some(after_request(c, payload)),
        _ => cache,
    }
}

/// Answers the request for the account's name, in UTF-16.
pub fn handle_account_name_request(recipient: usize, sender: usize, credentials: &Credentials) -> (r: Response)
    ensures
        r@ == (ResponseView {
            recipient,
            sender,
            event: 2,
            payload: utf16_le(credentials.account_name@),
        }),
{
    Response { recipient, sender, event: 2, payload: utf16_to_bytes(&credentials.account_name) }
}

/// Answers the request for the session's ticket, in UTF-8.
pub fn handle_session_ticket_request(recipient: usize, sender: usize, credentials: &Credentials) -> (r: Response)
    ensures
        r@ == (ResponseView {
            recipient,
            sender,
            event: 4,
            payload: encode_utf8(credentials.ticket@),
        }),
{
    Response { recipient, sender, event: 4, payload: credentials.ticket.as_str().as_bytes_vec() }
}

/// Answers the request for the server list, where it is there.
pub fn handle_server_list_request(
    recipient: usize,
    sender: usize,
    payload: &[u8],
    cache: &mut Option<ServerCatalog>,
) -> (r: Option<Response>)
    requires
        cache_wf(*old(cache)),
    ensures
        cache_wf(*final(cache)),
        match cache_view(*old(cache)) {
            Some(c) => {
                &&& cache_view(*final(cache)) == Some(after_request(c, payload@))
                &&& r matches Some(s) && s@ == (ResponseView {
                    recipient,
                    sender,
                    event: 6,
                    payload: answer_list(c, payload@).message(),
                })
            },
            None => r is None && *final(cache) is None,
        },
{
    match cache.take() {
        Some(mut catalog) => {
            let bytes = catalog.answer(payload);
            *cache = Some(catalog);
            Some(Response { recipient, sender, event: 6, payload: bytes })
        },
        None => None,
    }
}

/// The server list after it was fetched for a request.
pub open spec fn cache_after_fetch(
    cache: Option<CatalogView>,
    fetched: Option<CatalogView>,
    payload: Seq<u8>,
) -> Option<CatalogView> {
    match fetched {
        Some(c) => Some(after_request(c, payload)),
        None => cache,
    }
}

/// What a request for the server list that had to be fetched is answered; nothing where it
/// could not be.
pub open spec fn fetched_message(fetched: Option<CatalogView>, payload: Seq<u8>) -> Seq<u8> {
    match fetched {
        Some(c) => answer_list(c, payload).message(),
        None => Seq::empty(),
    }
}

/// Answers the request for the server list once that was fetched, and keeps the
/// list. Where it could not be fetched the answer is empty.
pub fn answer_fetched_list(
    recipient: usize,
    sender: usize,
    payload: &[u8],
    fetched: Option<ServerCatalog>,
    cache: &mut Option<ServerCatalog>,
) -> (r: Response)
    requires
        cache_wf(fetched),
    ensures
        fetched is Some ==> cache_wf(*final(cache)),
        cache_view(*final(cache)) == cache_after_fetch(cache_view(*old(cache)), cache_view(fetched), payload@),
        fetched is None ==> *final(cache) == *old(cache),
        r@ == (ResponseView { recipient, sender, event: 6, payload: fetched_message(cache_view(fetched), payload@) }),
{
    match fetched {
        Some(mut catalog) => {
            let bytes = catalog.answer(payload);
            *cache = Some(catalog);
            Response { recipient, sender, event: 6, payload: bytes }
        },
        None => {
            let empty: Vec<u8> = Vec::new();
            assert(empty@ =~= Seq::empty());
            Response { recipient, sender, event: 6, payload: empty }
        },
    }
}

/// Answers that the player enters the lobby, or the world where there is a payload:
/// the payload goes back.
pub fn handle_enter_lobby_or_world(recipient: usize, sender: usize, payload: &[u8]) -> (r: Response)
    ensures
        r@ == (ResponseView { recipient, sender, event: 8, payload: payload@ }),
{
    Response { recipient, sender, event: 8, payload: slice_to_vec(payload) }
}

/// Tells what the game tells with an event that is not answered.
fn notice(event: usize) -> (n: Notice)
    ensures
        n == notice_of(event),
{
    if event == 1000 {
        Notice::Started
    } else if 1001 <= event && event <= 1016 {
        Notice::Event(event)
    } else if event == 1020 {
        Notice::Exited
    } else if event == 1021 {
        Notice::Crashed
    } else {
        Notice::Unknown(event)
    }
}

/// The server list after a window message.
pub open spec fn cache_after_message(cache: Option<CatalogView>, msg: u32, event: usize, payload: Seq<u8>) -> Option<
    CatalogView,
> {
    if msg == WM_COPYDATA {
        cache_after(cache, event, payload)
    } else {
        cache
    }
}

/// What to do about a window message.
pub open spec fn reaction_to(
    window: usize,
    msg: u32,
    w_param: usize,
    event: usize,
    payload: Seq<u8>,
    account_name: Text,
    ticket: Text,
    cache: Option<CatalogView>,
) -> ReactionView {
    if msg == WM_COPYDATA {
        ReactionView::Answered(answer_to(w_param, window, event, payload, account_name, ticket, cache))
    } else if msg == WM_GAME_EXITED {
        ReactionView::Quit
    } else {
        ReactionView::Default
    }
}

/// Decides what to do about a window message. `window` is the launcher's window and
/// `w_param` the first parameter of the message: with [`WM_COPYDATA`] the window of
/// the game that sent it. `event` and `payload` are what that message carries; of
/// another they are not looked at.
pub fn wnd_proc(
    window: usize,
    msg: u32,
    w_param: usize,
    event: usize,
    payload: &[u8],
    credentials: &Credentials,
    cache: &mut Option<ServerCatalog>,
) -> (r: Reaction)
    requires
        cache_wf(*old(cache)),
    ensures
        cache_wf(*final(cache)),
        cache_view(*final(cache)) == cache_after_message(cache_view(*old(cache)), msg, event, payload@),
        r@ == reaction_to(
            window,
            msg,
            w_param,
            event,
            payload@,
            credentials.account_name@,
            credentials.ticket@,
            cache_view(*old(cache)),
        ),
{
    if msg == WM_COPYDATA {
        let answer = if event == 1 {
            Answer::Send(handle_account_name_request(w_param, window, credentials))
        } else if event == 3 {
            Answer::Send(handle_session_ticket_request(w_param, window, credentials))
        } else if event == 5 {
            match handle_server_list_request(w_param, window, payload, cache) {
                Some(response) => Answer::Send(response),
                None => Answer::FetchServerList,
            }
        } else if event == 7 {
            Answer::Send(handle_enter_lobby_or_world(w_param, window, payload))
        } else {
            Answer::Nothing(notice(event))
        };
        Reaction::Answered(answer)
    } else if msg == WM_GAME_EXITED {
        Reaction::Quit
    } else {
        Reaction::Default
    }
}

/// The result of a window message, where it is not left to Windows.
pub open spec fn result_of(reaction: ReactionView) -> Option<isize> {
    match reaction {
        ReactionView::Answered(_) => Some(1isize),
        ReactionView::Quit => Some(0isize),
        ReactionView::Default => None,
    }
}

/// The result of a window message, where it is not left to Windows.
pub fn message_result(reaction: &Reaction) -> (r: Option<isize>)
    ensures
        r == result_of(reaction@),
{
    match reaction {
        Reaction::Answered(_) => Some(1),
        Reaction::Quit => Some(0),
        Reaction::Default => None,
    }
}

/// How a payload is put down: byte by byte where it is short, else by its length.
pub open spec fn payload_text(payload: Seq<u8>) -> Text {
    if payload.len() <= 64 {
        "payload (hex): "@ + spaced(payload)
    } else {
        "payload: "@ + dec(payload.len()) + " bytes (truncated)"@
    }
}

/// Bytes in hexadecimal, with a space between each two.
pub open spec fn spaced(b: Seq<u8>) -> Text
    decreases b.len(),
{
    if b.len() == 0 {
        Seq::empty()
    } else if b.len() == 1 {
        hex_byte(b[0], true)
    } else {
        spaced(b.drop_last()).push(' ') + hex_byte(b.last(), true)
    }
}

/// Puts a payload down: byte by byte where it is short, else by its length.
pub fn describe_payload(payload: &[u8]) -> (s: String)
    ensures
        s@ == payload_text(payload@),
{
    let n: usize = payload.len();
    if n > 64 {
        let mut out = chars_of("payload: ");
        push_decimal(n as u64, &mut out);
        out.extend_from_slice(&chars_of(" bytes (truncated)"));
        assert(out@ =~= payload_text(payload@));
        return string_of(&out);
    }
    let mut out = chars_of("payload (hex): ");
    let ghost head = out@;
    assert(payload@.take(0) =~= Seq::<u8>::empty());
    assert(head + spaced(payload@.take(0)) =~= out@);
    for i in 0..n
        invariant
            n == payload@.len(),
            out@ == head + spaced(payload@.take(i as int)),
    {
        if i > 0 {
            out.push(' ');
        }
        push_hex_byte(payload[i], true, &mut out);
        let ghost next = payload@.take(i + 1);
        assert(next.drop_last() =~= payload@.take(i as int));
        assert(next.last() == payload@[i as int]);
        if i == 0 {
            assert(next[0] == payload@[0]);
        }
        assert(out@ =~= head + spaced(next));
    }
    assert(payload@.take(n as int) =~= payload@);
    string_of(&out)
}

/// The code units before the first zero; all of them where there is none.
pub open spec fn before_zero(s: Seq<u16>) -> Seq<u16>
    decreases s.len(),
{
    if s.len() == 0 || s[0] == 0 {
        Seq::empty()
    } else {
        seq![s[0]] + before_zero(s.skip(1))
    }
}

/// Whether a window is to be destroyed: its class is the one that is looked for, of
/// which the code units before the first zero count.
pub open spec fn leftover(class_name: Seq<u16>, search_class: Seq<u16>) -> bool {
    class_name == before_zero(search_class)
}

/// Whether a window is to be destroyed: its class is the one that is looked for, of
/// which the code units before the first zero count.
pub fn is_leftover(class_name: &[u16], search_class: &[u16]) -> (r: bool)
    ensures
        r == leftover(class_name@, search_class@),
{
    let n: usize = class_name.len();
    let m: usize = search_class.len();
    let ghost wanted = before_zero(search_class@);
    let mut i: usize = 0;
    assert(search_class@.skip(0) =~= search_class@);
    while i < m && search_class[i] != 0
        invariant
            n == class_name@.len(),
            m == search_class@.len(),
            i <= m,
            i <= n,
            wanted == before_zero(search_class@),
            wanted == search_class@.take(i as int) + before_zero(search_class@.skip(i as int)),
            search_class@.take(i as int) == class_name@.take(i as int),
        decreases m - i,
    {
        let ghost rest = search_class@.skip(i as int);
        assert(rest.skip(1) =~= search_class@.skip(i + 1));
        assert(search_class@.take(i + 1) =~= search_class@.take(i as int).push(search_class@[i as int]));
        assert(wanted =~= search_class@.take(i + 1) + before_zero(search_class@.skip(i + 1)));
        assert(wanted[i as int] == search_class@[i as int]);
        if i >= n || class_name[i] != search_class[i] {
            return false;
        }
        assert(class_name@.take(i + 1) =~= class_name@.take(i as int).push(class_name@[i as int]));
        i += 1;
    }
    assert(wanted =~= search_class@.take(i as int));
    assert(class_name@.take(n as int) =~= class_name@);
    i == n
}

/// The launcher answers the four requests of the game and nothing else: not the
/// notice that the game has started, nor any other. The answer has the number that
/// follows the request's and goes to the window that sent it.
pub proof fn law_only_requests_are_answered(
    game: usize,
    window: usize,
    event: usize,
    payload: Seq<u8>,
    account_name: Text,
    ticket: Text,
    cache: Option<CatalogView>,
)
    ensures
        ({
            let answer = answer_to(game, window, event, payload, account_name, ticket, cache);
            let request = event == 1 || event == 3 || event == 5 || event == 7;
            &&& answer is Nothing <==> !request
            &&& answer is FetchServerList <==> event == 5 && cache is None
            &&& answer matches AnswerView::Send(r) ==> {
                &&& r.event == event + 1
                &&& r.recipient == game
                &&& r.sender == window
            }
        }),
{
}

/// The game reads the account's name and the ticket as they are, and gets its own
/// payload back when the player enters the lobby or the world.
pub proof fn law_answers_are_read_back(
    game: usize,
    window: usize,
    payload: Seq<u8>,
    account_name: Text,
    ticket: Text,
    cache: Option<CatalogView>,
)
    ensures
        answer_to(game, window, 1, payload, account_name, ticket, cache) matches AnswerView::Send(r) && decoded(
            le_units(r.payload),
        ) == Some(account_name),
        answer_to(game, window, 3, payload, account_name, ticket, cache) matches AnswerView::Send(r)
            && decode_utf8(r.payload) == ticket,
        answer_to(game, window, 7, payload, account_name, ticket, cache) matches AnswerView::Send(r)
            && r.payload == payload,
{
    lemma_text_of_utf16_le(account_name);
    encode_utf8_decode_utf8(ticket);
}

/// The game finds in the answer to its request for the server list each field that
/// it requires, of each server of the list.
pub proof fn law_server_list_is_complete(
    game: usize,
    window: usize,
    payload: Seq<u8>,
    account_name: Text,
    ticket: Text,
    catalog: CatalogView,
)
    requires
        catalog.wf(),
    ensures
        answer_to(game, window, 5, payload, account_name, ticket, Some(catalog)) matches AnswerView::Send(r)
            && read_fields(r.payload) == Some(answer_list(catalog, payload).fields()),
        answer_list(catalog, payload).servers.len() == catalog.list.servers.len(),
{
    law_no_required_field_is_missing(answer_list(catalog, payload));
    law_every_server_is_answered_once(catalog, payload);
}

/// What the game tells without being answered: 1000 that it has started, 1001 to 1016
/// something that happened, 1020 that it has ended, 1021 that it has crashed, and anything
/// else what the launcher does not know. The messages of Windows have the numbers that
/// Windows and the launcher give them.
pub proof fn law_what_the_game_tells(
    game: usize,
    window: usize,
    event: usize,
    payload: Seq<u8>,
    account_name: Text,
    ticket: Text,
    cache: Option<CatalogView>,
)
    requires
        event != 1,
        event != 3,
        event != 5,
        event != 7,
    ensures
        ({
            let answer = answer_to(game, window, event, payload, account_name, ticket, cache);
            &&& answer == AnswerView::Nothing(Notice::Started) <==> event == 1000
            &&& answer == AnswerView::Nothing(Notice::Event(event)) <==> 1001 <= event <= 1016
            &&& answer == AnswerView::Nothing(Notice::Exited) <==> event == 1020
            &&& answer == AnswerView::Nothing(Notice::Crashed) <==> event == 1021
            &&& answer == AnswerView::Nothing(Notice::Unknown(event)) <==> event < 1000 || 1016 < event < 1020 || 1021
                < event
        }),
        cache_after(cache, event, payload) == cache,
        WM_COPYDATA == 74,
        WM_GAME_EXITED == 1025,
{
}

/// The request for the server list is answered with the message of the list that answers
/// it, from the catalog as it was, and the catalog is then as the request leaves it. Without
/// a catalog there is none afterwards.
pub proof fn law_server_list_is_answered(
    game: usize,
    window: usize,
    payload: Seq<u8>,
    account_name: Text,
    ticket: Text,
    catalog: CatalogView,
)
    ensures
        answer_to(game, window, 5, payload, account_name, ticket, Some(catalog)) == AnswerView::Send(
            ResponseView {
                recipient: game,
                sender: window,
                event: 6,
                payload: answer_list(catalog, payload).message(),
            },
        ),
        cache_after(Some(catalog), 5, payload) == Some(after_request(catalog, payload)),
        cache_after(None, 5, payload) is None,
{
}

/// A payload of up to 64 bytes is put down as two digits for each byte with a space between
/// each two, the letters in upper case; a longer one by its length.
pub proof fn law_payload_is_put_down(payload: Seq<u8>, i: int, high: int, low: int)
    requires
        0 <= i < payload.len(),
        0 <= high < 16,
        0 <= low < 16,
        payload[i] == 16 * high + low,
    ensures
        payload.len() > 64 ==> payload_text(payload) == "payload: "@ + dec(payload.len()) + " bytes (truncated)"@,
        payload.len() <= 64 ==> ({
            let s = payload_text(payload);
            let at = 15 + 3 * i;
            &&& "payload (hex): "@.is_prefix_of(s)
            &&& s.len() == 14 + 3 * payload.len()
            &&& high < 10 ==> s[at] == (('0' as int) + high) as char
            &&& high >= 10 ==> s[at] == (('A' as int) + high - 10) as char
            &&& low < 10 ==> s[at + 1] == (('0' as int) + low) as char
            &&& low >= 10 ==> s[at + 1] == (('A' as int) + low - 10) as char
            &&& i > 0 ==> s[at - 1] == ' '
        }),
{
    reveal_strlit("payload (hex): ");
    lemma_spaced(payload, i);
    assert((16 * high + low) / 16 == high && (16 * high + low) % 16 == low);
    let s = payload_text(payload);
    if payload.len() <= 64 {
        let head = "payload (hex): "@;
        assert(s == head + spaced(payload));
        assert(head =~= s.subrange(0, head.len() as int));
        assert(s[15 + 3 * i] == spaced(payload)[3 * i]);
        assert(s[15 + 3 * i + 1] == spaced(payload)[3 * i + 1]);
        if i > 0 {
            assert(s[15 + 3 * i - 1] == spaced(payload)[3 * i - 1]);
        }
    }
}

/// Where the digits of a byte stand.
proof fn lemma_spaced(b: Seq<u8>, i: int)
    requires
        0 <= i < b.len(),
    ensures
        spaced(b).len() == 3 * b.len() - 1,
        spaced(b)[3 * i] == hex_byte(b[i], true)[0],
        spaced(b)[3 * i + 1] == hex_byte(b[i], true)[1],
        i > 0 ==> spaced(b)[3 * i - 1] == ' ',
    decreases b.len(),
{
    if b.len() > 1 {
        let rest = b.drop_last();
        lemma_spaced(rest, if i < rest.len() { i } else { 0 });
        if i < rest.len() {
            assert(rest[i] == b[i]);
        }
    }
}

/// Of the class that is looked for the code units before the first zero count, and all of
/// them where there is none.
pub proof fn law_zero_ends_a_name(name: Seq<u16>, rest: Seq<u16>)
    requires
        !name.contains(0),
    ensures
        before_zero(name) == name,
        before_zero(name.push(0) + rest) == name,
        forall|class: Seq<u16>| #[trigger] leftover(class, name.push(0) + rest) <==> class == name,
    decreases name.len(),
{
    let all = name.push(0) + rest;
    if name.len() > 0 {
        let next = name.skip(1);
        assert(name[0] != 0);
        assert forall|i: int| 0 <= i < next.len() implies next[i] != 0 by {
            assert(name[i + 1] == next[i]);
        }
        law_zero_ends_a_name(next, rest);
        assert(all.skip(1) =~= next.push(0) + rest);
        assert(all[0] == name[0]);
        assert(seq![name[0]] + next =~= name);
    } else {
        assert(all[0] == 0);
        assert(name =~= Seq::<u16>::empty());
    }
}

/// The account's name goes out in UTF-16 with the low byte first and the ticket in UTF-8,
/// both without anything behind them.
pub proof fn law_answers_have_nothing_behind(
    game: usize,
    window: usize,
    payload: Seq<u8>,
    account_name: Text,
    ticket: Text,
    cache: Option<CatalogView>,
)
    ensures
        answer_to(game, window, 1, payload, account_name, ticket, cache) == AnswerView::Send(
            ResponseView { recipient: game, sender: window, event: 2, payload: utf16_le(account_name) },
        ),
        answer_to(game, window, 3, payload, account_name, ticket, cache) == AnswerView::Send(
            ResponseView { recipient: game, sender: window, event: 4, payload: encode_utf8(ticket) },
        ),
        answer_to(game, window, 7, payload, account_name, ticket, cache) == AnswerView::Send(
            ResponseView { recipient: game, sender: window, event: 8, payload },
        ),
{
}

/// The window answers what the game sends, with the result 1; it ends with the launcher's
/// word that the game is over, with the result 0; and it leaves every other message to
/// Windows. Only what the game sends changes the server list.
pub proof fn law_window_messages(
    window: usize,
    msg: u32,
    w_param: usize,
    event: usize,
    payload: Seq<u8>,
    account_name: Text,
    ticket: Text,
    cache: Option<CatalogView>,
)
    ensures
        ({
            let r = reaction_to(window, msg, w_param, event, payload, account_name, ticket, cache);
            let after = cache_after_message(cache, msg, event, payload);
            &&& msg == 0x4A ==> r == ReactionView::Answered(
                answer_to(w_param, window, event, payload, account_name, ticket, cache),
            ) && result_of(r) == Some(1isize) && after == cache_after(cache, event, payload)
            &&& msg == 0x401 ==> r is Quit && result_of(r) == Some(0isize)
            &&& msg != 0x4A && msg != 0x401 ==> r is Default && result_of(r) is None
            &&& msg != 0x4A ==> after == cache
        }),
{
}

/// A request for the server list that had to be fetched is answered as if the list had been
/// there, and leaves the same; with an empty answer, and the list as it was, where it could
/// not be fetched.
pub proof fn law_fetched_list_is_answered_alike(
    game: usize,
    window: usize,
    payload: Seq<u8>,
    account_name: Text,
    ticket: Text,
    cache: Option<CatalogView>,
    fetched: CatalogView,
)
    ensures
        answer_to(game, window, 5, payload, account_name, ticket, Some(fetched)) == AnswerView::Send(
            ResponseView {
                recipient: game,
                sender: window,
                event: 6,
                payload: fetched_message(Some(fetched), payload),
            },
        ),
        cache_after_fetch(cache, Some(fetched), payload) == cache_after(Some(fetched), 5, payload),
        fetched_message(None, payload).len() == 0,
        cache_after_fetch(cache, None, payload) == cache,
{
}

} // verus!
