//! Conversations between the decision logic and the machine it runs on.
//!
//! An operation that needs the outside world is a function from the replies
//! received so far to a [`Step`]: either the next request or the final result.
//! The caller performs each request, appends the reply and calls again. What
//! an operation asks and when it ends is stated as a [`Dialogue`]: a tree whose
//! inner nodes are requests and whose branches are indexed by the reply.
use vstd::prelude::*;

use crate::text::Text;

verus! {

/// What an operation does next: ask for something, or end.
pub enum Step<Q, T> {
    Ask(Q),
    Done(T),
}

/// A conversation that sends requests `Q`, receives replies `A` and ends in `R`.
#[verifier::reject_recursive_types(A)]
pub enum Dialogue<Q, A, R> {
    End(R),
    Ask(Q, spec_fn(A) -> Dialogue<Q, A, R>),
}

/// How far a conversation gets with a given list of replies.
pub enum Stage<Q, R> {
    /// The replies are used up and this request is unanswered.
    Waiting(Q),
    /// It ended, with the number of replies that had been used by then.
    Finished(R, int),
}

/// The conversation `first`, continued by the one that `rest` makes of its result.
pub open spec fn then_do<Q, A, R, S>(
    first: Dialogue<Q, A, R>,
    rest: spec_fn(R) -> Dialogue<Q, A, S>,
) -> Dialogue<Q, A, S>
    decreases first,
{
    match first {
        Dialogue::End(r) => rest(r),
        Dialogue::Ask(q, k) => Dialogue::Ask(q, |a: A| then_do(k(a), rest)),
    }
}

/// The conversation that sends one request and ends in its reply.
pub open spec fn asked<Q, A>(q: Q) -> Dialogue<Q, A, A> {
    Dialogue::Ask(q, |a: A| Dialogue::End(a))
}

/// `r` with `label` put in front of what went wrong.
pub open spec fn labelled<T>(r: Result<T, Text>, label: Text) -> Result<T, Text> {
    match r {
        Ok(v) => Ok(v),
        Err(e) => Err(label + e),
    }
}

/// The conversation `first`, continued by `rest` where it succeeds.
pub open spec fn if_ok<Q, A, T, S, E>(
    first: Dialogue<Q, A, Result<T, E>>,
    rest: spec_fn(T) -> Dialogue<Q, A, Result<S, E>>,
) -> Dialogue<Q, A, Result<S, E>> {
    then_do(
        first,
        |r: Result<T, E>|
            match r {
                Ok(v) => rest(v),
                Err(e) => Dialogue::End(Err(e)),
            },
    )
}

/// The model of an optional value.
pub open spec fn opt<T, U>(r: Option<T>, f: spec_fn(T) -> U) -> Option<U> {
    match r {
        Some(v) => Some(f(v)),
        None => None,
    }
}

/// How far the conversation `d` gets with the replies `h`, read from index `i` on.
pub open spec fn follow<Q, A, R>(d: Dialogue<Q, A, R>, h: Seq<A>, i: int) -> Stage<Q, R>
    decreases h.len() - i,
{
    match d {
        Dialogue::End(r) => Stage::Finished(r, i),
        Dialogue::Ask(q, k) => if 0 <= i < h.len() {
            follow(k(h[i]), h, i + 1)
        } else {
            Stage::Waiting(q)
        },
    }
}

/// The requests that the conversation `d` sends when it gets the replies `h`, read
/// from index `i` on; the last may be unanswered.
pub open spec fn sent<Q, A, R>(d: Dialogue<Q, A, R>, h: Seq<A>, i: int) -> Seq<Q>
    decreases h.len() - i,
{
    match d {
        Dialogue::End(r) => Seq::empty(),
        Dialogue::Ask(q, k) => if 0 <= i < h.len() {
            seq![q] + sent(k(h[i]), h, i + 1)
        } else {
            seq![q]
        },
    }
}

/// The conversation `d` held with a world in state `w` that answers by `serve`:
/// the state it leaves behind and its result.
pub open spec fn run<Q, A, R, W>(d: Dialogue<Q, A, R>, w: W, serve: spec_fn(W, Q) -> (W, A)) -> (W, R)
    decreases d,
{
    match d {
        Dialogue::End(r) => (w, r),
        Dialogue::Ask(q, k) => {
            let (next, a) = serve(w, q);
            run(k(a), next, serve)
        },
    }
}

/// Following a composed conversation is following its first part and, when that
/// ends, the second from there.
pub broadcast proof fn lemma_follow_then<Q, A, R, S>(
    first: Dialogue<Q, A, R>,
    rest: spec_fn(R) -> Dialogue<Q, A, S>,
    h: Seq<A>,
    i: int,
)
    ensures
        #[trigger] follow(then_do(first, rest), h, i) == (match follow(first, h, i) {
            Stage::Waiting(q) => Stage::Waiting(q),
            Stage::Finished(r, j) => follow(rest(r), h, j),
        }),
    decreases h.len() - i,
{
    match first {
        Dialogue::End(r) => {},
        Dialogue::Ask(q, k) => {
            if 0 <= i < h.len() {
                lemma_follow_then(k(h[i]), rest, h, i + 1);
            }
        },
    }
}

/// What a composed conversation sends is what its first part sends and, when that
/// ends, what the second sends from there.
pub broadcast proof fn lemma_sent_then<Q, A, R, S>(
    first: Dialogue<Q, A, R>,
    rest: spec_fn(R) -> Dialogue<Q, A, S>,
    h: Seq<A>,
    i: int,
)
    ensures
        #[trigger] sent(then_do(first, rest), h, i) == sent(first, h, i) + (match follow(first, h, i) {
            Stage::Waiting(q) => Seq::empty(),
            Stage::Finished(r, j) => sent(rest(r), h, j),
        }),
    decreases h.len() - i,
{
    match first {
        Dialogue::End(r) => {
            assert(sent(then_do(first, rest), h, i) =~= sent(first, h, i) + sent(rest(r), h, i));
        },
        Dialogue::Ask(q, k) => {
            if 0 <= i < h.len() {
                lemma_sent_then(k(h[i]), rest, h, i + 1);
            }
            assert(sent(then_do(first, rest), h, i) =~= sent(first, h, i) + (match follow(first, h, i) {
                Stage::Waiting(q) => Seq::empty(),
                Stage::Finished(r, j) => sent(rest(r), h, j),
            }));
        },
    }
}

/// One request is sent, and the reply is the result.
pub broadcast proof fn lemma_asked<Q, A>(q: Q, h: Seq<A>, i: int)
    ensures
        #[trigger] sent(asked::<Q, A>(q), h, i) == seq![q],
        follow(asked::<Q, A>(q), h, i) == (if 0 <= i < h.len() {
            Stage::Finished(h[i], i + 1)
        } else {
            Stage::Waiting(q)
        }),
{
    reveal_with_fuel(follow, 3);
    reveal_with_fuel(sent, 3);
    assert(seq![q] + Seq::<Q>::empty() =~= seq![q]);
}

/// What is sent where the second part is held only once the first ended well.
pub proof fn lemma_sent_if_ok<Q, A, T, S, E>(
    first: Dialogue<Q, A, Result<T, E>>,
    rest: spec_fn(T) -> Dialogue<Q, A, Result<S, E>>,
    h: Seq<A>,
    i: int,
)
    ensures
        sent(if_ok(first, rest), h, i) == sent(first, h, i) + (match follow(first, h, i) {
            Stage::Finished(Ok(v), j) => sent(rest(v), h, j),
            _ => Seq::empty(),
        }),
{
    lemma_sent_then(
        first,
        |r: Result<T, E>|
            match r {
                Ok(v) => rest(v),
                Err(e) => Dialogue::<Q, A, Result<S, E>>::End(Err(e)),
            },
        h,
        i,
    );
}

pub broadcast group group_sent {
    lemma_sent_then,
    lemma_follow_then,
    lemma_asked,
}

/// Holding a composed conversation is holding its parts one after the other.
pub broadcast proof fn lemma_run_then<Q, A, R, S, W>(
    first: Dialogue<Q, A, R>,
    rest: spec_fn(R) -> Dialogue<Q, A, S>,
    w: W,
    serve: spec_fn(W, Q) -> (W, A),
)
    ensures
        #[trigger] run(then_do(first, rest), w, serve) == ({
            let (mid, r) = run(first, w, serve);
            run(rest(r), mid, serve)
        }),
    decreases first,
{
    match first {
        Dialogue::End(r) => {},
        Dialogue::Ask(q, k) => {
            let (next, a) = serve(w, q);
            lemma_run_then(k(a), rest, next, serve);
        },
    }
}

/// Whether `step` is what the conversation `d` comes to with these replies: its
/// next request, or its result as `view` sees it.
pub open spec fn meets<Q: View, A: View, T, R>(
    step: Step<Q, T>,
    view: spec_fn(T) -> R,
    d: Dialogue<Q::V, A::V, R>,
    replies: Seq<A>,
) -> bool {
    match follow(d, replies.map_values(|a: A| a@), 0) {
        Stage::Waiting(q) => step matches Step::Ask(r) && r@ == q,
        Stage::Finished(v, _) => step matches Step::Done(t) && view(t) == v,
    }
}

/// The replies received so far, read from the front.
pub struct Tape<'a, Q, A> {
    replies: &'a Vec<A>,
    next: usize,
    pending: Option<Q>,
}

impl<'a, Q: View, A: View> Tape<'a, Q, A> {
    /// All replies, as values of the model.
    pub closed spec fn replies(&self) -> Seq<A::V> {
        self.replies@.map_values(|a: A| a@)
    }

    /// How many replies have been read.
    pub closed spec fn at(&self) -> int {
        self.next as int
    }

    pub closed spec fn wf(&self) -> bool {
        self.next <= self.replies@.len()
    }

    /// The request that was left unanswered.
    pub closed spec fn pending(&self) -> Q::V {
        self.pending->0@
    }

    /// The stage that an operation has reached when it hands back `r`, where
    /// `None` stands for an unanswered request.
    pub open spec fn stage<R>(&self, r: Option<R>) -> Stage<Q::V, R> {
        match r {
            None => Stage::Waiting(self.pending()),
            Some(v) => Stage::Finished(v, self.at()),
        }
    }

    /// Whether there is an unanswered request.
    pub closed spec fn paused(&self) -> bool {
        self.pending is Some
    }

    /// Whether `self` reads the same replies as `before`.
    pub open spec fn continues(&self, before: &Self) -> bool {
        &&& self.wf()
        &&& self.replies() == before.replies()
    }

    /// Whether holding the conversation `d` from `before` on leads to `self` with
    /// the result `r`.
    pub open spec fn reached<R>(&self, before: &Self, d: Dialogue<Q::V, A::V, R>, r: Option<R>) -> bool {
        &&& self.continues(before)
        &&& follow(d, before.replies(), before.at()) == self.stage(r)
        &&& r is None ==> self.paused()
    }

    pub fn new(replies: &'a Vec<A>) -> (tape: Self)
        ensures
            tape.wf(),
            tape.at() == 0,
            tape.replies() == replies@.map_values(|a: A| a@),
    {
        Tape { replies, next: 0, pending: None }
    }

    /// Whether the next request has been answered already.
    pub fn answered(&self) -> (b: bool)
        requires
            self.wf(),
        ensures
            b == (self.at() < self.replies().len()),
            0 <= self.at() <= self.replies().len(),
    {
        self.next < self.replies.len()
    }

    /// Reads the next reply.
    pub fn take(&mut self) -> (a: &'a A)
        requires
            old(self).wf(),
            old(self).at() < old(self).replies().len(),
        ensures
            final(self).continues(old(self)),
            final(self).at() == old(self).at() + 1,
            a@ == old(self).replies()[old(self).at()],
    {
        let i: usize = self.next;
        assert(i < self.replies.len());
        self.next = i + 1;
        &self.replies[i]
    }

    /// Leaves `request` unanswered.
    pub fn ask(&mut self, request: Q)
        requires
            old(self).wf(),
        ensures
            final(self).continues(old(self)),
            final(self).paused(),
            final(self).pending() == request@,
    {
        self.pending = Some(request);
    }

    /// Sends one request: its reply, or `None` where that is not there yet.
    pub fn ask_for(&mut self, request: Q) -> (r: Option<&'a A>)
        requires
            old(self).wf(),
        ensures
            final(self).reached(old(self), asked(request@), opt(r, |a: &'a A| a@)),
    {
        proof {
            reveal_with_fuel(follow, 3);
        }
        if self.answered() {
            Some(self.take())
        } else {
            self.ask(request);
            None
        }
    }

    /// The step that an operation makes when it hands back `r`, where `None`
    /// stands for an unanswered request.
    pub fn finish<T>(self, r: Option<T>) -> (step: Step<Q, T>)
        requires
            r is None ==> self.paused(),
        ensures
            match r {
                None => step matches Step::Ask(q) && q@ == self.pending(),
                Some(v) => step == Step::<Q, T>::Done(v),
            },
    {
        match r {
            None => Step::Ask(self.pending.unwrap()),
            Some(v) => Step::Done(v),
        }
    }
}

} // verus!
