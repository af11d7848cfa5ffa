//! A model of the machine that the launcher talks to, for statements on what a
//! whole conversation leaves behind.
use vstd::prelude::*;

use crate::dialogue::{lemma_run_then, run, then_do, Dialogue};
use crate::host::{ReplyView, RequestView, Talk};
use crate::place::{Location, Place};
use crate::text::Text;

verus! {

/// The files of a machine and how it answers.
pub struct Machine {
    pub files: Map<Location, Seq<u8>>,
    pub folders: Set<Place>,
    /// The requests that it cannot fulfil, whatever the cause.
    pub refuses: spec_fn(RequestView) -> bool,
    /// How paths look.
    pub paths: spec_fn(Location) -> Text,
    /// How the registry tool ends.
    pub registry: spec_fn(Seq<Text>) -> ReplyView,
}

impl Machine {
    /// Whether there is such a file.
    pub open spec fn has(self, l: Location) -> bool {
        self.files.dom().contains(l)
    }

    /// The machine with a file put in place.
    pub open spec fn with(self, l: Location, b: Seq<u8>) -> Machine {
        Machine { files: self.files.insert(l, b), ..self }
    }

    /// The machine without a file.
    pub open spec fn without(self, l: Location) -> Machine {
        Machine { files: self.files.remove(l), ..self }
    }

    /// Whether its folders are where folders belong.
    pub open spec fn wf(self) -> bool {
        forall|p: Place| #[trigger] self.folders.contains(p) ==> p == Place::Binaries || p == Place::S1Data
    }

    /// Whether it fulfils every request that can be fulfilled.
    pub open spec fn willing(self) -> bool {
        forall|q: RequestView| !(#[trigger] (self.refuses)(q))
    }
}

/// What became of a request, and its reply.
pub open spec fn serve(m: Machine, q: RequestView) -> (Machine, ReplyView) {
    match q {
        RequestView::Exists(l) => (
            m,
            ReplyView::Flag(m.has(l) || (!l.backup && m.folders.contains(l.place))),
        ),
        RequestView::Quoted(l) => (m, ReplyView::Text((m.paths)(l))),
        RequestView::Shown(l) => (m, ReplyView::Text((m.paths)(l))),
        RequestView::Registry(args) => (m, (m.registry)(args)),
        _ => if (m.refuses)(q) {
            (m, ReplyView::Failed("refused"@))
        } else {
            match q {
                RequestView::Read(l) if m.has(l) => (m, ReplyView::Bytes(m.files[l])),
                RequestView::Write(l, b) => (m.with(l, b), ReplyView::Done),
                RequestView::CopyFile(a, b) if m.has(a) => (m.with(b, m.files[a]), ReplyView::Done),
                RequestView::Remove(l) if m.has(l) => (m.without(l), ReplyView::Done),
                RequestView::Size(l) if m.has(l) => (m, ReplyView::Size(m.files[l].len() as u64)),
                _ => (m, ReplyView::Failed("no such file"@)),
            }
        },
    }
}

/// A conversation held with a machine: the machine it leaves behind, and its result.
#[verifier::opaque]
pub open spec fn held<R>(d: Talk<R>, m: Machine) -> (Machine, R) {
    run(d, m, |m: Machine, q: RequestView| serve(m, q))
}

/// Holding a composed conversation is holding its parts one after the other.
pub broadcast proof fn lemma_held_then<R, S>(first: Talk<R>, rest: spec_fn(R) -> Talk<S>, m: Machine)
    ensures
        #[trigger] held(then_do(first, rest), m) == held(rest(held(first, m).1), held(first, m).0),
{
    reveal(held);
    lemma_run_then(first, rest, m, |m: Machine, q: RequestView| serve(m, q));
}

/// A conversation that ends at once leaves the machine as it is.
pub broadcast proof fn lemma_held_end<R>(r: R, m: Machine)
    ensures
        #[trigger] held(Dialogue::End(r), m) == (m, r),
{
    reveal(held);
}

/// A conversation that asks goes on with the reply.
pub broadcast proof fn lemma_held_ask<R>(q: RequestView, k: spec_fn(ReplyView) -> Talk<R>, m: Machine)
    ensures
        #[trigger] held(Dialogue::Ask(q, k), m) == held(k(serve(m, q).1), serve(m, q).0),
{
    reveal(held);
}

pub broadcast group group_held {
    lemma_held_then,
    lemma_held_end,
    lemma_held_ask,
}

} // verus!
