//! A world in which effects can be followed through: a key store, servers with fixed loads, a
//! clock that stands still, and JSON written and read by fixed rules.

use vstd::prelude::*;

use crate::protocol::{EffectView, ReplyView};
use crate::scan::{all_keys, Page, ScanView};
use crate::types::ApiResponseView;

verus! {

/// What a key store holds.
pub type Store = Map<Seq<char>, Seq<char>>;

/// Everything around the key store.
pub struct World {
    /// The load of the server at an address.
    pub load: spec_fn(Seq<char>) -> i64,
    /// How an answer is written.
    pub encode: spec_fn(ApiResponseView) -> Seq<char>,
    /// How an answer is read.
    pub decode: spec_fn(Seq<char>) -> Result<ApiResponseView, Seq<char>>,
    /// The page of the keys that match a pattern, at a cursor.
    pub page: spec_fn(Seq<char>, u64) -> Page,
    /// The time on the clock.
    pub seconds: i64,
    pub nanos: u32,
}

/// The reply to an effect.
pub open spec fn reply_to<N>(w: World, m: Store, e: EffectView<N>) -> ReplyView<N> {
    match e {
        EffectView::Exists(k) => ReplyView::Flag(m.contains_key(k)),
        EffectView::Get(k) => if m.contains_key(k) {
            ReplyView::Text(m[k])
        } else {
            ReplyView::Failed(Seq::empty())
        },
        EffectView::Load(url) => ReplyView::Count((w.load)(url)),
        EffectView::Now => ReplyView::Time { seconds: w.seconds, nanos: w.nanos },
        EffectView::EncodeResponse(v) => ReplyView::Text((w.encode)(v)),
        EffectView::DecodeResponse(t) => match (w.decode)(t) {
            Ok(v) => ReplyView::Response(v),
            Err(why) => ReplyView::Failed(why),
        },
        EffectView::Scan { cursor, pattern, .. } => {
            let page = (w.page)(pattern, cursor);
            ReplyView::Page { cursor: page.cursor, keys: page.keys }
        },
        EffectView::Put { .. } => ReplyView::Done,
        EffectView::Delete(_) => ReplyView::Done,
        EffectView::Spawn(_) => ReplyView::Done,
        EffectView::Run(_) => ReplyView::Done,
        _ => ReplyView::Failed(Seq::empty()),
    }
}

/// What an effect makes of the key store by itself. What a job makes of it, at once or later, is
/// up to the job.
pub open spec fn store_after<N>(m: Store, e: EffectView<N>) -> Store {
    match e {
        EffectView::Put { key, value, .. } => m.insert(key, value),
        EffectView::Delete(k) => m.remove(k),
        _ => m,
    }
}

/// Whether `run` is work from some moment to its end: every moment but the last asks for something
/// and is followed by the next, and the last asks for nothing.
pub open spec fn to_end<M>(
    run: Seq<M>,
    asks: spec_fn(M) -> bool,
    follows: spec_fn(M, M) -> bool,
) -> bool {
    &&& run.len() > 0
    &&& forall|i: int|
        0 <= i < run.len() - 1 ==> asks(#[trigger] run[i]) && follows(run[i], run[i + 1])
    &&& !asks(run.last())
}

/// A moment that asks for something is followed by another.
pub(crate) proof fn lemma_goes_on<M>(
    run: Seq<M>,
    asks: spec_fn(M) -> bool,
    follows: spec_fn(M, M) -> bool,
    i: int,
)
    requires
        to_end(run, asks, follows),
        0 <= i < run.len(),
        asks(run[i]),
    ensures
        i + 1 < run.len(),
        follows(run[i], run[i + 1]),
{
    assert(i < run.len() - 1);
}

/// A moment that asks for nothing is the last.
pub(crate) proof fn lemma_ends<M>(
    run: Seq<M>,
    asks: spec_fn(M) -> bool,
    follows: spec_fn(M, M) -> bool,
    i: int,
)
    requires
        to_end(run, asks, follows),
        0 <= i < run.len(),
        !asks(run[i]),
    ensures
        i == run.len() - 1,
        run.last() == run[i],
{
    if i < run.len() - 1 {
        assert(asks(run[i]));
    }
}

/// What is left of work from a moment on goes to its end as well.
pub(crate) proof fn lemma_rest_to_end<M>(
    run: Seq<M>,
    asks: spec_fn(M) -> bool,
    follows: spec_fn(M, M) -> bool,
    i: int,
)
    requires
        to_end(run, asks, follows),
        0 <= i < run.len(),
    ensures
        to_end(run.skip(i), asks, follows),
{
    let rest = run.skip(i);
    assert forall|k: int| 0 <= k < rest.len() - 1 implies asks(#[trigger] rest[k]) && follows(
        rest[k],
        rest[k + 1],
    ) by {
        assert(rest[k] == run[i + k]);
        assert(rest[k + 1] == run[i + k + 1]);
    }
    assert(rest.last() == run.last());
}

/// Whether an answer can be written: the time that it says it took, if any, is a number that JSON
/// is written and read with.
pub open spec fn can_be_written(v: ApiResponseView) -> bool {
    v.ms_taken matches Some(n) ==> n <= u64::MAX
}

/// Whether every answer that can be written is read as it was written.
pub open spec fn reads_back(w: World) -> bool {
    forall|v: ApiResponseView|
        can_be_written(v) ==> (w.decode)(#[trigger] (w.encode)(v)) == Ok::<_, Seq<char>>(v)
}

/// The text under a key, where there is one.
pub open spec fn kept_under(m: Store, k: Seq<char>) -> Option<Seq<char>> {
    if m.contains_key(k) {
        Some(m[k])
    } else {
        None
    }
}

/// The text under a key, or the empty text.
pub open spec fn text_under(m: Store, k: Seq<char>) -> Seq<char> {
    if m.contains_key(k) {
        m[k]
    } else {
        Seq::empty()
    }
}

/// Whether `pages` are all the pages of the keys that match a pattern, from a cursor on: each
/// leads to the next, and the last to none.
pub open spec fn pages_from(w: World, pattern: Seq<char>, cursor: u64, pages: Seq<Page>) -> bool
    decreases pages.len(),
{
    &&& pages.len() > 0
    &&& pages[0] == (w.page)(pattern, cursor)
    &&& if pages.len() == 1 {
        pages[0].cursor == 0
    } else {
        pages[0].cursor != 0 && pages_from(w, pattern, pages[0].cursor, pages.skip(1))
    }
}

/// Whether work that asks for the page at `cursor` of a scan at moment `i` goes on with what
/// follows at the next moment: `at` says where the work stands in the scan, and `done` that it has
/// all keys.
#[verifier::opaque]
pub open spec fn scan_advances(
    w: World,
    at: spec_fn(int, ScanView, u64) -> bool,
    done: spec_fn(int, Seq<Seq<char>>) -> bool,
    i: int,
    s: ScanView,
    cursor: u64,
) -> bool {
    let page = (w.page)(s.pattern, cursor);
    let keys = s.keys + page.keys;
    if page.cursor == 0 {
        done(i + 1, keys)
    } else {
        at(i + 1, ScanView { pattern: s.pattern, keys }, page.cursor)
    }
}

/// Work that makes a scan page by page from moment `i` on, and has no moment from `end` on, comes
/// to a moment at which it has the keys of all pages.
pub(crate) proof fn lemma_follow_scan(
    w: World,
    at: spec_fn(int, ScanView, u64) -> bool,
    done: spec_fn(int, Seq<Seq<char>>) -> bool,
    s: ScanView,
    cursor: u64,
    i: int,
    end: int,
) -> (r: (Seq<Page>, int))
    requires
        at(i, s, cursor),
        forall|j: int, t: ScanView, c: u64| #[trigger]
            at(j, t, c) ==> j < end && scan_advances(w, at, done, j, t, c),
    ensures
        pages_from(w, s.pattern, cursor, r.0),
        i < r.1,
        done(r.1, s.keys + all_keys(r.0)),
    decreases end - i,
{
    reveal(scan_advances);
    assert(scan_advances(w, at, done, i, s, cursor));
    let page = (w.page)(s.pattern, cursor);
    if page.cursor == 0 {
        let pages = seq![page];
        assert(all_keys(pages.skip(1)) =~= Seq::empty());
        assert(s.keys + all_keys(pages) =~= s.keys + page.keys);
        (pages, i + 1)
    } else {
        let t = ScanView { pattern: s.pattern, keys: s.keys + page.keys };
        let (rest, j) = lemma_follow_scan(w, at, done, t, page.cursor, i + 1, end);
        let pages = seq![page] + rest;
        assert(pages.skip(1) =~= rest);
        assert(s.keys + all_keys(pages) =~= t.keys + all_keys(rest));
        (pages, j)
    }
}

} // verus!
