//! Collecting the keys that match a pattern, page by page.

use vstd::prelude::*;

use crate::protocol::{detail_in, Effect, EffectView, Next, NextView, Reply, ReplyView};
use crate::types::texts_of;

verus! {

/// How many keys a page is asked to look at.
pub const PAGE: u64 = 100;

/// Keys of the key store.
#[derive(Debug)]
pub struct KeyList {
    pub keys: Vec<String>,
}

impl View for KeyList {
    type V = Seq<Seq<char>>;

    open spec fn view(&self) -> Seq<Seq<char>> {
        texts_of(self.keys@)
    }
}

/// A scan under way: the pattern, and the keys found so far.
#[derive(Debug)]
pub struct ScanRun {
    pub pattern: String,
    pub keys: Vec<String>,
}

pub struct ScanView {
    pub pattern: Seq<char>,
    pub keys: Seq<Seq<char>>,
}

impl View for ScanRun {
    type V = ScanView;

    open spec fn view(&self) -> ScanView {
        ScanView { pattern: self.pattern@, keys: texts_of(self.keys@) }
    }
}

/// A scan with what it asks for: the page at `cursor`.
pub open spec fn scan_page<N>(s: ScanView, cursor: u64) -> NextView<ScanView, N, Seq<Seq<char>>> {
    NextView::Ask(s, EffectView::Scan { cursor, pattern: s.pattern, count: PAGE })
}

/// The start of a scan.
pub open spec fn scan_start<N>(pattern: Seq<char>) -> NextView<ScanView, N, Seq<Seq<char>>> {
    scan_page(ScanView { pattern, keys: Seq::empty() }, 0)
}

/// A scan after a page: the keys are added, and it ends with the page whose cursor is zero.
pub open spec fn scan_next<N>(s: ScanView, r: ReplyView<N>) -> NextView<
    ScanView,
    N,
    Seq<Seq<char>>,
> {
    match r {
        ReplyView::Page { cursor, keys } => {
            let all = s.keys + keys;
            if cursor == 0 {
                NextView::Finish(all)
            } else {
                scan_page(ScanView { pattern: s.pattern, keys: all }, cursor)
            }
        },
        _ => NextView::Halt(detail_in(r)),
    }
}

/// Starts to collect the keys that match `pattern`.
pub fn scan_keys<N>(pattern: String) -> (r: Next<ScanRun, N, KeyList>)
    ensures
        r@ == scan_start::<N>(pattern@),
{
    let keys: Vec<String> = Vec::new();
    assert(texts_of(keys@) =~= Seq::<Seq<char>>::empty());
    let asked = pattern.clone();
    Next::Ask(
        ScanRun { pattern, keys },
        Effect::Scan { cursor: 0, pattern: asked, count: PAGE },
    )
}

impl ScanRun {
    /// Goes on with a page.
    pub fn step<N>(self, reply: Reply<N>) -> (r: Next<ScanRun, N, KeyList>)
        ensures
            r@ == scan_next(self@, reply@),
    {
        match reply {
            Reply::Page { cursor, keys } => {
                let mut all = self.keys;
                let mut batch = keys;
                let ghost before = texts_of(all@);
                let ghost more = texts_of(batch@);
                all.append(&mut batch);
                assert(texts_of(all@) =~= before + more);
                if cursor == 0 {
                    Next::Finish(KeyList { keys: all })
                } else {
                    let asked = self.pattern.clone();
                    Next::Ask(
                        ScanRun { pattern: self.pattern, keys: all },
                        Effect::Scan { cursor, pattern: asked, count: PAGE },
                    )
                }
            },
            other => Next::Halt(other.detail()),
        }
    }
}

/// A page of a scan: the cursor of the next one, and the keys on it.
pub struct Page {
    pub cursor: u64,
    pub keys: Seq<Seq<char>>,
}

/// Where a scan stands after some pages, one after the other.
pub open spec fn scan_after<N>(s: ScanView, pages: Seq<Page>) -> NextView<ScanView, N, Seq<Seq<char>>>
    decreases pages.len(),
{
    if pages.len() == 0 {
        scan_page(s, 0)
    } else {
        let n = scan_next::<N>(
            s,
            ReplyView::Page { cursor: pages[0].cursor, keys: pages[0].keys },
        );
        match n {
            NextView::Ask(t, _) if pages.len() > 1 => scan_after(t, pages.skip(1)),
            _ => n,
        }
    }
}

/// The keys of some pages, in order.
pub open spec fn all_keys(pages: Seq<Page>) -> Seq<Seq<char>>
    decreases pages.len(),
{
    if pages.len() == 0 {
        Seq::empty()
    } else {
        pages[0].keys + all_keys(pages.skip(1))
    }
}

/// A scan yields the keys of all its pages, in order and none left out, once the page with the
/// cursor zero has come; and not before.
pub proof fn scans_collect_all<N>(s: ScanView, pages: Seq<Page>)
    requires
        pages.len() > 0,
        forall|i: int| 0 <= i < pages.len() - 1 ==> (#[trigger] pages[i]).cursor != 0,
    ensures
        pages.last().cursor == 0 ==> scan_after::<N>(s, pages) == NextView::<
            ScanView,
            N,
            Seq<Seq<char>>,
        >::Finish(s.keys + all_keys(pages)),
        pages.last().cursor != 0 ==> scan_after::<N>(s, pages) == scan_page::<N>(
            ScanView { pattern: s.pattern, keys: s.keys + all_keys(pages) },
            pages.last().cursor,
        ),
    decreases pages.len(),
{
    let rest = pages.skip(1);
    if pages.len() == 1 {
        assert(all_keys(rest) =~= Seq::empty());
        assert(s.keys + pages[0].keys =~= s.keys + all_keys(pages));
    } else {
        assert forall|i: int| 0 <= i < rest.len() - 1 implies (#[trigger] rest[i]).cursor != 0 by {
            assert(rest[i] == pages[i + 1]);
        }
        let t = ScanView { pattern: s.pattern, keys: s.keys + pages[0].keys };
        assert(rest.last() == pages.last());
        scans_collect_all::<N>(t, rest);
        assert(t.keys + all_keys(rest) =~= s.keys + all_keys(pages));
    }
}

/// The keys of some pages are all keys of each, in order.
pub proof fn pages_are_taken_whole(pages: Seq<Page>)
    ensures
        all_keys(pages) == pages.map_values(|p: Page| p.keys).flatten(),
    decreases pages.len(),
{
    let lists = pages.map_values(|p: Page| p.keys);
    if pages.len() > 0 {
        pages_are_taken_whole(pages.skip(1));
        assert(lists.drop_first() =~= pages.skip(1).map_values(|p: Page| p.keys));
        assert(lists.first() == pages[0].keys);
    }
}

/// A scan asks for the first page of its pattern, a hundred keys at a time; then for the page that
/// the last one names, until one names none. It keeps every key of every page behind those it has.
pub proof fn scans_follow_their_cursor<N>(
    s: ScanView,
    pattern: Seq<char>,
    cursor: u64,
    keys: Seq<Seq<char>>,
)
    ensures
        scan_start::<N>(pattern) matches NextView::Ask(
            t,
            EffectView::Scan { cursor: c, pattern: p, count },
        ) && c == 0 && p == pattern && count == 100 && t.pattern == pattern && t.keys.len() == 0,
        cursor == 0 ==> (scan_next::<N>(s, ReplyView::Page { cursor, keys }) matches
        NextView::Finish(all) && all == s.keys + keys),
        cursor != 0 ==> (scan_next::<N>(s, ReplyView::Page { cursor, keys }) matches NextView::Ask(
            t,
            EffectView::Scan { cursor: c, pattern: p, count },
        ) && c == cursor && p == s.pattern && count == 100 && t.pattern == s.pattern && t.keys
            == s.keys + keys),
{
}

} // verus!
