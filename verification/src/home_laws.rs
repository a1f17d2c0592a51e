//! What the gathering for the start page comes to as a whole.

use vstd::prelude::*;

use crate::home::{
    home_list, home_next, home_start, home_turn, listed, listing_pattern, HomePhaseView,
    HomeTemplateView, HomeView, Listing, ReadStep,
};
use crate::protocol::{EffectView, NextView};
use crate::scan::{all_keys, scan_page, Page, ScanView};
use crate::types::{ApiResponseView, LLMServerView};
use crate::world::{
    lemma_ends, lemma_follow_scan, lemma_goes_on, pages_from, reply_to, scan_advances, text_under,
    to_end, Store, World,
};

verus! {

/// A moment of the gathering.
pub type HomeMoment<N> = NextView<HomeView, N, HomeTemplateView>;

/// Whether `b` follows `a`. Nothing that is asked for changes the key store.
pub open spec fn home_follows<N>(w: World, m: Store, a: HomeMoment<N>, b: HomeMoment<N>) -> bool {
    match a {
        NextView::Ask(s, e) => b == home_next(s, reply_to(w, m, e)),
        _ => false,
    }
}

/// Whether the gathering asks for something.
pub open spec fn home_asks<N>() -> spec_fn(HomeMoment<N>) -> bool {
    |a: HomeMoment<N>| a is Ask
}

/// How the moments of the gathering follow one another.
pub open spec fn home_rule<N>(w: World, m: Store) -> spec_fn(HomeMoment<N>, HomeMoment<N>) -> bool {
    |a: HomeMoment<N>, b: HomeMoment<N>| home_follows(w, m, a, b)
}

/// Whether `run` is a gathering to its end, where the key store holds `m`.
pub open spec fn gathers<N>(w: World, m: Store, run: Seq<HomeMoment<N>>) -> bool {
    to_end(run, home_asks(), home_rule(w, m))
}

/// The answers of a list for some keys, in order; nothing where one that is needed does not
/// parse. A taken request whose answer is gone is left out.
pub open spec fn records(w: World, m: Store, listing: Listing, keys: Seq<Seq<char>>) -> Option<
    Seq<ApiResponseView>,
>
    decreases keys.len(),
{
    if keys.len() == 0 {
        Some(Seq::empty())
    } else {
        let record = text_under(m, text_under(m, keys[0]));
        let rest = records(w, m, listing, keys.skip(1));
        if listing == Listing::Prompts && record.len() == 0 {
            rest
        } else {
            match ((w.decode)(record), rest) {
                (Ok(v), Some(more)) => Some(seq![v] + more),
                _ => None,
            }
        }
    }
}

/// A page with more answers in a list.
pub open spec fn all_listed(
    page: HomeTemplateView,
    listing: Listing,
    more: Seq<ApiResponseView>,
) -> HomeTemplateView {
    match listing {
        Listing::Queued => HomeTemplateView { queued: page.queued + more, ..page },
        Listing::Prompts => HomeTemplateView { prompts: page.prompts + more, ..page },
    }
}

/// The keys of a list are collected page by page, and then the first one is read for.
proof fn lemma_scans<N>(
    w: World,
    m: Store,
    run: Seq<HomeMoment<N>>,
    page: HomeTemplateView,
    listing: Listing,
    scan: ScanView,
    cursor: u64,
    i: int,
) -> (r: (Seq<Page>, int))
    requires
        gathers(w, m, run),
        0 <= i < run.len(),
        run[i] == HomeMoment::<N>::Ask(
            HomeView { page, phase: HomePhaseView::Scanning { listing, scan } },
            scan_page::<N>(scan, cursor)->Ask_1,
        ),
    ensures
        i < r.1 < run.len(),
        pages_from(w, scan.pattern, cursor, r.0),
        run[r.1] == home_turn::<N>(page, listing, scan.keys + all_keys(r.0)),
{
    let at = |j: int, t: ScanView, c: u64|
        0 <= j < run.len() && run[j] == HomeMoment::<N>::Ask(
            HomeView { page, phase: HomePhaseView::Scanning { listing, scan: t } },
            scan_page::<N>(t, c)->Ask_1,
        );
    let done = |j: int, keys: Seq<Seq<char>>|
        0 <= j < run.len() && run[j] == home_turn::<N>(page, listing, keys);
    assert forall|j: int, t: ScanView, c: u64| #[trigger] at(j, t, c) implies j < run.len()
        && scan_advances(w, at, done, j, t, c) by {
        reveal(scan_advances);
        lemma_goes_on(run, home_asks(), home_rule(w, m), j);
    }
    assert(at(i, scan, cursor));
    lemma_follow_scan(w, at, done, scan, cursor, i, run.len() as int)
}

/// The keys of a list are read for one after the other.
#[verifier::rlimit(50)]
proof fn lemma_reads<N>(
    w: World,
    m: Store,
    run: Seq<HomeMoment<N>>,
    page: HomeTemplateView,
    listing: Listing,
    keys: Seq<Seq<char>>,
    i: int,
) -> (j: int)
    requires
        gathers(w, m, run),
        0 <= i < run.len(),
        run[i] == home_turn::<N>(page, listing, keys),
    ensures
        i <= j < run.len(),
        match records(w, m, listing, keys) {
            Some(more) => run[j] == home_turn::<N>(
                all_listed(page, listing, more),
                listing,
                Seq::empty(),
            ),
            None => run.last() == HomeMoment::<N>::Halt("response json is valid"@),
        },
    decreases keys.len(),
{
    if keys.len() == 0 {
        assert(page.queued + Seq::<ApiResponseView>::empty() =~= page.queued);
        assert(page.prompts + Seq::<ApiResponseView>::empty() =~= page.prompts);
        assert(keys =~= Seq::empty());
        i
    } else {
        let rest = keys.skip(1);
        let record = text_under(m, text_under(m, keys[0]));
        lemma_goes_on(run, home_asks(), home_rule(w, m), i);
        assert(run[i + 1] == HomeMoment::<N>::Ask(
            HomeView {
                page,
                phase: HomePhaseView::Reading { listing, rest, step: ReadStep::Record },
            },
            EffectView::Get(text_under(m, keys[0])),
        ));
        lemma_goes_on(run, home_asks(), home_rule(w, m), i + 1);
        if listing == Listing::Prompts && record.len() == 0 {
            lemma_reads(w, m, run, page, listing, rest, i + 2)
        } else {
            lemma_goes_on(run, home_asks(), home_rule(w, m), i + 2);
            match (w.decode)(record) {
                Ok(v) => {
                    let now = listed(page, listing, v);
                    let j = lemma_reads(w, m, run, now, listing, rest, i + 3);
                    if let Some(more) = records(w, m, listing, rest) {
                        assert(page.queued.push(v) + more =~= page.queued + (seq![v] + more));
                        assert(page.prompts.push(v) + more =~= page.prompts + (seq![v] + more));
                    }
                    j
                },
                Err(_) => {
                    lemma_ends(run, home_asks(), home_rule(w, m), i + 3);
                    i + 3
                },
            }
        }
    }
}

/// What the gathering of a list comes to: its answers, for all of its keys in order, or a fault
/// where one does not parse.
pub open spec fn gathered(
    w: World,
    m: Store,
    listing: Listing,
    pages: Seq<Page>,
    found: Option<Seq<ApiResponseView>>,
) -> bool {
    &&& pages_from(w, listing_pattern(listing), 0, pages)
    &&& found == records(w, m, listing, all_keys(pages))
}

/// A list is collected and read for.
proof fn lemma_lists<N>(
    w: World,
    m: Store,
    run: Seq<HomeMoment<N>>,
    page: HomeTemplateView,
    listing: Listing,
    i: int,
) -> (r: (Seq<Page>, int))
    requires
        gathers(w, m, run),
        0 <= i < run.len(),
        run[i] == home_list::<N>(page, listing),
    ensures
        i <= r.1 < run.len(),
        pages_from(w, listing_pattern(listing), 0, r.0),
        match records(w, m, listing, all_keys(r.0)) {
            Some(more) => run[r.1] == home_turn::<N>(
                all_listed(page, listing, more),
                listing,
                Seq::empty(),
            ),
            None => run.last() == HomeMoment::<N>::Halt("response json is valid"@),
        },
{
    let scan = ScanView { pattern: listing_pattern(listing), keys: Seq::empty() };
    let (pages, j) = lemma_scans(w, m, run, page, listing, scan, 0, i);
    assert(scan.keys + all_keys(pages) =~= all_keys(pages));
    let k = lemma_reads(w, m, run, page, listing, all_keys(pages), j);
    (pages, k)
}

/// The start page lists the servers, the requests that wait and those taken: for every key of
/// either kind, in the order in which the keys are collected, the answer kept under the id that
/// is kept under the key. Only a taken request whose answer is gone is left out. The gathering
/// fails exactly where an answer that is needed does not parse.
#[verifier::rlimit(50)]
pub proof fn page_lists_all<N>(
    w: World,
    m: Store,
    run: Seq<HomeMoment<N>>,
    servers: Seq<LLMServerView>,
)
    requires
        gathers(w, m, run),
        run[0] == home_start::<N>(servers),
    ensures
        exists|waiting: Seq<Page>, queued: Option<Seq<ApiResponseView>>|
            {
                &&& #[trigger] gathered(w, m, Listing::Queued, waiting, queued)
                &&& match queued {
                    None => run.last() == HomeMoment::<N>::Halt("response json is valid"@),
                    Some(queued) => exists|
                        taken: Seq<Page>,
                        prompts: Option<Seq<ApiResponseView>>,
                    |
                        {
                            &&& #[trigger] gathered(w, m, Listing::Prompts, taken, prompts)
                            &&& match prompts {
                                None => run.last() == HomeMoment::<N>::Halt(
                                    "response json is valid"@,
                                ),
                                Some(prompts) => run.last() == HomeMoment::<N>::Finish(
                                    HomeTemplateView { servers, queued, prompts },
                                ),
                            }
                        },
                }
            },
{
    let blank = HomeTemplateView { servers, queued: Seq::empty(), prompts: Seq::empty() };
    let (waiting, i) = lemma_lists(w, m, run, blank, Listing::Queued, 0);
    let queued = records(w, m, Listing::Queued, all_keys(waiting));
    assert(gathered(w, m, Listing::Queued, waiting, queued));
    if let Some(q) = queued {
        assert(Seq::<ApiResponseView>::empty() + q =~= q);
        let half = HomeTemplateView { queued: q, ..blank };
        let (taken, j) = lemma_lists(w, m, run, half, Listing::Prompts, i);
        let prompts = records(w, m, Listing::Prompts, all_keys(taken));
        assert(gathered(w, m, Listing::Prompts, taken, prompts));
        if let Some(p) = prompts {
            assert(Seq::<ApiResponseView>::empty() + p =~= p);
            lemma_ends(run, home_asks(), home_rule(w, m), j);
        }
    }
}

} // verus!
