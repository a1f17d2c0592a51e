//! Choosing the server that takes a request.

use vstd::prelude::*;

use crate::outside::choose_one;
use crate::types::{servers_of, LLMServer, LLMServerView};

verus! {

/// Whether `s` is one of the servers with the highest weight.
pub open spec fn is_best(pool: Seq<LLMServerView>, s: LLMServerView) -> bool {
    &&& pool.contains(s)
    &&& forall|i: int| 0 <= i < pool.len() ==> (#[trigger] pool[i]).weight <= s.weight
}

/// Whether `c` is a choice among the best servers: none exactly where there is no server.
pub open spec fn is_choice(pool: Seq<LLMServerView>, c: Option<LLMServerView>) -> bool {
    match c {
        None => pool.len() == 0,
        Some(s) => is_best(pool, s),
    }
}

/// The view of an optional server.
pub open spec fn server_of(s: Option<LLMServer>) -> Option<LLMServerView> {
    match s {
        Some(s) => Some(s@),
        None => None,
    }
}

/// Whether the server at position `i` has the highest weight.
pub open spec fn heaviest_at(servers: Seq<LLMServerView>, i: int) -> bool {
    forall|j: int| 0 <= j < servers.len() ==> (#[trigger] servers[j]).weight <= servers[i].weight
}

/// The positions of all servers with the highest weight, in order.
pub fn heaviest(servers: &Vec<LLMServer>) -> (r: Vec<usize>)
    ensures
        forall|i: int, j: int| 0 <= i < j < r@.len() ==> r@[i] < r@[j],
        forall|i: usize|
            r@.contains(i) <==> i < servers@.len() && heaviest_at(servers_of(servers@), i as int),
        servers@.len() > 0 ==> r@.len() > 0,
{
    let mut r: Vec<usize> = Vec::new();
    if servers.len() == 0 {
        return r;
    }
    let ghost all = servers_of(servers@);
    let mut max: i32 = servers[0].weight;
    let mut at: usize = 0;
    for i in 0..servers.len()
        invariant
            servers@.len() > 0,
            all == servers_of(servers@),
            at < servers@.len(),
            all[at as int].weight == max,
            forall|j: int| 0 <= j < i ==> (#[trigger] all[j]).weight <= max,
    {
        if servers[i].weight > max {
            max = servers[i].weight;
            at = i;
        }
    }
    for i in 0..servers.len()
        invariant
            all == servers_of(servers@),
            at < servers@.len(),
            all[at as int].weight == max,
            forall|j: int| 0 <= j < all.len() ==> (#[trigger] all[j]).weight <= max,
            forall|k: int| 0 <= k < r@.len() ==> r@[k] < i,
            forall|k: int, l: int| 0 <= k < l < r@.len() ==> r@[k] < r@[l],
            forall|j: usize| r@.contains(j) <==> j < i && all[j as int].weight == max,
    {
        if servers[i].weight == max {
            let ghost before = r@;
            r.push(i);
            proof {
                assert forall|j: usize| r@.contains(j) <==> j < i + 1 && all[j as int].weight
                    == max by {
                    if r@.contains(j) {
                        let k = r@.index_of(j);
                        if k < before.len() {
                            assert(before[k] == j);
                            assert(before.contains(j));
                        }
                    }
                    if before.contains(j) {
                        let k = before.index_of(j);
                        assert(r@[k] == j);
                    }
                    if j == i {
                        assert(r@[before.len() as int] == j);
                    }
                }
            }
        }
    }
    assert forall|i: usize| r@.contains(i) implies heaviest_at(all, i as int) by {}
    assert forall|i: usize| i < servers@.len() && heaviest_at(all, i as int) implies r@.contains(
        i,
    ) by {
        assert(all[at as int].weight <= all[i as int].weight);
    }
    assert(r@.contains(at));
    r
}

/// Chooses, by chance, one of the servers with the highest weight.
pub fn select_best_server(servers: &Vec<LLMServer>) -> (r: Option<LLMServer>)
    ensures
        is_choice(servers_of(servers@), server_of(r)),
        r is None <==> servers@.len() == 0,
        r matches Some(s) ==> {
            &&& servers@.contains(s)
            &&& forall|i: int| 0 <= i < servers@.len() ==> (#[trigger] servers@[i]).weight
                <= s.weight
        },
{
    let candidates = heaviest(servers);
    match choose_one(&candidates) {
        Some(i) => {
            let ghost all = servers_of(servers@);
            assert(all[i as int] == servers@[i as int]@);
            assert forall|j: int| 0 <= j < servers@.len() implies (#[trigger] servers@[j]).weight
                <= servers@[i as int].weight by {
                assert(all[j].weight <= all[i as int].weight);
            }
            Some(servers[i].clone())
        },
        None => None,
    }
}

/// The servers at another address than `url`, in order.
pub open spec fn without_url(pool: Seq<LLMServerView>, url: Seq<char>) -> Seq<LLMServerView> {
    pool.filter(|s: LLMServerView| s.url != url)
}

/// Leaves out the servers at `url`.
pub fn drop_url(servers: &Vec<LLMServer>, url: &String) -> (r: Vec<LLMServer>)
    ensures
        servers_of(r@) == without_url(servers_of(servers@), url@),
{
    let mut r: Vec<LLMServer> = Vec::new();
    let ghost all = servers_of(servers@);
    let ghost keep = |s: LLMServerView| s.url != url@;
    proof {
        reveal(Seq::filter);
        assert(all.take(0) =~= Seq::<LLMServerView>::empty());
        assert(servers_of(r@) =~= all.take(0).filter(keep));
    }
    for i in 0..servers.len()
        invariant
            all == servers_of(servers@),
            keep == (|s: LLMServerView| s.url != url@),
            servers_of(r@) == all.take(i as int).filter(keep),
    {
        let ghost before = r@;
        let same = servers[i].url == *url;
        if !same {
            r.push(servers[i].clone());
        }
        proof {
            reveal(Seq::filter);
            assert(all.take(i + 1).drop_last() =~= all.take(i as int));
            assert(all.take(i + 1).last() == all[i as int]);
            if keep(all[i as int]) {
                assert(servers_of(r@) =~= servers_of(before).push(all[i as int]));
            }
        }
    }
    assert(all.take(all.len() as int) =~= all);
    r
}

/// What is left without an address are all servers elsewhere and no others.
pub proof fn servers_elsewhere_stay(pool: Seq<LLMServerView>, url: Seq<char>)
    ensures
        forall|s: LLMServerView| #[trigger]
            without_url(pool, url).contains(s) <==> pool.contains(s) && s.url != url,
{
    lemma_without_url(pool, url);
}

/// A choice among servers is one of them, with a weight that none exceeds; there is none exactly
/// where there is no server.
pub proof fn choices_are_among_the_heaviest(pool: Seq<LLMServerView>, c: Option<LLMServerView>)
    ensures
        c is None ==> (is_choice(pool, c) <==> pool.len() == 0),
        c matches Some(s) ==> (is_choice(pool, c) <==> {
            &&& exists|i: int| 0 <= i < pool.len() && #[trigger] pool[i] == s
            &&& forall|i: int| 0 <= i < pool.len() ==> (#[trigger] pool[i]).weight <= s.weight
        }),
        draw_fits(Some(pool), c) <==> is_choice(pool, c),
        draw_fits(None, c) <==> c is None,
{
}

/// A search for a server that can take one more request: the servers still in question, and the
/// one whose load is being asked for.
pub struct ServerSearch {
    pub remaining: Vec<LLMServer>,
    pub candidate: LLMServer,
}

pub struct ServerSearchView {
    pub remaining: Seq<LLMServerView>,
    pub candidate: LLMServerView,
}

impl View for ServerSearch {
    type V = ServerSearchView;

    open spec fn view(&self) -> ServerSearchView {
        ServerSearchView { remaining: servers_of(self.remaining@), candidate: self.candidate@ }
    }
}

/// How a search stands: it asks for the load of a candidate, or has ended.
pub enum Search {
    Ask(ServerSearch),
    Found(LLMServer),
    Exhausted,
}

pub enum SearchView {
    Ask(ServerSearchView),
    Found(LLMServerView),
    Exhausted,
}

impl View for Search {
    type V = SearchView;

    open spec fn view(&self) -> SearchView {
        match self {
            Search::Ask(s) => SearchView::Ask(s@),
            Search::Found(s) => SearchView::Found(s@),
            Search::Exhausted => SearchView::Exhausted,
        }
    }
}

/// Whether `c` can have been drawn from `pool`; where there is no pool nothing is drawn.
pub open spec fn draw_fits(pool: Option<Seq<LLMServerView>>, c: Option<LLMServerView>) -> bool {
    match pool {
        Some(p) => is_choice(p, c),
        None => c is None,
    }
}

/// The views of the servers of an optional list.
pub open spec fn pool_of(pool: Option<Vec<LLMServer>>) -> Option<Seq<LLMServerView>> {
    match pool {
        Some(v) => Some(servers_of(v@)),
        None => None,
    }
}

/// Draws a server from `pool`, where there is one.
pub fn draw(pool: &Option<Vec<LLMServer>>) -> (r: Option<LLMServer>)
    ensures
        draw_fits(pool_of(*pool), server_of(r)),
{
    match pool {
        Some(v) => select_best_server(v),
        None => None,
    }
}

/// A search among `pool` in which `choice` was drawn.
pub open spec fn search_begin(
    pool: Seq<LLMServerView>,
    choice: Option<LLMServerView>,
) -> SearchView {
    match choice {
        Some(c) => SearchView::Ask(ServerSearchView { remaining: pool, candidate: c }),
        None => SearchView::Exhausted,
    }
}

/// The servers among which the next candidate is drawn once the load of the present one is
/// known; none where the present one has room.
pub open spec fn search_pool(s: ServerSearchView, load: i64) -> Option<Seq<LLMServerView>> {
    if load < s.candidate.max_concurrent {
        None
    } else {
        Some(without_url(s.remaining, s.candidate.url))
    }
}

/// A search once the load of the candidate is known and `choice` was drawn from what is left.
pub open spec fn search_next(
    s: ServerSearchView,
    load: i64,
    choice: Option<LLMServerView>,
) -> SearchView {
    match search_pool(s, load) {
        None => SearchView::Found(s.candidate),
        Some(pool) => search_begin(pool, choice),
    }
}

/// A candidate that has room for one more request is found, and nothing is drawn then; else the
/// search goes on with what was drawn among the servers at other addresses, and ends where nothing
/// was.
pub proof fn candidates_with_room_are_found(
    s: ServerSearchView,
    load: i64,
    c: Option<LLMServerView>,
)
    ensures
        load < s.candidate.max_concurrent ==> {
            &&& search_pool(s, load) is None
            &&& search_next(s, load, c) == SearchView::Found(s.candidate)
        },
        load >= s.candidate.max_concurrent ==> {
            &&& search_pool(s, load) matches Some(rest)
            &&& forall|t: LLMServerView| #[trigger]
                rest.contains(t) <==> s.remaining.contains(t) && t.url != s.candidate.url
            &&& c is None ==> search_next(s, load, c) is Exhausted
            &&& c matches Some(d) ==> (search_next(s, load, c) matches SearchView::Ask(a)
                && a.candidate == d && a.remaining == rest)
        },
{
    lemma_without_url(s.remaining, s.candidate.url);
}

/// Starts a search among `servers` with the candidate that was drawn.
pub fn begin_search(servers: Vec<LLMServer>, choice: Option<LLMServer>) -> (r: Search)
    ensures
        r@ == search_begin(servers_of(servers@), server_of(choice)),
{
    match choice {
        Some(c) => Search::Ask(ServerSearch { remaining: servers, candidate: c }),
        None => Search::Exhausted,
    }
}

/// Starts a search for a server with room for one more request.
pub fn find_available_server(servers: Vec<LLMServer>) -> (r: Search)
    ensures
        exists|c: Option<LLMServerView>| #[trigger]
            is_choice(servers_of(servers@), c) && r@ == search_begin(servers_of(servers@), c),
{
    let choice = select_best_server(&servers);
    proof {
        assert(is_choice(servers_of(servers@), server_of(choice)));
    }
    begin_search(servers, choice)
}

impl ServerSearch {
    /// The servers left in question after the candidate reported its load; none where it has
    /// room.
    pub fn pool_after(&self, load: i64) -> (r: Option<Vec<LLMServer>>)
        ensures
            pool_of(r) == search_pool(self@, load),
    {
        if load < self.candidate.max_concurrent {
            None
        } else {
            Some(drop_url(&self.remaining, &self.candidate.url))
        }
    }

    /// Goes on with the load of the candidate and, where it is full, the next candidate drawn.
    pub fn resume(self, load: i64, choice: Option<LLMServer>) -> (r: Search)
        ensures
            r@ == search_next(self@, load, server_of(choice)),
    {
        match self.pool_after(load) {
            None => Search::Found(self.candidate),
            Some(pool) => begin_search(pool, choice),
        }
    }

    /// Goes on with the load of the candidate: takes it where it has room, and else draws the
    /// next one among the servers at other addresses.
    pub fn step(self, load: i64) -> (r: Search)
        ensures
            exists|c: Option<LLMServerView>| #[trigger]
                draw_fits(search_pool(self@, load), c) && r@ == search_next(self@, load, c),
    {
        let choice = draw(&self.pool_after(load));
        assert(draw_fits(search_pool(self@, load), server_of(choice)));
        self.resume(load, choice)
    }
}

/// What is left without an address: the servers elsewhere, all of them, and no others.
proof fn lemma_without_url(pool: Seq<LLMServerView>, url: Seq<char>)
    ensures
        forall|s: LLMServerView| #[trigger]
            without_url(pool, url).contains(s) <==> pool.contains(s) && s.url != url,
{
    let keep = |s: LLMServerView| s.url != url;
    assert forall|s: LLMServerView| #[trigger]
        without_url(pool, url).contains(s) <==> pool.contains(s) && s.url != url by {
        if without_url(pool, url).contains(s) {
            pool.lemma_filter_contains_rev(keep, s);
            let i = pool.filter(keep).index_of(s);
            assert(keep(pool.filter(keep)[i]));
        }
        if pool.contains(s) && s.url != url {
            let i = pool.index_of(s);
            assert(keep(pool[i]));
        }
    }
}

/// Leaving out the address of one of the servers makes the list shorter.
proof fn lemma_without_url_shorter(pool: Seq<LLMServerView>, s: LLMServerView)
    requires
        pool.contains(s),
    ensures
        without_url(pool, s.url).len() < pool.len(),
    decreases pool.len(),
{
    reveal(Seq::filter);
    let keep = |t: LLMServerView| t.url != s.url;
    let last = pool.last();
    let front = pool.drop_last();
    assert(front.filter(keep).len() <= front.len());
    if last.url != s.url {
        let i = pool.index_of(s);
        assert(front[i] == s);
        lemma_without_url_shorter(front, s);
    }
}

/// Whether `t` follows `s` in a search where the load of the server at an address is what `load`
/// says.
pub open spec fn search_follows(
    s: SearchView,
    t: SearchView,
    load: spec_fn(Seq<char>) -> i64,
) -> bool {
    match s {
        SearchView::Ask(a) => {
            let l = load(a.candidate.url);
            exists|c: Option<LLMServerView>| #[trigger]
                draw_fits(search_pool(a, l), c) && t == search_next(a, l, c)
        },
        _ => false,
    }
}

/// Whether `run` is a search among `pool`, whatever was drawn, while the loads stay as `load`
/// says.
pub open spec fn is_search(
    run: Seq<SearchView>,
    pool: Seq<LLMServerView>,
    load: spec_fn(Seq<char>) -> i64,
) -> bool {
    &&& run.len() > 0
    &&& exists|c: Option<LLMServerView>| #[trigger]
        is_choice(pool, c) && run[0] == search_begin(pool, c)
    &&& forall|i: int|
        0 <= i < run.len() - 1 ==> search_follows(#[trigger] run[i], run[i + 1], load)
}

/// Whether work that stands at `v` of a search at moment `i` stands at what follows in the search
/// at the next moment, whatever is drawn. `at` says where the work stands in the search.
#[verifier::opaque]
pub open spec fn search_advances(
    at: spec_fn(int, SearchView) -> bool,
    load: spec_fn(Seq<char>) -> i64,
    i: int,
    v: SearchView,
) -> bool {
    match v {
        SearchView::Ask(a) => {
            let l = load(a.candidate.url);
            exists|c: Option<LLMServerView>| #[trigger]
                draw_fits(search_pool(a, l), c) && at(i + 1, search_next(a, l, c))
        },
        _ => true,
    }
}

/// Work that makes a search step by step from moment `i` on, and has no moment from `end` on,
/// comes to a moment at which a search among `pool` has ended.
pub(crate) proof fn lemma_follow_search(
    at: spec_fn(int, SearchView) -> bool,
    pool: Seq<LLMServerView>,
    load: spec_fn(Seq<char>) -> i64,
    c: Option<LLMServerView>,
    i: int,
    end: int,
) -> (r: (Seq<SearchView>, int))
    requires
        is_choice(pool, c),
        at(i, search_begin(pool, c)),
        forall|j: int, v: SearchView| #[trigger]
            at(j, v) ==> j < end && search_advances(at, load, j, v),
    ensures
        is_search(r.0, pool, load),
        !(r.0.last() is Ask),
        i <= r.1 < end,
        at(r.1, r.0.last()),
{
    let past = seq![search_begin(pool, c)];
    assert(past.last() == search_begin(pool, c));
    assert(is_search(past, pool, load));
    lemma_follow_search_on(at, pool, load, i, end, past)
}

proof fn lemma_follow_search_on(
    at: spec_fn(int, SearchView) -> bool,
    pool: Seq<LLMServerView>,
    load: spec_fn(Seq<char>) -> i64,
    i: int,
    end: int,
    past: Seq<SearchView>,
) -> (r: (Seq<SearchView>, int))
    requires
        is_search(past, pool, load),
        at(i, past.last()),
        forall|j: int, v: SearchView| #[trigger]
            at(j, v) ==> j < end && search_advances(at, load, j, v),
    ensures
        is_search(r.0, pool, load),
        !(r.0.last() is Ask),
        i <= r.1 < end,
        at(r.1, r.0.last()),
    decreases end - i,
{
    match past.last() {
        SearchView::Ask(a) => {
            reveal(search_advances);
            assert(search_advances(at, load, i, past.last()));
            let l = load(a.candidate.url);
            let c = choose|c: Option<LLMServerView>| #[trigger]
                draw_fits(search_pool(a, l), c) && at(i + 1, search_next(a, l, c));
            let now = search_next(a, l, c);
            let more = past.push(now);
            assert(search_follows(past.last(), now, load));
            assert forall|j: int| 0 <= j < more.len() - 1 implies search_follows(
                #[trigger] more[j],
                more[j + 1],
                load,
            ) by {
                assert(more[j] == past[j]);
                if j < past.len() - 1 {
                    assert(search_follows(past[j], past[j + 1], load));
                }
            }
            assert(more[0] == past[0]);
            assert(more.last() == now);
            lemma_follow_search_on(at, pool, load, i + 1, end, more)
        },
        _ => (past, i),
    }
}

/// Whether a server has no room for one more request.
pub open spec fn is_full(s: LLMServerView, load: spec_fn(Seq<char>) -> i64) -> bool {
    load(s.url) >= s.max_concurrent
}

/// Whether no two servers in the list share an address.
pub open spec fn own_addresses(pool: Seq<LLMServerView>) -> bool {
    forall|s: LLMServerView, t: LLMServerView|
        #[trigger] pool.contains(s) && #[trigger] pool.contains(t) && s.url == t.url ==> s == t
}

/// What holds all along a search: what is left comes from the pool, what was left out shares its
/// address with a full server of the pool, and the candidate is among the best of what is left.
pub open spec fn search_keeps(
    now: SearchView,
    pool: Seq<LLMServerView>,
    load: spec_fn(Seq<char>) -> i64,
) -> bool {
    match now {
        SearchView::Ask(a) => {
            &&& is_best(a.remaining, a.candidate)
            &&& left_from(a.remaining, pool, load)
        },
        SearchView::Found(s) => {
            &&& !is_full(s, load)
            &&& exists|rest: Seq<LLMServerView>| #[trigger]
                left_from(rest, pool, load) && is_best(rest, s)
        },
        SearchView::Exhausted => left_from(Seq::empty(), pool, load),
    }
}

/// Whether `rest` is what can be left of `pool`: of its servers, and all but those at the
/// address of a full one.
pub open spec fn left_from(
    rest: Seq<LLMServerView>,
    pool: Seq<LLMServerView>,
    load: spec_fn(Seq<char>) -> i64,
) -> bool {
    &&& forall|s: LLMServerView| #[trigger] rest.contains(s) ==> pool.contains(s)
    &&& forall|s: LLMServerView| #[trigger]
        pool.contains(s) ==> rest.contains(s) || at_full_address(s, pool, load)
}

/// Whether a full server of the pool has the address of `s`.
pub open spec fn at_full_address(
    s: LLMServerView,
    pool: Seq<LLMServerView>,
    load: spec_fn(Seq<char>) -> i64,
) -> bool {
    exists|t: LLMServerView| #[trigger] pool.contains(t) && t.url == s.url && is_full(t, load)
}

pub(crate) proof fn lemma_search_begin_keeps(
    rest: Seq<LLMServerView>,
    c: Option<LLMServerView>,
    pool: Seq<LLMServerView>,
    load: spec_fn(Seq<char>) -> i64,
)
    requires
        left_from(rest, pool, load),
        is_choice(rest, c),
    ensures
        search_keeps(search_begin(rest, c), pool, load),
{
    if c is None {
        assert(rest =~= Seq::empty());
    }
}

/// One more step of a search keeps `search_keeps`.
pub(crate) proof fn lemma_search_next_keeps(
    a: ServerSearchView,
    c: Option<LLMServerView>,
    pool: Seq<LLMServerView>,
    load: spec_fn(Seq<char>) -> i64,
)
    requires
        search_keeps(SearchView::Ask(a), pool, load),
        draw_fits(search_pool(a, load(a.candidate.url)), c),
    ensures
        search_keeps(search_next(a, load(a.candidate.url), c), pool, load),
{
    match search_pool(a, load(a.candidate.url)) {
        None => {
            assert(left_from(a.remaining, pool, load) && is_best(a.remaining, a.candidate));
        },
        Some(rest) => {
            lemma_without_url(a.remaining, a.candidate.url);
            assert forall|s: LLMServerView| #[trigger] pool.contains(s) implies rest.contains(s)
                || at_full_address(s, pool, load) by {
                if a.remaining.contains(s) && !rest.contains(s) {
                    assert(pool.contains(a.candidate) && a.candidate.url == s.url && is_full(
                        a.candidate,
                        load,
                    ));
                }
            }
            assert(left_from(rest, pool, load));
            lemma_search_begin_keeps(rest, c, pool, load);
        },
    }
}

/// Every search keeps `search_keeps`, and what is left gets shorter from step to step.
proof fn lemma_search_keeps(
    run: Seq<SearchView>,
    pool: Seq<LLMServerView>,
    load: spec_fn(Seq<char>) -> i64,
    i: int,
)
    requires
        is_search(run, pool, load),
        0 <= i < run.len(),
    ensures
        search_keeps(run[i], pool, load),
        run[i] matches SearchView::Ask(a) ==> a.remaining.len() + i <= pool.len(),
        i <= pool.len(),
    decreases i,
{
    if i == 0 {
        let c = choose|c: Option<LLMServerView>| #[trigger]
            is_choice(pool, c) && run[0] == search_begin(pool, c);
        lemma_search_begin_keeps(pool, c, pool, load);
    } else {
        lemma_search_keeps(run, pool, load, i - 1);
        assert(search_follows(run[i - 1], run[i - 1 + 1], load));
        let a = run[i - 1]->Ask_0;
        assert(a.remaining.len() > 0);
        let l = load(a.candidate.url);
        let c = choose|c: Option<LLMServerView>| #[trigger]
            draw_fits(search_pool(a, l), c) && run[i] == search_next(a, l, c);
        lemma_search_next_keeps(a, c, pool, load);
        match search_pool(a, l) {
            None => {},
            Some(rest) => {
                lemma_without_url_shorter(a.remaining, a.candidate);
            },
        }
    }
}

/// A search asks at most once for each server: it has no more questions than there are servers,
/// and then its end.
pub proof fn searches_end(
    run: Seq<SearchView>,
    pool: Seq<LLMServerView>,
    load: spec_fn(Seq<char>) -> i64,
)
    requires
        is_search(run, pool, load),
    ensures
        run.len() <= pool.len() + 1,
{
    lemma_search_keeps(run, pool, load, run.len() - 1);
}

/// The server that a search finds is one of those it was given and has room, and a server with a
/// higher weight shares its address with a full one.
pub proof fn found_has_room(
    run: Seq<SearchView>,
    pool: Seq<LLMServerView>,
    load: spec_fn(Seq<char>) -> i64,
    s: LLMServerView,
)
    requires
        is_search(run, pool, load),
        run.last() == SearchView::Found(s),
    ensures
        pool.contains(s),
        !is_full(s, load),
        forall|t: LLMServerView| #[trigger]
            pool.contains(t) && t.weight > s.weight ==> at_full_address(t, pool, load),
{
    lemma_search_keeps(run, pool, load, run.len() - 1);
    let rest = choose|rest: Seq<LLMServerView>| #[trigger]
        left_from(rest, pool, load) && is_best(rest, s);
    assert forall|t: LLMServerView| #[trigger]
        pool.contains(t) && t.weight > s.weight implies at_full_address(t, pool, load) by {
        if rest.contains(t) {
            let i = rest.index_of(t);
            assert(rest[i].weight <= s.weight);
        }
    }
}

/// A search gives up only where every server shares its address with a full one.
pub proof fn exhausted_means_full(
    run: Seq<SearchView>,
    pool: Seq<LLMServerView>,
    load: spec_fn(Seq<char>) -> i64,
)
    requires
        is_search(run, pool, load),
        run.last() == SearchView::Exhausted,
    ensures
        forall|t: LLMServerView| #[trigger]
            pool.contains(t) ==> at_full_address(t, pool, load),
{
    lemma_search_keeps(run, pool, load, run.len() - 1);
}

/// Where no two servers share an address, a search that has ended has found a server exactly
/// where one has room, and then none with room has a higher weight.
pub proof fn search_is_exact(
    run: Seq<SearchView>,
    pool: Seq<LLMServerView>,
    load: spec_fn(Seq<char>) -> i64,
)
    requires
        is_search(run, pool, load),
        own_addresses(pool),
        !(run.last() is Ask),
    ensures
        run.last() is Exhausted <==> forall|t: LLMServerView| #[trigger]
            pool.contains(t) ==> is_full(t, load),
        run.last() matches SearchView::Found(s) ==> {
            &&& pool.contains(s)
            &&& !is_full(s, load)
            &&& forall|t: LLMServerView| #[trigger]
                pool.contains(t) && !is_full(t, load) ==> t.weight <= s.weight
        },
{
    match run.last() {
        SearchView::Found(s) => {
            found_has_room(run, pool, load, s);
            assert forall|t: LLMServerView| #[trigger]
                pool.contains(t) && !is_full(t, load) implies t.weight <= s.weight by {
                if t.weight > s.weight {
                    let u = choose|u: LLMServerView| #[trigger]
                        pool.contains(u) && u.url == t.url && is_full(u, load);
                    assert(u == t);
                }
            }
        },
        _ => {
            exhausted_means_full(run, pool, load);
            assert forall|t: LLMServerView| #[trigger] pool.contains(t) implies is_full(t, load) by {
                let u = choose|u: LLMServerView| #[trigger]
                    pool.contains(u) && u.url == t.url && is_full(u, load);
                assert(u == t);
            }
        },
    }
}

} // verus!
