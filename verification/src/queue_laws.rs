//! What the turns of the waiting requests come to, from the first to the last.

use vstd::prelude::*;

use crate::clock::stamp_text;
use crate::keys::{hash_text, ids_are_no_keys, kinds_of_keys_are_apart};
use crate::llm_laws::job_outcome;
use crate::outside::{uuid_text, uuid_value};
use crate::protocol::{EffectView, LlmJobView, NextView, ReplyView};
use crate::queue::{
    id_in, pop_next, pop_pool, pop_scan, pop_search, pop_start, pop_turn, queue_pattern,
    PopPhaseView, PopView, TurnPhaseView, WaitingView,
};
use crate::request::{pending_answer, prompt_key_in, queue_key_in};
use crate::request_laws::{made_to_wait, RequestMoment};
use crate::scan::{all_keys, scan_page, Page, ScanView};
use crate::server::{
    at_full_address, draw_fits, exhausted_means_full, found_has_room, is_choice, is_full,
    is_search, lemma_follow_search, search_advances, search_begin, search_next, search_pool,
    SearchView,
};
use crate::state::{job_of, StateView};
use crate::types::{LLMServerView, RequestBodyView};
use crate::world::{
    lemma_ends, lemma_follow_scan, lemma_goes_on, lemma_rest_to_end, pages_from, reply_to,
    scan_advances, store_after, text_under, to_end, Store, World,
};

verus! {

/// The serving of the waiting requests at some moment, and what the key store holds then.
pub struct PopMoment<N> {
    pub store: Store,
    pub next: NextView<PopView, N, ()>,
}

/// Whether `b` follows `a`: the effect that is asked for takes place, a job that is run comes to
/// its end, and whatever is drawn is drawn from the best.
#[verifier::opaque]
pub open spec fn pop_follows<N>(w: World, a: PopMoment<N>, b: PopMoment<N>) -> bool {
    match a.next {
        NextView::Ask(s, e) => {
            let r = reply_to(w, a.store, e);
            &&& match e {
                EffectView::Run(job) => job_outcome::<N>(w, a.store, job, b.store),
                _ => b.store == store_after(a.store, e),
            }
            &&& exists|c: Option<LLMServerView>| #[trigger]
                draw_fits(pop_pool(s, r), c) && b.next == pop_next(s, r, c)
        },
        _ => false,
    }
}

/// Whether the serving of the waiting requests asks for something.
pub open spec fn pop_asks<N>() -> spec_fn(PopMoment<N>) -> bool {
    |a: PopMoment<N>| a.next is Ask
}

/// How the moments of the serving of the waiting requests follow one another.
pub open spec fn pop_rule<N>(w: World) -> spec_fn(PopMoment<N>, PopMoment<N>) -> bool {
    |a: PopMoment<N>, b: PopMoment<N>| pop_follows(w, a, b)
}

/// Whether `run` serves the waiting requests from some moment to the end.
pub open spec fn goes_to_end<N>(w: World, run: Seq<PopMoment<N>>) -> bool {
    to_end(run, pop_asks(), pop_rule(w))
}

/// Whether `run` serves the requests under `keys` from the first one to the end, in a world where
/// the key store holds `m` at first.
pub open spec fn is_round<N>(
    w: World,
    run: Seq<PopMoment<N>>,
    m: Store,
    state: StateView,
    stamp: Seq<char>,
    keys: Seq<Seq<char>>,
) -> bool {
    &&& goes_to_end(w, run)
    &&& run[0] == (PopMoment { store: m, next: pop_turn::<N>(state, stamp, keys) })
}

/// The request that waits under a key, with the id that its pending answer carries; nothing where
/// the record cannot be read or holds no request.
pub open spec fn waiting_under(w: World, m: Store, key: Seq<char>) -> Option<
    (RequestBodyView, Option<Seq<char>>),
> {
    match (w.decode)(text_under(m, text_under(m, key))) {
        Ok(v) => match v.original_api_request {
            Some(request) => Some((request, v.key)),
            None => None,
        },
        Err(_) => None,
    }
}

/// Whether the record under a key stops the serving: it cannot be read, or its request is to be
/// run and has no id.
pub open spec fn is_broken(w: World, m: Store, key: Seq<char>) -> bool {
    match waiting_under(w, m, key) {
        Some((request, id)) => !m.contains_key(prompt_key_in(request)) && id_in(id) is None,
        None => true,
    }
}

/// How the turn of a request ends: it is dropped from the queue, its job is run at a server, which
/// makes `ran` of the key store, or it goes on waiting.
pub enum TurnEnd {
    Dropped,
    Served { server: LLMServerView, ran: Store },
    Waits,
}

/// Whether the turn of a key ends as `how` says and makes `after` of the key store: a request is
/// dropped where its prompt is answered or running; else it is run at one of the servers, which
/// has room, kept under its prompt and taken from the queue; or nothing changes, and then every
/// server shares its address with a full one.
pub open spec fn turn_ends<N>(
    w: World,
    state: StateView,
    stamp: Seq<char>,
    key: Seq<char>,
    m: Store,
    after: Store,
    how: TurnEnd,
) -> bool {
    match waiting_under(w, m, key) {
        Some((request, id_text)) => match how {
            TurnEnd::Dropped => {
                &&& m.contains_key(prompt_key_in(request))
                &&& after == m.remove(key)
            },
            TurnEnd::Served { server, ran } => {
                &&& !m.contains_key(prompt_key_in(request))
                &&& id_in(id_text) matches Some(id)
                &&& state.servers.contains(server)
                &&& !is_full(server, w.load)
                &&& job_outcome::<N>(w, m, job_of(state, request, server, id, stamp), ran)
                &&& after == ran.insert(prompt_key_in(request), uuid_text(id)).remove(key)
            },
            TurnEnd::Waits => {
                &&& !m.contains_key(prompt_key_in(request))
                &&& id_in(id_text) is Some
                &&& after == m
                &&& forall|t: LLMServerView| #[trigger]
                    state.servers.contains(t) ==> at_full_address(t, state.servers, w.load)
            },
        },
        None => false,
    }
}

/// The jobs that a turn runs: one where the request is served, and else none.
pub open spec fn jobs_of_turn(
    w: World,
    state: StateView,
    stamp: Seq<char>,
    key: Seq<char>,
    m: Store,
    how: TurnEnd,
) -> Seq<LlmJobView> {
    match (waiting_under(w, m, key), how) {
        (Some((request, id_text)), TurnEnd::Served { server, .. }) => seq![
            job_of(state, request, server, id_in(id_text)->0, stamp),
        ],
        _ => Seq::empty(),
    }
}

/// The jobs that are run at the moments from `i` up to `j`.
pub open spec fn jobs_asked<N>(run: Seq<PopMoment<N>>, i: int, j: int) -> Seq<LlmJobView>
    decreases j - i,
{
    if i >= j {
        Seq::empty()
    } else {
        let before = jobs_asked(run, i, j - 1);
        match run[j - 1].next {
            NextView::Ask(_, EffectView::Run(job)) => before.push(job),
            _ => before,
        }
    }
}

/// The jobs of two stretches behind one another.
proof fn lemma_jobs_join<N>(run: Seq<PopMoment<N>>, i: int, j: int, k: int)
    requires
        i <= j <= k,
    ensures
        jobs_asked(run, i, k) == jobs_asked(run, i, j) + jobs_asked(run, j, k),
    decreases k - j,
{
    if j < k {
        lemma_jobs_join(run, i, j, k - 1);
        assert(jobs_asked(run, i, k) =~= jobs_asked(run, i, j) + jobs_asked(run, j, k));
    } else {
        assert(jobs_asked(run, i, j) + jobs_asked(run, j, k) =~= jobs_asked(run, i, j));
    }
}

/// A moment at which nothing is drawn and no job is run is followed by what its reply alone says.
proof fn lemma_steps<N>(w: World, run: Seq<PopMoment<N>>, i: int, s: PopView, e: EffectView<N>)
    requires
        goes_to_end(w, run),
        0 <= i < run.len(),
        run[i].next == NextView::<PopView, N, ()>::Ask(s, e),
        !(e is Run),
        pop_pool(s, reply_to(w, run[i].store, e)) is None,
    ensures
        i + 1 < run.len(),
        run[i + 1].next == pop_next(s, reply_to(w, run[i].store, e), None),
        run[i + 1].store == store_after(run[i].store, e),
        forall|j: int| j <= i ==> jobs_asked(run, j, i + 1) == #[trigger] jobs_asked(run, j, i),
{
    reveal(pop_follows);
    lemma_goes_on(run, pop_asks(), pop_rule(w), i);
}

/// A turn in some phase.
spec fn at_turn(
    state: StateView,
    stamp: Seq<char>,
    keys: Seq<Seq<char>>,
    phase: TurnPhaseView,
) -> PopView {
    PopView {
        state,
        phase: PopPhaseView::Turn { stamp, key: keys[0], rest: keys.skip(1), phase },
    }
}

/// A turn starts with the reading of the record under the key.
proof fn lemma_reads<N>(
    w: World,
    run: Seq<PopMoment<N>>,
    state: StateView,
    stamp: Seq<char>,
    keys: Seq<Seq<char>>,
    i: int,
)
    requires
        goes_to_end(w, run),
        0 <= i < run.len(),
        keys.len() > 0,
        run[i].next == pop_turn::<N>(state, stamp, keys),
    ensures
        i + 3 < run.len(),
        run[i + 3].store == run[i].store,
        jobs_asked(run, i, i + 3) == Seq::<LlmJobView>::empty(),
        match waiting_under(w, run[i].store, keys[0]) {
            Some((request, id)) => run[i + 3].next == NextView::<PopView, N, ()>::Ask(
                at_turn(state, stamp, keys, TurnPhaseView::Checking { request, key: id }),
                EffectView::Exists(prompt_key_in(request)),
            ),
            None => run[i + 3].next is Halt,
        },
{
    let m = run[i].store;
    let id = text_under(m, keys[0]);
    assert(jobs_asked(run, i, i) == Seq::<LlmJobView>::empty());
    lemma_steps(
        w,
        run,
        i,
        at_turn(state, stamp, keys, TurnPhaseView::ReadingId),
        EffectView::Get(keys[0]),
    );
    lemma_steps(
        w,
        run,
        i + 1,
        at_turn(state, stamp, keys, TurnPhaseView::ReadingRecord),
        EffectView::Get(id),
    );
    lemma_steps(
        w,
        run,
        i + 2,
        at_turn(state, stamp, keys, TurnPhaseView::Decoding),
        EffectView::DecodeResponse(text_under(m, id)),
    );
}

/// A turn that found a server runs the job, keeps the id under the prompt and removes the key.
proof fn lemma_serves<N>(
    w: World,
    run: Seq<PopMoment<N>>,
    state: StateView,
    stamp: Seq<char>,
    keys: Seq<Seq<char>>,
    waiting: WaitingView,
    server: LLMServerView,
    i: int,
) -> (ran: Store)
    requires
        goes_to_end(w, run),
        0 <= i < run.len(),
        run[i].next == pop_search::<N>(
            state,
            stamp,
            keys[0],
            keys.skip(1),
            waiting,
            SearchView::Found(server),
        ),
    ensures
        i + 3 < run.len(),
        run[i + 3].next == pop_turn::<N>(state, stamp, keys.skip(1)),
        job_outcome::<N>(
            w,
            run[i].store,
            job_of(state, waiting.request, server, waiting.id, stamp),
            ran,
        ),
        run[i + 3].store == ran.insert(
            prompt_key_in(waiting.request),
            uuid_text(waiting.id),
        ).remove(keys[0]),
        jobs_asked(run, i, i + 3) == seq![
            job_of(state, waiting.request, server, waiting.id, stamp),
        ],
{
    let job = job_of(state, waiting.request, server, waiting.id, stamp);
    reveal(pop_follows);
    lemma_goes_on(run, pop_asks(), pop_rule(w), i);
    let ran = run[i + 1].store;
    assert(jobs_asked(run, i, i) == Seq::<LlmJobView>::empty());
    assert(jobs_asked(run, i, i + 1) =~= seq![job]);
    lemma_steps(
        w,
        run,
        i + 1,
        at_turn(state, stamp, keys, TurnPhaseView::Storing),
        EffectView::Put {
            key: prompt_key_in(waiting.request),
            value: uuid_text(waiting.id),
            ttl: state.ttl,
        },
    );
    lemma_steps(
        w,
        run,
        i + 2,
        at_turn(state, stamp, keys, TurnPhaseView::Removing),
        EffectView::Delete(keys[0]),
    );
    ran
}

/// A turn whose prompt is neither answered nor running looks for a server; nothing changes and no
/// job is run until the search has ended.
#[verifier::rlimit(50)]
proof fn lemma_looks<N>(
    w: World,
    run: Seq<PopMoment<N>>,
    state: StateView,
    stamp: Seq<char>,
    keys: Seq<Seq<char>>,
    request: RequestBodyView,
    id_text: Option<Seq<char>>,
    id: u128,
    i: int,
) -> (r: (Seq<SearchView>, int))
    requires
        goes_to_end(w, run),
        0 <= i < run.len(),
        id_in(id_text) == Some(id),
        !run[i].store.contains_key(prompt_key_in(request)),
        run[i].next == NextView::<PopView, N, ()>::Ask(
            at_turn(state, stamp, keys, TurnPhaseView::Checking { request, key: id_text }),
            EffectView::Exists(prompt_key_in(request)),
        ),
    ensures
        is_search(r.0, state.servers, w.load),
        !(r.0.last() is Ask),
        i < r.1 < run.len(),
        run[r.1].store == run[i].store,
        jobs_asked(run, i, r.1) == Seq::<LlmJobView>::empty(),
        run[r.1].next == pop_search::<N>(
            state,
            stamp,
            keys[0],
            keys.skip(1),
            WaitingView { request, id },
            r.0.last(),
        ),
{
    let m = run[i].store;
    let waiting = WaitingView { request, id };
    let s = at_turn(state, stamp, keys, TurnPhaseView::Checking { request, key: id_text });
    let r = ReplyView::<N>::Flag(false);
    reveal(pop_follows);
    lemma_goes_on(run, pop_asks(), pop_rule(w), i);
    let c = choose|c: Option<LLMServerView>| #[trigger]
        draw_fits(pop_pool(s, r), c) && run[i + 1].next == pop_next(s, r, c);
    assert(is_choice(state.servers, c));
    let at = |j: int, v: SearchView|
        i < j < run.len() && run[j].store == m && jobs_asked(run, i, j) == Seq::<
            LlmJobView,
        >::empty() && run[j].next == pop_search::<N>(
            state,
            stamp,
            keys[0],
            keys.skip(1),
            waiting,
            v,
        );
    assert forall|j: int, v: SearchView| #[trigger] at(j, v) implies j < run.len()
        && search_advances(at, w.load, j, v) by {
        reveal(search_advances);
        if let SearchView::Ask(a) = v {
            lemma_goes_on(run, pop_asks(), pop_rule(w), j);
            let t = at_turn(state, stamp, keys, TurnPhaseView::Searching { waiting, search: a });
            let l = (w.load)(a.candidate.url);
            let q = ReplyView::<N>::Count(l);
            let d = choose|d: Option<LLMServerView>| #[trigger]
                draw_fits(pop_pool(t, q), d) && run[j + 1].next == pop_next(t, q, d);
            assert(draw_fits(search_pool(a, l), d));
            assert(at(j + 1, search_next(a, l, d)));
        }
    }
    assert(jobs_asked(run, i, i) == Seq::<LlmJobView>::empty());
    assert(at(i + 1, search_begin(state.servers, c)));
    let (search, k) = lemma_follow_search(
        at,
        state.servers,
        w.load,
        c,
        i + 1,
        run.len() as int,
    );
    assert(at(k, search.last()));
    (search, k)
}

/// The turn of the first of some keys ends in the turn of the next, or stops at a broken record.
#[verifier::rlimit(50)]
proof fn lemma_turn<N>(
    w: World,
    run: Seq<PopMoment<N>>,
    state: StateView,
    stamp: Seq<char>,
    keys: Seq<Seq<char>>,
    i: int,
) -> (r: (int, TurnEnd))
    requires
        goes_to_end(w, run),
        0 <= i < run.len(),
        keys.len() > 0,
        run[i].next == pop_turn::<N>(state, stamp, keys),
    ensures
        i < r.0 < run.len(),
        is_broken(w, run[i].store, keys[0]) ==> {
            &&& r.0 == run.len() - 1
            &&& run[r.0].next is Halt
            &&& run[r.0].store == run[i].store
            &&& jobs_asked(run, i, r.0) == Seq::<LlmJobView>::empty()
        },
        !is_broken(w, run[i].store, keys[0]) ==> {
            &&& run[r.0].next == pop_turn::<N>(state, stamp, keys.skip(1))
            &&& turn_ends::<N>(w, state, stamp, keys[0], run[i].store, run[r.0].store, r.1)
            &&& jobs_asked(run, i, r.0) == jobs_of_turn(
                w,
                state,
                stamp,
                keys[0],
                run[i].store,
                r.1,
            )
        },
{
    let m = run[i].store;
    lemma_reads(w, run, state, stamp, keys, i);
    match waiting_under(w, m, keys[0]) {
        None => {
            lemma_ends(run, pop_asks(), pop_rule(w), i + 3);
            (i + 3, TurnEnd::Waits)
        },
        Some((request, id_text)) => {
            let asked = EffectView::Exists(prompt_key_in(request));
            let checking = TurnPhaseView::Checking { request, key: id_text };
            if m.contains_key(prompt_key_in(request)) {
                lemma_steps(w, run, i + 3, at_turn(state, stamp, keys, checking), asked);
                lemma_steps(
                    w,
                    run,
                    i + 4,
                    at_turn(state, stamp, keys, TurnPhaseView::Dropping),
                    EffectView::Delete(keys[0]),
                );
                assert(jobs_asked(run, i, i + 4) == jobs_asked(run, i, i + 3));
                (i + 5, TurnEnd::Dropped)
            } else {
                match id_in(id_text) {
                    None => {
                        lemma_steps(w, run, i + 3, at_turn(state, stamp, keys, checking), asked);
                        lemma_ends(run, pop_asks(), pop_rule(w), i + 4);
                        (i + 4, TurnEnd::Waits)
                    },
                    Some(id) => {
                        let (search, k) = lemma_looks(
                            w,
                            run,
                            state,
                            stamp,
                            keys,
                            request,
                            id_text,
                            id,
                            i + 3,
                        );
                        lemma_jobs_join(run, i, i + 3, k);
                        match search.last() {
                            SearchView::Found(server) => {
                                found_has_room(search, state.servers, w.load, server);
                                let ran = lemma_serves(
                                    w,
                                    run,
                                    state,
                                    stamp,
                                    keys,
                                    WaitingView { request, id },
                                    server,
                                    k,
                                );
                                lemma_jobs_join(run, i, k, k + 3);
                                assert(jobs_asked(run, i, k + 3) =~= seq![
                                    job_of(state, request, server, id, stamp),
                                ]);
                                (k + 3, TurnEnd::Served { server, ran })
                            },
                            _ => {
                                exhausted_means_full(search, state.servers, w.load);
                                (k, TurnEnd::Waits)
                            },
                        }
                    },
                }
            }
        },
    }
}

/// Whether the turns of the first keys, one after the other, end as `ends` says and make of the
/// key store what `stores` says, from before the first turn to after the last.
pub open spec fn turns_of<N>(
    w: World,
    state: StateView,
    stamp: Seq<char>,
    keys: Seq<Seq<char>>,
    stores: Seq<Store>,
    ends: Seq<TurnEnd>,
) -> bool {
    &&& ends.len() <= keys.len()
    &&& stores.len() == ends.len() + 1
    &&& forall|i: int|
        0 <= i < ends.len() ==> turn_ends::<N>(
            w,
            state,
            stamp,
            keys[i],
            stores[i],
            stores[i + 1],
            #[trigger] ends[i],
        )
}

/// The jobs that the first `n` turns run.
pub open spec fn jobs_of_turns(
    w: World,
    state: StateView,
    stamp: Seq<char>,
    keys: Seq<Seq<char>>,
    stores: Seq<Store>,
    ends: Seq<TurnEnd>,
    n: int,
) -> Seq<LlmJobView>
    decreases n,
{
    if n <= 0 {
        Seq::empty()
    } else {
        jobs_of_turns(w, state, stamp, keys, stores, ends, n - 1) + jobs_of_turn(
            w,
            state,
            stamp,
            keys[n - 1],
            stores[n - 1],
            ends[n - 1],
        )
    }
}

/// The jobs of the first turns do not depend on later ones.
proof fn lemma_jobs_of_first_turns(
    w: World,
    state: StateView,
    stamp: Seq<char>,
    keys: Seq<Seq<char>>,
    stores: Seq<Store>,
    ends: Seq<TurnEnd>,
    after: Store,
    how: TurnEnd,
    n: int,
)
    requires
        n <= ends.len(),
        stores.len() == ends.len() + 1,
    ensures
        jobs_of_turns(w, state, stamp, keys, stores.push(after), ends.push(how), n)
            == jobs_of_turns(w, state, stamp, keys, stores, ends, n),
    decreases n,
{
    if n > 0 {
        lemma_jobs_of_first_turns(w, state, stamp, keys, stores, ends, after, how, n - 1);
        assert(stores.push(after)[n - 1] == stores[n - 1]);
        assert(ends.push(how)[n - 1] == ends[n - 1]);
    }
}

/// One more turn.
proof fn lemma_one_more<N>(
    w: World,
    state: StateView,
    stamp: Seq<char>,
    keys: Seq<Seq<char>>,
    stores: Seq<Store>,
    ends: Seq<TurnEnd>,
    after: Store,
    how: TurnEnd,
)
    requires
        turns_of::<N>(w, state, stamp, keys, stores, ends),
        ends.len() < keys.len(),
        turn_ends::<N>(
            w,
            state,
            stamp,
            keys[ends.len() as int],
            stores.last(),
            after,
            how,
        ),
    ensures
        turns_of::<N>(w, state, stamp, keys, stores.push(after), ends.push(how)),
        jobs_of_turns(
            w,
            state,
            stamp,
            keys,
            stores.push(after),
            ends.push(how),
            ends.len() as int + 1,
        ) == jobs_of_turns(w, state, stamp, keys, stores, ends, ends.len() as int)
            + jobs_of_turn(w, state, stamp, keys[ends.len() as int], stores.last(), how),
{
    let more = stores.push(after);
    let all = ends.push(how);
    assert forall|i: int| 0 <= i < all.len() implies turn_ends::<N>(
        w,
        state,
        stamp,
        keys[i],
        more[i],
        more[i + 1],
        #[trigger] all[i],
    ) by {
        assert(more[i] == stores[i]);
        if i < ends.len() {
            assert(turn_ends::<N>(w, state, stamp, keys[i], stores[i], stores[i + 1], ends[i]));
        }
    }
    lemma_jobs_of_first_turns(w, state, stamp, keys, stores, ends, after, how, ends.len() as int);
    assert(more[ends.len() as int] == stores.last());
}

/// Whether `run` came to its end by the turns that `stores` and `ends` tell of: all keys had
/// theirs, or a broken record stopped the serving. It ran the jobs of these turns, and no others.
pub open spec fn is_told_by<N>(
    w: World,
    run: Seq<PopMoment<N>>,
    m: Store,
    state: StateView,
    stamp: Seq<char>,
    keys: Seq<Seq<char>>,
    stores: Seq<Store>,
    ends: Seq<TurnEnd>,
) -> bool {
    &&& turns_of::<N>(w, state, stamp, keys, stores, ends)
    &&& stores[0] == m
    &&& run.last().store == stores.last()
    &&& jobs_asked(run, 0, run.len() - 1) == jobs_of_turns(
        w,
        state,
        stamp,
        keys,
        stores,
        ends,
        ends.len() as int,
    )
    &&& if ends.len() == keys.len() {
        run.last().next is Finish
    } else {
        run.last().next is Halt && is_broken(w, stores.last(), keys[ends.len() as int])
    }
}

#[verifier::rlimit(50)]
proof fn lemma_round<N>(
    w: World,
    run: Seq<PopMoment<N>>,
    m: Store,
    state: StateView,
    stamp: Seq<char>,
    keys: Seq<Seq<char>>,
    i: int,
    stores: Seq<Store>,
    ends: Seq<TurnEnd>,
) -> (r: (Seq<Store>, Seq<TurnEnd>))
    requires
        goes_to_end(w, run),
        0 <= i < run.len(),
        turns_of::<N>(w, state, stamp, keys, stores, ends),
        stores[0] == m,
        run[i].store == stores.last(),
        run[i].next == pop_turn::<N>(state, stamp, keys.skip(ends.len() as int)),
        jobs_asked(run, 0, i) == jobs_of_turns(
            w,
            state,
            stamp,
            keys,
            stores,
            ends,
            ends.len() as int,
        ),
    ensures
        is_told_by(w, run, m, state, stamp, keys, r.0, r.1),
    decreases keys.len() - ends.len(),
{
    let left = keys.skip(ends.len() as int);
    if left.len() == 0 {
        lemma_ends(run, pop_asks(), pop_rule(w), i);
        (stores, ends)
    } else {
        assert(left[0] == keys[ends.len() as int]);
        let (j, how) = lemma_turn(w, run, state, stamp, left, i);
        lemma_jobs_join(run, 0, i, j);
        if is_broken(w, run[i].store, left[0]) {
            assert(jobs_asked(run, 0, j) =~= jobs_asked(run, 0, i));
            (stores, ends)
        } else {
            lemma_one_more::<N>(w, state, stamp, keys, stores, ends, run[j].store, how);
            assert(left.skip(1) =~= keys.skip(ends.len() as int + 1));
            lemma_round(
                w,
                run,
                m,
                state,
                stamp,
                keys,
                j,
                stores.push(run[j].store),
                ends.push(how),
            )
        }
    }
}

/// The requests under the keys get their turns in order, each ending in one of the three ways,
/// until all had theirs or a broken record stops the serving; and no job is run but those of the
/// requests that are served.
pub proof fn rounds_take_turns<N>(
    w: World,
    run: Seq<PopMoment<N>>,
    m: Store,
    state: StateView,
    stamp: Seq<char>,
    keys: Seq<Seq<char>>,
)
    requires
        is_round(w, run, m, state, stamp, keys),
    ensures
        exists|stores: Seq<Store>, ends: Seq<TurnEnd>| #[trigger]
            is_told_by(w, run, m, state, stamp, keys, stores, ends),
{
    let stores = seq![m];
    let ends = Seq::<TurnEnd>::empty();
    assert(keys.skip(0) =~= keys);
    assert(stores.last() == m);
    let (s, e) = lemma_round(w, run, m, state, stamp, keys, 0, stores, ends);
    assert(is_told_by(w, run, m, state, stamp, keys, s, e));
}

/// The keys are collected page by page, and then the first one gets its turn.
proof fn lemma_scans<N>(
    w: World,
    run: Seq<PopMoment<N>>,
    state: StateView,
    stamp: Seq<char>,
    s: ScanView,
    cursor: u64,
    i: int,
) -> (r: (Seq<Page>, int))
    requires
        goes_to_end(w, run),
        0 <= i < run.len(),
        run[i].next == pop_scan::<N>(state, stamp, scan_page::<N>(s, cursor)),
    ensures
        i < r.1 < run.len(),
        pages_from(w, s.pattern, cursor, r.0),
        run[r.1].store == run[i].store,
        run[r.1].next == pop_turn::<N>(state, stamp, s.keys + all_keys(r.0)),
{
    let m = run[i].store;
    let at = |j: int, t: ScanView, c: u64|
        0 <= j < run.len() && run[j].store == m && run[j].next == pop_scan::<N>(
            state,
            stamp,
            scan_page::<N>(t, c),
        );
    let done = |j: int, keys: Seq<Seq<char>>|
        0 <= j < run.len() && run[j].store == m && run[j].next == pop_turn::<N>(
            state,
            stamp,
            keys,
        );
    assert forall|j: int, t: ScanView, c: u64| #[trigger] at(j, t, c) implies j < run.len()
        && scan_advances(w, at, done, j, t, c) by {
        reveal(pop_follows);
        reveal(scan_advances);
        lemma_goes_on(run, pop_asks(), pop_rule(w), j);
    }
    assert(at(i, s, cursor));
    lemma_follow_scan(w, at, done, s, cursor, i, run.len() as int)
}

/// Every request that waits gets its turn, in the order in which the keys are collected: the
/// serving collects all keys of waiting requests and then goes round them.
pub proof fn all_that_wait_are_served<N>(
    w: World,
    run: Seq<PopMoment<N>>,
    m: Store,
    state: StateView,
    stamp: Seq<char>,
)
    requires
        goes_to_end(w, run),
        run[0] == (PopMoment { store: m, next: pop_start::<N>(state) }),
        stamp_text(w.seconds, w.nanos) == Some(stamp),
    ensures
        exists|pages: Seq<Page>, i: int|
            0 <= i < run.len() && #[trigger] pages_from(w, queue_pattern(), 0, pages) && is_round(
                w,
                #[trigger] run.skip(i),
                m,
                state,
                stamp,
                all_keys(pages),
            ),
{
    reveal(pop_follows);
    lemma_goes_on(run, pop_asks(), pop_rule(w), 0);
    let s = ScanView { pattern: queue_pattern(), keys: Seq::empty() };
    let (pages, i) = lemma_scans(w, run, state, stamp, s, 0, 1);
    assert(s.keys + all_keys(pages) =~= all_keys(pages));
    lemma_rest_to_end(run, pop_asks(), pop_rule(w), i);
    assert(is_round(w, run.skip(i), m, state, stamp, all_keys(pages)));
}

/// No waiting request is lost: one that its turn takes from the queue is kept under its prompt.
pub proof fn none_is_lost<N>(
    w: World,
    state: StateView,
    stamp: Seq<char>,
    m: Store,
    after: Store,
    how: TurnEnd,
    request: RequestBodyView,
    id: Option<Seq<char>>,
)
    requires
        waiting_under(w, m, queue_key_in(request)) == Some((request, id)),
        m.contains_key(queue_key_in(request)),
        turn_ends::<N>(w, state, stamp, queue_key_in(request), m, after, how),
    ensures
        after.contains_key(queue_key_in(request)) || after.contains_key(prompt_key_in(request)),
{
    let h = hash_text(request.prompt);
    kinds_of_keys_are_apart(h, request.model, h, request.model);
}

/// A request that was made to wait is found in the queue just as it was sent, with its id, and
/// does not stop the serving; this holds where answers are read as they were written, and where
/// the id can be read back from its text.
pub proof fn waiting_requests_are_found<N>(
    w: World,
    end: RequestMoment<N>,
    m: Store,
    body: RequestBodyView,
    id: u128,
    stamp: Seq<char>,
)
    requires
        made_to_wait(w, end, m, body, id, stamp),
        text_under(m, queue_key_in(body)).len() == 0,
        ({
            let v = pending_answer(body, id, stamp, None);
            (w.decode)((w.encode)(v)) == Ok::<_, Seq<char>>(v)
        }),
        uuid_value(uuid_text(id)) == Some(id),
    ensures
        end.store.contains_key(queue_key_in(body)),
        waiting_under(w, end.store, queue_key_in(body)) == Some((body, Some(uuid_text(id)))),
        !is_broken(w, end.store, queue_key_in(body)),
{
    ids_are_no_keys(id, hash_text(body.prompt), body.model);
}

/// Whatever the serving of the waiting requests writes, it writes for the time that the settings
/// say, under the prompt of the request in turn; it removes nothing but the key in turn; and the
/// settings, with their servers, stay as they are.
pub proof fn rounds_write_their_own_keys<N>(
    s: PopView,
    r: ReplyView<N>,
    c: Option<LLMServerView>,
)
    ensures
        pop_next(s, r, c) matches NextView::Ask(t, e) ==> {
            &&& t.state == s.state
            &&& e matches EffectView::Put { key, ttl, .. } ==> {
                &&& ttl == s.state.ttl
                &&& s.phase matches PopPhaseView::Turn { phase: TurnPhaseView::Running(x), .. }
                    && key == prompt_key_in(x.request)
            }
            &&& e matches EffectView::Delete(k) ==> {
                s.phase matches PopPhaseView::Turn { key, .. } && k == key
            }
        },
{
}

} // verus!
