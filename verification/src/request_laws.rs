//! What the serving of a request comes to as a whole.

use vstd::prelude::*;

use crate::clock::stamp_text;
use crate::keys::{hash_text, ids_are_no_keys, kinds_of_keys_are_apart};
use crate::outside::uuid_text;
use crate::protocol::{
    json_reply, EffectView, HttpReplyView, LlmJobView, NextView, ReplyView,
};
use crate::request::{
    pending_answer, prompt_key_in, queue_key_in, queued_body, request_next, request_pool,
    request_search, request_start, taken_body, RequestPhaseView, RequestView,
};
use crate::server::{
    at_full_address, draw_fits, exhausted_means_full, found_has_room, is_choice, is_full, is_search,
    lemma_follow_search, own_addresses, search_advances, search_begin, search_is_exact,
    search_next, search_pool, SearchView,
};
use crate::state::{job_of, StateView};
use crate::types::{LLMServerView, RequestBodyView};
use crate::world::{lemma_ends, lemma_goes_on, reply_to, store_after, to_end, Store, World};

verus! {

/// The serving of a request at some moment, and what the key store holds then.
pub struct RequestMoment<N> {
    pub store: Store,
    pub next: NextView<RequestView, N, HttpReplyView>,
}

/// Whether `b` follows `a`: the effect that is asked for takes place, and whatever is drawn is
/// drawn from the best.
pub open spec fn request_follows<N>(w: World, a: RequestMoment<N>, b: RequestMoment<N>) -> bool {
    match a.next {
        NextView::Ask(s, e) => {
            let r = reply_to(w, a.store, e);
            &&& b.store == store_after(a.store, e)
            &&& exists|c: Option<LLMServerView>| #[trigger]
                draw_fits(request_pool(s, r), c) && b.next == request_next(s, r, c)
        },
        _ => false,
    }
}

/// Whether the serving of a request asks for something.
pub open spec fn request_asks<N>() -> spec_fn(RequestMoment<N>) -> bool {
    |a: RequestMoment<N>| a.next is Ask
}

/// How the moments of the serving of a request follow one another.
pub open spec fn request_rule<N>(w: World) -> spec_fn(RequestMoment<N>, RequestMoment<N>) -> bool {
    |a: RequestMoment<N>, b: RequestMoment<N>| request_follows(w, a, b)
}

/// Whether `run` is the serving of a request from its start to its end, in a world where the key
/// store holds `m` at first.
pub open spec fn serves<N>(
    w: World,
    run: Seq<RequestMoment<N>>,
    m: Store,
    body: RequestBodyView,
    state: StateView,
    id: u128,
) -> bool {
    &&& to_end(run, request_asks(), request_rule(w))
    &&& run[0] == (RequestMoment { store: m, next: request_start::<N>(body, state, id) })
}

/// The jobs that are started at the first `n` moments.
pub open spec fn jobs_started<N>(run: Seq<RequestMoment<N>>, n: int) -> Seq<LlmJobView>
    decreases n,
{
    if n <= 0 {
        Seq::empty()
    } else {
        let before = jobs_started(run, n - 1);
        match run[n - 1].next {
            NextView::Ask(_, EffectView::Spawn(job)) => before.push(job),
            _ => before,
        }
    }
}

/// A request whose answer is kept is served with it, just as it is; nothing changes, and no job is
/// started.
#[verifier::rlimit(50)]
pub proof fn kept_answers_are_served<N>(
    w: World,
    run: Seq<RequestMoment<N>>,
    m: Store,
    body: RequestBodyView,
    state: StateView,
    id: u128,
)
    requires
        serves(w, run, m, body, state, id),
        m.contains_key(prompt_key_in(body)),
        m.contains_key(m[prompt_key_in(body)]),
    ensures
        run.last().store == m,
        run.last().next == NextView::<RequestView, N, HttpReplyView>::Finish(
            json_reply(200, m[m[prompt_key_in(body)]]),
        ),
        jobs_started(run, run.len() - 1) == Seq::<LlmJobView>::empty(),
{
    assert(jobs_started(run, 0) == Seq::<LlmJobView>::empty());
    lemma_goes_on(run, request_asks(), request_rule(w), 0);
    lemma_goes_on(run, request_asks(), request_rule(w), 1);
    lemma_goes_on(run, request_asks(), request_rule(w), 2);
    lemma_ends(run, request_asks(), request_rule(w), 3);
    assert(jobs_started(run, 1) == jobs_started(run, 0));
    assert(jobs_started(run, 2) == jobs_started(run, 1));
}

/// The state of a request that looks for a server.
pub open spec fn looking(body: RequestBodyView, state: StateView, id: u128) -> RequestView {
    RequestView { body, id, state, phase: RequestPhaseView::Clock }
}

/// The search that a request without a kept answer makes, and the moment at which it has ended.
/// Nothing changes and no job is started until then.
#[verifier::rlimit(50)]
proof fn lemma_finds_search<N>(
    w: World,
    run: Seq<RequestMoment<N>>,
    m: Store,
    body: RequestBodyView,
    state: StateView,
    id: u128,
    stamp: Seq<char>,
) -> (r: (Seq<SearchView>, int))
    requires
        serves(w, run, m, body, state, id),
        !m.contains_key(prompt_key_in(body)),
        stamp_text(w.seconds, w.nanos) == Some(stamp),
    ensures
        is_search(r.0, state.servers, w.load),
        !(r.0.last() is Ask),
        0 <= r.1 < run.len(),
        run[r.1].store == m,
        run[r.1].next == request_search::<N>(looking(body, state, id), stamp, r.0.last()),
        jobs_started(run, r.1) == Seq::<LlmJobView>::empty(),
{
    lemma_goes_on(run, request_asks(), request_rule(w), 0);
    lemma_goes_on(run, request_asks(), request_rule(w), 1);
    let s = looking(body, state, id);
    let r = ReplyView::<N>::Time { seconds: w.seconds, nanos: w.nanos };
    assert(run[1].next == NextView::<RequestView, N, HttpReplyView>::Ask(s, EffectView::Now));
    let c = choose|c: Option<LLMServerView>| #[trigger]
        draw_fits(request_pool(s, r), c) && run[2].next == request_next(s, r, c);
    assert(is_choice(state.servers, c));
    let at = |i: int, v: SearchView|
        0 <= i < run.len() && run[i].store == m && jobs_started(run, i) == Seq::<
            LlmJobView,
        >::empty() && run[i].next == request_search::<N>(s, stamp, v);
    assert forall|i: int, v: SearchView| #[trigger] at(i, v) implies i < run.len()
        && search_advances(at, w.load, i, v) by {
        reveal(search_advances);
        if let SearchView::Ask(a) = v {
            lemma_goes_on(run, request_asks(), request_rule(w), i);
            let t = RequestView {
                phase: RequestPhaseView::Searching { stamp, search: a },
                ..looking(body, state, id)
            };
            let q = ReplyView::<N>::Count((w.load)(a.candidate.url));
            let d = choose|d: Option<LLMServerView>| #[trigger]
                draw_fits(request_pool(t, q), d) && run[i + 1].next == request_next(t, q, d);
            assert(draw_fits(search_pool(a, (w.load)(a.candidate.url)), d));
            assert(at(i + 1, search_next(a, (w.load)(a.candidate.url), d)));
        }
    }
    assert(jobs_started(run, 0) == Seq::<LlmJobView>::empty());
    assert(jobs_started(run, 1) == jobs_started(run, 0));
    assert(at(2, search_begin(state.servers, c)));
    let (search, k) = lemma_follow_search(at, state.servers, w.load, c, 2, run.len() as int);
    assert(at(k, search.last()));
    (search, k)
}

/// What a request comes to that a server takes: the pending answer is kept under its id, and the
/// id under the prompt; the client is told the id.
pub open spec fn taken_by<N>(
    w: World,
    end: RequestMoment<N>,
    m: Store,
    body: RequestBodyView,
    id: u128,
    stamp: Seq<char>,
    server: LLMServerView,
) -> bool {
    &&& end.store == m.insert(
        uuid_text(id),
        (w.encode)(pending_answer(body, id, stamp, Some(server.url))),
    ).insert(prompt_key_in(body), uuid_text(id))
    &&& end.next == NextView::<RequestView, N, HttpReplyView>::Finish(
        json_reply(200, taken_body(uuid_text(id))),
    )
}

/// What a request comes to that no server takes: one that waits already leaves everything as it
/// is, any other is kept pending under its id, and the id in the queue; the client is told which
/// id waits.
pub open spec fn made_to_wait<N>(
    w: World,
    end: RequestMoment<N>,
    m: Store,
    body: RequestBodyView,
    id: u128,
    stamp: Seq<char>,
) -> bool {
    let k = queue_key_in(body);
    if m.contains_key(k) && m[k].len() > 0 {
        &&& end.store == m
        &&& end.next == NextView::<RequestView, N, HttpReplyView>::Finish(
            json_reply(429, queued_body(m[k])),
        )
    } else {
        &&& end.store == m.insert(k, uuid_text(id)).insert(
            uuid_text(id),
            (w.encode)(pending_answer(body, id, stamp, None)),
        )
        &&& end.next == NextView::<RequestView, N, HttpReplyView>::Finish(
            json_reply(429, queued_body(uuid_text(id))),
        )
    }
}

/// The rest of a request once a server is found.
#[verifier::rlimit(50)]
proof fn lemma_taken<N>(
    w: World,
    run: Seq<RequestMoment<N>>,
    m: Store,
    body: RequestBodyView,
    state: StateView,
    id: u128,
    stamp: Seq<char>,
    i: int,
    server: LLMServerView,
)
    requires
        serves(w, run, m, body, state, id),
        0 <= i < run.len(),
        run[i].store == m,
        run[i].next == request_search::<N>(
            looking(body, state, id),
            stamp,
            SearchView::Found(server),
        ),
        jobs_started(run, i) == Seq::<LlmJobView>::empty(),
    ensures
        taken_by(w, run.last(), m, body, id, stamp, server),
        jobs_started(run, run.len() - 1) == seq![job_of(state, body, server, id, stamp)],
{
    lemma_goes_on(run, request_asks(), request_rule(w), i);
    lemma_goes_on(run, request_asks(), request_rule(w), i + 1);
    lemma_goes_on(run, request_asks(), request_rule(w), i + 2);
    lemma_goes_on(run, request_asks(), request_rule(w), i + 3);
    lemma_ends(run, request_asks(), request_rule(w), i + 4);
    assert(jobs_started(run, i + 1) =~= seq![job_of(state, body, server, id, stamp)]);
    assert(jobs_started(run, i + 2) == jobs_started(run, i + 1));
    assert(jobs_started(run, i + 3) == jobs_started(run, i + 2));
}

/// The rest of a request once no server is left.
#[verifier::rlimit(50)]
proof fn lemma_waits<N>(
    w: World,
    run: Seq<RequestMoment<N>>,
    m: Store,
    body: RequestBodyView,
    state: StateView,
    id: u128,
    stamp: Seq<char>,
    i: int,
)
    requires
        serves(w, run, m, body, state, id),
        0 <= i < run.len(),
        run[i].store == m,
        run[i].next == request_search::<N>(
            looking(body, state, id),
            stamp,
            SearchView::Exhausted,
        ),
        jobs_started(run, i) == Seq::<LlmJobView>::empty(),
    ensures
        made_to_wait(w, run.last(), m, body, id, stamp),
        jobs_started(run, run.len() - 1) == Seq::<LlmJobView>::empty(),
{
    lemma_goes_on(run, request_asks(), request_rule(w), i);
    let k = queue_key_in(body);
    if m.contains_key(k) && m[k].len() > 0 {
        lemma_ends(run, request_asks(), request_rule(w), i + 1);
    } else {
        lemma_goes_on(run, request_asks(), request_rule(w), i + 1);
        lemma_goes_on(run, request_asks(), request_rule(w), i + 2);
        lemma_goes_on(run, request_asks(), request_rule(w), i + 3);
        lemma_ends(run, request_asks(), request_rule(w), i + 4);
        assert(jobs_started(run, i + 1) == jobs_started(run, i));
        assert(jobs_started(run, i + 2) == jobs_started(run, i + 1));
        assert(jobs_started(run, i + 3) == jobs_started(run, i + 2));
    }
}

/// A request without a kept answer is taken by one of the servers, which has room, and then one job
/// is started, which sees it through there; or it is made to wait, no job is started, and every
/// server shares its address with a full one.
pub proof fn requests_are_taken_or_wait<N>(
    w: World,
    run: Seq<RequestMoment<N>>,
    m: Store,
    body: RequestBodyView,
    state: StateView,
    id: u128,
    stamp: Seq<char>,
)
    requires
        serves(w, run, m, body, state, id),
        !m.contains_key(prompt_key_in(body)),
        stamp_text(w.seconds, w.nanos) == Some(stamp),
    ensures
        ({
            ||| exists|server: LLMServerView| #[trigger]
                state.servers.contains(server) && !is_full(server, w.load) && taken_by(
                    w,
                    run.last(),
                    m,
                    body,
                    id,
                    stamp,
                    server,
                ) && jobs_started(run, run.len() - 1) == seq![
                    job_of(state, body, server, id, stamp),
                ]
            ||| {
                &&& made_to_wait(w, run.last(), m, body, id, stamp)
                &&& jobs_started(run, run.len() - 1) == Seq::<LlmJobView>::empty()
                &&& forall|t: LLMServerView| #[trigger]
                    state.servers.contains(t) ==> at_full_address(
                        t,
                        state.servers,
                        w.load,
                    )
            }
        }),
{
    let (search, i) = lemma_finds_search(w, run, m, body, state, id, stamp);
    match search.last() {
        SearchView::Found(server) => {
            found_has_room(search, state.servers, w.load, server);
            lemma_taken(w, run, m, body, state, id, stamp, i, server);
        },
        _ => {
            exhausted_means_full(search, state.servers, w.load);
            lemma_waits(w, run, m, body, state, id, stamp, i);
        },
    }
}

/// Where no two servers share an address, a request without a kept answer is made to wait exactly
/// where every server is full; else it is taken by a server with room, none with room has a higher
/// weight, and one job is started, which sees it through there.
#[verifier::rlimit(50)]
pub proof fn requests_wait_only_for_room<N>(
    w: World,
    run: Seq<RequestMoment<N>>,
    m: Store,
    body: RequestBodyView,
    state: StateView,
    id: u128,
    stamp: Seq<char>,
)
    requires
        serves(w, run, m, body, state, id),
        !m.contains_key(prompt_key_in(body)),
        stamp_text(w.seconds, w.nanos) == Some(stamp),
        own_addresses(state.servers),
    ensures
        (forall|t: LLMServerView| #[trigger] state.servers.contains(t) ==> is_full(t, w.load))
            ==> made_to_wait(w, run.last(), m, body, id, stamp) && jobs_started(
            run,
            run.len() - 1,
        ) == Seq::<LlmJobView>::empty(),
        !(forall|t: LLMServerView| #[trigger] state.servers.contains(t) ==> is_full(t, w.load))
            ==> exists|server: LLMServerView| #[trigger]
            state.servers.contains(server) && !is_full(server, w.load) && taken_by(
                w,
                run.last(),
                m,
                body,
                id,
                stamp,
                server,
            ) && jobs_started(run, run.len() - 1) == seq![job_of(state, body, server, id, stamp)]
                && (forall|t: LLMServerView| #[trigger]
                state.servers.contains(t) && !is_full(t, w.load) ==> t.weight <= server.weight),
{
    let (search, i) = lemma_finds_search(w, run, m, body, state, id, stamp);
    search_is_exact(search, state.servers, w.load);
    match search.last() {
        SearchView::Found(server) => {
            lemma_taken(w, run, m, body, state, id, stamp, i, server);
        },
        _ => {
            lemma_waits(w, run, m, body, state, id, stamp, i);
        },
    }
}

/// The same prompt sent to the same model again, after a server took it, is answered with what is
/// kept of the first request, and nothing changes.
pub proof fn second_request_is_served_the_first<N>(
    w: World,
    end: RequestMoment<N>,
    m: Store,
    body: RequestBodyView,
    id: u128,
    stamp: Seq<char>,
    server: LLMServerView,
    w2: World,
    run2: Seq<RequestMoment<N>>,
    body2: RequestBodyView,
    state2: StateView,
    id2: u128,
)
    requires
        taken_by(w, end, m, body, id, stamp, server),
        body2.prompt == body.prompt,
        body2.model == body.model,
        serves(w2, run2, end.store, body2, state2, id2),
    ensures
        run2.last().store == end.store,
        run2.last().next == NextView::<RequestView, N, HttpReplyView>::Finish(
            json_reply(200, (w.encode)(pending_answer(body, id, stamp, Some(server.url)))),
        ),
{
    ids_are_no_keys(id, hash_text(body.prompt), body.model);
    kept_answers_are_served(w2, run2, end.store, body2, state2, id2);
}

/// The same prompt sent to the same model again while it waits, and while every server is full,
/// is told the id of the first request, and nothing changes: a prompt waits once.
pub proof fn second_request_waits_with_the_first<N>(
    w: World,
    end: RequestMoment<N>,
    m: Store,
    body: RequestBodyView,
    id: u128,
    stamp: Seq<char>,
    w2: World,
    run2: Seq<RequestMoment<N>>,
    body2: RequestBodyView,
    state2: StateView,
    id2: u128,
    stamp2: Seq<char>,
)
    requires
        made_to_wait(w, end, m, body, id, stamp),
        !m.contains_key(prompt_key_in(body)),
        body2.prompt == body.prompt,
        body2.model == body.model,
        serves(w2, run2, end.store, body2, state2, id2),
        stamp_text(w2.seconds, w2.nanos) == Some(stamp2),
        forall|t: LLMServerView| #[trigger]
            state2.servers.contains(t) ==> is_full(t, w2.load),
    ensures
        run2.last().store == end.store,
        run2.last().next == end.next,
{
    let h = hash_text(body.prompt);
    ids_are_no_keys(id, h, body.model);
    kinds_of_keys_are_apart(h, body.model, h, body.model);
    requests_are_taken_or_wait(w2, run2, end.store, body2, state2, id2, stamp2);
}

/// Whatever a request writes, it writes for the time that the settings say, and only under its
/// id, the key of its prompt or the key under which it waits. It removes nothing.
pub proof fn requests_write_their_own_keys<N>(
    s: RequestView,
    r: ReplyView<N>,
    c: Option<LLMServerView>,
)
    ensures
        request_next(s, r, c) matches NextView::Ask(_, e) ==> {
            &&& e matches EffectView::Put { key, ttl, .. } ==> {
                &&& ttl == s.state.ttl
                &&& (key == uuid_text(s.id) || key == prompt_key_in(s.body) || key
                    == queue_key_in(s.body))
            }
            &&& !(e is Delete)
        },
{
}

} // verus!
