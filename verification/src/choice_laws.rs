//! Which server the work goes to: the one that the search for a server found, and no other.

use vstd::prelude::*;

use crate::index::{index_next, index_pool, IndexPhaseView, IndexView, IndexedView};
use crate::index_laws::{index_asks, index_rule, indexes, IndexMoment};
use crate::keys::{hash_text, prompt_key, queue_key};
use crate::llm_laws::job_outcome;
use crate::outside::{utc_text, uuid_text, uuid_value};
use crate::protocol::{Content, EffectView, HttpReplyView, LlmJobView, NextView};
use crate::queue::{id_in, pop_next, pop_pool, pop_start, PopPhaseView, PopView, TurnPhaseView};
use crate::queue_laws::{
    goes_to_end, pop_asks, pop_follows, pop_rule, turn_ends, waiting_under, PopMoment, TurnEnd,
};
use crate::request::{pending_answer, request_next, request_pool, RequestPhaseView, RequestView};
use crate::request_laws::{
    jobs_started, kept_answers_are_served, made_to_wait, request_asks, request_rule,
    requests_are_taken_or_wait, requests_wait_only_for_room, serves, RequestMoment,
};
use crate::server::{
    at_full_address, draw_fits, is_best, is_choice, is_full, left_from, lemma_search_begin_keeps,
    lemma_search_next_keeps, own_addresses, search_begin, search_keeps, search_next, SearchView,
};
use crate::state::{job_of, StateView};
use crate::types::{ApiResponseView, IndexRequestBodyView, LLMServerView, RequestBodyView};
use crate::world::{lemma_ends, lemma_goes_on, reply_to, Store, World};

verus! {

/// Whether a server is one that work may go to: one of the pool, with fewer requests than it takes
/// at once, and such that every server with a higher weight shares its address with one that takes
/// no more.
pub open spec fn may_take(
    server: LLMServerView,
    pool: Seq<LLMServerView>,
    load: spec_fn(Seq<char>) -> i64,
) -> bool {
    &&& pool.contains(server)
    &&& load(server.url) < server.max_concurrent
    &&& forall|t: LLMServerView| #[trigger]
        pool.contains(t) && t.weight > server.weight ==> exists|u: LLMServerView| #[trigger]
            pool.contains(u) && u.url == t.url && load(u.url) >= u.max_concurrent
}

/// Where no two servers share an address, no server with room has a higher weight than one that
/// work may go to.
pub proof fn none_with_room_is_preferred(
    server: LLMServerView,
    pool: Seq<LLMServerView>,
    load: spec_fn(Seq<char>) -> i64,
    t: LLMServerView,
)
    requires
        may_take(server, pool, load),
        forall|a: LLMServerView, b: LLMServerView| #[trigger]
            pool.contains(a) && #[trigger] pool.contains(b) && a.url == b.url ==> a == b,
        pool.contains(t),
        load(t.url) < t.max_concurrent,
    ensures
        t.weight <= server.weight,
{
}

/// A search that has found a server found one that work may go to.
proof fn lemma_found_may_take(
    server: LLMServerView,
    pool: Seq<LLMServerView>,
    load: spec_fn(Seq<char>) -> i64,
)
    requires
        search_keeps(SearchView::Found(server), pool, load),
    ensures
        may_take(server, pool, load),
{
    let rest = choose|rest: Seq<LLMServerView>| #[trigger]
        left_from(rest, pool, load) && is_best(rest, server);
    assert(rest.contains(server));
    assert forall|t: LLMServerView| #[trigger]
        pool.contains(t) && t.weight > server.weight implies exists|u: LLMServerView| #[trigger]
        pool.contains(u) && u.url == t.url && load(u.url) >= u.max_concurrent by {
        if rest.contains(t) {
            let i = rest.index_of(t);
            assert(rest[i].weight <= server.weight);
        }
        assert(at_full_address(t, pool, load));
    }
}

/// A search starts with all servers in question.
proof fn lemma_begins(
    c: Option<LLMServerView>,
    pool: Seq<LLMServerView>,
    load: spec_fn(Seq<char>) -> i64,
)
    requires
        is_choice(pool, c),
    ensures
        search_keeps(search_begin(pool, c), pool, load),
{
    assert(left_from(pool, pool, load));
    lemma_search_begin_keeps(pool, c, pool, load);
}

/// Whether a job is made for a request, with an id and a time, by the settings: all but its server.
pub open spec fn is_job_for(
    job: LlmJobView,
    request: RequestBodyView,
    state: StateView,
    id: u128,
    stamp: Seq<char>,
) -> bool {
    &&& job.request.model == request.model
    &&& job.request.prompt == request.prompt
    &&& job.request.stream == request.stream
    &&& job.request.contextualize == request.contextualize
    &&& job.id == id
    &&& job.stamp == stamp
    &&& job.ttl == state.ttl
    &&& job.files == state.files
    &&& job.index == state.index
    &&& state.clusters <= usize::MAX ==> job.clusters == state.clusters
    &&& job.embedding_model == state.embedding_model
}

/// Whether an answer is the pending one of a request, with the server at an address at work on it
/// or none.
pub open spec fn is_pending_for(
    v: ApiResponseView,
    request: RequestBodyView,
    id: u128,
    stamp: Seq<char>,
    url: Option<Seq<char>>,
) -> bool {
    &&& v.key == Some(uuid_text(id))
    &&& v.model == request.model
    &&& v.created_at == stamp
    &&& v.response.len() == 0
    &&& !v.done
    &&& v.ms_taken is None
    &&& v.server_url == url
    &&& v.original_api_request matches Some(b)
    &&& b.model == request.model
    &&& b.prompt == request.prompt
    &&& b.stream == request.stream
    &&& b.contextualize == request.contextualize
}

/// The time on the clock of a world, as it is written.
pub open spec fn time_in(w: World) -> Option<Seq<char>> {
    utc_text(w.seconds, w.nanos, "%Y-%m-%d %H:%M:%S"@)
}

/// What holds of the serving of a request at any moment.
spec fn request_stands<N>(
    w: World,
    next: NextView<RequestView, N, HttpReplyView>,
    body: RequestBodyView,
    state: StateView,
    id: u128,
) -> bool {
    next matches NextView::Ask(s, e) ==> {
        &&& s.body == body
        &&& s.state == state
        &&& s.id == id
        &&& s.phase is Clock ==> e is Now
        &&& s.phase matches RequestPhaseView::Searching { stamp, search } ==> {
            &&& time_in(w) == Some(stamp)
            &&& search_keeps(SearchView::Ask(search), state.servers, w.load)
            &&& e == EffectView::<N>::Load(search.candidate.url)
        }
        &&& s.phase matches RequestPhaseView::CheckingQueue { stamp } ==> time_in(w) == Some(stamp)
        &&& s.phase matches RequestPhaseView::StoringQueue { stamp } ==> time_in(w) == Some(stamp)
        &&& s.phase is Spawning <==> e is Spawn
        &&& e matches EffectView::Spawn(job) ==> {
            &&& may_take(job.server, state.servers, w.load)
            &&& time_in(w) == Some(job.stamp)
            &&& is_job_for(job, body, state, id, job.stamp)
            &&& s.phase matches RequestPhaseView::Spawning { pending } && is_pending_for(
                pending,
                body,
                id,
                job.stamp,
                Some(job.server.url),
            )
        }
        &&& e matches EffectView::EncodeResponse(v) ==> {
            ||| s.phase is EncodingTaken
            ||| s.phase is EncodingQueued && time_in(w) is Some && is_pending_for(
                v,
                body,
                id,
                time_in(w)->0,
                None,
            )
        }
        &&& !(e is Run)
    }
}

#[verifier::rlimit(50)]
proof fn lemma_request_stands<N>(
    w: World,
    run: Seq<RequestMoment<N>>,
    m: Store,
    body: RequestBodyView,
    state: StateView,
    id: u128,
    i: int,
)
    requires
        serves(w, run, m, body, state, id),
        0 <= i < run.len(),
    ensures
        request_stands(w, run[i].next, body, state, id),
    decreases i,
{
    if i > 0 {
        lemma_request_stands(w, run, m, body, state, id, i - 1);
        assert(request_asks::<N>()(run[i - 1]));
        lemma_goes_on(run, request_asks(), request_rule(w), i - 1);
        let s = run[i - 1].next->Ask_0;
        let e = run[i - 1].next->Ask_1;
        let r = reply_to(w, run[i - 1].store, e);
        let c = choose|c: Option<LLMServerView>| #[trigger]
            draw_fits(request_pool(s, r), c) && run[i].next == request_next(s, r, c);
        match s.phase {
            RequestPhaseView::Clock => {
                if time_in(w) is Some {
                    lemma_begins(c, state.servers, w.load);
                }
            },
            RequestPhaseView::Searching { stamp, search } => {
                lemma_search_next_keeps(search, c, state.servers, w.load);
                let now = search_next(search, (w.load)(search.candidate.url), c);
                if let SearchView::Found(server) = now {
                    lemma_found_may_take(server, state.servers, w.load);
                }
            },
            _ => {},
        }
    }
}

/// The job that a request starts goes to the server that the search found: one that has room, and
/// such that all with a higher weight are where there is none. It is for the request, with its id
/// and the time, and the record that is kept of the request names that same server.
pub proof fn requests_start_their_job_where_there_is_room<N>(
    w: World,
    run: Seq<RequestMoment<N>>,
    m: Store,
    body: RequestBodyView,
    state: StateView,
    id: u128,
    i: int,
    job: LlmJobView,
)
    requires
        serves(w, run, m, body, state, id),
        0 <= i < run.len(),
        run[i].next matches NextView::Ask(_, e) && e == EffectView::<N>::Spawn(job),
    ensures
        may_take(job.server, state.servers, w.load),
        time_in(w) == Some(job.stamp),
        is_job_for(job, body, state, id, job.stamp),
        i + 1 < run.len(),
        run[i + 1].next matches NextView::Ask(_, EffectView::EncodeResponse(v)) && is_pending_for(
            v,
            body,
            id,
            job.stamp,
            Some(job.server.url),
        ),
{
    lemma_request_stands(w, run, m, body, state, id, i);
    lemma_goes_on(run, request_asks(), request_rule(w), i);
}

/// The record that is kept of a request that is made to wait is the pending one, with no server.
pub proof fn waiting_requests_are_recorded<N>(
    w: World,
    run: Seq<RequestMoment<N>>,
    m: Store,
    body: RequestBodyView,
    state: StateView,
    id: u128,
    i: int,
    v: ApiResponseView,
)
    requires
        serves(w, run, m, body, state, id),
        0 < i < run.len(),
        run[i].next matches NextView::Ask(_, e) && e == EffectView::<N>::EncodeResponse(v),
        !(run[i - 1].next matches NextView::Ask(_, f) && f is Spawn),
    ensures
        time_in(w) matches Some(stamp) && is_pending_for(v, body, id, stamp, None),
{
    lemma_request_stands(w, run, m, body, state, id, i);
    lemma_request_stands(w, run, m, body, state, id, i - 1);
    assert(request_asks::<N>()(run[i - 1]));
    lemma_goes_on(run, request_asks(), request_rule(w), i - 1);
}

/// A request whose prompt is kept is answered with what is kept under the id that is kept under the
/// prompt, whole, and no job is started.
pub proof fn kept_prompts_are_answered_whole<N>(
    w: World,
    run: Seq<RequestMoment<N>>,
    m: Store,
    body: RequestBodyView,
    state: StateView,
    id: u128,
)
    requires
        serves(w, run, m, body, state, id),
        m.contains_key(prompt_key(hash_text(body.prompt), body.model)),
        m.contains_key(m[prompt_key(hash_text(body.prompt), body.model)]),
    ensures
        run.last().store == m,
        run.last().next matches NextView::Finish(reply) && {
            &&& reply.status == 200
            &&& reply.content == Content::Json
            &&& reply.body == m[m[prompt_key(hash_text(body.prompt), body.model)]]
        },
        forall|i: int| 0 <= i < run.len() ==> !(#[trigger] run[i].next matches NextView::Ask(_, e)
            && e is Spawn),
{
    kept_answers_are_served(w, run, m, body, state, id);
    lemma_no_job(run, run.len() - 1);
}

proof fn lemma_no_job<N>(run: Seq<RequestMoment<N>>, n: int)
    requires
        jobs_started(run, n) == Seq::<LlmJobView>::empty(),
        n <= run.len(),
    ensures
        forall|i: int| 0 <= i < n ==> !(#[trigger] run[i].next matches NextView::Ask(_, e)
            && e is Spawn),
    decreases n,
{
    if n > 0 {
        let before = jobs_started(run, n - 1);
        if let NextView::Ask(_, EffectView::Spawn(job)) = run[n - 1].next {
            assert(before.push(job).len() > 0);
        }
        lemma_no_job(run, n - 1);
    }
}

/// Nothing is written before a job is started or a prompt is made to wait.
proof fn lemma_unwritten<N>(
    w: World,
    run: Seq<RequestMoment<N>>,
    m: Store,
    body: RequestBodyView,
    state: StateView,
    id: u128,
    i: int,
)
    requires
        serves(w, run, m, body, state, id),
        0 <= i < run.len(),
    ensures
        run[i].next matches NextView::Ask(s, e) ==> match s.phase {
            RequestPhaseView::Checking => e is Exists && run[i].store == m,
            RequestPhaseView::FetchingId => e is Get && run[i].store == m,
            RequestPhaseView::FetchingAnswer => e is Get && run[i].store == m,
            RequestPhaseView::Clock => e is Now && run[i].store == m,
            RequestPhaseView::Searching { .. } => e is Load && run[i].store == m,
            RequestPhaseView::Spawning { .. } => e is Spawn && run[i].store == m,
            _ => !(e is Spawn),
        },
    decreases i,
{
    if i > 0 {
        lemma_unwritten(w, run, m, body, state, id, i - 1);
        assert(request_asks::<N>()(run[i - 1]));
        lemma_goes_on(run, request_asks(), request_rule(w), i - 1);
    }
}

/// A request that starts a job keeps its pending record under its id and the id under its prompt,
/// and the client is told the id.
pub proof fn taken_requests_tell_their_id<N>(
    w: World,
    run: Seq<RequestMoment<N>>,
    m: Store,
    body: RequestBodyView,
    state: StateView,
    id: u128,
    i: int,
    job: LlmJobView,
)
    requires
        serves(w, run, m, body, state, id),
        0 <= i < run.len(),
        run[i].next matches NextView::Ask(_, e) && e == EffectView::<N>::Spawn(job),
    ensures
        exists|v: ApiResponseView|
            {
                &&& #[trigger] is_pending_for(v, body, id, job.stamp, Some(job.server.url))
                &&& run.last().store == m.insert(uuid_text(id), (w.encode)(v)).insert(
                    prompt_key(hash_text(body.prompt), body.model),
                    uuid_text(id),
                )
            },
        run.last().next matches NextView::Finish(reply) && {
            &&& reply.status == 200
            &&& reply.content == Content::Json
            &&& reply.body == "{ 'response_id': '"@ + uuid_text(id) + "' }"@
        },
{
    requests_start_their_job_where_there_is_room(w, run, m, body, state, id, i, job);
    lemma_request_stands(w, run, m, body, state, id, i);
    lemma_unwritten(w, run, m, body, state, id, i);
    lemma_goes_on(run, request_asks(), request_rule(w), i);
    lemma_goes_on(run, request_asks(), request_rule(w), i + 1);
    lemma_goes_on(run, request_asks(), request_rule(w), i + 2);
    lemma_goes_on(run, request_asks(), request_rule(w), i + 3);
    lemma_ends(run, request_asks(), request_rule(w), i + 4);
    let v = run[i + 1].next->Ask_1->EncodeResponse_0;
    assert(is_pending_for(v, body, id, job.stamp, Some(job.server.url)));
}

/// A request that no server has room for starts no job. One that waits already changes nothing, and
/// the client is told the id that waits; any other is kept pending under its id, its id in the
/// queue, and the client is told that id.
pub proof fn requests_without_room_wait<N>(
    w: World,
    run: Seq<RequestMoment<N>>,
    m: Store,
    body: RequestBodyView,
    state: StateView,
    id: u128,
    stamp: Seq<char>,
)
    requires
        serves(w, run, m, body, state, id),
        !m.contains_key(prompt_key(hash_text(body.prompt), body.model)),
        time_in(w) == Some(stamp),
        forall|t: LLMServerView| #[trigger]
            state.servers.contains(t) ==> (w.load)(t.url) >= t.max_concurrent,
    ensures
        forall|i: int| 0 <= i < run.len() ==> !(#[trigger] run[i].next matches NextView::Ask(_, e)
            && e is Spawn),
        ({
            let k = queue_key(hash_text(body.prompt), body.model);
            let told = if m.contains_key(k) && m[k].len() > 0 {
                m[k]
            } else {
                uuid_text(id)
            };
            &&& m.contains_key(k) && m[k].len() > 0 ==> run.last().store == m
            &&& !(m.contains_key(k) && m[k].len() > 0) ==> exists|v: ApiResponseView|
                {
                    &&& #[trigger] is_pending_for(v, body, id, stamp, None)
                    &&& run.last().store == m.insert(k, uuid_text(id)).insert(
                        uuid_text(id),
                        (w.encode)(v),
                    )
                }
            &&& run.last().next matches NextView::Finish(reply)
            &&& reply.status == 429
            &&& reply.content == Content::Json
            &&& reply.body == "{'response_id': '"@ + told + "', 'queued': true}"@
        }),
{
    requests_are_taken_or_wait(w, run, m, body, state, id, stamp);
    assert forall|t: LLMServerView| #[trigger] state.servers.contains(t) implies is_full(
        t,
        w.load,
    ) by {}
    assert(made_to_wait(w, run.last(), m, body, id, stamp));
    lemma_no_job(run, run.len() - 1);
    assert(is_pending_for(pending_answer(body, id, stamp, None), body, id, stamp, None));
}

/// Where no two servers share an address and one has room, a request without a kept answer starts
/// a job.
pub proof fn requests_with_room_start_a_job<N>(
    w: World,
    run: Seq<RequestMoment<N>>,
    m: Store,
    body: RequestBodyView,
    state: StateView,
    id: u128,
    stamp: Seq<char>,
    free: LLMServerView,
)
    requires
        serves(w, run, m, body, state, id),
        !m.contains_key(prompt_key(hash_text(body.prompt), body.model)),
        time_in(w) == Some(stamp),
        forall|a: LLMServerView, b: LLMServerView| #[trigger]
            state.servers.contains(a) && #[trigger] state.servers.contains(b) && a.url == b.url
                ==> a == b,
        state.servers.contains(free),
        (w.load)(free.url) < free.max_concurrent,
    ensures
        exists|i: int|
            0 <= i < run.len() && (#[trigger] run[i].next matches NextView::Ask(_, e)
                && e is Spawn),
{
    assert(own_addresses(state.servers));
    requests_wait_only_for_room(w, run, m, body, state, id, stamp);
    assert(!is_full(free, w.load));
    assert(jobs_started(run, run.len() - 1).len() == 1);
    lemma_some_job(run, run.len() - 1);
}

proof fn lemma_some_job<N>(run: Seq<RequestMoment<N>>, n: int)
    requires
        jobs_started(run, n).len() > 0,
        n <= run.len(),
    ensures
        exists|i: int|
            0 <= i < n && (#[trigger] run[i].next matches NextView::Ask(_, e) && e is Spawn),
    decreases n,
{
    if n > 0 {
        if let NextView::Ask(_, EffectView::Spawn(job)) = run[n - 1].next {
        } else {
            lemma_some_job(run, n - 1);
        }
    }
}

/// What holds of the serving of the waiting requests at any moment.
spec fn pop_stands<N>(w: World, next: NextView<PopView, N, ()>, state: StateView) -> bool {
    next matches NextView::Ask(s, e) ==> {
        &&& s.state == state
        &&& s.phase is Clock ==> e is Now
        &&& s.phase matches PopPhaseView::Scanning { stamp, .. } ==> time_in(w) == Some(stamp)
        &&& s.phase matches PopPhaseView::Turn { stamp, phase, .. } ==> {
            &&& time_in(w) == Some(stamp)
            &&& phase matches TurnPhaseView::Searching { waiting, search } ==> {
                &&& search_keeps(SearchView::Ask(search), state.servers, w.load)
                &&& e == EffectView::<N>::Load(search.candidate.url)
            }
        }
        &&& e matches EffectView::Run(job) ==> {
            &&& may_take(job.server, state.servers, w.load)
            &&& time_in(w) == Some(job.stamp)
            &&& s.phase matches PopPhaseView::Turn { phase: TurnPhaseView::Running(waiting), .. }
                && is_job_for(job, waiting.request, state, waiting.id, job.stamp)
        }
        &&& !(e is Spawn)
    }
}

#[verifier::rlimit(50)]
proof fn lemma_pop_stands<N>(w: World, run: Seq<PopMoment<N>>, state: StateView, i: int)
    requires
        goes_to_end(w, run),
        run[0].next == pop_start::<N>(state),
        0 <= i < run.len(),
    ensures
        pop_stands(w, run[i].next, state),
    decreases i,
{
    if i > 0 {
        lemma_pop_stands(w, run, state, i - 1);
        assert(pop_asks::<N>()(run[i - 1]));
        lemma_goes_on(run, pop_asks(), pop_rule(w), i - 1);
        reveal(pop_follows);
        let s = run[i - 1].next->Ask_0;
        let e = run[i - 1].next->Ask_1;
        let r = reply_to(w, run[i - 1].store, e);
        let c = choose|c: Option<LLMServerView>| #[trigger]
            draw_fits(pop_pool(s, r), c) && run[i].next == pop_next(s, r, c);
        if let PopPhaseView::Turn { phase, .. } = s.phase {
            match phase {
                TurnPhaseView::Checking { key, .. } => {
                    if pop_pool(s, r) is Some {
                        lemma_begins(c, state.servers, w.load);
                    }
                },
                TurnPhaseView::Searching { search, .. } => {
                    lemma_search_next_keeps(search, c, state.servers, w.load);
                    let now = search_next(search, (w.load)(search.candidate.url), c);
                    if let SearchView::Found(server) = now {
                        lemma_found_may_take(server, state.servers, w.load);
                    }
                },
                _ => {},
            }
        }
    }
}

/// The job that a turn of a waiting request runs goes to the server that the search found: one that
/// has room, and such that all with a higher weight are where there is none. It has the time at
/// which the serving began, and what it does not have from the request it has from the settings.
pub proof fn turns_run_their_job_where_there_is_room<N>(
    w: World,
    run: Seq<PopMoment<N>>,
    state: StateView,
    i: int,
    job: LlmJobView,
)
    requires
        goes_to_end(w, run),
        run[0].next == pop_start::<N>(state),
        0 <= i < run.len(),
        run[i].next matches NextView::Ask(_, e) && e == EffectView::<N>::Run(job),
    ensures
        may_take(job.server, state.servers, w.load),
        time_in(w) == Some(job.stamp),
        is_job_for(job, job.request, state, job.id, job.stamp),
{
    lemma_pop_stands(w, run, state, i);
}

/// What a turn that serves a request runs, and what it keeps: a job for the request just as its
/// record has it, with the id of the record, at a server with room; then the id stands under the
/// prompt, and the key that waited is gone.
pub proof fn turns_serve_what_was_recorded<N>(
    w: World,
    state: StateView,
    stamp: Seq<char>,
    key: Seq<char>,
    m: Store,
    after: Store,
    how: TurnEnd,
)
    requires
        turn_ends::<N>(w, state, stamp, key, m, after, how),
        how is Served,
        m.contains_key(key),
        m.contains_key(m[key]),
    ensures
        (w.decode)(m[m[key]]) matches Ok(v) && {
            &&& v.original_api_request matches Some(request)
            &&& uuid_value(
                match v.key {
                    Some(k) => k,
                    None => Seq::empty(),
                },
            ) matches Some(id)
            &&& !m.contains_key(prompt_key(hash_text(request.prompt), request.model))
            &&& exists|job: LlmJobView|
                {
                    &&& #[trigger] job_outcome::<N>(w, m, job, how->ran)
                    &&& is_job_for(job, request, state, id, stamp)
                    &&& state.servers.contains(job.server)
                    &&& (w.load)(job.server.url) < job.server.max_concurrent
                }
            &&& after == how->ran.insert(
                prompt_key(hash_text(request.prompt), request.model),
                uuid_text(id),
            ).remove(key)
        },
{
    let (request, id_text) = waiting_under(w, m, key)->0;
    let id = id_in(id_text)->0;
    let job = job_of(state, request, how->server, id, stamp);
    assert(job_outcome::<N>(w, m, job, how->ran));
    assert(is_job_for(job, request, state, id, stamp));
}

/// A request that waits is dropped only where its prompt is answered or running, and then nothing
/// but its key is removed; it goes on waiting only where every server shares its address with one
/// that takes no more, and then nothing changes.
pub proof fn turns_drop_and_leave_as_recorded<N>(
    w: World,
    state: StateView,
    stamp: Seq<char>,
    key: Seq<char>,
    m: Store,
    after: Store,
    how: TurnEnd,
)
    requires
        turn_ends::<N>(w, state, stamp, key, m, after, how),
        m.contains_key(key),
        m.contains_key(m[key]),
    ensures
        (w.decode)(m[m[key]]) matches Ok(v) && v.original_api_request matches Some(request) && {
            &&& how is Dropped <==> m.contains_key(
                prompt_key(hash_text(request.prompt), request.model),
            )
            &&& how is Dropped ==> after == m.remove(key)
            &&& how is Waits ==> after == m && forall|t: LLMServerView| #[trigger]
                state.servers.contains(t) ==> exists|u: LLMServerView| #[trigger]
                    state.servers.contains(u) && u.url == t.url && (w.load)(u.url)
                        >= u.max_concurrent
        },
{
    if how is Waits {
        assert forall|t: LLMServerView| #[trigger] state.servers.contains(t) implies exists|
            u: LLMServerView,
        | #[trigger]
            state.servers.contains(u) && u.url == t.url && (w.load)(u.url) >= u.max_concurrent by {
            assert(at_full_address(t, state.servers, w.load));
        }
    }
}

/// What holds of the work for a text sent in at any moment.
spec fn index_stands<N>(
    w: World,
    next: NextView<IndexView<N>, N, IndexedView>,
    body: IndexRequestBodyView,
    state: StateView,
    id: u128,
) -> bool {
    next matches NextView::Ask(s, e) ==> {
        &&& s.body == body
        &&& s.state == state
        &&& s.id == id
        &&& s.phase is Clock ==> e is Now
        &&& s.phase matches IndexPhaseView::Searching { stamp, search } ==> {
            &&& time_in(w) == Some(stamp)
            &&& search_keeps(SearchView::Ask(search), state.servers, w.load)
            &&& e == EffectView::<N>::Load(search.candidate.url)
        }
        &&& s.phase matches IndexPhaseView::Embedding { stamp, embed } ==> {
            &&& time_in(w) == Some(stamp)
            &&& exists|server: LLMServerView| #[trigger]
                may_take(server, state.servers, w.load) && embed.url == server.url + "embed"@
            &&& e matches EffectView::PostEmbed { url, .. } ==> url == embed.url
        }
        &&& e is PostEmbed ==> s.phase is Embedding
    }
}

#[verifier::rlimit(50)]
proof fn lemma_index_stands<N>(
    w: World,
    run: Seq<IndexMoment<N>>,
    body: IndexRequestBodyView,
    state: StateView,
    id: u128,
    i: int,
)
    requires
        indexes(w, run, body, state, id),
        0 <= i < run.len(),
    ensures
        index_stands(w, run[i].next, body, state, id),
    decreases i,
{
    if i > 0 {
        lemma_index_stands(w, run, body, state, id, i - 1);
        assert(index_asks::<N>()(run[i - 1]));
        lemma_goes_on(run, index_asks(), index_rule(w), i - 1);
        let s = run[i - 1].next->Ask_0;
        let r = run[i - 1].reply;
        let c = choose|c: Option<LLMServerView>| #[trigger]
            draw_fits(index_pool(s, r), c) && run[i].next == index_next(s, r, c);
        match s.phase {
            IndexPhaseView::Clock => {
                if time_in(w) is Some {
                    lemma_begins(c, state.servers, w.load);
                }
            },
            IndexPhaseView::Searching { stamp, search } => {
                lemma_search_next_keeps(search, c, state.servers, w.load);
                let now = search_next(search, (w.load)(search.candidate.url), c);
                if let SearchView::Found(server) = now {
                    lemma_found_may_take(server, state.servers, w.load);
                }
            },
            _ => {},
        }
    }
}

/// The embedding of a text sent in is asked of the server that the search found: one that has room,
/// and such that all with a higher weight are where there is none.
pub proof fn texts_are_embedded_where_there_is_room<N>(
    w: World,
    run: Seq<IndexMoment<N>>,
    body: IndexRequestBodyView,
    state: StateView,
    id: u128,
    i: int,
)
    requires
        indexes(w, run, body, state, id),
        0 <= i < run.len(),
        run[i].next matches NextView::Ask(_, e) && e is PostEmbed,
    ensures
        run[i].next matches NextView::Ask(_, EffectView::PostEmbed { url, .. }) && exists|
            server: LLMServerView,
        | #[trigger]
            may_take(server, state.servers, w.load) && url == server.url + "embed"@,
{
    lemma_index_stands(w, run, body, state, id, i);
}

} // verus!
