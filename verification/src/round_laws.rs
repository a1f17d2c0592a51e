//! What a whole round of the waiting requests leaves behind: who still waits, and what those who
//! do not are answered.

use vstd::prelude::*;

use crate::clock::stamp_text;
use crate::keys::{
    embed_key, hash_text, ids_are_no_keys, ids_have_their_own_texts, kinds_of_keys_are_apart,
    queue_keys_pair_with_prompt_keys,
};
use crate::llm::finished_answer;
use crate::llm_laws::{jobs_answer_and_touch_nothing_else, job_outcome, own_key, same_under};
use crate::outside::uuid_text;
use crate::protocol::{json_reply, HttpReplyView, LlmJobView, NextView};
use crate::queue::{id_in, pop_start, queue_pattern};
use crate::queue_laws::{
    all_that_wait_are_served, goes_to_end, is_round, is_told_by, rounds_take_turns,
    turn_ends, turns_of, waiting_under, PopMoment, TurnEnd,
};
use crate::request::{get_reply, prompt_key_in, queue_key_in, RequestView};
use crate::request_laws::{kept_answers_are_served, serves, taken_by, RequestMoment};
use crate::scan::{all_keys, Page};
use crate::server::at_full_address;
use crate::state::{job_of, StateView};
use crate::types::{ApiResponseView, LLMServerView, RequestBodyView};
use crate::world::{can_be_written, kept_under, pages_from, reads_back, Store, World};

verus! {

/// The request that waits under a key.
pub open spec fn request_under(w: World, m: Store, key: Seq<char>) -> RequestBodyView {
    (waiting_under(w, m, key)->Some_0).0
}

/// The id of the request that waits under a key.
pub open spec fn id_under(w: World, m: Store, key: Seq<char>) -> u128 {
    id_in((waiting_under(w, m, key)->Some_0).1)->0
}

/// Whether a key leads to the record of a request that waits under it, with an id, and the record
/// stands under that id.
pub open spec fn well_queued(w: World, m: Store, key: Seq<char>) -> bool {
    &&& m.contains_key(key)
    &&& waiting_under(w, m, key) is Some
    &&& id_in((waiting_under(w, m, key)->Some_0).1) is Some
    &&& key == queue_key_in(request_under(w, m, key))
    &&& m[key] == uuid_text(id_under(w, m, key))
}

/// Whether keys are listed once each, lead to well-formed records, and their requests have ids of
/// their own.
pub open spec fn all_well_queued(w: World, m: Store, keys: Seq<Seq<char>>) -> bool {
    &&& keys.no_duplicates()
    &&& forall|i: int| 0 <= i < keys.len() ==> well_queued(w, m, #[trigger] keys[i])
    &&& forall|i: int, j: int|
        0 <= i < keys.len() && 0 <= j < keys.len() && i != j ==> id_under(w, m, #[trigger] keys[i])
            != id_under(w, m, #[trigger] keys[j])
}

/// A job writes under no key of a waiting or an answered prompt.
pub(crate) proof fn lemma_keys_not_own(job: LlmJobView, body: RequestBodyView)
    ensures
        !own_key(job, queue_key_in(body)),
        !own_key(job, prompt_key_in(body)),
{
    let h = hash_text(body.prompt);
    ids_are_no_keys(job.id, h, body.model);
    assert forall|g: Seq<char>| #[trigger] embed_key(g, job.embedding_model) != queue_key_in(body)
        && embed_key(g, job.embedding_model) != prompt_key_in(body) by {
        kinds_of_keys_are_apart(h, body.model, g, job.embedding_model);
    }
}

/// A job writes under no key of a waiting or an answered prompt, and under no id but its own.
pub(crate) proof fn lemma_not_own(job: LlmJobView, body: RequestBodyView, id: u128)
    requires
        id != job.id,
    ensures
        !own_key(job, queue_key_in(body)),
        !own_key(job, prompt_key_in(body)),
        !own_key(job, uuid_text(id)),
{
    lemma_keys_not_own(job, body);
    if uuid_text(id) == uuid_text(job.id) {
        ids_have_their_own_texts(id, job.id);
    }
    assert forall|g: Seq<char>| #[trigger] embed_key(g, job.embedding_model) != uuid_text(id) by {
        ids_are_no_keys(id, g, job.embedding_model);
    }
}

/// The turn of a key changes nothing of what is kept for another request: the key under which it
/// waits, the key of its prompt, and its id.
#[verifier::rlimit(50)]
pub(crate) proof fn lemma_turn_spares<N>(
    w: World,
    state: StateView,
    stamp: Seq<char>,
    key: Seq<char>,
    m: Store,
    after: Store,
    how: TurnEnd,
    body: RequestBodyView,
    id: u128,
)
    requires
        turn_ends::<N>(w, state, stamp, key, m, after, how),
        well_queued(w, m, key),
        key != queue_key_in(body),
        id != id_under(w, m, key),
    ensures
        same_under(m, after, queue_key_in(body)),
        same_under(m, after, prompt_key_in(body)),
        same_under(m, after, uuid_text(id)),
{
    let own = request_under(w, m, key);
    let h = hash_text(body.prompt);
    let g = hash_text(own.prompt);
    kinds_of_keys_are_apart(h, body.model, g, own.model);
    kinds_of_keys_are_apart(g, own.model, h, body.model);
    ids_are_no_keys(id, g, own.model);
    queue_keys_pair_with_prompt_keys(h, body.model, g, own.model);
    if let TurnEnd::Served { server, ran } = how {
        let job = job_of(state, own, server, id_under(w, m, key), stamp);
        lemma_not_own(job, body, id);
        jobs_answer_and_touch_nothing_else::<N>(w, m, job, ran);
        assert(same_under(m, ran, queue_key_in(body)));
        assert(same_under(m, ran, prompt_key_in(body)));
        assert(same_under(m, ran, uuid_text(id)));
    }
}

/// A key that leads to a well-formed record does so as long as nothing of it changes.
pub(crate) proof fn lemma_still_queued(w: World, m: Store, after: Store, key: Seq<char>)
    requires
        well_queued(w, m, key),
        same_under(m, after, key),
        same_under(m, after, uuid_text(id_under(w, m, key))),
    ensures
        well_queued(w, after, key),
        waiting_under(w, after, key) == waiting_under(w, m, key),
{
}

/// Before its turn nothing changes of what is kept for a request.
pub(crate) proof fn lemma_before_its_turn<N>(
    w: World,
    m: Store,
    state: StateView,
    stamp: Seq<char>,
    keys: Seq<Seq<char>>,
    stores: Seq<Store>,
    ends: Seq<TurnEnd>,
    i: int,
    j: int,
)
    requires
        turns_of::<N>(w, state, stamp, keys, stores, ends),
        stores[0] == m,
        all_well_queued(w, m, keys),
        0 <= i <= j < keys.len(),
        i < stores.len(),
    ensures
        well_queued(w, stores[i], keys[j]),
        waiting_under(w, stores[i], keys[j]) == waiting_under(w, m, keys[j]),
        same_under(m, stores[i], prompt_key_in(request_under(w, m, keys[j]))),
    decreases i,
{
    assert(well_queued(w, m, keys[j]));
    if i > 0 {
        lemma_before_its_turn::<N>(w, m, state, stamp, keys, stores, ends, i - 1, i - 1);
        lemma_before_its_turn::<N>(w, m, state, stamp, keys, stores, ends, i - 1, j);
        assert(turn_ends::<N>(
            w,
            state,
            stamp,
            keys[i - 1],
            stores[i - 1],
            stores[i - 1 + 1],
            ends[i - 1],
        ));
        assert(keys[i - 1] != keys[j]);
        assert(id_under(w, m, keys[i - 1]) != id_under(w, m, keys[j]));
        lemma_turn_spares::<N>(
            w,
            state,
            stamp,
            keys[i - 1],
            stores[i - 1],
            stores[i],
            ends[i - 1],
            request_under(w, m, keys[j]),
            id_under(w, m, keys[j]),
        );
        lemma_still_queued(w, stores[i - 1], stores[i], keys[j]);
    }
}

/// After its turn nothing changes of what is kept for a request.
proof fn lemma_after_its_turn<N>(
    w: World,
    m: Store,
    state: StateView,
    stamp: Seq<char>,
    keys: Seq<Seq<char>>,
    stores: Seq<Store>,
    ends: Seq<TurnEnd>,
    j: int,
    i: int,
)
    requires
        turns_of::<N>(w, state, stamp, keys, stores, ends),
        stores[0] == m,
        all_well_queued(w, m, keys),
        0 <= j < i < stores.len(),
    ensures
        same_under(stores[j + 1], stores[i], keys[j]),
        same_under(stores[j + 1], stores[i], prompt_key_in(request_under(w, m, keys[j]))),
        same_under(stores[j + 1], stores[i], uuid_text(id_under(w, m, keys[j]))),
    decreases i,
{
    assert(well_queued(w, m, keys[j]));
    if i > j + 1 {
        lemma_after_its_turn::<N>(w, m, state, stamp, keys, stores, ends, j, i - 1);
        lemma_before_its_turn::<N>(w, m, state, stamp, keys, stores, ends, i - 1, i - 1);
        assert(turn_ends::<N>(
            w,
            state,
            stamp,
            keys[i - 1],
            stores[i - 1],
            stores[i - 1 + 1],
            ends[i - 1],
        ));
        assert(keys[i - 1] != keys[j]);
        assert(id_under(w, m, keys[i - 1]) != id_under(w, m, keys[j]));
        lemma_turn_spares::<N>(
            w,
            state,
            stamp,
            keys[i - 1],
            stores[i - 1],
            stores[i],
            ends[i - 1],
            request_under(w, m, keys[j]),
            id_under(w, m, keys[j]),
        );
    }
}

/// A round over well-formed records comes to its end.
proof fn lemma_finishes<N>(
    w: World,
    run: Seq<PopMoment<N>>,
    m: Store,
    state: StateView,
    stamp: Seq<char>,
    keys: Seq<Seq<char>>,
    stores: Seq<Store>,
    ends: Seq<TurnEnd>,
)
    requires
        is_told_by(w, run, m, state, stamp, keys, stores, ends),
        all_well_queued(w, m, keys),
    ensures
        ends.len() == keys.len(),
        run.last().next is Finish,
{
    let n = ends.len() as int;
    if n < keys.len() {
        lemma_before_its_turn::<N>(w, m, state, stamp, keys, stores, ends, n, n);
    }
}

/// How it stands with the request under a key after a round: its turn found its record as it was
/// before the round; it was dropped exactly where its prompt was answered or running before; and
/// it still waits exactly where its turn found its prompt neither, and no server.
pub open spec fn is_settled(
    w: World,
    m: Store,
    key: Seq<char>,
    visited: Store,
    how: TurnEnd,
    last: Store,
) -> bool {
    &&& waiting_under(w, visited, key) == waiting_under(w, m, key)
    &&& how is Dropped <==> m.contains_key(prompt_key_in(request_under(w, m, key)))
    &&& last.contains_key(key) <==> how is Waits
}

/// Whether a round gave every key its turn, ran the jobs of the requests that were served and no
/// others, and settled every request.
pub open spec fn settles_all<N>(
    w: World,
    run: Seq<PopMoment<N>>,
    m: Store,
    state: StateView,
    stamp: Seq<char>,
    keys: Seq<Seq<char>>,
    stores: Seq<Store>,
    ends: Seq<TurnEnd>,
) -> bool {
    &&& is_told_by(w, run, m, state, stamp, keys, stores, ends)
    &&& run.last().next is Finish
    &&& ends.len() == keys.len()
    &&& forall|j: int|
        0 <= j < keys.len() ==> is_settled(
            w,
            m,
            #[trigger] keys[j],
            stores[j],
            ends[j],
            run.last().store,
        )
}

proof fn lemma_settles_all<N>(
    w: World,
    run: Seq<PopMoment<N>>,
    m: Store,
    state: StateView,
    stamp: Seq<char>,
    keys: Seq<Seq<char>>,
    stores: Seq<Store>,
    ends: Seq<TurnEnd>,
)
    requires
        is_told_by(w, run, m, state, stamp, keys, stores, ends),
        all_well_queued(w, m, keys),
    ensures
        settles_all(w, run, m, state, stamp, keys, stores, ends),
{
    lemma_finishes(w, run, m, state, stamp, keys, stores, ends);
    let n = keys.len() as int;
    assert forall|j: int| 0 <= j < keys.len() implies is_settled(
        w,
        m,
        #[trigger] keys[j],
        stores[j],
        ends[j],
        run.last().store,
    ) by {
        lemma_before_its_turn::<N>(w, m, state, stamp, keys, stores, ends, j, j);
        lemma_after_its_turn::<N>(w, m, state, stamp, keys, stores, ends, j, n);
        assert(turn_ends::<N>(w, state, stamp, keys[j], stores[j], stores[j + 1], ends[j]));
    }
}

/// A round over keys that are listed once each and lead to well-formed records comes to its end.
/// Every key gets its turn. A key stays exactly where its turn found the prompt neither answered
/// nor running, and no server; a job is run for it exactly where its turn found the prompt
/// neither answered nor running, and a server.
pub proof fn rounds_leave_those_without_room<N>(
    w: World,
    run: Seq<PopMoment<N>>,
    m: Store,
    state: StateView,
    stamp: Seq<char>,
    keys: Seq<Seq<char>>,
)
    requires
        is_round(w, run, m, state, stamp, keys),
        all_well_queued(w, m, keys),
    ensures
        exists|stores: Seq<Store>, ends: Seq<TurnEnd>| #[trigger]
            settles_all(w, run, m, state, stamp, keys, stores, ends),
{
    rounds_take_turns(w, run, m, state, stamp, keys);
    let (stores, ends) = choose|stores: Seq<Store>, ends: Seq<TurnEnd>| #[trigger]
        is_told_by(w, run, m, state, stamp, keys, stores, ends);
    lemma_settles_all(w, run, m, state, stamp, keys, stores, ends);
}

/// The same of the serving of the waiting requests from its start, where the keys that it collects
/// are listed once each and lead to well-formed records.
pub proof fn servings_leave_those_without_room<N>(
    w: World,
    run: Seq<PopMoment<N>>,
    m: Store,
    state: StateView,
    stamp: Seq<char>,
)
    requires
        goes_to_end(w, run),
        run[0] == (PopMoment { store: m, next: pop_start::<N>(state) }),
        stamp_text(w.seconds, w.nanos) == Some(stamp),
        forall|pages: Seq<Page>| #[trigger]
            pages_from(w, queue_pattern(), 0, pages) ==> all_well_queued(w, m, all_keys(pages)),
    ensures
        exists|pages: Seq<Page>, i: int, stores: Seq<Store>, ends: Seq<TurnEnd>|
            0 <= i < run.len() && #[trigger] pages_from(w, queue_pattern(), 0, pages)
                && #[trigger] settles_all(
                w,
                run.skip(i),
                m,
                state,
                stamp,
                all_keys(pages),
                stores,
                ends,
            ),
{
    all_that_wait_are_served(w, run, m, state, stamp);
    let (pages, i) = choose|pages: Seq<Page>, i: int|
        0 <= i < run.len() && #[trigger] pages_from(w, queue_pattern(), 0, pages) && is_round(
            w,
            #[trigger] run.skip(i),
            m,
            state,
            stamp,
            all_keys(pages),
        );
    rounds_leave_those_without_room(w, run.skip(i), m, state, stamp, all_keys(pages));
    let (stores, ends) = choose|stores: Seq<Store>, ends: Seq<TurnEnd>| #[trigger]
        settles_all(w, run.skip(i), m, state, stamp, all_keys(pages), stores, ends);
    assert(settles_all(w, run.skip(i), m, state, stamp, all_keys(pages), stores, ends));
}

/// Whether a request is answered: its finished answer, written out, stands under its id and its
/// id under its prompt, and it waits no longer.
pub open spec fn is_answered(
    w: World,
    m: Store,
    body: RequestBodyView,
    id: u128,
    answer: ApiResponseView,
) -> bool {
    &&& !m.contains_key(queue_key_in(body))
    &&& m.contains_key(prompt_key_in(body))
    &&& m[prompt_key_in(body)] == uuid_text(id)
    &&& m.contains_key(uuid_text(id))
    &&& m[uuid_text(id)] == (w.encode)(answer)
}

/// Whether a request is answered with what one of the servers gave: the answer is done, carries the
/// id and the request just as it was sent, and can be read.
pub open spec fn is_answered_from(
    w: World,
    m: Store,
    state: StateView,
    stamp: Seq<char>,
    body: RequestBodyView,
    id: u128,
    server: LLMServerView,
    response: Seq<char>,
    ms: Option<u128>,
) -> bool {
    let answer = finished_answer(job_of(state, body, server, id, stamp), response, ms);
    &&& state.servers.contains(server)
    &&& is_answered(w, m, body, id, answer)
    &&& answer.key == Some(uuid_text(id))
    &&& answer.done
    &&& answer.original_api_request == Some(body)
    &&& can_be_written(answer) ==> (w.decode)(m[uuid_text(id)]) == Ok::<_, Seq<char>>(answer)
}

/// A turn that serves a request leaves it answered.
pub proof fn served_requests_are_answered<N>(
    w: World,
    state: StateView,
    stamp: Seq<char>,
    key: Seq<char>,
    m: Store,
    after: Store,
    how: TurnEnd,
)
    requires
        turn_ends::<N>(w, state, stamp, key, m, after, how),
        well_queued(w, m, key),
        how is Served,
    ensures
        exists|response: Seq<char>, ms: Option<u128>|
            is_answered(
                w,
                after,
                request_under(w, m, key),
                id_under(w, m, key),
                #[trigger] finished_answer(
                    job_of(
                        state,
                        request_under(w, m, key),
                        how->server,
                        id_under(w, m, key),
                        stamp,
                    ),
                    response,
                    ms,
                ),
            ),
{
    let body = request_under(w, m, key);
    let id = id_under(w, m, key);
    let job = job_of(state, body, how->server, id, stamp);
    let h = hash_text(body.prompt);
    jobs_answer_and_touch_nothing_else::<N>(w, m, job, how->ran);
    ids_are_no_keys(id, h, body.model);
    kinds_of_keys_are_apart(h, body.model, h, body.model);
    let (response, ms) = choose|response: Seq<char>, ms: Option<u128>|
        how->ran[uuid_text(id)] == (w.encode)(#[trigger] finished_answer(job, response, ms));
    assert(is_answered(w, after, body, id, finished_answer(job, response, ms)));
}

/// An answered request is answered from what is kept: a client that asks for the id, and one that
/// sends the prompt to the model again, both get the finished answer as it was written out.
pub proof fn answers_are_given_to_all<N>(
    w: World,
    m: Store,
    body: RequestBodyView,
    id: u128,
    answer: ApiResponseView,
    w2: World,
    run2: Seq<RequestMoment<N>>,
    body2: RequestBodyView,
    state2: StateView,
    id2: u128,
)
    requires
        is_answered(w, m, body, id, answer),
        body2.prompt == body.prompt,
        body2.model == body.model,
        serves(w2, run2, m, body2, state2, id2),
    ensures
        get_reply(kept_under(m, uuid_text(id))) == json_reply(200, (w.encode)(answer)),
        run2.last().store == m,
        run2.last().next == NextView::<RequestView, N, HttpReplyView>::Finish(
            json_reply(200, (w.encode)(answer)),
        ),
{
    kept_answers_are_served(w2, run2, m, body2, state2, id2);
}

/// A request that a server takes is answered once its job has ended: the finished answer stands
/// under the id that the client was told.
///
/// The job is started before the request writes the pending answer and the key of its prompt, and
/// runs beside it. Here it is taken to write only after these writes; one that is done before them
/// has its answer overwritten by the pending one.
pub proof fn taken_requests_are_answered<N>(
    w: World,
    end: RequestMoment<N>,
    m: Store,
    body: RequestBodyView,
    id: u128,
    stamp: Seq<char>,
    server: LLMServerView,
    state: StateView,
    after: Store,
)
    requires
        taken_by(w, end, m, body, id, stamp, server),
        !m.contains_key(queue_key_in(body)),
        job_outcome::<N>(w, end.store, job_of(state, body, server, id, stamp), after),
    ensures
        exists|response: Seq<char>, ms: Option<u128>|
            is_answered(
                w,
                after,
                body,
                id,
                #[trigger] finished_answer(
                    job_of(state, body, server, id, stamp),
                    response,
                    ms,
                ),
            ),
{
    let job = job_of(state, body, server, id, stamp);
    let h = hash_text(body.prompt);
    ids_are_no_keys(id, h, body.model);
    kinds_of_keys_are_apart(h, body.model, h, body.model);
    lemma_keys_not_own(job, body);
    jobs_answer_and_touch_nothing_else::<N>(w, end.store, job, after);
    assert(same_under(end.store, after, queue_key_in(body)));
    assert(same_under(end.store, after, prompt_key_in(body)));
    let (response, ms) = choose|response: Seq<char>, ms: Option<u128>|
        after[uuid_text(id)] == (w.encode)(#[trigger] finished_answer(job, response, ms));
    assert(is_answered(w, after, body, id, finished_answer(job, response, ms)));
}

/// A request whose prompt is neither answered nor running when a round comes to it is answered by
/// a round in which a server has room: its finished answer, done and with the request just as it
/// was sent, then stands under its id, and can be read where answers are read as they were written.
///
/// Every key of the round leads to a well-formed record, and some server shares its address with
/// no full one.
#[verifier::rlimit(50)]
pub proof fn queued_requests_are_answered<N>(
    w: World,
    run: Seq<PopMoment<N>>,
    m: Store,
    state: StateView,
    stamp: Seq<char>,
    keys: Seq<Seq<char>>,
    key: Seq<char>,
    free: LLMServerView,
)
    requires
        is_round(w, run, m, state, stamp, keys),
        all_well_queued(w, m, keys),
        keys.contains(key),
        !m.contains_key(prompt_key_in(request_under(w, m, key))),
        reads_back(w),
        state.servers.contains(free),
        !at_full_address(free, state.servers, w.load),
    ensures
        run.last().next is Finish,
        exists|server: LLMServerView, response: Seq<char>, ms: Option<u128>| #[trigger]
            is_answered_from(
                w,
                run.last().store,
                state,
                stamp,
                request_under(w, m, key),
                id_under(w, m, key),
                server,
                response,
                ms,
            ),
{
    let body = request_under(w, m, key);
    let id = id_under(w, m, key);
    rounds_leave_those_without_room(w, run, m, state, stamp, keys);
    let (stores, ends) = choose|stores: Seq<Store>, ends: Seq<TurnEnd>| #[trigger]
        settles_all(w, run, m, state, stamp, keys, stores, ends);
    let j = keys.index_of(key);
    let n = keys.len() as int;
    assert(well_queued(w, m, keys[j]));
    assert(is_settled(w, m, keys[j], stores[j], ends[j], run.last().store));
    lemma_before_its_turn::<N>(w, m, state, stamp, keys, stores, ends, j, j);
    lemma_after_its_turn::<N>(w, m, state, stamp, keys, stores, ends, j, n);
    assert(turn_ends::<N>(w, state, stamp, keys[j], stores[j], stores[j + 1], ends[j]));
    assert(ends[j] is Served);
    served_requests_are_answered::<N>(
        w,
        state,
        stamp,
        keys[j],
        stores[j],
        stores[j + 1],
        ends[j],
    );
    let server = ends[j]->server;
    let job = job_of(state, body, server, id, stamp);
    let (response, ms) = choose|response: Seq<char>, ms: Option<u128>|
        is_answered(w, stores[j + 1], body, id, #[trigger] finished_answer(job, response, ms));
    let answer = finished_answer(job, response, ms);
    assert(is_answered(w, run.last().store, body, id, answer));
    if can_be_written(answer) {
        assert((w.decode)((w.encode)(answer)) == Ok::<_, Seq<char>>(answer));
    }
    assert(is_answered_from(w, run.last().store, state, stamp, body, id, server, response, ms));
}

} // verus!
