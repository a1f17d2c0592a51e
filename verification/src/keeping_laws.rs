//! When all that waits is in order, what keeps it so, and what the requests that wait come to then.

use vstd::prelude::*;

use crate::keys::{
    begins_with, embed_key, hash_text, ids_are_no_keys, kinds_of_keys_are_apart,
    prefixes_tell_kinds,
};
use crate::llm_laws::{job_outcome, jobs_answer_and_touch_nothing_else, own_key, same_under};
use crate::outside::{uuid_text, uuid_value};
use crate::protocol::LlmJobView;
use crate::queue_laws::{
    is_round, is_told_by, rounds_take_turns, turn_ends, turns_of, waiting_requests_are_found,
    waiting_under, PopMoment, TurnEnd,
};
use crate::request::{prompt_key_in, queue_key_in};
use crate::request_laws::{made_to_wait, taken_by, RequestMoment};
use crate::round_laws::{
    all_well_queued, id_under, is_answered_from, lemma_before_its_turn, lemma_not_own,
    lemma_still_queued, lemma_turn_spares, queued_requests_are_answered, request_under, well_queued,
};
use crate::server::at_full_address;
use crate::state::{job_of, StateView};
use crate::types::{LLMServerView, RequestBodyView};
use crate::world::{reads_back, Store, World};

verus! {

/// Whether something waits under a key: it is there, and has the prefix of the waiting ones.
pub open spec fn waits(m: Store, key: Seq<char>) -> bool {
    m.contains_key(key) && begins_with(key, "queue-"@)
}

/// Whether all that waits is in order: every key with the prefix of the waiting ones leads to the
/// record of a request that waits under it, and no two requests that wait have the same id.
pub open spec fn well_kept(w: World, m: Store) -> bool {
    &&& forall|key: Seq<char>| #[trigger]
        waits(m, key) ==> well_queued(w, m, key) && m.contains_key(m[key])
    &&& forall|a: Seq<char>, b: Seq<char>|
        #[trigger] waits(m, a) && #[trigger] waits(m, b) && a != b ==> id_under(w, m, a)
            != id_under(w, m, b)
}

/// Whether keys are such as a search for the prefix of the waiting ones gives: each is there, and
/// is listed once.
pub open spec fn lists(m: Store, keys: Seq<Seq<char>>) -> bool {
    &&& keys.no_duplicates()
    &&& forall|i: int| 0 <= i < keys.len() ==> waits(m, #[trigger] keys[i])
}

/// Where nothing is kept, all that waits is in order.
pub proof fn nothing_is_well_kept(w: World)
    ensures
        well_kept(w, Map::empty()),
{
}

/// Where all that waits is in order, it is so for all worlds in which answers are read alike.
pub(crate) proof fn lemma_read_alike(w: World, v: World, m: Store)
    requires
        well_kept(w, m),
        v.decode == w.decode,
    ensures
        well_kept(v, m),
{
    assert forall|key: Seq<char>| #[trigger] waits(m, key) implies waiting_under(v, m, key)
        == waiting_under(w, m, key) by {}
}

/// What waits stays in order where nothing comes to wait and nothing changes of what goes on
/// waiting.
proof fn lemma_spared(w: World, m: Store, after: Store)
    requires
        well_kept(w, m),
        forall|key: Seq<char>| #[trigger]
            waits(after, key) ==> waits(m, key) && same_under(m, after, key) && same_under(
                m,
                after,
                m[key],
            ),
    ensures
        well_kept(w, after),
        forall|key: Seq<char>| #[trigger]
            waits(after, key) ==> waits(m, key) && id_under(w, after, key) == id_under(w, m, key),
{
    assert forall|key: Seq<char>| #[trigger] waits(after, key) implies well_queued(w, after, key)
        && after.contains_key(after[key]) && id_under(w, after, key) == id_under(w, m, key) by {
        assert(waits(m, key));
        lemma_still_queued(w, m, after, key);
    }
}

/// Where all that waits is in order, a list of its keys leads to well-formed records.
proof fn lemma_listed(w: World, m: Store, keys: Seq<Seq<char>>)
    requires
        well_kept(w, m),
        lists(m, keys),
    ensures
        all_well_queued(w, m, keys),
{
    assert forall|i: int, j: int| 0 <= i < keys.len() && 0 <= j < keys.len() && i != j implies
        id_under(w, m, #[trigger] keys[i]) != id_under(w, m, #[trigger] keys[j]) by {
        assert(waits(m, keys[i]) && waits(m, keys[j]));
        assert(keys[i] != keys[j]);
    }
}

/// A key with the prefix of the waiting ones is no id, no key of an answered prompt and none of an
/// embedding, and so is no key that a job writes under.
proof fn lemma_prefix_is_apart(key: Seq<char>, body: RequestBodyView, job: LlmJobView)
    requires
        begins_with(key, "queue-"@),
    ensures
        forall|id: u128| key != #[trigger] uuid_text(id),
        key != prompt_key_in(body),
        !own_key(job, key),
{
    let h = hash_text(body.prompt);
    prefixes_tell_kinds(h, body.model);
    assert forall|id: u128| key != #[trigger] uuid_text(id) by {
        ids_are_no_keys(id, h, body.model);
    }
    assert forall|g: Seq<char>| key != #[trigger] embed_key(g, job.embedding_model) by {
        prefixes_tell_kinds(g, job.embedding_model);
    }
}

/// A job leaves what waits in order, where no request that waits has its id.
pub proof fn jobs_keep_the_queue<N>(w: World, m: Store, job: LlmJobView, after: Store)
    requires
        well_kept(w, m),
        job_outcome::<N>(w, m, job, after),
        forall|key: Seq<char>| #[trigger] waits(m, key) ==> id_under(w, m, key) != job.id,
    ensures
        well_kept(w, after),
        forall|key: Seq<char>| #[trigger]
            waits(after, key) ==> waits(m, key) && id_under(w, after, key) == id_under(w, m, key),
{
    jobs_answer_and_touch_nothing_else::<N>(w, m, job, after);
    assert forall|key: Seq<char>| #[trigger] waits(after, key) implies waits(m, key) && same_under(
        m,
        after,
        key,
    ) && same_under(m, after, m[key]) by {
        lemma_prefix_is_apart(key, request_under(w, m, key), job);
        assert(same_under(m, after, key));
        assert(waits(m, key));
        lemma_not_own(job, request_under(w, m, key), id_under(w, m, key));
    }
    lemma_spared(w, m, after);
}

/// A turn leaves what waits in order: nothing comes to wait by it.
pub proof fn turns_keep_the_queue<N>(
    w: World,
    state: StateView,
    stamp: Seq<char>,
    key: Seq<char>,
    m: Store,
    after: Store,
    how: TurnEnd,
)
    requires
        well_kept(w, m),
        waits(m, key),
        turn_ends::<N>(w, state, stamp, key, m, after, how),
    ensures
        well_kept(w, after),
        forall|k: Seq<char>| #[trigger]
            waits(after, k) ==> waits(m, k) && id_under(w, after, k) == id_under(w, m, k),
{
    assert forall|k: Seq<char>| #[trigger] waits(after, k) implies waits(m, k) && same_under(
        m,
        after,
        k,
    ) && same_under(m, after, m[k]) by {
        if !(how is Waits) {
            let own = request_under(w, m, key);
            assert(k != key);
            if let TurnEnd::Served { server, ran } = how {
                let job = job_of(state, own, server, id_under(w, m, key), stamp);
                lemma_prefix_is_apart(k, own, job);
                jobs_answer_and_touch_nothing_else::<N>(w, m, job, ran);
                assert(same_under(m, ran, k));
            }
            assert(waits(m, k));
            lemma_turn_spares::<N>(
                w,
                state,
                stamp,
                key,
                m,
                after,
                how,
                request_under(w, m, k),
                id_under(w, m, k),
            );
        } else {
            assert(waits(m, k));
        }
    }
    lemma_spared(w, m, after);
}

/// A request with a new id that a server takes leaves what waits in order: nothing comes to wait
/// by it, and what waits has other ids.
pub proof fn taken_requests_keep_the_queue<N>(
    w: World,
    end: RequestMoment<N>,
    m: Store,
    body: RequestBodyView,
    id: u128,
    stamp: Seq<char>,
    server: LLMServerView,
)
    requires
        well_kept(w, m),
        taken_by(w, end, m, body, id, stamp, server),
        !m.contains_key(uuid_text(id)),
    ensures
        well_kept(w, end.store),
        forall|key: Seq<char>| #[trigger]
            waits(end.store, key) ==> waits(m, key) && id_under(w, end.store, key) == id_under(
                w,
                m,
                key,
            ) && id_under(w, end.store, key) != id,
{
    let after = end.store;
    let h = hash_text(body.prompt);
    assert forall|key: Seq<char>| #[trigger] waits(after, key) implies waits(m, key) && same_under(
        m,
        after,
        key,
    ) && same_under(m, after, m[key]) && id_under(w, m, key) != id by {
        prefixes_tell_kinds(h, body.model);
        ids_are_no_keys(id, h, body.model);
        assert(waits(m, key));
        ids_are_no_keys(id_under(w, m, key), h, body.model);
    }
    lemma_spared(w, m, after);
}

/// A request with a new id that is made to wait leaves what waits in order: nothing but this
/// request comes to wait by it, under the key of its prompt and with its id.
pub proof fn waiting_requests_keep_the_queue<N>(
    w: World,
    end: RequestMoment<N>,
    m: Store,
    body: RequestBodyView,
    id: u128,
    stamp: Seq<char>,
)
    requires
        well_kept(w, m),
        made_to_wait(w, end, m, body, id, stamp),
        !m.contains_key(uuid_text(id)),
        reads_back(w),
        uuid_value(uuid_text(id)) == Some(id),
    ensures
        well_kept(w, end.store),
        waits(end.store, queue_key_in(body)),
        forall|key: Seq<char>| #[trigger]
            waits(end.store, key) ==> {
                ||| waits(m, key) && id_under(w, end.store, key) == id_under(w, m, key)
                ||| key == queue_key_in(body) && id_under(w, end.store, key) == id
            },
{
    let after = end.store;
    let k = queue_key_in(body);
    let h = hash_text(body.prompt);
    prefixes_tell_kinds(h, body.model);
    ids_are_no_keys(id, h, body.model);
    if waits(m, k) {
        ids_are_no_keys(id_under(w, m, k), h, body.model);
        assert(m[k].len() > 0);
    } else {
        waiting_requests_are_found(w, end, m, body, id, stamp);
        assert(well_queued(w, after, k));
        assert(id_under(w, after, k) == id);
        assert forall|key: Seq<char>| #[trigger] waits(after, key) && key != k implies waits(m, key)
            && well_queued(w, after, key) && after.contains_key(after[key]) && id_under(
            w,
            after,
            key,
        ) == id_under(w, m, key) && id_under(w, after, key) != id by {
            assert(waits(m, key));
            ids_are_no_keys(id_under(w, m, key), h, body.model);
            assert(same_under(m, after, key));
            assert(same_under(m, after, m[key]));
            lemma_still_queued(w, m, after, key);
        }
    }
}

proof fn lemma_turns_keep<N>(
    w: World,
    m: Store,
    state: StateView,
    stamp: Seq<char>,
    keys: Seq<Seq<char>>,
    stores: Seq<Store>,
    ends: Seq<TurnEnd>,
    i: int,
)
    requires
        well_kept(w, m),
        lists(m, keys),
        turns_of::<N>(w, state, stamp, keys, stores, ends),
        stores[0] == m,
        0 <= i <= ends.len(),
    ensures
        well_kept(w, stores[i]),
        forall|k: Seq<char>| #[trigger] waits(stores[i], k) ==> waits(m, k),
    decreases i,
{
    if i > 0 {
        lemma_turns_keep::<N>(w, m, state, stamp, keys, stores, ends, i - 1);
        lemma_listed(w, m, keys);
        lemma_before_its_turn::<N>(w, m, state, stamp, keys, stores, ends, i - 1, i - 1);
        assert(waits(m, keys[i - 1]));
        assert(waits(stores[i - 1], keys[i - 1]));
        assert(turn_ends::<N>(
            w,
            state,
            stamp,
            keys[i - 1],
            stores[i - 1],
            stores[i - 1 + 1],
            ends[i - 1],
        ));
        turns_keep_the_queue::<N>(
            w,
            state,
            stamp,
            keys[i - 1],
            stores[i - 1],
            stores[i],
            ends[i - 1],
        );
    }
}

/// A round over keys of what waits leaves what waits in order: nothing comes to wait by it.
pub proof fn rounds_keep_the_queue<N>(
    w: World,
    run: Seq<PopMoment<N>>,
    m: Store,
    state: StateView,
    stamp: Seq<char>,
    keys: Seq<Seq<char>>,
)
    requires
        well_kept(w, m),
        lists(m, keys),
        is_round(w, run, m, state, stamp, keys),
    ensures
        well_kept(w, run.last().store),
        forall|k: Seq<char>| #[trigger] waits(run.last().store, k) ==> waits(m, k),
{
    rounds_take_turns(w, run, m, state, stamp, keys);
    let (stores, ends) = choose|stores: Seq<Store>, ends: Seq<TurnEnd>| #[trigger]
        is_told_by(w, run, m, state, stamp, keys, stores, ends);
    lemma_turns_keep::<N>(w, m, state, stamp, keys, stores, ends, ends.len() as int);
}

/// What waits under a key while its prompt is neither answered nor running is answered by a round
/// in which a server has room.
///
/// All that waits is in order, as it is at every moment of a history; the keys of the round are
/// such as a search for what waits gives; answers are read as they were written; and some server
/// shares its address with no full one.
pub proof fn what_waits_is_answered<N>(
    w: World,
    run: Seq<PopMoment<N>>,
    m: Store,
    state: StateView,
    stamp: Seq<char>,
    keys: Seq<Seq<char>>,
    key: Seq<char>,
    free: LLMServerView,
)
    requires
        well_kept(w, m),
        lists(m, keys),
        is_round(w, run, m, state, stamp, keys),
        keys.contains(key),
        !m.contains_key(prompt_key_in(request_under(w, m, key))),
        reads_back(w),
        state.servers.contains(free),
        !at_full_address(free, state.servers, w.load),
    ensures
        run.last().next is Finish,
        exists|server: LLMServerView, response: Seq<char>, ms: Option<u128>| #[trigger]
            is_answered_from(
                w,
                run.last().store,
                state,
                stamp,
                request_under(w, m, key),
                id_under(w, m, key),
                server,
                response,
                ms,
            ),
{
    lemma_listed(w, m, keys);
    queued_requests_are_answered(w, run, m, state, stamp, keys, key, free);
}

/// A request that was made to wait is answered by the next round in which a server has room: its
/// finished answer then stands under the id that the client was told.
///
/// `end` is how the request was made to wait, in a world with other loads and another time. All
/// that waited before was in order, and the id was new and can be read back from its text.
pub proof fn waiting_requests_are_answered<N>(
    w: World,
    end: RequestMoment<N>,
    m: Store,
    body: RequestBodyView,
    id: u128,
    stamp: Seq<char>,
    later: World,
    run: Seq<PopMoment<N>>,
    state: StateView,
    stamp2: Seq<char>,
    keys: Seq<Seq<char>>,
    free: LLMServerView,
)
    requires
        well_kept(w, m),
        made_to_wait(w, end, m, body, id, stamp),
        !m.contains_key(uuid_text(id)),
        uuid_value(uuid_text(id)) == Some(id),
        !m.contains_key(queue_key_in(body)),
        !m.contains_key(prompt_key_in(body)),
        later.encode == w.encode,
        later.decode == w.decode,
        reads_back(w),
        is_round(later, run, end.store, state, stamp2, keys),
        lists(end.store, keys),
        keys.contains(queue_key_in(body)),
        state.servers.contains(free),
        !at_full_address(free, state.servers, later.load),
    ensures
        run.last().next is Finish,
        exists|server: LLMServerView, response: Seq<char>, ms: Option<u128>| #[trigger]
            is_answered_from(
                later,
                run.last().store,
                state,
                stamp2,
                body,
                id,
                server,
                response,
                ms,
            ),
{
    let key = queue_key_in(body);
    let h = hash_text(body.prompt);
    ids_are_no_keys(id, h, body.model);
    kinds_of_keys_are_apart(h, body.model, h, body.model);
    waiting_requests_are_found(w, end, m, body, id, stamp);
    waiting_requests_keep_the_queue(w, end, m, body, id, stamp);
    lemma_read_alike(w, later, end.store);
    assert(waiting_under(later, end.store, key) == Some((body, Some(uuid_text(id)))));
    what_waits_is_answered(later, run, end.store, state, stamp2, keys, key, free);
}

} // verus!
