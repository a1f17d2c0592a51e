//! The gateway from its first request on: whatever happens, and in whatever order, what waits stays
//! in order, no running job gets in the way of a request that waits, and every prompt that is
//! answered or running leads to a record.

use vstd::prelude::*;

use crate::clock::stamp_text;
use crate::keeping_laws::{
    jobs_keep_the_queue, lemma_read_alike, lists, taken_requests_keep_the_queue,
    turns_keep_the_queue, waiting_requests_keep_the_queue, waits, well_kept,
    what_waits_is_answered,
};
use crate::keys::{begins_with, embed_key, hash_text, ids_are_no_keys, prefixes_tell_kinds};
use crate::llm_laws::{job_outcome, jobs_answer_and_touch_nothing_else, own_key, same_under};
use crate::outside::{uuid_text, uuid_value};
use crate::protocol::LlmJobView;
use crate::queue_laws::{is_round, turn_ends, PopMoment, TurnEnd};
use crate::request::prompt_key_in;
use crate::request_laws::{
    jobs_started, kept_answers_are_served, made_to_wait, requests_are_taken_or_wait, serves,
    taken_by, RequestMoment,
};
use crate::round_laws::{id_under, is_answered_from, request_under};
use crate::server::at_full_address;
use crate::state::{job_of, StateView};
use crate::types::{LLMServerView, RequestBodyView};
use crate::world::{reads_back, Store, World};

verus! {

/// What there is at some moment: what the key store holds, and the jobs that were started for
/// requests that a server took.
pub struct Standing {
    pub store: Store,
    pub jobs: Set<LlmJobView>,
}

/// Something that happens, in a world with loads and a time of its own.
pub enum Happening<N> {
    /// A request is served from its start to its end.
    Request {
        world: World,
        run: Seq<RequestMoment<N>>,
        body: RequestBodyView,
        state: StateView,
        id: u128,
        stamp: Seq<char>,
    },
    /// A job that was started comes to its end.
    Job { world: World, job: LlmJobView },
    /// A request that waits has its turn.
    Turn { world: World, state: StateView, stamp: Seq<char>, key: Seq<char>, how: TurnEnd },
}

/// Whether `b` is what `e` makes of `a`. A request gets an id that no record has, and which can be
/// read back from its text. What happens is taken to be over before the next thing begins.
pub open spec fn happens<N>(w: World, a: Standing, b: Standing, e: Happening<N>) -> bool {
    match e {
        Happening::Request { world, run, body, state, id, stamp } => {
            &&& is_read_as(w, world)
            &&& stamp_text(world.seconds, world.nanos) == Some(stamp)
            &&& serves(world, run, a.store, body, state, id)
            &&& !a.store.contains_key(uuid_text(id))
            &&& uuid_value(uuid_text(id)) == Some(id)
            &&& b.store == run.last().store
            &&& b.jobs == a.jobs.union(jobs_started(run, run.len() - 1).to_set())
        },
        Happening::Job { world, job } => {
            &&& is_read_as(w, world)
            &&& a.jobs.contains(job)
            &&& job_outcome::<N>(world, a.store, job, b.store)
            &&& b.jobs == a.jobs
        },
        Happening::Turn { world, state, stamp, key, how } => {
            &&& is_read_as(w, world)
            &&& waits(a.store, key)
            &&& turn_ends::<N>(world, state, stamp, key, a.store, b.store, how)
            &&& b.jobs == a.jobs
        },
    }
}

/// Whether answers are written and read alike in two worlds.
pub open spec fn is_read_as(w: World, v: World) -> bool {
    v.encode == w.encode && v.decode == w.decode
}

/// Whether `standings` is what `events` make, one after the other, of a gateway that keeps nothing
/// yet and has started no job.
pub open spec fn is_history<N>(
    w: World,
    standings: Seq<Standing>,
    events: Seq<Happening<N>>,
) -> bool {
    &&& standings.len() == events.len() + 1
    &&& standings[0] == (Standing { store: Map::empty(), jobs: Set::empty() })
    &&& forall|i: int|
        0 <= i < events.len() ==> happens(w, standings[i], standings[i + 1], #[trigger] events[i])
}

/// Whether a key is that of a prompt that is answered or running.
pub open spec fn is_prompt(m: Store, key: Seq<char>) -> bool {
    m.contains_key(key) && begins_with(key, "prompt-"@)
}

/// Whether an id stands under a key, and a record under that id.
pub open spec fn leads_to_record(m: Store, key: Seq<char>) -> bool {
    m.contains_key(m[key]) && exists|id: u128| m[key] == #[trigger] uuid_text(id)
}

/// Whether everything is in order: all that waits is, a job that was started has a record and an
/// id that no request waits with, and every prompt that is answered or running leads to a record.
pub open spec fn in_order(w: World, a: Standing) -> bool {
    &&& well_kept(w, a.store)
    &&& forall|job: LlmJobView| #[trigger]
        a.jobs.contains(job) ==> a.store.contains_key(uuid_text(job.id))
    &&& forall|job: LlmJobView, key: Seq<char>| #[trigger]
        a.jobs.contains(job) && #[trigger] waits(a.store, key) ==> id_under(w, a.store, key)
            != job.id
    &&& forall|key: Seq<char>| #[trigger] is_prompt(a.store, key) ==> leads_to_record(a.store, key)
}

/// Ids and prompts that are kept stay so through a job, and no prompt is added by one.
proof fn lemma_job_keeps_records<N>(w: World, m: Store, job: LlmJobView, after: Store)
    requires
        job_outcome::<N>(w, m, job, after),
    ensures
        after.contains_key(uuid_text(job.id)),
        forall|id: u128|
            m.contains_key(#[trigger] uuid_text(id)) ==> after.contains_key(uuid_text(id)),
        forall|key: Seq<char>| begins_with(key, "prompt-"@) ==> #[trigger] same_under(m, after, key),
{
    jobs_answer_and_touch_nothing_else::<N>(w, m, job, after);
    assert forall|id: u128| m.contains_key(#[trigger] uuid_text(id)) implies after.contains_key(
        uuid_text(id),
    ) by {
        if uuid_text(id) != uuid_text(job.id) {
            assert forall|g: Seq<char>| uuid_text(id) != #[trigger] embed_key(
                g,
                job.embedding_model,
            ) by {
                ids_are_no_keys(id, g, job.embedding_model);
            }
            assert(same_under(m, after, uuid_text(id)));
        }
    }
    assert forall|key: Seq<char>| begins_with(key, "prompt-"@) implies #[trigger] same_under(
        m,
        after,
        key,
    ) by {
        ids_are_no_keys(job.id, key, key);
        assert forall|g: Seq<char>| key != #[trigger] embed_key(g, job.embedding_model) by {
            prefixes_tell_kinds(g, job.embedding_model);
        }
        assert(!own_key(job, key));
    }
}

/// Every prompt still leads to a record, where what leads to one before still does, and what is
/// added does as well.
proof fn lemma_prompts_lead(m: Store, after: Store)
    requires
        forall|key: Seq<char>| #[trigger] is_prompt(m, key) ==> leads_to_record(m, key),
        forall|id: u128|
            m.contains_key(#[trigger] uuid_text(id)) ==> after.contains_key(uuid_text(id)),
        forall|key: Seq<char>| #[trigger]
            is_prompt(after, key) ==> leads_to_record(after, key) || (m.contains_key(key)
                && after[key] == m[key]),
    ensures
        forall|key: Seq<char>| #[trigger] is_prompt(after, key) ==> leads_to_record(after, key),
{
    assert forall|key: Seq<char>| #[trigger] is_prompt(after, key) implies leads_to_record(
        after,
        key,
    ) by {
        if !leads_to_record(after, key) {
            assert(is_prompt(m, key));
        }
    }
}

/// A job that was started leaves everything in order.
proof fn lemma_after_job<N>(w: World, a: Standing, b: Standing, e: Happening<N>)
    requires
        in_order(w, a),
        happens(w, a, b, e),
        e is Job,
    ensures
        in_order(w, b),
{
    if let Happening::Job { world, job } = e {
        lemma_read_alike(w, world, a.store);
        jobs_keep_the_queue::<N>(world, a.store, job, b.store);
        lemma_read_alike(world, w, b.store);
        lemma_job_keeps_records::<N>(world, a.store, job, b.store);
        assert forall|key: Seq<char>| #[trigger] is_prompt(b.store, key) implies a.store.contains_key(
            key,
        ) && b.store[key] == a.store[key] by {
            assert(same_under(a.store, b.store, key));
        }
        lemma_prompts_lead(a.store, b.store);
        assert forall|j: LlmJobView| #[trigger] b.jobs.contains(j) implies b.store.contains_key(
            uuid_text(j.id),
        ) by {
            assert(a.jobs.contains(j));
        }
    }
}

/// The turn of a request that waits leaves everything in order.
#[verifier::rlimit(50)]
proof fn lemma_after_turn<N>(w: World, a: Standing, b: Standing, e: Happening<N>)
    requires
        in_order(w, a),
        happens(w, a, b, e),
        e is Turn,
    ensures
        in_order(w, b),
{
    if let Happening::Turn { world, state, stamp, key, how } = e {
        lemma_read_alike(w, world, a.store);
        turns_keep_the_queue::<N>(world, state, stamp, key, a.store, b.store, how);
        lemma_read_alike(world, w, b.store);
        let own = request_under(world, a.store, key);
        let id = id_under(world, a.store, key);
        if let TurnEnd::Served { server, ran } = how {
            let job = job_of(state, own, server, id, stamp);
            lemma_job_keeps_records::<N>(world, a.store, job, ran);
            assert(b.store == ran.insert(prompt_key_in(own), uuid_text(id)).remove(key));
            assert forall|k: Seq<char>| #[trigger] is_prompt(b.store, k) implies leads_to_record(
                b.store,
                k,
            ) || (a.store.contains_key(k) && b.store[k] == a.store[k]) by {
                ids_are_no_keys(id, hash_text(own.prompt), own.model);
                if k == prompt_key_in(own) {
                    assert(b.store[k] == uuid_text(id));
                } else {
                    assert(same_under(a.store, ran, k));
                }
            }
        }
        assert forall|i: u128| a.store.contains_key(#[trigger] uuid_text(i)) implies
            b.store.contains_key(uuid_text(i)) by {
            ids_are_no_keys(i, hash_text(own.prompt), own.model);
        }
        lemma_prompts_lead(a.store, b.store);
        assert forall|j: LlmJobView| #[trigger] b.jobs.contains(j) implies b.store.contains_key(
            uuid_text(j.id),
        ) by {
            assert(a.jobs.contains(j));
        }
    }
}

/// A request that a server took, and whose job was started, leaves everything in order.
#[verifier::rlimit(50)]
proof fn lemma_after_taken<N>(
    w: World,
    world: World,
    a: Standing,
    b: Standing,
    end: RequestMoment<N>,
    body: RequestBodyView,
    state: StateView,
    id: u128,
    stamp: Seq<char>,
    server: LLMServerView,
)
    requires
        in_order(w, a),
        is_read_as(w, world),
        taken_by(world, end, a.store, body, id, stamp, server),
        !a.store.contains_key(uuid_text(id)),
        b.store == end.store,
        b.jobs == a.jobs.insert(job_of(state, body, server, id, stamp)),
    ensures
        in_order(w, b),
{
    let h = hash_text(body.prompt);
    lemma_read_alike(w, world, a.store);
    taken_requests_keep_the_queue(world, end, a.store, body, id, stamp, server);
    lemma_read_alike(world, w, b.store);
    assert forall|key: Seq<char>| #[trigger] is_prompt(b.store, key) implies leads_to_record(
        b.store,
        key,
    ) || (a.store.contains_key(key) && b.store[key] == a.store[key]) by {
        ids_are_no_keys(id, h, body.model);
        if key == prompt_key_in(body) {
            assert(b.store[key] == uuid_text(id));
        }
    }
    lemma_prompts_lead(a.store, b.store);
    assert forall|j: LlmJobView| #[trigger] b.jobs.contains(j) implies b.store.contains_key(
        uuid_text(j.id),
    ) by {
        assert(a.jobs.contains(j) || j.id == id);
    }
    assert forall|j: LlmJobView, key: Seq<char>| #[trigger]
        b.jobs.contains(j) && #[trigger] waits(b.store, key) implies id_under(w, b.store, key)
        != j.id by {
        assert(a.jobs.contains(j) || j.id == id);
        assert(waits(a.store, key));
    }
}

/// A request that was made to wait leaves everything in order.
#[verifier::rlimit(50)]
proof fn lemma_after_waiting<N>(
    w: World,
    world: World,
    a: Standing,
    b: Standing,
    end: RequestMoment<N>,
    body: RequestBodyView,
    id: u128,
    stamp: Seq<char>,
)
    requires
        in_order(w, a),
        is_read_as(w, world),
        reads_back(w),
        made_to_wait(world, end, a.store, body, id, stamp),
        !a.store.contains_key(uuid_text(id)),
        uuid_value(uuid_text(id)) == Some(id),
        b.store == end.store,
        b.jobs == a.jobs,
    ensures
        in_order(w, b),
{
    let h = hash_text(body.prompt);
    lemma_read_alike(w, world, a.store);
    waiting_requests_keep_the_queue(world, end, a.store, body, id, stamp);
    lemma_read_alike(world, w, b.store);
    prefixes_tell_kinds(h, body.model);
    ids_are_no_keys(id, h, body.model);
    lemma_prompts_lead(a.store, b.store);
    assert forall|j: LlmJobView, key: Seq<char>| #[trigger]
        b.jobs.contains(j) && #[trigger] waits(b.store, key) implies id_under(w, b.store, key)
        != j.id by {
        assert(a.jobs.contains(j));
        assert(a.store.contains_key(uuid_text(j.id)));
    }
}

/// A request leaves everything in order.
proof fn lemma_after_request<N>(w: World, a: Standing, b: Standing, e: Happening<N>)
    requires
        in_order(w, a),
        reads_back(w),
        happens(w, a, b, e),
        e is Request,
    ensures
        in_order(w, b),
{
    if let Happening::Request { world, run, body, state, id, stamp } = e {
        let jobs = jobs_started(run, run.len() - 1);
        let none = Seq::<LlmJobView>::empty();
        assert(a.jobs.union(none.to_set()) =~= a.jobs);
        if a.store.contains_key(prompt_key_in(body)) {
            prefixes_tell_kinds(hash_text(body.prompt), body.model);
            assert(is_prompt(a.store, prompt_key_in(body)));
            kept_answers_are_served(world, run, a.store, body, state, id);
            assert(b =~= a);
        } else {
            requests_are_taken_or_wait(world, run, a.store, body, state, id, stamp);
            if jobs == none {
                lemma_after_waiting(w, world, a, b, run.last(), body, id, stamp);
            } else {
                let server = choose|server: LLMServerView| #[trigger]
                    state.servers.contains(server) && taken_by(
                        world,
                        run.last(),
                        a.store,
                        body,
                        id,
                        stamp,
                        server,
                    ) && jobs == seq![job_of(state, body, server, id, stamp)];
                let job = job_of(state, body, server, id, stamp);
                assert(jobs[0] == job);
                assert(jobs.to_set() =~= Set::<LlmJobView>::empty().insert(job));
                assert(b.jobs =~= a.jobs.insert(job));
                lemma_after_taken(
                    w,
                    world,
                    a,
                    b,
                    run.last(),
                    body,
                    state,
                    id,
                    stamp,
                    server,
                );
            }
        }
    }
}

/// Whatever happens to a gateway that keeps nothing yet, and in whatever order, everything is in
/// order at every moment: all that waits leads to well-formed records with ids of their own, no
/// job that was started has the id of a request that waits, and every prompt that is answered or
/// running leads to a record. This holds where answers are read as they were written.
pub proof fn everything_stays_in_order<N>(
    w: World,
    standings: Seq<Standing>,
    events: Seq<Happening<N>>,
    i: int,
)
    requires
        is_history(w, standings, events),
        reads_back(w),
        0 <= i < standings.len(),
    ensures
        in_order(w, standings[i]),
    decreases i,
{
    if i > 0 {
        everything_stays_in_order(w, standings, events, i - 1);
        let e = events[i - 1];
        let a = standings[i - 1];
        let b = standings[i - 1 + 1];
        assert(happens(w, a, b, e));
        match e {
            Happening::Request { .. } => lemma_after_request(w, a, b, e),
            Happening::Job { .. } => lemma_after_job(w, a, b, e),
            Happening::Turn { .. } => lemma_after_turn(w, a, b, e),
        }
    }
}

/// Whatever happened to a gateway that kept nothing at first, what waits under a key while its
/// prompt is neither answered nor running is answered by the next round in which a server has
/// room.
///
/// The keys of the round are such as a search for what waits gives; answers are read as they were
/// written; and some server shares its address with no full one.
pub proof fn whatever_waits_is_answered<N>(
    w: World,
    standings: Seq<Standing>,
    events: Seq<Happening<N>>,
    i: int,
    later: World,
    run: Seq<PopMoment<N>>,
    state: StateView,
    stamp: Seq<char>,
    keys: Seq<Seq<char>>,
    key: Seq<char>,
    free: LLMServerView,
)
    requires
        is_history(w, standings, events),
        reads_back(w),
        0 <= i < standings.len(),
        is_read_as(w, later),
        lists(standings[i].store, keys),
        is_round(later, run, standings[i].store, state, stamp, keys),
        keys.contains(key),
        !standings[i].store.contains_key(
            prompt_key_in(request_under(later, standings[i].store, key)),
        ),
        state.servers.contains(free),
        !at_full_address(free, state.servers, later.load),
    ensures
        run.last().next is Finish,
        exists|server: LLMServerView, response: Seq<char>, ms: Option<u128>| #[trigger]
            is_answered_from(
                later,
                run.last().store,
                state,
                stamp,
                request_under(later, standings[i].store, key),
                id_under(later, standings[i].store, key),
                server,
                response,
                ms,
            ),
{
    let m = standings[i].store;
    everything_stays_in_order(w, standings, events, i);
    lemma_read_alike(w, later, m);
    assert(reads_back(later));
    what_waits_is_answered(later, run, m, state, stamp, keys, key, free);
}

} // verus!
