//! What the putting of a text into the search index comes to as a whole.

use vstd::prelude::*;

use crate::clock::{stamp_in, stamp_text};
use crate::embedding::{embed_next, flat, flattening_joins_rows, EmbedPhaseView};
use crate::index::{
    index_name, index_next, index_pool, index_search, index_start, IndexPhaseView, IndexView,
    IndexedView,
};
use crate::outside::{url_accepted, utc_text, uuid_text};
use crate::protocol::{json_reply, Content, EffectView, NextView, ReplyView};
use crate::server::{
    at_full_address, draw_fits, exhausted_means_full, found_has_room, is_choice, is_full,
    is_search, lemma_follow_search, search_advances, search_begin, search_next, search_pool,
    SearchView,
};
use crate::state::StateView;
use crate::types::{
    DocumentView, EmbedRequestBodyView, EmbeddingResponseView, IndexRequestBodyView, LLMServerView,
};
use crate::world::{lemma_ends, lemma_goes_on, reply_to, to_end, World};

verus! {

/// What comes next in the work for a text sent in.
pub type IndexNext<N> = NextView<IndexView<N>, N, IndexedView>;

/// The work for a text sent in at some moment, and the reply to what it asks for then.
pub struct IndexMoment<N> {
    pub next: IndexNext<N>,
    pub reply: ReplyView<N>,
}

/// Whether `b` follows `a`: the clock and the loads are those of the world, and any other reply
/// may be anything.
pub open spec fn index_follows<N>(w: World, a: IndexMoment<N>, b: IndexMoment<N>) -> bool {
    match a.next {
        NextView::Ask(s, e) => {
            &&& e is Now || e is Load ==> a.reply == reply_to::<N>(w, Map::empty(), e)
            &&& exists|c: Option<LLMServerView>| #[trigger]
                draw_fits(index_pool(s, a.reply), c) && b.next == index_next(s, a.reply, c)
        },
        _ => false,
    }
}

/// Whether the work for a text sent in asks for something.
pub open spec fn index_asks<N>() -> spec_fn(IndexMoment<N>) -> bool {
    |a: IndexMoment<N>| a.next is Ask
}

/// How the moments of the work for a text sent in follow one another.
pub open spec fn index_rule<N>(w: World) -> spec_fn(IndexMoment<N>, IndexMoment<N>) -> bool {
    |a: IndexMoment<N>, b: IndexMoment<N>| index_follows(w, a, b)
}

/// Whether `run` is the work for a text sent in, from its start to its end.
pub open spec fn indexes<N>(
    w: World,
    run: Seq<IndexMoment<N>>,
    body: IndexRequestBodyView,
    state: StateView,
    id: u128,
) -> bool {
    &&& to_end(run, index_asks(), index_rule(w))
    &&& run[0].next == index_start::<N>(body, state, id)
}

/// The state of the work while a server is searched for.
spec fn looking<N>(body: IndexRequestBodyView, state: StateView, id: u128) -> IndexView<N> {
    IndexView { body, id, state, phase: IndexPhaseView::Clock }
}

/// The search with which the work starts, and the moment at which it has ended.
#[verifier::rlimit(50)]
proof fn lemma_finds_search<N>(
    w: World,
    run: Seq<IndexMoment<N>>,
    body: IndexRequestBodyView,
    state: StateView,
    id: u128,
    stamp: Seq<char>,
) -> (r: (Seq<SearchView>, int))
    requires
        indexes(w, run, body, state, id),
        stamp_text(w.seconds, w.nanos) == Some(stamp),
    ensures
        is_search(r.0, state.servers, w.load),
        !(r.0.last() is Ask),
        0 <= r.1 < run.len(),
        run[r.1].next == index_search::<N>(looking(body, state, id), stamp, r.0.last()),
{
    lemma_goes_on(run, index_asks(), index_rule(w), 0);
    let s = looking::<N>(body, state, id);
    let r = run[0].reply;
    let c = choose|c: Option<LLMServerView>| #[trigger]
        draw_fits(index_pool(s, r), c) && run[1].next == index_next(s, r, c);
    assert(is_choice(state.servers, c));
    let at = |i: int, v: SearchView|
        0 <= i < run.len() && run[i].next == index_search::<N>(s, stamp, v);
    assert forall|i: int, v: SearchView| #[trigger] at(i, v) implies i < run.len()
        && search_advances(at, w.load, i, v) by {
        reveal(search_advances);
        if let SearchView::Ask(a) = v {
            lemma_goes_on(run, index_asks(), index_rule(w), i);
            let t = IndexView::<N> {
                phase: IndexPhaseView::Searching { stamp, search: a },
                ..looking(body, state, id)
            };
            let l = (w.load)(a.candidate.url);
            let q = run[i].reply;
            let d = choose|d: Option<LLMServerView>| #[trigger]
                draw_fits(index_pool(t, q), d) && run[i + 1].next == index_next(t, q, d);
            assert(draw_fits(search_pool(a, l), d));
            assert(at(i + 1, search_next(a, l, d)));
        }
    }
    assert(at(1, search_begin(state.servers, c)));
    lemma_follow_search(at, state.servers, w.load, c, 1, run.len() as int)
}

/// The answer to a client whose text finds no server.
pub open spec fn turned_away<N>() -> IndexNext<N> {
    NextView::Finish(IndexedView::Answered(json_reply(429, "{}"@)))
}

/// Once a server is found, no client is turned away.
proof fn lemma_not_turned_away<N>(
    w: World,
    run: Seq<IndexMoment<N>>,
    body: IndexRequestBodyView,
    state: StateView,
    id: u128,
    i: int,
    j: int,
)
    requires
        indexes(w, run, body, state, id),
        0 <= i <= j < run.len(),
        run[i].next != turned_away::<N>(),
        run[i].next matches NextView::Ask(s, _) ==> s.phase is Embedding || s.phase is Inserting,
    ensures
        run[j].next != turned_away::<N>(),
        run[j].next matches NextView::Ask(s, _) ==> s.phase is Embedding || s.phase is Inserting,
    decreases j,
{
    if i < j {
        lemma_not_turned_away(w, run, body, state, id, i, j - 1);
        assert(index_asks::<N>()(run[j - 1]));
        lemma_goes_on(run, index_asks(), index_rule(w), j - 1);
    }
}

/// Where there is a cluster, a client whose text is to be put into the index is turned away where
/// every server is full, and only where every server shares its address with a full one.
pub proof fn texts_are_turned_away_for_room<N>(
    w: World,
    run: Seq<IndexMoment<N>>,
    body: IndexRequestBodyView,
    state: StateView,
    id: u128,
    stamp: Seq<char>,
)
    requires
        indexes(w, run, body, state, id),
        stamp_text(w.seconds, w.nanos) == Some(stamp),
        state.clusters > 0,
    ensures
        (forall|t: LLMServerView| #[trigger] state.servers.contains(t) ==> is_full(t, w.load))
            ==> run.last().next == turned_away::<N>(),
        run.last().next == turned_away::<N>() ==> forall|t: LLMServerView| #[trigger]
            state.servers.contains(t) ==> at_full_address(t, state.servers, w.load),
{
    let (search, k) = lemma_finds_search(w, run, body, state, id, stamp);
    match search.last() {
        SearchView::Found(server) => {
            found_has_room(search, state.servers, w.load, server);
            lemma_not_turned_away(w, run, body, state, id, k, run.len() - 1);
        },
        _ => {
            exhausted_means_full(search, state.servers, w.load);
            lemma_ends(run, index_asks(), index_rule(w), k);
        },
    }
}

/// Without a cluster no text is put into an index: the work fails, server or no server.
pub proof fn texts_need_a_cluster<N>(
    w: World,
    run: Seq<IndexMoment<N>>,
    body: IndexRequestBodyView,
    state: StateView,
    id: u128,
    stamp: Seq<char>,
)
    requires
        indexes(w, run, body, state, id),
        stamp_text(w.seconds, w.nanos) == Some(stamp),
        state.clusters == 0,
    ensures
        run.last().next is Halt,
{
    let (_, k) = lemma_finds_search(w, run, body, state, id, stamp);
    lemma_ends(run, index_asks(), index_rule(w), k);
}

/// The request for the embedding of a text sent in.
pub open spec fn wanted_embedding(
    body: IndexRequestBodyView,
    state: StateView,
) -> EmbedRequestBodyView {
    EmbedRequestBodyView { model: state.embedding_model, input: body.content, stream: Some(false) }
}

/// Whether the work got an embedding of the text sent in at some moment: as the answer of a server
/// to the request for it, or as what is kept under its key.
pub open spec fn gets_embedding<N>(
    a: IndexMoment<N>,
    body: IndexRequestBodyView,
    state: StateView,
    embedding: EmbeddingResponseView<N>,
) -> bool {
    &&& a.next matches NextView::Ask(s, e)
    &&& s.phase matches IndexPhaseView::Embedding { embed, .. }
    &&& embed.body == wanted_embedding(body, state)
    &&& a.reply == ReplyView::<N>::Embedding(embedding)
    &&& {
        ||| embed.phase is Posting && (e matches EffectView::PostEmbed { request, .. } && request
            == wanted_embedding(body, state))
        ||| embed.phase is Decoding && e is DecodeEmbedding
    }
}

/// Whether an effect puts the document made of a text sent in, with its embedding, into its index
/// at the first cluster.
pub open spec fn puts_document<N>(
    body: IndexRequestBodyView,
    state: StateView,
    id: u128,
    stamp: Seq<char>,
    embedding: EmbeddingResponseView<N>,
    e: EffectView<N>,
) -> bool {
    e == (EffectView::Insert {
        cluster: 0,
        index: index_name(body),
        id: uuid_text(id),
        document: DocumentView {
            text: body.content,
            vector: flat(embedding.embeddings),
            filename: body.filename,
            url: body.url,
            source: body.source,
            model: Some(state.embedding_model),
            timestamp: Some(stamp),
        },
    })
}

/// What the work carries of an embedding at some moment.
spec fn embedding_in<N>(s: IndexView<N>) -> Option<EmbeddingResponseView<N>> {
    match s.phase {
        IndexPhaseView::Embedding { embed, .. } => match embed.phase {
            EmbedPhaseView::Encoding(x) => Some(x),
            EmbedPhaseView::Storing(x) => Some(x),
            _ => None,
        },
        _ => None,
    }
}

/// What holds of the work at any time: it is for the text sent in, at the time that was read.
spec fn works_for<N>(
    s: IndexView<N>,
    e: EffectView<N>,
    body: IndexRequestBodyView,
    state: StateView,
    id: u128,
    stamp: Seq<char>,
) -> bool {
    &&& s.body == body
    &&& s.state == state
    &&& s.id == id
    &&& match s.phase {
        IndexPhaseView::Clock => e is Now,
        IndexPhaseView::Searching { stamp: t, .. } => t == stamp && e is Load,
        IndexPhaseView::Embedding { stamp: t, embed } => {
            &&& t == stamp
            &&& embed.body == wanted_embedding(body, state)
            &&& embed.phase is Posting ==> (e matches EffectView::PostEmbed { request, .. }
                && request == wanted_embedding(body, state))
            &&& embed.phase is Decoding ==> e is DecodeEmbedding
            &&& !(e is Insert) && !(e is Spawn) && !(e is Run) && !(e is Delete)
            &&& !(e is PostGenerate)
            &&& e is PostEmbed ==> embed.phase is Posting
        },
        IndexPhaseView::Inserting => e is Insert,
    }
}

/// What a moment has from the one before.
#[verifier::rlimit(50)]
proof fn lemma_works_for<N>(
    w: World,
    run: Seq<IndexMoment<N>>,
    body: IndexRequestBodyView,
    state: StateView,
    id: u128,
    stamp: Seq<char>,
    i: int,
)
    requires
        indexes(w, run, body, state, id),
        stamp_text(w.seconds, w.nanos) == Some(stamp),
        0 <= i < run.len(),
    ensures
        run[i].next matches NextView::Ask(s, e) ==> {
            &&& works_for(s, e, body, state, id, stamp)
            &&& embedding_in(s) matches Some(x) ==> i > 0 && run[i - 1].next is Ask && (
            embedding_in(run[i - 1].next->Ask_0) == Some(x) || gets_embedding(
                run[i - 1],
                body,
                state,
                x,
            ))
            &&& s.phase is Inserting ==> i > 0 && run[i - 1].next is Ask && exists|
                x: EmbeddingResponseView<N>,
            | #[trigger]
                puts_document(body, state, id, stamp, x, e) && (embedding_in(
                    run[i - 1].next->Ask_0,
                ) == Some(x) || gets_embedding(run[i - 1], body, state, x))
        },
        run[i].next == taken_in::<N>() ==> i > 0 && (run[i - 1].next matches NextView::Ask(s, _)
            && s.phase is Inserting),
    decreases i,
{
    if i > 0 {
        lemma_works_for(w, run, body, state, id, stamp, i - 1);
        assert(index_asks::<N>()(run[i - 1]));
        lemma_goes_on(run, index_asks(), index_rule(w), i - 1);
        let s = run[i - 1].next->Ask_0;
        let r = run[i - 1].reply;
        if let IndexPhaseView::Embedding { embed, .. } = s.phase {
            if let NextView::Finish(x) = embed_next(embed, r) {
                assert(puts_document(body, state, id, stamp, x, run[i].next->Ask_1));
            }
        }
    }
}

/// Where the embedding that the work carries comes from.
proof fn lemma_embedding_from<N>(
    w: World,
    run: Seq<IndexMoment<N>>,
    body: IndexRequestBodyView,
    state: StateView,
    id: u128,
    stamp: Seq<char>,
    x: EmbeddingResponseView<N>,
    i: int,
) -> (k: int)
    requires
        indexes(w, run, body, state, id),
        stamp_text(w.seconds, w.nanos) == Some(stamp),
        0 <= i < run.len(),
        run[i].next is Ask,
        embedding_in(run[i].next->Ask_0) == Some(x) || gets_embedding(run[i], body, state, x),
    ensures
        0 <= k <= i,
        gets_embedding(run[k], body, state, x),
    decreases i,
{
    if gets_embedding(run[i], body, state, x) {
        i
    } else {
        lemma_works_for(w, run, body, state, id, stamp, i);
        lemma_embedding_from(w, run, body, state, id, stamp, x, i - 1)
    }
}

/// The answer to a client whose text is in the index.
pub open spec fn taken_in<N>() -> IndexNext<N> {
    NextView::Finish(IndexedView::Answered(json_reply(200, "{}"@)))
}

/// A client is told that its text is in the index only where the document made of it was put
/// there just before: the text with what came with it, the embedding that was got for it, the
/// model and the time, under a new id, at the first cluster and in the index that the client
/// named, or else the one for all others.
pub proof fn texts_taken_in_are_put_into_the_index<N>(
    w: World,
    run: Seq<IndexMoment<N>>,
    body: IndexRequestBodyView,
    state: StateView,
    id: u128,
    stamp: Seq<char>,
)
    requires
        indexes(w, run, body, state, id),
        stamp_text(w.seconds, w.nanos) == Some(stamp),
        run.last().next == taken_in::<N>(),
    ensures
        run.len() > 2,
        run[run.len() - 2].next is Ask,
        exists|k: int, x: EmbeddingResponseView<N>|
            0 <= k < run.len() - 2 && #[trigger] gets_embedding(run[k], body, state, x)
                && puts_document(body, state, id, stamp, x, run[run.len() - 2].next->Ask_1),
{
    let n = run.len() as int;
    lemma_works_for(w, run, body, state, id, stamp, n - 1);
    lemma_works_for(w, run, body, state, id, stamp, n - 2);
    let e = run[n - 2].next->Ask_1;
    let x = choose|x: EmbeddingResponseView<N>| #[trigger]
        puts_document(body, state, id, stamp, x, e) && (embedding_in(run[n - 3].next->Ask_0)
            == Some(x) || gets_embedding(run[n - 3], body, state, x));
    let k = lemma_embedding_from(w, run, body, state, id, stamp, x, n - 3);
    assert(gets_embedding(run[k], body, state, x));
}

/// What is put into an index for a text sent in, field by field: at the first cluster, into the index
/// that the client named or else the one for all others, under the id; the text and what came with
/// it just as they were sent, all numbers of the embedding that was got for it, the model for
/// embeddings and the time.
pub proof fn texts_are_inserted_as_they_were_sent<N>(
    w: World,
    run: Seq<IndexMoment<N>>,
    body: IndexRequestBodyView,
    state: StateView,
    id: u128,
    stamp: Seq<char>,
    i: int,
)
    requires
        indexes(w, run, body, state, id),
        utc_text(w.seconds, w.nanos, "%Y-%m-%d %H:%M:%S"@) == Some(stamp),
        0 <= i < run.len(),
        run[i].next is Ask,
        run[i].next->Ask_1 is Insert,
    ensures
        ({
            let e = run[i].next->Ask_1;
            &&& e->Insert_cluster == 0
            &&& body.index_name matches Some(n) ==> e->Insert_index == n
            &&& body.index_name is None ==> e->Insert_index == "default_index"@
            &&& e->id == uuid_text(id)
            &&& e->document.text == body.content
            &&& e->document.filename == body.filename
            &&& e->document.url == body.url
            &&& e->document.source == body.source
            &&& e->document.model == Some(state.embedding_model)
            &&& e->document.timestamp == Some(stamp)
            &&& exists|k: int, x: EmbeddingResponseView<N>|
                0 <= k < i && #[trigger] gets_embedding(run[k], body, state, x)
                    && e->document.vector == x.embeddings.flatten()
        }),
{
    lemma_works_for(w, run, body, state, id, stamp, i);
    let e = run[i].next->Ask_1;
    let x = choose|x: EmbeddingResponseView<N>| #[trigger]
        puts_document(body, state, id, stamp, x, e) && (embedding_in(run[i - 1].next->Ask_0)
            == Some(x) || gets_embedding(run[i - 1], body, state, x));
    let k = lemma_embedding_from(w, run, body, state, id, stamp, x, i - 1);
    flattening_joins_rows(x.embeddings, Seq::empty());
    assert(gets_embedding(run[k], body, state, x));
}

/// What a server is asked for a text sent in is the embedding of just that text, by the model for
/// embeddings; and nothing is run or started for it.
pub proof fn texts_are_embedded_as_they_were_sent<N>(
    w: World,
    run: Seq<IndexMoment<N>>,
    body: IndexRequestBodyView,
    state: StateView,
    id: u128,
    stamp: Seq<char>,
    i: int,
)
    requires
        indexes(w, run, body, state, id),
        utc_text(w.seconds, w.nanos, "%Y-%m-%d %H:%M:%S"@) == Some(stamp),
        0 <= i < run.len(),
    ensures
        run[i].next matches NextView::Ask(_, EffectView::PostEmbed { request, .. }) ==> {
            &&& request.model == state.embedding_model
            &&& request.input == body.content
            &&& request.stream == Some(false)
        },
        run[i].next matches NextView::Ask(_, e) ==> {
            &&& !(e is Spawn)
            &&& !(e is Run)
            &&& !(e is Delete)
            &&& !(e is PostGenerate)
        },
{
    lemma_works_for(w, run, body, state, id, stamp, i);
}

/// What a client gets to hear of a text sent in: that it is in the index, exactly where the index
/// said so; else what the index said. It is told to come back only before that, and where there is
/// a cluster.
pub proof fn clients_hear_of_their_text<N>(
    s: IndexView<N>,
    r: ReplyView<N>,
    c: Option<LLMServerView>,
)
    ensures
        index_next(s, r, c) matches NextView::Finish(IndexedView::Answered(reply)) ==> {
            &&& reply.content == Content::Json
            &&& reply.body == "{}"@
            &&& s.phase is Inserting ==> reply.status == 200 && r is Done
            &&& !(s.phase is Inserting) ==> reply.status == 429 && s.state.clusters > 0
        },
        index_next(s, r, c) matches NextView::Finish(IndexedView::Failed(why)) ==> {
            &&& s.phase is Inserting
            &&& r matches ReplyView::Failed(t) ==> why == t
            &&& r matches ReplyView::Refused(t) ==> why == t
            &&& !(r is Failed) && !(r is Refused) ==> why.len() == 0
        },
        s.phase is Inserting ==> index_next(s, r, c) is Finish,
        s.phase is Inserting && !(r is Done) ==> (index_next(s, r, c) matches NextView::Finish(x)
            && x is Failed),
{
}

/// The work for a text sent in fails exactly where the clock cannot be read, where the search for a
/// server has ended and there is no cluster or the address of the server is no URL, and where its
/// embedding cannot be got.
pub proof fn texts_fail_only_on_faults<N>(
    s: IndexView<N>,
    r: ReplyView<N>,
    c: Option<LLMServerView>,
)
    ensures
        index_next(s, r, c) is Halt <==> match s.phase {
            IndexPhaseView::Clock => stamp_in(r) is None || c is None && s.state.clusters == 0,
            IndexPhaseView::Searching { search, .. } => {
                let load: i64 = match r {
                    ReplyView::Count(n) => n,
                    _ => 0,
                };
                if load < search.candidate.max_concurrent {
                    s.state.clusters == 0 || !url_accepted(search.candidate.url + "embed"@)
                } else {
                    c is None && s.state.clusters == 0
                }
            },
            IndexPhaseView::Embedding { embed, .. } => embed_next(embed, r) is Halt,
            IndexPhaseView::Inserting => false,
        },
        s.phase matches IndexPhaseView::Embedding { embed, .. } ==> (embed_next(embed, r) is Finish
            ==> (index_next(s, r, c) matches NextView::Ask(_, e) && e is Insert)),
{
}

/// Where there is a cluster and every server is full, the client is told to come back.
pub proof fn texts_without_room_come_back<N>(
    w: World,
    run: Seq<IndexMoment<N>>,
    body: IndexRequestBodyView,
    state: StateView,
    id: u128,
    stamp: Seq<char>,
)
    requires
        indexes(w, run, body, state, id),
        utc_text(w.seconds, w.nanos, "%Y-%m-%d %H:%M:%S"@) == Some(stamp),
        state.clusters > 0,
        forall|t: LLMServerView| #[trigger]
            state.servers.contains(t) ==> (w.load)(t.url) >= t.max_concurrent,
    ensures
        run.last().next matches NextView::Finish(IndexedView::Answered(reply)) && {
            &&& reply.status == 429
            &&& reply.content == Content::Json
            &&& reply.body == "{}"@
        },
{
    assert forall|t: LLMServerView| #[trigger] state.servers.contains(t) implies is_full(
        t,
        w.load,
    ) by {}
    texts_are_turned_away_for_room(w, run, body, state, id, stamp);
}

} // verus!
