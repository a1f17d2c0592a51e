//! Putting a text that a client sends into the search index.

use vstd::prelude::*;

use crate::clock::{clock_fault, clock_fault_text, stamp_in};
use crate::embedding::{
    embed_next, embed_start, embedding_request, flat, EmbedRun, EmbedView,
};
use crate::outside::{is_random_uuid, uuid_new_v4, uuid_text, uuid_to_string};
use crate::protocol::{
    count_in, detail_in, json_reply, reply_json, Effect, EffectView, HttpReply, HttpReplyView,
    Next, NextView, Reply, ReplyView,
};
use crate::search::{default_index, insert_document};
use crate::server::{
    begin_search, draw, draw_fits, pool_of, search_begin, search_next, search_pool, server_of,
    Search, SearchView, ServerSearch, ServerSearchView,
};
use crate::state::{State, StateView};
use crate::types::{
    DocumentView, EmbedRequestBody, EmbedRequestBodyView, EmbeddingResponse,
    EmbeddingResponseView, IndexRequestBody, IndexRequestBodyView, LLMServer, LLMServerView,
};

verus! {

/// What comes of a text sent in: an answer, or a failure that is passed on.
#[derive(Debug)]
pub enum Indexed {
    Answered(HttpReply),
    Failed(String),
}

pub enum IndexedView {
    Answered(HttpReplyView),
    Failed(Seq<char>),
}

impl View for Indexed {
    type V = IndexedView;

    open spec fn view(&self) -> IndexedView {
        match self {
            Indexed::Answered(a) => IndexedView::Answered(a@),
            Indexed::Failed(e) => IndexedView::Failed(e@),
        }
    }
}

/// Where the work stands.
pub enum IndexPhase<N> {
    /// Reading the clock.
    Clock,
    /// Asked a server for its load.
    Searching { stamp: String, search: ServerSearch },
    /// Getting the embedding of the text.
    Embedding { stamp: String, embed: EmbedRun<N> },
    /// Putting the document into the index.
    Inserting,
}

pub enum IndexPhaseView<N> {
    Clock,
    Searching { stamp: Seq<char>, search: ServerSearchView },
    Embedding { stamp: Seq<char>, embed: EmbedView<N> },
    Inserting,
}

impl<N> View for IndexPhase<N> {
    type V = IndexPhaseView<N>;

    open spec fn view(&self) -> IndexPhaseView<N> {
        match self {
            IndexPhase::Clock => IndexPhaseView::Clock,
            IndexPhase::Searching { stamp, search } => IndexPhaseView::Searching {
                stamp: stamp@,
                search: search@,
            },
            IndexPhase::Embedding { stamp, embed } => IndexPhaseView::Embedding {
                stamp: stamp@,
                embed: embed@,
            },
            IndexPhase::Inserting => IndexPhaseView::Inserting,
        }
    }
}

/// The work for a text sent in: the request, the id of the document, and the settings.
pub struct IndexRun<N> {
    pub body: IndexRequestBody,
    pub id: u128,
    pub state: State,
    pub phase: IndexPhase<N>,
}

pub struct IndexView<N> {
    pub body: IndexRequestBodyView,
    pub id: u128,
    pub state: StateView,
    pub phase: IndexPhaseView<N>,
}

impl<N> View for IndexRun<N> {
    type V = IndexView<N>;

    open spec fn view(&self) -> IndexView<N> {
        IndexView { body: self.body@, id: self.id, state: self.state@, phase: self.phase@ }
    }
}

/// The fault of settings without a search cluster.
pub open spec fn no_cluster() -> Seq<char> {
    "no open search cluster is available for use"@
}

/// The document made of a text sent in.
pub open spec fn sent_document<N>(
    body: IndexRequestBodyView,
    state: StateView,
    stamp: Seq<char>,
    embedding: EmbeddingResponseView<N>,
) -> DocumentView<N> {
    DocumentView {
        text: body.content,
        vector: flat(embedding.embeddings),
        filename: body.filename,
        url: body.url,
        source: body.source,
        model: Some(state.embedding_model),
        timestamp: Some(stamp),
    }
}

/// The index that a text is put into.
pub open spec fn index_name(body: IndexRequestBodyView) -> Seq<char> {
    match body.index_name {
        Some(n) => n,
        None => default_index(),
    }
}

/// What follows from where the embedding stands: the document goes to the first cluster.
pub open spec fn index_embed<N>(
    s: IndexView<N>,
    stamp: Seq<char>,
    n: NextView<EmbedView<N>, N, EmbeddingResponseView<N>>,
) -> NextView<IndexView<N>, N, IndexedView> {
    match n {
        NextView::Ask(embed, effect) => NextView::Ask(
            IndexView { phase: IndexPhaseView::Embedding { stamp, embed }, ..s },
            effect,
        ),
        NextView::Finish(e) => NextView::Ask(
            IndexView { phase: IndexPhaseView::Inserting, ..s },
            EffectView::Insert {
                cluster: 0,
                index: index_name(s.body),
                id: uuid_text(s.id),
                document: sent_document(s.body, s.state, stamp, e),
            },
        ),
        NextView::Halt(m) => NextView::Halt(m),
    }
}

/// What follows from where the search for a server stands. Once it has ended, a missing cluster
/// is a fault; without a server the client is told to come back.
pub open spec fn index_search<N>(s: IndexView<N>, stamp: Seq<char>, search: SearchView) -> NextView<
    IndexView<N>,
    N,
    IndexedView,
> {
    match search {
        SearchView::Ask(t) => NextView::Ask(
            IndexView { phase: IndexPhaseView::Searching { stamp, search: t }, ..s },
            EffectView::Load(t.candidate.url),
        ),
        SearchView::Found(server) => if s.state.clusters == 0 {
            NextView::Halt(no_cluster())
        } else {
            index_embed(
                s,
                stamp,
                embed_start::<N>(
                    server.url,
                    EmbedRequestBodyView {
                        model: s.state.embedding_model,
                        input: s.body.content,
                        stream: Some(false),
                    },
                    s.id,
                    s.state.ttl,
                ),
            )
        },
        SearchView::Exhausted => if s.state.clusters == 0 {
            NextView::Halt(no_cluster())
        } else {
            NextView::Finish(IndexedView::Answered(json_reply(429, "{}"@)))
        },
    }
}

/// The start of the work for a text sent in.
pub open spec fn index_start<N>(
    body: IndexRequestBodyView,
    state: StateView,
    id: u128,
) -> NextView<IndexView<N>, N, IndexedView> {
    NextView::Ask(IndexView { body, id, state, phase: IndexPhaseView::Clock }, EffectView::Now)
}

/// The servers from which the next candidate is drawn on a reply; none where none is drawn.
pub open spec fn index_pool<N>(s: IndexView<N>, r: ReplyView<N>) -> Option<Seq<LLMServerView>> {
    match s.phase {
        IndexPhaseView::Clock => match stamp_in(r) {
            Some(_) => Some(s.state.servers),
            None => None,
        },
        IndexPhaseView::Searching { search, .. } => search_pool(search, count_in(r)),
        _ => None,
    }
}

/// The work for a text sent in after a reply, with the candidate that was drawn where one is.
pub open spec fn index_next<N>(
    s: IndexView<N>,
    r: ReplyView<N>,
    choice: Option<LLMServerView>,
) -> NextView<IndexView<N>, N, IndexedView> {
    match s.phase {
        IndexPhaseView::Clock => match stamp_in(r) {
            Some(stamp) => index_search(s, stamp, search_begin(s.state.servers, choice)),
            None => NextView::Halt(clock_fault()),
        },
        IndexPhaseView::Searching { stamp, search } => index_search(
            s,
            stamp,
            search_next(search, count_in(r), choice),
        ),
        IndexPhaseView::Embedding { stamp, embed } => index_embed(
            s,
            stamp,
            embed_next(embed, r),
        ),
        IndexPhaseView::Inserting => match r {
            ReplyView::Done => NextView::Finish(IndexedView::Answered(json_reply(200, "{}"@))),
            _ => NextView::Finish(IndexedView::Failed(detail_in(r))),
        },
    }
}

/// Starts the work for a text sent in, whose document gets the id given.
pub fn index_with_id<N>(body: IndexRequestBody, state: State, id: u128) -> (r: Next<
    IndexRun<N>,
    N,
    Indexed,
>)
    ensures
        r@ == index_start::<N>(body@, state@, id),
{
    Next::Ask(IndexRun { body, id, state, phase: IndexPhase::Clock }, Effect::Now)
}

/// Starts the work for a text sent in. Its document gets a new random id.
pub fn index<N>(body: IndexRequestBody, state: State) -> (r: Next<IndexRun<N>, N, Indexed>)
    ensures
        exists|id: u128| #[trigger]
            is_random_uuid(id) && r@ == index_start::<N>(body@, state@, id),
{
    let id = uuid_new_v4();
    assert(is_random_uuid(id));
    index_with_id(body, state, id)
}

impl<N: Copy> IndexRun<N> {
    /// Goes on with the embedding of the text.
    fn embedded(self, stamp: String, next: Next<EmbedRun<N>, N, EmbeddingResponse<N>>) -> (r: Next<
        IndexRun<N>,
        N,
        Indexed,
    >)
        ensures
            r@ == index_embed::<N>(self@, stamp@, next@),
    {
        let IndexRun { body, id, state, phase: _ } = self;
        match next {
            Next::Ask(embed, effect) => Next::Ask(
                IndexRun { body, id, state, phase: IndexPhase::Embedding { stamp, embed } },
                effect,
            ),
            Next::Finish(e) => {
                let sent = body.clone();
                let name = match sent.index_name {
                    Some(n) => n,
                    None => "default_index".to_owned(),
                };
                let effect = insert_document(
                    0,
                    name,
                    uuid_to_string(id),
                    sent.content,
                    &e.embeddings,
                    sent.filename,
                    sent.url,
                    sent.source,
                    Some(state.embedding_model.clone()),
                    Some(stamp),
                );
                Next::Ask(IndexRun { body, id, state, phase: IndexPhase::Inserting }, effect)
            },
            Next::Halt(m) => Next::Halt(m),
        }
    }

    /// Asks the next question of a search for a server, or does what its end asks for.
    fn searched(self, stamp: String, search: Search) -> (r: Next<IndexRun<N>, N, Indexed>)
        ensures
            r@ == index_search::<N>(self@, stamp@, search@),
    {
        let IndexRun { body, id, state, phase } = self;
        match search {
            Search::Ask(search) => {
                let url = search.candidate.url.clone();
                Next::Ask(
                    IndexRun { body, id, state, phase: IndexPhase::Searching { stamp, search } },
                    Effect::Load(url),
                )
            },
            Search::Found(server) => if state.opensearch_servers.len() == 0 {
                Next::Halt("no open search cluster is available for use".to_owned())
            } else {
                let wanted = EmbedRequestBody {
                    model: state.embedding_model.clone(),
                    input: body.content.clone(),
                    stream: Some(false),
                };
                let next = embedding_request(&server.url, wanted, id, state.redis_expiration);
                IndexRun { body, id, state, phase }.embedded(stamp, next)
            },
            Search::Exhausted => if state.opensearch_servers.len() == 0 {
                Next::Halt("no open search cluster is available for use".to_owned())
            } else {
                Next::Finish(Indexed::Answered(reply_json(429, "{}".to_owned())))
            },
        }
    }

    /// The servers from which the next candidate is drawn on a reply; none where none is drawn.
    pub fn pool_after(&self, reply: &Reply<N>) -> (r: Option<Vec<LLMServer>>)
        ensures
            pool_of(r) == index_pool(self@, reply@),
    {
        match &self.phase {
            IndexPhase::Clock => match reply.stamp() {
                Some(_) => Some(self.state.servers()),
                None => None,
            },
            IndexPhase::Searching { search, .. } => search.pool_after(reply.count()),
            _ => None,
        }
    }

    /// Goes on with a reply and, where one is drawn, the next candidate.
    pub fn resume(self, reply: Reply<N>, choice: Option<LLMServer>) -> (r: Next<
        IndexRun<N>,
        N,
        Indexed,
    >)
        ensures
            r@ == index_next(self@, reply@, server_of(choice)),
    {
        let IndexRun { body, id, state, phase } = self;
        match phase {
            IndexPhase::Clock => match reply.stamp() {
                Some(stamp) => {
                    let search = begin_search(state.servers(), choice);
                    IndexRun { body, id, state, phase: IndexPhase::Clock }.searched(stamp, search)
                },
                None => Next::Halt(clock_fault_text()),
            },
            IndexPhase::Searching { stamp, search } => {
                let search = search.resume(reply.count(), choice);
                IndexRun { body, id, state, phase: IndexPhase::Clock }.searched(stamp, search)
            },
            IndexPhase::Embedding { stamp, embed } => {
                let next = embed.step(reply);
                IndexRun { body, id, state, phase: IndexPhase::Clock }.embedded(stamp, next)
            },
            IndexPhase::Inserting => match reply {
                Reply::Done => Next::Finish(Indexed::Answered(reply_json(200, "{}".to_owned()))),
                other => Next::Finish(Indexed::Failed(other.detail())),
            },
        }
    }

    /// Goes on with a reply, drawing the next candidate where one is needed.
    pub fn step(self, reply: Reply<N>) -> (r: Next<IndexRun<N>, N, Indexed>)
        ensures
            exists|c: Option<LLMServerView>| #[trigger]
                draw_fits(index_pool(self@, reply@), c) && r@ == index_next(self@, reply@, c),
    {
        let choice = draw(&self.pool_after(&reply));
        assert(draw_fits(index_pool(self@, reply@), server_of(choice)));
        self.resume(reply, choice)
    }
}

} // verus!
