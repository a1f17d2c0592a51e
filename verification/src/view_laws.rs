//! The views by which values are spoken of hold all that decides anything about them.

use vstd::prelude::*;

use crate::embedding::{EmbedPhase, EmbedPhaseView, EmbedRun};
use crate::home::{HomePhase, HomePhaseView, HomeRun, HomeTemplate};
use crate::index::{IndexPhase, IndexPhaseView, IndexRun, Indexed, IndexedView};
use crate::llm::{Gathering, LlmPhase, LlmPhaseView, LlmRun};
use crate::protocol::{
    Effect, EffectView, HttpReply, LifecycleRequest, LlmJob, Reply, ReplyView, SearchQuery,
};
use crate::queue::{PopPhase, PopPhaseView, PopRun, TurnPhase, TurnPhaseView, Waiting};
use crate::request::{RequestPhase, RequestPhaseView, RequestRun};
use crate::scan::{KeyList, ScanRun};
use crate::server::{pool_of, server_of, Search, SearchView, ServerSearch};
use crate::storage::WriteRun;
use crate::stream::{StreamRun, Streamed};
use crate::types::{
    hit_texts, responses_of, rows_of, servers_of, text_of, texts_of, ApiResponse, Document,
    EmbedRequestBody, EmbeddingResponse, FileStore, IndexRequestBody, LLMServer, RequestBody,
    SearchResponse,
};

verus! {

/// Lists are seen whole and in order, and optional values as they are.
pub proof fn lists_are_seen_whole<N>(
    texts: Seq<String>,
    rows: Seq<Vec<N>>,
    servers: Seq<LLMServer>,
    responses: Seq<ApiResponse>,
    found: SearchResponse<N>,
    keys: KeyList,
    text: Option<String>,
    server: Option<LLMServer>,
    pool: Option<Vec<LLMServer>>,
)
    ensures
        texts_of(texts).len() == texts.len(),
        forall|i: int| 0 <= i < texts.len() ==> #[trigger] texts_of(texts)[i] == texts[i]@,
        rows_of(rows).len() == rows.len(),
        forall|i: int| 0 <= i < rows.len() ==> #[trigger] rows_of(rows)[i] == rows[i]@,
        servers_of(servers).len() == servers.len(),
        forall|i: int| 0 <= i < servers.len() ==> #[trigger] servers_of(servers)[i] == servers[i]@,
        responses_of(responses).len() == responses.len(),
        forall|i: int|
            0 <= i < responses.len() ==> #[trigger] responses_of(responses)[i] == responses[i]@,
        hit_texts(found).len() == found.hits.hits@.len(),
        forall|i: int|
            0 <= i < found.hits.hits@.len() ==> #[trigger] hit_texts(found)[i]
                == found.hits.hits@[i]._source.text@,
        keys@ == texts_of(keys.keys@),
        text is None <==> text_of(text) is None,
        text matches Some(t) ==> text_of(text) == Some(t@),
        server is None <==> server_of(server) is None,
        server matches Some(s) ==> server_of(server) == Some(s@),
        pool is None <==> pool_of(pool) is None,
        pool matches Some(p) ==> pool_of(pool) == Some(servers_of(p@)),
{
}

/// What passes between clients, servers and stores is seen field by field.
pub proof fn values_are_seen_whole<N>(
    request: RequestBody,
    embed: EmbedRequestBody,
    answer: ApiResponse,
    embedding: EmbeddingResponse<N>,
    server: LLMServer,
    files: FileStore,
    sent: IndexRequestBody,
    document: Document<N>,
)
    ensures
        request@.model == request.model@,
        request@.prompt == request.prompt@,
        request@.stream == request.stream,
        request@.contextualize == request.contextualize,
        embed@.model == embed.model@,
        embed@.input == embed.input@,
        embed@.stream == embed.stream,
        answer@.key == text_of(answer.key),
        answer@.model == answer.model@,
        answer@.created_at == answer.created_at@,
        answer@.response == answer.response@,
        answer@.done == answer.done,
        answer@.ms_taken == answer.ms_taken,
        answer@.server_url == text_of(answer.server_url),
        answer.original_api_request is None <==> answer@.original_api_request is None,
        answer.original_api_request matches Some(b) ==> answer@.original_api_request == Some(b@),
        embedding@.model == embedding.model@,
        embedding@.embeddings == rows_of(embedding.embeddings@),
        server@.url == server.url@,
        server@.weight == server.weight,
        server@.max_concurrent == server.max_concurrent,
        files@.url == files.url@,
        files@.user == files.user@,
        files@.pass == files.pass@,
        files@.bucket == files.bucket@,
        files@.expiration == files.expiration,
        sent@.content == sent.content@,
        sent@.filename == text_of(sent.filename),
        sent@.url == text_of(sent.url),
        sent@.source == text_of(sent.source),
        sent@.index_name == text_of(sent.index_name),
        document@.text == document.text@,
        document@.vector == document.vector@,
        document@.filename == text_of(document.filename),
        document@.url == text_of(document.url),
        document@.source == text_of(document.source),
        document@.model == text_of(document.model),
        document@.timestamp == text_of(document.timestamp),
{
}

/// Jobs, searches, requests to file stores and answers to clients are seen field by field.
pub proof fn requests_are_seen_whole<N>(
    job: LlmJob,
    query: SearchQuery<N>,
    lifecycle: LifecycleRequest,
    reply: HttpReply,
    streamed: Streamed,
    indexed: Indexed,
)
    ensures
        job@.request == job.request@,
        job@.server == job.server@,
        job@.id == job.id,
        job@.stamp == job.stamp@,
        job@.ttl == job.ttl,
        job@.files == job.files@,
        job@.index == job.index@,
        job@.clusters == job.clusters,
        job@.embedding_model == job.embedding_model@,
        query@.size == query.size,
        query@.k == query.k,
        query@.vector == query.vector@,
        lifecycle@.url == lifecycle.url@,
        lifecycle@.user == lifecycle.user@,
        lifecycle@.pass == lifecycle.pass@,
        lifecycle@.content_type == lifecycle.content_type@,
        lifecycle@.body == lifecycle.body@,
        reply@.status == reply.status,
        reply@.content == reply.content,
        reply@.body == reply.body@,
        streamed.text matches Ok(t) ==> streamed@ == Ok::<_, Seq<char>>(t@),
        streamed.text matches Err(t) ==> streamed@ == Err::<Seq<char>, _>(t@),
        indexed matches Indexed::Answered(a) ==> indexed@ == IndexedView::Answered(a@),
        indexed matches Indexed::Failed(t) ==> indexed@ == IndexedView::Failed(t@),
{
}

/// Effects are seen as what they are, with all that they carry.
pub proof fn effects_are_seen_whole<N>(e: Effect<N>)
    ensures
        match e {
            Effect::Exists(k) => e@ == EffectView::<N>::Exists(k@),
            Effect::Get(k) => e@ == EffectView::<N>::Get(k@),
            Effect::Load(k) => e@ == EffectView::<N>::Load(k@),
            Effect::Put { key, value, ttl } => {
                &&& e@ matches EffectView::Put { key: k, value: v, ttl: t }
                &&& k == key@
                &&& v == value@
                &&& t == ttl
            },
            Effect::Delete(k) => e@ == EffectView::<N>::Delete(k@),
            Effect::Increment(k) => e@ == EffectView::<N>::Increment(k@),
            Effect::Decrement(k) => e@ == EffectView::<N>::Decrement(k@),
            Effect::Scan { cursor, pattern, count } => {
                &&& e@ matches EffectView::Scan { cursor: c, pattern: p, count: n }
                &&& c == cursor
                &&& p == pattern@
                &&& n == count
            },
            Effect::Now => e@ is Now,
            Effect::StartTimer => e@ is StartTimer,
            Effect::ReadTimer => e@ is ReadTimer,
            Effect::EncodeResponse(v) => e@ == EffectView::<N>::EncodeResponse(v@),
            Effect::DecodeResponse(t) => e@ == EffectView::<N>::DecodeResponse(t@),
            Effect::EncodeEmbedding(v) => e@ == EffectView::<N>::EncodeEmbedding(v@),
            Effect::DecodeEmbedding(b) => e@ == EffectView::<N>::DecodeEmbedding(b@),
            Effect::PostGenerate { url, body } => {
                &&& e@ matches EffectView::PostGenerate { url: u, body: b }
                &&& u == url@
                &&& b == body@
            },
            Effect::NextChunk => e@ is NextChunk,
            Effect::PostEmbed { url, request } => {
                &&& e@ matches EffectView::PostEmbed { url: u, request: b }
                &&& u == url@
                &&& b == request@
            },
            Effect::Search { cluster, index, query } => {
                &&& e@ matches EffectView::Search { cluster: c, index: i, query: q }
                &&& c == cluster
                &&& i == index@
                &&& q == query@
            },
            Effect::Insert { cluster, index, id, document } => {
                &&& e@ matches EffectView::Insert { cluster: c, index: i, id: n, document: d }
                &&& c == cluster
                &&& i == index@
                &&& n == id@
                &&& d == document@
            },
            Effect::OpenFiles(f) => e@ == EffectView::<N>::OpenFiles(f@),
            Effect::PutFile { bucket, name, data } => {
                &&& e@ matches EffectView::PutFile { bucket: b, name: n, data: d }
                &&& b == bucket@
                &&& n == name@
                &&& d == data@
            },
            Effect::PutLifecycle(l) => e@ == EffectView::<N>::PutLifecycle(l@),
            Effect::Spawn(j) => e@ == EffectView::<N>::Spawn(j@),
            Effect::Run(j) => e@ == EffectView::<N>::Run(j@),
        },
{
}

/// Replies are seen as what they are, with all that they carry; of what a search found, the texts.
pub proof fn replies_are_seen_whole<N>(r: Reply<N>)
    ensures
        match r {
            Reply::Done => r@ is Done,
            Reply::Flag(b) => r@ == ReplyView::<N>::Flag(b),
            Reply::Count(n) => r@ == ReplyView::<N>::Count(n),
            Reply::Text(t) => r@ == ReplyView::<N>::Text(t@),
            Reply::Page { cursor, keys } => {
                &&& r@ matches ReplyView::Page { cursor: c, keys: k }
                &&& c == cursor
                &&& k == texts_of(keys@)
            },
            Reply::Time { seconds, nanos } => {
                &&& r@ matches ReplyView::Time { seconds: s, nanos: n }
                &&& s == seconds
                &&& n == nanos
            },
            Reply::Millis(n) => r@ == ReplyView::<N>::Millis(n),
            Reply::Response(v) => r@ == ReplyView::<N>::Response(v@),
            Reply::Embedding(v) => r@ == ReplyView::<N>::Embedding(v@),
            Reply::Found(v) => r@ == ReplyView::<N>::Found(hit_texts(v)),
            Reply::Status { success, line } => {
                &&& r@ matches ReplyView::Status { success: s, line: l }
                &&& s == success
                &&& l == line@
            },
            Reply::Chunk(b) => r@ == ReplyView::<N>::Chunk(b@),
            Reply::End => r@ is End,
            Reply::Failed(t) => r@ == ReplyView::<N>::Failed(t@),
            Reply::Refused(t) => r@ == ReplyView::<N>::Refused(t@),
        },
{
}

/// Work under way is seen with all that it has so far.
pub proof fn work_is_seen_whole<N>(
    search: ServerSearch,
    end: Search,
    scan: ScanRun,
    stream: StreamRun,
    write: WriteRun,
    gathering: Gathering<N>,
    embed: EmbedRun<N>,
    job: LlmRun<N>,
    request: RequestRun,
    pop: PopRun,
    index: IndexRun<N>,
    page: HomeTemplate,
    home: HomeRun,
)
    ensures
        search@.remaining == servers_of(search.remaining@),
        search@.candidate == search.candidate@,
        end matches Search::Ask(a) ==> end@ == SearchView::Ask(a@),
        end matches Search::Found(s) ==> end@ == SearchView::Found(s@),
        end is Exhausted ==> end@ is Exhausted,
        scan@.pattern == scan.pattern@,
        scan@.keys == texts_of(scan.keys@),
        stream@.buffer == stream.buffer@,
        stream@.total == stream.total@,
        stream@.parsing == stream.parsing,
        write@.files == write.files@,
        write@.name == write.name@,
        write@.data == write.data@,
        write@.phase == write.phase,
        gathering@.embeddings == rows_of(gathering.embeddings@),
        gathering@.next == gathering.next,
        gathering@.context == gathering.context@,
        embed@.url == embed.url@,
        embed@.body == embed.body@,
        embed@.id == embed.id,
        embed@.ttl == embed.ttl,
        embed.phase matches EmbedPhase::Encoding(e) ==> embed@.phase == EmbedPhaseView::Encoding(
            e@,
        ),
        embed.phase matches EmbedPhase::Storing(e) ==> embed@.phase == EmbedPhaseView::Storing(e@),
        job@.job == job.job@,
        request@.body == request.body@,
        request@.id == request.id,
        request@.state == request.state@,
        pop@.state == pop.state@,
        index@.body == index.body@,
        index@.id == index.id,
        index@.state == index.state@,
        index.phase matches IndexPhase::Embedding { stamp, embed: e } ==> index@.phase
            == (IndexPhaseView::Embedding { stamp: stamp@, embed: e@ }),
        page@.servers == servers_of(page.possible_servers@),
        page@.queued == responses_of(page.queued@),
        page@.prompts == responses_of(page.prompts@),
        home@.page == home.page@,
        home.phase matches HomePhase::Reading { listing, rest, step } ==> home@.phase
            == (HomePhaseView::Reading { listing, rest: texts_of(rest@), step }),
{
}

/// Where work stands is seen as it is, with all that it carries there.
pub proof fn phases_are_seen_whole<N>(
    request: RequestRun,
    waiting: Waiting,
    turn: TurnPhase,
    pop: PopRun,
    job: LlmRun<N>,
    embed: EmbedRun<N>,
    index: IndexRun<N>,
    home: HomeRun,
)
    ensures
        request.phase matches RequestPhase::Searching { stamp, search } ==> request@.phase
            == (RequestPhaseView::Searching { stamp: stamp@, search: search@ }),
        request.phase matches RequestPhase::Spawning { pending } ==> request@.phase
            == (RequestPhaseView::Spawning { pending: pending@ }),
        request.phase matches RequestPhase::CheckingQueue { stamp } ==> request@.phase
            == (RequestPhaseView::CheckingQueue { stamp: stamp@ }),
        request.phase matches RequestPhase::StoringQueue { stamp } ==> request@.phase
            == (RequestPhaseView::StoringQueue { stamp: stamp@ }),
        request.phase is Checking <==> request@.phase is Checking,
        request.phase is FetchingId <==> request@.phase is FetchingId,
        request.phase is FetchingAnswer <==> request@.phase is FetchingAnswer,
        request.phase is Clock <==> request@.phase is Clock,
        request.phase is EncodingTaken <==> request@.phase is EncodingTaken,
        request.phase is StoringTaken <==> request@.phase is StoringTaken,
        request.phase is StoringPrompt <==> request@.phase is StoringPrompt,
        request.phase is EncodingQueued <==> request@.phase is EncodingQueued,
        request.phase is StoringQueued <==> request@.phase is StoringQueued,
        waiting@.request == waiting.request@,
        waiting@.id == waiting.id,
        turn matches TurnPhase::Checking { request: b, key } ==> turn@ == (TurnPhaseView::Checking {
            request: b@,
            key: text_of(key),
        }),
        turn matches TurnPhase::Searching { waiting: x, search } ==> turn@
            == (TurnPhaseView::Searching { waiting: x@, search: search@ }),
        turn matches TurnPhase::Running(x) ==> turn@ == TurnPhaseView::Running(x@),
        turn is ReadingId <==> turn@ is ReadingId,
        turn is ReadingRecord <==> turn@ is ReadingRecord,
        turn is Decoding <==> turn@ is Decoding,
        turn is Dropping <==> turn@ is Dropping,
        turn is Storing <==> turn@ is Storing,
        turn is Removing <==> turn@ is Removing,
        pop.phase is Clock <==> pop@.phase is Clock,
        pop.phase matches PopPhase::Scanning { stamp, scan } ==> pop@.phase
            == (PopPhaseView::Scanning { stamp: stamp@, scan: scan@ }),
        pop.phase matches PopPhase::Turn { stamp, key, rest, phase } ==> pop@.phase
            == (PopPhaseView::Turn {
            stamp: stamp@,
            key: key@,
            rest: texts_of(rest@),
            phase: phase@,
        }),
        match job.phase {
            LlmPhase::Counting => job@.phase is Counting,
            LlmPhase::Starting => job@.phase is Starting,
            LlmPhase::Contextualizing(x) => job@.phase == LlmPhaseView::Contextualizing(x@),
            LlmPhase::Searching(g) => job@.phase == LlmPhaseView::Searching(g@),
            LlmPhase::Reading { gathering, rest } => job@.phase == (LlmPhaseView::Reading {
                gathering: gathering@,
                rest: texts_of(rest@),
            }),
            LlmPhase::Posting => job@.phase is Posting,
            LlmPhase::Streaming(x) => job@.phase == LlmPhaseView::<N>::Streaming(x@),
            LlmPhase::Stopping { response } => job@.phase == (LlmPhaseView::<N>::Stopping {
                response: response@,
            }),
            LlmPhase::Encoding => job@.phase is Encoding,
            LlmPhase::Writing { data, write } => job@.phase == (LlmPhaseView::<N>::Writing {
                data: data@,
                write: write@,
            }),
            LlmPhase::Embedding { data, embed: x } => job@.phase == (LlmPhaseView::Embedding {
                data: data@,
                embed: x@,
            }),
            LlmPhase::Inserting { data, embedding, next } => job@.phase
                == (LlmPhaseView::Inserting { data: data@, embedding: embedding@, next }),
            LlmPhase::Sealing { data } => job@.phase == (LlmPhaseView::<N>::Sealing {
                data: data@,
            }),
            LlmPhase::KeepingEmbedding { data } => job@.phase == (LlmPhaseView::<
                N,
            >::KeepingEmbedding { data: data@ }),
            LlmPhase::KeepingAnswer => job@.phase is KeepingAnswer,
            LlmPhase::Releasing => job@.phase is Releasing,
        },
        embed.phase is Checking <==> embed@.phase is Checking,
        embed.phase is Fetching <==> embed@.phase is Fetching,
        embed.phase is Decoding <==> embed@.phase is Decoding,
        embed.phase is Posting <==> embed@.phase is Posting,
        index.phase is Clock <==> index@.phase is Clock,
        index.phase matches IndexPhase::Searching { stamp, search } ==> index@.phase
            == (IndexPhaseView::<N>::Searching { stamp: stamp@, search: search@ }),
        index.phase is Inserting <==> index@.phase is Inserting,
        home.phase matches HomePhase::Scanning { listing, scan } ==> home@.phase
            == (HomePhaseView::Scanning { listing, scan: scan@ }),
{
}

} // verus!
