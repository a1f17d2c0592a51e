//! Seeing a request through at a server: from its prompt to the answer that is kept.

use vstd::prelude::*;
use vstd::utf8::encode_utf8;

use crate::embedding::{
    embed_next, embed_start, embedding_request, flat, seal, seal_fault, sealed, EmbedRun,
    EmbedView,
};
use crate::keys::{embed_key, embed_key_of, file_name, hash_text};
use crate::outside::{base64_bytes, url_accepted, url_parses, uuid_text, uuid_to_string};
use crate::protocol::{
    unwrap_fault, unwrap_fault_text, Effect, EffectView, LlmJob, LlmJobView, Next, NextView,
    Reply, ReplyView,
};
use crate::search::{insert_document, search_similar, similar_effect};
use crate::storage::{write_file_fs, write_next, write_start, WriteRun, WriteView};
use crate::stream::{
    process_stream, stream_next, stream_start, StreamRun, StreamView, Streamed,
};
use crate::types::{
    rows_of, texts_of, ApiResponse, ApiResponseView, DocumentView, EmbedRequestBody,
    EmbedRequestBodyView, EmbeddingResponse, EmbeddingResponseView, RequestBody, RequestBodyView,
};

verus! {

/// Earlier conversation being gathered: the embeddings of the prompt, the cluster to search
/// next, and the text so far.
pub struct Gathering<N> {
    pub embeddings: Vec<Vec<N>>,
    pub next: usize,
    pub context: String,
}

pub struct GatheringView<N> {
    pub embeddings: Seq<Seq<N>>,
    pub next: usize,
    pub context: Seq<char>,
}

impl<N> View for Gathering<N> {
    type V = GatheringView<N>;

    open spec fn view(&self) -> GatheringView<N> {
        GatheringView {
            embeddings: rows_of(self.embeddings@),
            next: self.next,
            context: self.context@,
        }
    }
}

/// Where a job stands.
pub enum LlmPhase<N> {
    /// Counting the request at the server.
    Counting,
    /// Starting to measure.
    Starting,
    /// Getting the embedding of the prompt.
    Contextualizing(EmbedRun<N>),
    /// Searching a cluster for similar conversation.
    Searching(Gathering<N>),
    /// Having a hit parsed, with the texts of others to come.
    Reading { gathering: Gathering<N>, rest: Vec<String> },
    /// Sending the prompt.
    Posting,
    /// Reading the answer.
    Streaming(StreamRun),
    /// Reading how long it took.
    Stopping { response: String },
    /// Having the answer written out.
    Encoding,
    /// Writing the answer to a file.
    Writing { data: String, write: WriteRun },
    /// Getting the embedding of the answer.
    Embedding { data: String, embed: EmbedRun<N> },
    /// Putting the answer into the index of a cluster.
    Inserting { data: String, embedding: EmbeddingResponse<N>, next: usize },
    /// Having the embedding of the answer written out.
    Sealing { data: String },
    /// Keeping the embedding of the answer.
    KeepingEmbedding { data: String },
    /// Keeping the answer.
    KeepingAnswer,
    /// Counting the request out at the server.
    Releasing,
}

pub enum LlmPhaseView<N> {
    Counting,
    Starting,
    Contextualizing(EmbedView<N>),
    Searching(GatheringView<N>),
    Reading { gathering: GatheringView<N>, rest: Seq<Seq<char>> },
    Posting,
    Streaming(StreamView),
    Stopping { response: Seq<char> },
    Encoding,
    Writing { data: Seq<char>, write: WriteView },
    Embedding { data: Seq<char>, embed: EmbedView<N> },
    Inserting { data: Seq<char>, embedding: EmbeddingResponseView<N>, next: usize },
    Sealing { data: Seq<char> },
    KeepingEmbedding { data: Seq<char> },
    KeepingAnswer,
    Releasing,
}

impl<N> View for LlmPhase<N> {
    type V = LlmPhaseView<N>;

    open spec fn view(&self) -> LlmPhaseView<N> {
        match self {
            LlmPhase::Counting => LlmPhaseView::Counting,
            LlmPhase::Starting => LlmPhaseView::Starting,
            LlmPhase::Contextualizing(e) => LlmPhaseView::Contextualizing(e@),
            LlmPhase::Searching(g) => LlmPhaseView::Searching(g@),
            LlmPhase::Reading { gathering, rest } => LlmPhaseView::Reading {
                gathering: gathering@,
                rest: texts_of(rest@),
            },
            LlmPhase::Posting => LlmPhaseView::Posting,
            LlmPhase::Streaming(s) => LlmPhaseView::Streaming(s@),
            LlmPhase::Stopping { response } => LlmPhaseView::Stopping { response: response@ },
            LlmPhase::Encoding => LlmPhaseView::Encoding,
            LlmPhase::Writing { data, write } => LlmPhaseView::Writing {
                data: data@,
                write: write@,
            },
            LlmPhase::Embedding { data, embed } => LlmPhaseView::Embedding {
                data: data@,
                embed: embed@,
            },
            LlmPhase::Inserting { data, embedding, next } => LlmPhaseView::Inserting {
                data: data@,
                embedding: embedding@,
                next: *next,
            },
            LlmPhase::Sealing { data } => LlmPhaseView::Sealing { data: data@ },
            LlmPhase::KeepingEmbedding { data } => LlmPhaseView::KeepingEmbedding { data: data@ },
            LlmPhase::KeepingAnswer => LlmPhaseView::KeepingAnswer,
            LlmPhase::Releasing => LlmPhaseView::Releasing,
        }
    }
}

/// A job under way.
pub struct LlmRun<N> {
    pub job: LlmJob,
    pub phase: LlmPhase<N>,
}

pub struct LlmView<N> {
    pub job: LlmJobView,
    pub phase: LlmPhaseView<N>,
}

impl<N> View for LlmRun<N> {
    type V = LlmView<N>;

    open spec fn view(&self) -> LlmView<N> {
        LlmView { job: self.job@, phase: self.phase@ }
    }
}

/// The address that prompts are sent to.
pub open spec fn generate_url(server_url: Seq<char>) -> Seq<char> {
    server_url + "generate"@
}

/// The request for the embedding of a text of a job.
pub open spec fn embed_body(job: LlmJobView, input: Seq<char>) -> EmbedRequestBodyView {
    EmbedRequestBodyView { model: job.embedding_model, input, stream: Some(false) }
}

/// Earlier conversation with one more prompt and answer.
pub open spec fn context_with(
    context: Seq<char>,
    prompt: Seq<char>,
    response: Seq<char>,
) -> Seq<char> {
    context + " \n\n "@ + prompt + " \n "@ + response
}

/// A prompt with earlier conversation put before it.
pub open spec fn prompt_with(context: Seq<char>, prompt: Seq<char>) -> Seq<char> {
    "For additional context use our previous conversation: "@ + context
        + " \n::: prompt :::\n "@ + prompt + "\n"@
}

/// The answer of a job.
pub open spec fn finished_answer(
    job: LlmJobView,
    response: Seq<char>,
    ms_taken: Option<u128>,
) -> ApiResponseView {
    ApiResponseView {
        key: Some(uuid_text(job.id)),
        model: job.request.model,
        created_at: job.stamp,
        response,
        done: true,
        ms_taken,
        server_url: Some(job.server.url),
        original_api_request: Some(job.request),
    }
}

/// The step that sends a prompt.
pub open spec fn llm_post<N>(job: LlmJobView, prompt: Seq<char>) -> NextView<LlmView<N>, N, ()> {
    NextView::Ask(
        LlmView { job, phase: LlmPhaseView::Posting },
        EffectView::PostGenerate {
            url: generate_url(job.server.url),
            body: RequestBodyView { prompt, ..job.request },
        },
    )
}

/// The search of the next cluster, or the prompt with what was gathered from all of them.
pub open spec fn llm_search<N>(job: LlmJobView, g: GatheringView<N>) -> NextView<
    LlmView<N>,
    N,
    (),
> {
    if g.next < job.clusters {
        NextView::Ask(
            LlmView {
                job,
                phase: LlmPhaseView::Searching(GatheringView { next: (g.next + 1) as usize, ..g }),
            },
            similar_effect(g.next, job.index, g.embeddings),
        )
    } else {
        llm_post(job, prompt_with(g.context, job.request.prompt))
    }
}

/// The reading of the next hit, or the search of the next cluster.
pub open spec fn llm_hits<N>(
    job: LlmJobView,
    g: GatheringView<N>,
    texts: Seq<Seq<char>>,
) -> NextView<LlmView<N>, N, ()> {
    if texts.len() > 0 {
        NextView::Ask(
            LlmView {
                job,
                phase: LlmPhaseView::Reading { gathering: g, rest: texts.skip(1) },
            },
            EffectView::DecodeResponse(texts[0]),
        )
    } else {
        llm_search(job, g)
    }
}

/// What follows from where the embedding of the prompt stands.
pub open spec fn llm_context<N>(
    job: LlmJobView,
    n: NextView<EmbedView<N>, N, EmbeddingResponseView<N>>,
) -> NextView<LlmView<N>, N, ()> {
    match n {
        NextView::Ask(e, effect) => NextView::Ask(
            LlmView { job, phase: LlmPhaseView::Contextualizing(e) },
            effect,
        ),
        NextView::Finish(e) => llm_search(
            job,
            GatheringView { embeddings: e.embeddings, next: 0, context: Seq::empty() },
        ),
        NextView::Halt(m) => NextView::Halt(m),
    }
}

/// What follows from where the reading of the answer stands. A stream that went wrong counts as
/// an empty answer.
pub open spec fn llm_stream<N>(
    job: LlmJobView,
    n: NextView<StreamView, N, Result<Seq<char>, Seq<char>>>,
) -> NextView<LlmView<N>, N, ()> {
    match n {
        NextView::Ask(s, effect) => NextView::Ask(
            LlmView { job, phase: LlmPhaseView::Streaming(s) },
            effect,
        ),
        NextView::Finish(result) => NextView::Ask(
            LlmView {
                job,
                phase: LlmPhaseView::Stopping {
                    response: match result {
                        Ok(t) => t,
                        Err(_) => Seq::empty(),
                    },
                },
            },
            EffectView::ReadTimer,
        ),
        NextView::Halt(m) => NextView::Halt(m),
    }
}

/// What follows from where the writing of the file stands. Whether it went well does not matter.
pub open spec fn llm_write<N>(
    job: LlmJobView,
    data: Seq<char>,
    n: NextView<WriteView, N, bool>,
) -> NextView<LlmView<N>, N, ()> {
    match n {
        NextView::Ask(write, effect) => NextView::Ask(
            LlmView { job, phase: LlmPhaseView::Writing { data, write } },
            effect,
        ),
        NextView::Finish(_) => llm_embed(
            job,
            data,
            embed_start::<N>(job.server.url, embed_body(job, data), job.id, job.ttl),
        ),
        NextView::Halt(m) => NextView::Halt(m),
    }
}

/// What follows from where the embedding of the answer stands.
pub open spec fn llm_embed<N>(
    job: LlmJobView,
    data: Seq<char>,
    n: NextView<EmbedView<N>, N, EmbeddingResponseView<N>>,
) -> NextView<LlmView<N>, N, ()> {
    match n {
        NextView::Ask(embed, effect) => NextView::Ask(
            LlmView { job, phase: LlmPhaseView::Embedding { data, embed } },
            effect,
        ),
        NextView::Finish(e) => llm_insert(job, data, e, 0),
        NextView::Halt(m) => NextView::Halt(m),
    }
}

/// The document that an answer is found by.
pub open spec fn answer_document<N>(
    data: Seq<char>,
    embedding: EmbeddingResponseView<N>,
) -> DocumentView<N> {
    DocumentView {
        text: data,
        vector: flat(embedding.embeddings),
        filename: None,
        url: None,
        source: None,
        model: None,
        timestamp: None,
    }
}

/// The answer put into the index of the next cluster, or its embedding written out.
pub open spec fn llm_insert<N>(
    job: LlmJobView,
    data: Seq<char>,
    embedding: EmbeddingResponseView<N>,
    next: usize,
) -> NextView<LlmView<N>, N, ()> {
    if next < job.clusters {
        NextView::Ask(
            LlmView {
                job,
                phase: LlmPhaseView::Inserting { data, embedding, next: (next + 1) as usize },
            },
            EffectView::Insert {
                cluster: next,
                index: job.index,
                id: uuid_text(job.id),
                document: answer_document(data, embedding),
            },
        )
    } else {
        NextView::Ask(
            LlmView { job, phase: LlmPhaseView::Sealing { data } },
            EffectView::EncodeEmbedding(embedding),
        )
    }
}

/// The start of a job: it is counted at its server, unless the address is no URL.
pub open spec fn llm_start<N>(job: LlmJobView) -> NextView<LlmView<N>, N, ()> {
    if url_accepted(generate_url(job.server.url)) {
        NextView::Ask(
            LlmView { job, phase: LlmPhaseView::Counting },
            EffectView::Increment(job.server.url),
        )
    } else {
        NextView::Halt("URL"@)
    }
}

/// A job after a reply.
pub open spec fn llm_next<N>(s: LlmView<N>, r: ReplyView<N>) -> NextView<LlmView<N>, N, ()> {
    let job = s.job;
    match s.phase {
        LlmPhaseView::Counting => match r {
            ReplyView::Done => NextView::Ask(
                LlmView { job, phase: LlmPhaseView::Starting },
                EffectView::StartTimer,
            ),
            _ => NextView::Halt(unwrap_fault()),
        },
        LlmPhaseView::Starting => if job.request.contextualize == Some(true) {
            llm_context(
                job,
                embed_start::<N>(
                    job.server.url,
                    embed_body(job, job.request.prompt),
                    job.id,
                    job.ttl,
                ),
            )
        } else {
            llm_post(job, job.request.prompt)
        },
        LlmPhaseView::Contextualizing(e) => llm_context(job, embed_next(e, r)),
        LlmPhaseView::Searching(g) => match r {
            ReplyView::Found(texts) => llm_hits(job, g, texts),
            _ => NextView::Halt("search"@),
        },
        LlmPhaseView::Reading { gathering, rest } => match r {
            ReplyView::Response(v) => match v.original_api_request {
                Some(request) => llm_hits(
                    job,
                    GatheringView {
                        context: context_with(gathering.context, request.prompt, v.response),
                        ..gathering
                    },
                    rest,
                ),
                None => NextView::Halt("api request exists"@),
            },
            _ => NextView::Halt("json valid"@),
        },
        LlmPhaseView::Posting => match r {
            ReplyView::Status { success, line } => llm_stream(
                job,
                stream_start::<N>(success, line),
            ),
            _ => NextView::Halt("Failed to send request"@),
        },
        LlmPhaseView::Streaming(t) => llm_stream(job, stream_next(t, r)),
        LlmPhaseView::Stopping { response } => NextView::Ask(
            LlmView { job, phase: LlmPhaseView::Encoding },
            EffectView::EncodeResponse(
                finished_answer(
                    job,
                    response,
                    match r {
                        ReplyView::Millis(n) => Some(n),
                        _ => None,
                    },
                ),
            ),
        ),
        LlmPhaseView::Encoding => match r {
            ReplyView::Text(data) => llm_write(
                job,
                data,
                write_start::<N>(job.files, uuid_text(job.id) + ".json"@, encode_utf8(data)),
            ),
            _ => NextView::Halt(unwrap_fault()),
        },
        LlmPhaseView::Writing { data, write } => llm_write(job, data, write_next(write, r)),
        LlmPhaseView::Embedding { data, embed } => llm_embed(job, data, embed_next(embed, r)),
        LlmPhaseView::Inserting { data, embedding, next } => match r {
            ReplyView::Done => llm_insert(job, data, embedding, next),
            _ => NextView::Halt("Inserted into opensearch"@),
        },
        LlmPhaseView::Sealing { data } => match r {
            ReplyView::Text(t) => match sealed(t) {
                Some(value) => NextView::Ask(
                    LlmView { job, phase: LlmPhaseView::KeepingEmbedding { data } },
                    EffectView::Put {
                        key: embed_key(hash_text(data), job.embedding_model),
                        value,
                        ttl: job.ttl,
                    },
                ),
                None => NextView::Halt(seal_fault()),
            },
            _ => NextView::Halt(unwrap_fault()),
        },
        LlmPhaseView::KeepingEmbedding { data } => match r {
            ReplyView::Done => NextView::Ask(
                LlmView { job, phase: LlmPhaseView::KeepingAnswer },
                EffectView::Put { key: uuid_text(job.id), value: data, ttl: job.ttl },
            ),
            _ => NextView::Halt("set val"@),
        },
        LlmPhaseView::KeepingAnswer => match r {
            ReplyView::Done => NextView::Ask(
                LlmView { job, phase: LlmPhaseView::Releasing },
                EffectView::Decrement(job.server.url),
            ),
            _ => NextView::Halt("set val"@),
        },
        LlmPhaseView::Releasing => match r {
            ReplyView::Done => NextView::Finish(()),
            _ => NextView::Halt(unwrap_fault()),
        },
    }
}

/// Starts a job.
pub fn llm_request<N>(job: LlmJob) -> (r: Next<LlmRun<N>, N, ()>)
    ensures
        r@ == llm_start::<N>(job@),
{
    let url = job.server.url.clone().concat("generate");
    if url_parses(url.as_str()) {
        let counter = job.server.url.clone();
        Next::Ask(LlmRun { job, phase: LlmPhase::Counting }, Effect::Increment(counter))
    } else {
        Next::Halt("URL".to_owned())
    }
}

/// Sends a prompt.
fn post<N>(job: LlmJob, prompt: String) -> (r: Next<LlmRun<N>, N, ()>)
    ensures
        r@ == llm_post::<N>(job@, prompt@),
        r matches Next::Ask(run, Effect::PostGenerate { url, body }) && {
            &&& run.job == job
            &&& url@ == job.server.url@ + "generate"@
            &&& body.model@ == job.request.model@
            &&& body.prompt == prompt
            &&& body.stream == job.request.stream
            &&& body.contextualize == job.request.contextualize
        },
{
    let url = job.server.url.clone().concat("generate");
    let body = RequestBody {
        model: job.request.model.clone(),
        prompt,
        stream: job.request.stream,
        contextualize: job.request.contextualize,
    };
    Next::Ask(LlmRun { job, phase: LlmPhase::Posting }, Effect::PostGenerate { url, body })
}

/// A prompt with earlier conversation put before it.
fn contextual_prompt(context: &str, prompt: &str) -> (r: String)
    ensures
        r@ == prompt_with(context@, prompt@),
{
    "For additional context use our previous conversation: ".to_owned().concat(context).concat(
        " \n::: prompt :::\n ",
    ).concat(prompt).concat("\n")
}

/// Earlier conversation with one more prompt and answer.
fn add_context(context: String, prompt: &str, response: &str) -> (r: String)
    ensures
        r@ == context_with(context@, prompt@, response@),
{
    context.concat(" \n\n ").concat(prompt).concat(" \n ").concat(response)
}

/// Searches the next cluster, or sends the prompt with what was gathered.
fn gather<N: Copy>(job: LlmJob, g: Gathering<N>) -> (r: Next<LlmRun<N>, N, ()>)
    ensures
        r@ == llm_search::<N>(job@, g@),
{
    if g.next < job.clusters {
        let effect = search_similar(g.next, job.index.clone(), &g.embeddings);
        let phase = LlmPhase::Searching(
            Gathering { embeddings: g.embeddings, next: g.next + 1, context: g.context },
        );
        Next::Ask(LlmRun { job, phase }, effect)
    } else {
        let prompt = contextual_prompt(g.context.as_str(), job.request.prompt.as_str());
        post(job, prompt)
    }
}

/// Reads the next hit, or searches the next cluster.
fn read_hits<N: Copy>(job: LlmJob, g: Gathering<N>, texts: Vec<String>) -> (r: Next<
    LlmRun<N>,
    N,
    (),
>)
    ensures
        r@ == llm_hits::<N>(job@, g@, texts_of(texts@)),
{
    let mut rest = texts;
    if rest.len() > 0 {
        let ghost all = texts_of(rest@);
        let text = rest.remove(0);
        assert(texts_of(rest@) =~= all.skip(1));
        Next::Ask(
            LlmRun { job, phase: LlmPhase::Reading { gathering: g, rest } },
            Effect::DecodeResponse(text),
        )
    } else {
        gather(job, g)
    }
}

/// Goes on with the embedding of the prompt.
fn contextualize<N: Copy>(
    job: LlmJob,
    next: Next<EmbedRun<N>, N, EmbeddingResponse<N>>,
) -> (r: Next<LlmRun<N>, N, ()>)
    ensures
        r@ == llm_context::<N>(job@, next@),
{
    match next {
        Next::Ask(e, effect) => Next::Ask(
            LlmRun { job, phase: LlmPhase::Contextualizing(e) },
            effect,
        ),
        Next::Finish(e) => gather(
            job,
            Gathering { embeddings: e.embeddings, next: 0, context: String::new() },
        ),
        Next::Halt(m) => Next::Halt(m),
    }
}

/// Goes on with the reading of the answer.
fn streaming<N>(job: LlmJob, next: Next<StreamRun, N, Streamed>) -> (r: Next<LlmRun<N>, N, ()>)
    ensures
        r@ == llm_stream::<N>(job@, next@),
{
    match next {
        Next::Ask(s, effect) => Next::Ask(LlmRun { job, phase: LlmPhase::Streaming(s) }, effect),
        Next::Finish(result) => {
            let response = match result.text {
                Ok(t) => t,
                Err(_) => String::new(),
            };
            Next::Ask(LlmRun { job, phase: LlmPhase::Stopping { response } }, Effect::ReadTimer)
        },
        Next::Halt(m) => Next::Halt(m),
    }
}

/// Goes on with the writing of the file.
fn writing<N: Copy>(job: LlmJob, data: String, next: Next<WriteRun, N, bool>) -> (r: Next<
    LlmRun<N>,
    N,
    (),
>)
    ensures
        r@ == llm_write::<N>(job@, data@, next@),
{
    match next {
        Next::Ask(write, effect) => Next::Ask(
            LlmRun { job, phase: LlmPhase::Writing { data, write } },
            effect,
        ),
        Next::Finish(_) => {
            let body = EmbedRequestBody {
                model: job.embedding_model.clone(),
                input: data.clone(),
                stream: Some(false),
            };
            let next = embedding_request(&job.server.url, body, job.id, job.ttl);
            embedding(job, data, next)
        },
        Next::Halt(m) => Next::Halt(m),
    }
}

/// Goes on with the embedding of the answer.
fn embedding<N: Copy>(
    job: LlmJob,
    data: String,
    next: Next<EmbedRun<N>, N, EmbeddingResponse<N>>,
) -> (r: Next<LlmRun<N>, N, ()>)
    ensures
        r@ == llm_embed::<N>(job@, data@, next@),
{
    match next {
        Next::Ask(embed, effect) => Next::Ask(
            LlmRun { job, phase: LlmPhase::Embedding { data, embed } },
            effect,
        ),
        Next::Finish(e) => inserting(job, data, e, 0),
        Next::Halt(m) => Next::Halt(m),
    }
}

/// Puts the answer into the index of the next cluster, or has its embedding written out.
fn inserting<N: Copy>(
    job: LlmJob,
    data: String,
    embedding: EmbeddingResponse<N>,
    next: usize,
) -> (r: Next<LlmRun<N>, N, ()>)
    ensures
        r@ == llm_insert::<N>(job@, data@, embedding@, next),
{
    if next < job.clusters {
        let effect = insert_document(
            next,
            job.index.clone(),
            uuid_to_string(job.id),
            data.clone(),
            &embedding.embeddings,
            None,
            None,
            None,
            None,
            None,
        );
        Next::Ask(
            LlmRun { job, phase: LlmPhase::Inserting { data, embedding, next: next + 1 } },
            effect,
        )
    } else {
        Next::Ask(
            LlmRun { job, phase: LlmPhase::Sealing { data } },
            Effect::EncodeEmbedding(embedding),
        )
    }
}

/// The answer of a job.
fn finished(job: &LlmJob, response: String, ms_taken: Option<u128>) -> (r: ApiResponse)
    ensures
        r@ == finished_answer(job@, response@, ms_taken),
        r.key is Some,
        r.key->0@ == uuid_text(job.id),
        r.model@ == job.request.model@,
        r.created_at@ == job.stamp@,
        r.response == response,
        r.done,
        r.ms_taken == ms_taken,
        r.server_url is Some,
        r.server_url->0@ == job.server.url@,
        r.original_api_request == Some(job.request),
{
    ApiResponse {
        key: Some(uuid_to_string(job.id)),
        model: job.request.model.clone(),
        created_at: job.stamp.clone(),
        response,
        done: true,
        ms_taken,
        server_url: Some(job.server.url.clone()),
        original_api_request: Some(job.request.clone()),
    }
}

impl<N: Copy> LlmRun<N> {
    /// Goes on with a reply. What is kept of an embedding opens to its text again.
    #[verifier::rlimit(50)]
    pub fn step(self, reply: Reply<N>) -> (r: Next<LlmRun<N>, N, ()>)
        ensures
            r@ == llm_next(self@, reply@),
            self@.phase is Sealing && r@ is Ask ==> {
                &&& reply@ matches ReplyView::Text(t)
                &&& sealed(t) matches Some(value)
                &&& base64_bytes(value) == Some(encode_utf8(t))
            },
    {
        let LlmRun { job, phase } = self;
        match phase {
            LlmPhase::Counting => match reply {
                Reply::Done => Next::Ask(
                    LlmRun { job, phase: LlmPhase::Starting },
                    Effect::StartTimer,
                ),
                _ => Next::Halt(unwrap_fault_text()),
            },
            LlmPhase::Starting => {
                let wanted = match job.request.contextualize {
                    Some(b) => b,
                    None => false,
                };
                if wanted {
                    let body = EmbedRequestBody {
                        model: job.embedding_model.clone(),
                        input: job.request.prompt.clone(),
                        stream: Some(false),
                    };
                    let next = embedding_request(&job.server.url, body, job.id, job.ttl);
                    contextualize(job, next)
                } else {
                    let prompt = job.request.prompt.clone();
                    post(job, prompt)
                }
            },
            LlmPhase::Contextualizing(e) => contextualize(job, e.step(reply)),
            LlmPhase::Searching(g) => match reply {
                Reply::Found(found) => read_hits(job, g, found.texts()),
                _ => Next::Halt("search".to_owned()),
            },
            LlmPhase::Reading { gathering, rest } => match reply {
                Reply::Response(v) => match v.original_api_request {
                    Some(request) => {
                        let context = add_context(
                            gathering.context,
                            request.prompt.as_str(),
                            v.response.as_str(),
                        );
                        let g = Gathering {
                            embeddings: gathering.embeddings,
                            next: gathering.next,
                            context,
                        };
                        read_hits(job, g, rest)
                    },
                    None => Next::Halt("api request exists".to_owned()),
                },
                _ => Next::Halt("json valid".to_owned()),
            },
            LlmPhase::Posting => match reply {
                Reply::Status { success, line } => streaming(job, process_stream(success, line)),
                _ => Next::Halt("Failed to send request".to_owned()),
            },
            LlmPhase::Streaming(s) => streaming(job, s.step(reply)),
            LlmPhase::Stopping { response } => {
                let ms_taken = match reply {
                    Reply::Millis(n) => Some(n),
                    _ => None,
                };
                let answer = finished(&job, response, ms_taken);
                Next::Ask(
                    LlmRun { job, phase: LlmPhase::Encoding },
                    Effect::EncodeResponse(answer),
                )
            },
            LlmPhase::Encoding => match reply {
                Reply::Text(data) => {
                    let bytes = data.as_str().as_bytes_vec();
                    let next = write_file_fs(job.files.clone(), file_name(job.id), bytes);
                    writing(job, data, next)
                },
                _ => Next::Halt(unwrap_fault_text()),
            },
            LlmPhase::Writing { data, write } => writing(job, data, write.step(reply)),
            LlmPhase::Embedding { data, embed } => embedding(job, data, embed.step(reply)),
            LlmPhase::Inserting { data, embedding, next } => match reply {
                Reply::Done => inserting(job, data, embedding, next),
                _ => Next::Halt("Inserted into opensearch".to_owned()),
            },
            LlmPhase::Sealing { data } => match reply {
                Reply::Text(t) => match seal(t.as_str()) {
                    Some(value) => {
                        let key = embed_key_of(data.as_str(), job.embedding_model.as_str());
                        let ttl: u64 = job.ttl;
                        Next::Ask(
                            LlmRun { job, phase: LlmPhase::KeepingEmbedding { data } },
                            Effect::Put { key, value, ttl },
                        )
                    },
                    None => Next::Halt("capacity overflow".to_owned()),
                },
                _ => Next::Halt(unwrap_fault_text()),
            },
            LlmPhase::KeepingEmbedding { data } => match reply {
                Reply::Done => {
                    let key = uuid_to_string(job.id);
                    let ttl: u64 = job.ttl;
                    Next::Ask(
                        LlmRun { job, phase: LlmPhase::KeepingAnswer },
                        Effect::Put { key, value: data, ttl },
                    )
                },
                _ => Next::Halt("set val".to_owned()),
            },
            LlmPhase::KeepingAnswer => match reply {
                Reply::Done => {
                    let counter = job.server.url.clone();
                    Next::Ask(
                        LlmRun { job, phase: LlmPhase::Releasing },
                        Effect::Decrement(counter),
                    )
                },
                _ => Next::Halt("set val".to_owned()),
            },
            LlmPhase::Releasing => match reply {
                Reply::Done => Next::Finish(()),
                _ => Next::Halt(unwrap_fault_text()),
            },
        }
    }
}

/// A job starts exactly where the address of its server makes a URL, and then is counted there.
pub proof fn jobs_start_at_an_address<N>(job: LlmJobView)
    ensures
        llm_start::<N>(job) is Ask <==> url_accepted(job.server.url + "generate"@),
        !(llm_start::<N>(job) is Finish),
        llm_start::<N>(job) matches NextView::Ask(s, e) ==> s.job == job && e == EffectView::<
            N,
        >::Increment(job.server.url),
{
}

/// A job stops before its end exactly where a reply is of another kind than the one that was asked
/// for, where a file is refused, where a hit holds no request, where an address is no URL, and where
/// a text is too long for base64. A server that fails, a store of files that cannot be opened and a
/// timer that cannot be read do not stop it. It comes to its end exactly where it was counted out.
pub proof fn jobs_stop_only_on_faults<N>(s: LlmView<N>, r: ReplyView<N>)
    ensures
        llm_next(s, r) is Finish <==> s.phase is Releasing && r is Done,
        llm_next(s, r) is Halt <==> match s.phase {
            LlmPhaseView::Counting => !(r is Done),
            LlmPhaseView::Starting => s.job.request.contextualize == Some(true) && !url_accepted(
                s.job.server.url + "embed"@,
            ),
            LlmPhaseView::Contextualizing(x) => embed_next(x, r) is Halt,
            LlmPhaseView::Searching(_) => !(r is Found),
            LlmPhaseView::Reading { .. } => !(r is Response
                && r->Response_0.original_api_request is Some),
            LlmPhaseView::Posting => !(r is Status),
            LlmPhaseView::Streaming(_) => false,
            LlmPhaseView::Stopping { .. } => false,
            LlmPhaseView::Encoding => !(r is Text),
            LlmPhaseView::Writing { write, .. } => {
                ||| write_next(write, r) is Halt
                ||| write_next(write, r) is Finish && !url_accepted(s.job.server.url + "embed"@)
            },
            LlmPhaseView::Embedding { embed, .. } => embed_next(embed, r) is Halt,
            LlmPhaseView::Inserting { .. } => !(r is Done),
            LlmPhaseView::Sealing { .. } => !(r is Text && (encode_utf8(r->Text_0).len() + 2) / 3
                * 4 <= isize::MAX),
            LlmPhaseView::KeepingEmbedding { .. } => !(r is Done),
            LlmPhaseView::KeepingAnswer => !(r is Done),
            LlmPhaseView::Releasing => !(r is Done),
        },
{
}

/// The hits of a search are parsed one after the other, each of them whole; then the next cluster is
/// searched, and after the last one the prompt is sent.
pub proof fn hits_are_read_in_order<N>(
    job: LlmJobView,
    g: GatheringView<N>,
    texts: Seq<Seq<char>>,
)
    ensures
        ({
            let n = llm_next(
                LlmView { job, phase: LlmPhaseView::Searching(g) },
                ReplyView::Found(texts),
            );
            &&& texts.len() > 0 ==> (n matches NextView::Ask(s, EffectView::DecodeResponse(t)) && t
                == texts[0] && (s.phase matches LlmPhaseView::Reading { gathering, rest }
                && gathering == g && rest == texts.skip(1)))
            &&& texts.len() == 0 && g.next < job.clusters ==> (n matches NextView::Ask(
                s,
                EffectView::Search { cluster, .. },
            ) && cluster == g.next && (s.phase matches LlmPhaseView::Searching(h) && h.next
                == g.next + 1 && h.context == g.context && h.embeddings == g.embeddings))
            &&& texts.len() == 0 && g.next >= job.clusters ==> (n matches NextView::Ask(_, e) && e
                is PostGenerate)
        }),
{
}

/// A job takes all its steps, one after the other: it measures the time, puts the prompt into context
/// where the request asks for that, sends it, reads the answer to its end, has it written out, puts
/// it into a file, gets its embedding, puts it into the index of every cluster, keeps the embedding
/// and then the answer, and is counted out.
pub proof fn jobs_take_all_their_steps<N>(s: LlmView<N>, r: ReplyView<N>)
    ensures
        llm_next(s, r) matches NextView::Ask(t, e) ==> t.job == s.job && match s.phase {
            LlmPhaseView::Counting => e is StartTimer,
            LlmPhaseView::Starting => if s.job.request.contextualize == Some(true) {
                t.phase is Contextualizing && e == EffectView::<N>::Exists(
                    embed_key(hash_text(s.job.request.prompt), s.job.embedding_model),
                )
            } else {
                e is PostGenerate
            },
            LlmPhaseView::Contextualizing(x) => match embed_next(x, r) {
                NextView::Ask(y, f) => e == f && t.phase == LlmPhaseView::Contextualizing(y),
                _ => if s.job.clusters > 0 {
                    e matches EffectView::Search { cluster, .. } && cluster == 0
                } else {
                    e is PostGenerate
                },
            },
            LlmPhaseView::Posting => if r is Status && r->success {
                e is NextChunk
            } else {
                e is ReadTimer && (t.phase matches LlmPhaseView::Stopping { response }
                    && response.len() == 0)
            },
            LlmPhaseView::Stopping { .. } => e is EncodeResponse,
            LlmPhaseView::Encoding => {
                &&& e == EffectView::<N>::OpenFiles(s.job.files)
                &&& t.phase matches LlmPhaseView::Writing { data, .. }
                &&& r == ReplyView::<N>::Text(data)
            },
            LlmPhaseView::Writing { data, write } => match write_next(write, r) {
                NextView::Ask(_, f) => e == f && (t.phase matches LlmPhaseView::Writing {
                    data: d,
                    ..
                } && d == data),
                _ => e == EffectView::<N>::Exists(
                    embed_key(hash_text(data), s.job.embedding_model),
                ) && (t.phase matches LlmPhaseView::Embedding { data: d, .. } && d == data),
            },
            LlmPhaseView::Embedding { data, embed } => match embed_next(embed, r) {
                NextView::Ask(_, f) => e == f,
                _ => if s.job.clusters > 0 {
                    e matches EffectView::Insert { cluster, .. } && cluster == 0
                } else {
                    e is EncodeEmbedding
                },
            },
            LlmPhaseView::Inserting { next, .. } => if next < s.job.clusters {
                e matches EffectView::Insert { cluster, .. } && cluster == next
            } else {
                e is EncodeEmbedding
            },
            LlmPhaseView::Sealing { data } => e is Put && t.phase is KeepingEmbedding,
            LlmPhaseView::KeepingEmbedding { data } => e == (EffectView::<N>::Put {
                key: uuid_text(s.job.id),
                value: data,
                ttl: s.job.ttl,
            }),
            LlmPhaseView::KeepingAnswer => e == EffectView::<N>::Decrement(s.job.server.url),
            _ => true,
        },
{
}

} // verus!
