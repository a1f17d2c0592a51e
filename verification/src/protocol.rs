//! What the library asks of the world, and what it is told.
//!
//! Each piece of work is a state machine. Its state and the reply to what it asked for last give
//! the next state and the next effect to perform, or its end. Effects are performed outside.

use vstd::prelude::*;

use crate::types::{
    texts_of, ApiResponse, ApiResponseView, Document, DocumentView, EmbedRequestBody,
    EmbedRequestBodyView, EmbeddingResponse, EmbeddingResponseView, FileStore, FileStoreView,
    LLMServer, LLMServerView, RequestBody, RequestBodyView, SearchResponse, hit_texts,
};

verus! {

/// A request that a server was found for, with all that is needed to see it through.
#[derive(Debug)]
pub struct LlmJob {
    pub request: RequestBody,
    pub server: LLMServer,
    pub id: u128,
    pub stamp: String,
    pub ttl: u64,
    pub files: FileStore,
    pub index: String,
    pub clusters: usize,
    pub embedding_model: String,
}

pub struct LlmJobView {
    pub request: RequestBodyView,
    pub server: LLMServerView,
    pub id: u128,
    pub stamp: Seq<char>,
    pub ttl: u64,
    pub files: FileStoreView,
    pub index: Seq<char>,
    pub clusters: usize,
    pub embedding_model: Seq<char>,
}

impl View for LlmJob {
    type V = LlmJobView;

    open spec fn view(&self) -> LlmJobView {
        LlmJobView {
            request: self.request@,
            server: self.server@,
            id: self.id,
            stamp: self.stamp@,
            ttl: self.ttl,
            files: self.files@,
            index: self.index@,
            clusters: self.clusters,
            embedding_model: self.embedding_model@,
        }
    }
}

/// A search for the documents nearest to a vector: how many to return, and how many to consider
/// in each part of the index.
#[derive(Debug)]
pub struct SearchQuery<N> {
    pub size: u32,
    pub k: u32,
    pub vector: Vec<N>,
}

pub struct SearchQueryView<N> {
    pub size: u32,
    pub k: u32,
    pub vector: Seq<N>,
}

impl<N> View for SearchQuery<N> {
    type V = SearchQueryView<N>;

    open spec fn view(&self) -> SearchQueryView<N> {
        SearchQueryView { size: self.size, k: self.k, vector: self.vector@ }
    }
}

/// A request to a file store to expire the files of a bucket.
#[derive(Debug)]
pub struct LifecycleRequest {
    pub url: String,
    pub user: String,
    pub pass: String,
    pub content_type: String,
    pub body: String,
}

pub struct LifecycleRequestView {
    pub url: Seq<char>,
    pub user: Seq<char>,
    pub pass: Seq<char>,
    pub content_type: Seq<char>,
    pub body: Seq<char>,
}

impl View for LifecycleRequest {
    type V = LifecycleRequestView;

    open spec fn view(&self) -> LifecycleRequestView {
        LifecycleRequestView {
            url: self.url@,
            user: self.user@,
            pass: self.pass@,
            content_type: self.content_type@,
            body: self.body@,
        }
    }
}

/// The kind of content of an answer.
#[derive(Debug, Clone, Copy, PartialEq, Eq, Structural)]
pub enum Content {
    Json,
    Html,
}

/// An answer to a client.
#[derive(Debug)]
pub struct HttpReply {
    pub status: u16,
    pub content: Content,
    pub body: String,
}

pub struct HttpReplyView {
    pub status: u16,
    pub content: Content,
    pub body: Seq<char>,
}

impl View for HttpReply {
    type V = HttpReplyView;

    open spec fn view(&self) -> HttpReplyView {
        HttpReplyView { status: self.status, content: self.content, body: self.body@ }
    }
}

/// A JSON answer.
pub open spec fn json_reply(status: u16, body: Seq<char>) -> HttpReplyView {
    HttpReplyView { status, content: Content::Json, body }
}

/// A JSON answer.
pub fn reply_json(status: u16, body: String) -> (r: HttpReply)
    ensures
        r@ == json_reply(status, body@),
        r.status == status,
        r.content == Content::Json,
        r.body == body,
{
    HttpReply { status, content: Content::Json, body }
}

/// A JSON answer has the status and, character for character, the body that it is made with.
pub proof fn json_replies_hold_their_body(status: u16, body: Seq<char>)
    ensures
        json_reply(status, body).status == status,
        json_reply(status, body).content == Content::Json,
        json_reply(status, body).body == body,
{
}

/// Something to be done outside.
#[derive(Debug)]
pub enum Effect<N> {
    /// Ask the key store whether it holds a key. Answered by `Flag`.
    Exists(String),
    /// Read a text from the key store. Answered by `Text`.
    Get(String),
    /// Read a counter from the key store. Answered by `Count`.
    Load(String),
    /// Write a text to the key store for some seconds. Answered by `Done`.
    Put { key: String, value: String, ttl: u64 },
    /// Remove a key. Answered by `Done`.
    Delete(String),
    /// Add one to a counter. Answered by `Done`.
    Increment(String),
    /// Take one from a counter. Answered by `Done`.
    Decrement(String),
    /// Read a page of the keys that match a pattern. Answered by `Page`.
    Scan { cursor: u64, pattern: String, count: u64 },
    /// Read the clock. Answered by `Time`.
    Now,
    /// Start measuring. Answered by anything.
    StartTimer,
    /// Read how long it took since `StartTimer`. Answered by `Millis`.
    ReadTimer,
    /// Write an answer as JSON. Answered by `Text`.
    EncodeResponse(ApiResponse),
    /// Read an answer from JSON. Answered by `Response`.
    DecodeResponse(String),
    /// Write an embedding as JSON. Answered by `Text`.
    EncodeEmbedding(EmbeddingResponse<N>),
    /// Read an embedding from JSON. Answered by `Embedding`.
    DecodeEmbedding(Vec<u8>),
    /// Send a request to generate text. Answered by `Status`.
    PostGenerate { url: String, body: RequestBody },
    /// Read on in the text being generated. Answered by `Chunk`, at the end by `End`.
    NextChunk,
    /// Send a request for an embedding. Answered by `Embedding`; by `Refused` where it was sent
    /// and the answer could not be read.
    PostEmbed { url: String, request: EmbedRequestBody },
    /// Search an index of a cluster. Answered by `Found`.
    Search { cluster: usize, index: String, query: SearchQuery<N> },
    /// Put a document into an index of a cluster. Answered by `Done`.
    Insert { cluster: usize, index: String, id: String, document: Document<N> },
    /// Connect to a file store. Answered by `Done`.
    OpenFiles(FileStore),
    /// Write a file to the file store connected to. Answered by `Done`.
    PutFile { bucket: String, name: String, data: Vec<u8> },
    /// Send a request to expire files. Answered by `Done`.
    PutLifecycle(LifecycleRequest),
    /// Start a job and go on at once. Answered by anything.
    Spawn(LlmJob),
    /// Run a job to its end. Answered by anything.
    Run(LlmJob),
}

pub enum EffectView<N> {
    Exists(Seq<char>),
    Get(Seq<char>),
    Load(Seq<char>),
    Put { key: Seq<char>, value: Seq<char>, ttl: u64 },
    Delete(Seq<char>),
    Increment(Seq<char>),
    Decrement(Seq<char>),
    Scan { cursor: u64, pattern: Seq<char>, count: u64 },
    Now,
    StartTimer,
    ReadTimer,
    EncodeResponse(ApiResponseView),
    DecodeResponse(Seq<char>),
    EncodeEmbedding(EmbeddingResponseView<N>),
    DecodeEmbedding(Seq<u8>),
    PostGenerate { url: Seq<char>, body: RequestBodyView },
    NextChunk,
    PostEmbed { url: Seq<char>, request: EmbedRequestBodyView },
    Search { cluster: usize, index: Seq<char>, query: SearchQueryView<N> },
    Insert { cluster: usize, index: Seq<char>, id: Seq<char>, document: DocumentView<N> },
    OpenFiles(FileStoreView),
    PutFile { bucket: Seq<char>, name: Seq<char>, data: Seq<u8> },
    PutLifecycle(LifecycleRequestView),
    Spawn(LlmJobView),
    Run(LlmJobView),
}

impl<N> View for Effect<N> {
    type V = EffectView<N>;

    open spec fn view(&self) -> EffectView<N> {
        match self {
            Effect::Exists(k) => EffectView::Exists(k@),
            Effect::Get(k) => EffectView::Get(k@),
            Effect::Load(k) => EffectView::Load(k@),
            Effect::Put { key, value, ttl } => EffectView::Put {
                key: key@,
                value: value@,
                ttl: *ttl,
            },
            Effect::Delete(k) => EffectView::Delete(k@),
            Effect::Increment(k) => EffectView::Increment(k@),
            Effect::Decrement(k) => EffectView::Decrement(k@),
            Effect::Scan { cursor, pattern, count } => EffectView::Scan {
                cursor: *cursor,
                pattern: pattern@,
                count: *count,
            },
            Effect::Now => EffectView::Now,
            Effect::StartTimer => EffectView::StartTimer,
            Effect::ReadTimer => EffectView::ReadTimer,
            Effect::EncodeResponse(v) => EffectView::EncodeResponse(v@),
            Effect::DecodeResponse(t) => EffectView::DecodeResponse(t@),
            Effect::EncodeEmbedding(v) => EffectView::EncodeEmbedding(v@),
            Effect::DecodeEmbedding(b) => EffectView::DecodeEmbedding(b@),
            Effect::PostGenerate { url, body } => EffectView::PostGenerate {
                url: url@,
                body: body@,
            },
            Effect::NextChunk => EffectView::NextChunk,
            Effect::PostEmbed { url, request } => EffectView::PostEmbed {
                url: url@,
                request: request@,
            },
            Effect::Search { cluster, index, query } => EffectView::Search {
                cluster: *cluster,
                index: index@,
                query: query@,
            },
            Effect::Insert { cluster, index, id, document } => EffectView::Insert {
                cluster: *cluster,
                index: index@,
                id: id@,
                document: document@,
            },
            Effect::OpenFiles(f) => EffectView::OpenFiles(f@),
            Effect::PutFile { bucket, name, data } => EffectView::PutFile {
                bucket: bucket@,
                name: name@,
                data: data@,
            },
            Effect::PutLifecycle(l) => EffectView::PutLifecycle(l@),
            Effect::Spawn(j) => EffectView::Spawn(j@),
            Effect::Run(j) => EffectView::Run(j@),
        }
    }
}

/// What came of an effect.
#[derive(Debug)]
pub enum Reply<N> {
    Done,
    Flag(bool),
    Count(i64),
    Text(String),
    Page { cursor: u64, keys: Vec<String> },
    Time { seconds: i64, nanos: u32 },
    Millis(u128),
    Response(ApiResponse),
    Embedding(EmbeddingResponse<N>),
    Found(SearchResponse<N>),
    Status { success: bool, line: String },
    Chunk(Vec<u8>),
    End,
    /// The effect failed; the text says why.
    Failed(String),
    /// The effect took place and its result could not be used.
    Refused(String),
}

pub enum ReplyView<N> {
    Done,
    Flag(bool),
    Count(i64),
    Text(Seq<char>),
    Page { cursor: u64, keys: Seq<Seq<char>> },
    Time { seconds: i64, nanos: u32 },
    Millis(u128),
    Response(ApiResponseView),
    Embedding(EmbeddingResponseView<N>),
    Found(Seq<Seq<char>>),
    Status { success: bool, line: Seq<char> },
    Chunk(Seq<u8>),
    End,
    Failed(Seq<char>),
    Refused(Seq<char>),
}

impl<N> View for Reply<N> {
    type V = ReplyView<N>;

    open spec fn view(&self) -> ReplyView<N> {
        match self {
            Reply::Done => ReplyView::Done,
            Reply::Flag(b) => ReplyView::Flag(*b),
            Reply::Count(n) => ReplyView::Count(*n),
            Reply::Text(t) => ReplyView::Text(t@),
            Reply::Page { cursor, keys } => ReplyView::Page {
                cursor: *cursor,
                keys: texts_of(keys@),
            },
            Reply::Time { seconds, nanos } => ReplyView::Time { seconds: *seconds, nanos: *nanos },
            Reply::Millis(n) => ReplyView::Millis(*n),
            Reply::Response(v) => ReplyView::Response(v@),
            Reply::Embedding(v) => ReplyView::Embedding(v@),
            Reply::Found(v) => ReplyView::Found(hit_texts(*v)),
            Reply::Status { success, line } => ReplyView::Status {
                success: *success,
                line: line@,
            },
            Reply::Chunk(b) => ReplyView::Chunk(b@),
            Reply::End => ReplyView::End,
            Reply::Failed(t) => ReplyView::Failed(t@),
            Reply::Refused(t) => ReplyView::Refused(t@),
        }
    }
}

/// The number read from a counter; a counter that cannot be read counts as zero.
pub open spec fn count_in<N>(r: ReplyView<N>) -> i64 {
    match r {
        ReplyView::Count(n) => n,
        _ => 0,
    }
}

/// The answer to whether a key is there; where there is no answer it counts as absent.
pub open spec fn flag_in<N>(r: ReplyView<N>) -> bool {
    match r {
        ReplyView::Flag(b) => b,
        _ => false,
    }
}

/// The text read from the key store; one that cannot be read counts as empty.
pub open spec fn text_in<N>(r: ReplyView<N>) -> Seq<char> {
    match r {
        ReplyView::Text(t) => t,
        _ => Seq::empty(),
    }
}

/// Why an effect failed, as far as it was said.
pub open spec fn detail_in<N>(r: ReplyView<N>) -> Seq<char> {
    match r {
        ReplyView::Failed(t) => t,
        ReplyView::Refused(t) => t,
        _ => Seq::empty(),
    }
}

/// What is read from a reply is what it holds, whole; a reply of another kind counts as zero, no,
/// or the empty text.
pub proof fn replies_are_taken_as_they_are<N>(r: ReplyView<N>)
    ensures
        r matches ReplyView::Count(n) ==> count_in(r) == n,
        !(r is Count) ==> count_in(r) == 0,
        r == ReplyView::<N>::Flag(true) <==> flag_in(r),
        r matches ReplyView::Text(t) ==> text_in(r) == t,
        !(r is Text) ==> text_in(r).len() == 0,
        r matches ReplyView::Failed(t) ==> detail_in(r) == t,
        r matches ReplyView::Refused(t) ==> detail_in(r) == t,
        !(r is Failed) && !(r is Refused) ==> detail_in(r).len() == 0,
{
}

impl<N> Reply<N> {
    /// Why the effect failed, as far as it was said.
    pub fn detail(self) -> (r: String)
        ensures
            r@ == detail_in(self@),
    {
        match self {
            Reply::Failed(t) => t,
            Reply::Refused(t) => t,
            _ => String::new(),
        }
    }

    /// The number read from a counter, or zero.
    pub fn count(&self) -> (r: i64)
        ensures
            r == count_in(self@),
    {
        match self {
            Reply::Count(n) => *n,
            _ => 0,
        }
    }

    /// The answer to whether a key is there, or no.
    pub fn flag(&self) -> (r: bool)
        ensures
            r == flag_in(self@),
    {
        match self {
            Reply::Flag(b) => *b,
            _ => false,
        }
    }

    /// The text read, or the empty text.
    pub fn text(self) -> (r: String)
        ensures
            r@ == text_in(self@),
    {
        match self {
            Reply::Text(t) => t,
            _ => String::new(),
        }
    }
}

/// What comes next in a piece of work: an effect and the state that waits for the reply, the
/// result, or a fault that ends the work.
#[derive(Debug)]
pub enum Next<R, N, T> {
    Ask(R, Effect<N>),
    Finish(T),
    Halt(String),
}

pub enum NextView<R, N, T> {
    Ask(R, EffectView<N>),
    Finish(T),
    Halt(Seq<char>),
}

impl<R: View, N, T: View> View for Next<R, N, T> {
    type V = NextView<R::V, N, T::V>;

    open spec fn view(&self) -> NextView<R::V, N, T::V> {
        match self {
            Next::Ask(s, e) => NextView::Ask(s@, e@),
            Next::Finish(t) => NextView::Finish(t@),
            Next::Halt(m) => NextView::Halt(m@),
        }
    }
}

/// The fault of a step that has no text of its own for its failure.
pub open spec fn unwrap_fault() -> Seq<char> {
    "called `Result::unwrap()` on an `Err` value"@
}

/// The fault of a step that has no text of its own for its failure.
pub fn unwrap_fault_text() -> (r: String)
    ensures
        r@ == unwrap_fault(),
{
    "called `Result::unwrap()` on an `Err` value".to_owned()
}

} // verus!
