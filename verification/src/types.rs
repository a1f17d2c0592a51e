//! The values that pass between clients, servers and stores, and their views.
//!
//! Where a value holds measured numbers (embeddings, scores), their type is the parameter `N`:
//! nothing here computes with them.

use vstd::prelude::*;

verus! {

/// The characters of an optional text.
pub open spec fn text_of(o: Option<String>) -> Option<Seq<char>> {
    match o {
        Some(s) => Some(s@),
        None => None,
    }
}

/// The characters of each of some texts.
pub open spec fn texts_of(v: Seq<String>) -> Seq<Seq<char>> {
    Seq::new(v.len(), |i: int| v[i]@)
}

/// The rows of a table of numbers.
pub open spec fn rows_of<N>(v: Seq<Vec<N>>) -> Seq<Seq<N>> {
    Seq::new(v.len(), |i: int| v[i]@)
}

/// A request to generate text.
#[derive(Debug)]
pub struct RequestBody {
    pub model: String,
    pub prompt: String,
    pub stream: Option<bool>,
    pub contextualize: Option<bool>,
}

pub struct RequestBodyView {
    pub model: Seq<char>,
    pub prompt: Seq<char>,
    pub stream: Option<bool>,
    pub contextualize: Option<bool>,
}

impl View for RequestBody {
    type V = RequestBodyView;

    open spec fn view(&self) -> RequestBodyView {
        RequestBodyView {
            model: self.model@,
            prompt: self.prompt@,
            stream: self.stream,
            contextualize: self.contextualize,
        }
    }
}

impl Clone for RequestBody {
    fn clone(&self) -> (r: Self)
        ensures
            r == *self,
    {
        RequestBody {
            model: self.model.clone(),
            prompt: self.prompt.clone(),
            stream: self.stream,
            contextualize: self.contextualize,
        }
    }
}

/// A request for the embedding of a text.
#[derive(Debug)]
pub struct EmbedRequestBody {
    pub model: String,
    pub input: String,
    pub stream: Option<bool>,
}

pub struct EmbedRequestBodyView {
    pub model: Seq<char>,
    pub input: Seq<char>,
    pub stream: Option<bool>,
}

impl View for EmbedRequestBody {
    type V = EmbedRequestBodyView;

    open spec fn view(&self) -> EmbedRequestBodyView {
        EmbedRequestBodyView { model: self.model@, input: self.input@, stream: self.stream }
    }
}

impl Clone for EmbedRequestBody {
    fn clone(&self) -> (r: Self)
        ensures
            r == *self,
    {
        EmbedRequestBody {
            model: self.model.clone(),
            input: self.input.clone(),
            stream: self.stream,
        }
    }
}

/// What is kept of a request: pending, or answered.
#[derive(Debug)]
pub struct ApiResponse {
    pub key: Option<String>,
    pub model: String,
    pub created_at: String,
    pub response: String,
    pub done: bool,
    pub ms_taken: Option<u128>,
    pub server_url: Option<String>,
    pub original_api_request: Option<RequestBody>,
}

pub struct ApiResponseView {
    pub key: Option<Seq<char>>,
    pub model: Seq<char>,
    pub created_at: Seq<char>,
    pub response: Seq<char>,
    pub done: bool,
    pub ms_taken: Option<u128>,
    pub server_url: Option<Seq<char>>,
    pub original_api_request: Option<RequestBodyView>,
}

impl View for ApiResponse {
    type V = ApiResponseView;

    open spec fn view(&self) -> ApiResponseView {
        ApiResponseView {
            key: text_of(self.key),
            model: self.model@,
            created_at: self.created_at@,
            response: self.response@,
            done: self.done,
            ms_taken: self.ms_taken,
            server_url: text_of(self.server_url),
            original_api_request: match self.original_api_request {
                Some(b) => Some(b@),
                None => None,
            },
        }
    }
}

/// What is kept of some requests.
pub open spec fn responses_of(v: Seq<ApiResponse>) -> Seq<ApiResponseView> {
    Seq::new(v.len(), |i: int| v[i]@)
}

/// The embeddings of a text, one row for each part of it.
#[derive(Debug)]
pub struct EmbeddingResponse<N> {
    pub model: String,
    pub embeddings: Vec<Vec<N>>,
}

pub struct EmbeddingResponseView<N> {
    pub model: Seq<char>,
    pub embeddings: Seq<Seq<N>>,
}

impl<N> View for EmbeddingResponse<N> {
    type V = EmbeddingResponseView<N>;

    open spec fn view(&self) -> EmbeddingResponseView<N> {
        EmbeddingResponseView { model: self.model@, embeddings: rows_of(self.embeddings@) }
    }
}

/// A server that generates text: the address, how much it is preferred, and how many requests
/// it takes at once.
#[derive(Debug)]
pub struct LLMServer {
    pub url: String,
    pub weight: i32,
    pub max_concurrent: i64,
}

pub struct LLMServerView {
    pub url: Seq<char>,
    pub weight: i32,
    pub max_concurrent: i64,
}

impl View for LLMServer {
    type V = LLMServerView;

    open spec fn view(&self) -> LLMServerView {
        LLMServerView { url: self.url@, weight: self.weight, max_concurrent: self.max_concurrent }
    }
}

impl Clone for LLMServer {
    fn clone(&self) -> (r: Self)
        ensures
            r == *self,
    {
        LLMServer {
            url: self.url.clone(),
            weight: self.weight,
            max_concurrent: self.max_concurrent,
        }
    }
}

/// Some servers.
pub open spec fn servers_of(v: Seq<LLMServer>) -> Seq<LLMServerView> {
    Seq::new(v.len(), |i: int| v[i]@)
}

/// Copies a list of servers.
pub fn copy_servers(v: &Vec<LLMServer>) -> (r: Vec<LLMServer>)
    ensures
        servers_of(r@) == servers_of(v@),
        r@ == v@,
{
    let r = v.clone();
    assert(r@ =~= v@);
    assert(servers_of(r@) =~= servers_of(v@));
    r
}

/// A search cluster.
#[derive(Debug)]
pub struct OSServer {
    pub url: String,
}

impl Clone for OSServer {
    fn clone(&self) -> (r: Self)
        ensures
            r == *self,
    {
        OSServer { url: self.url.clone() }
    }
}

/// Where files are kept, and for how many days it is asked to keep them.
#[derive(Debug)]
pub struct FileStore {
    pub url: String,
    pub user: String,
    pub pass: String,
    pub bucket: String,
    pub expiration: i32,
}

pub struct FileStoreView {
    pub url: Seq<char>,
    pub user: Seq<char>,
    pub pass: Seq<char>,
    pub bucket: Seq<char>,
    pub expiration: i32,
}

impl View for FileStore {
    type V = FileStoreView;

    open spec fn view(&self) -> FileStoreView {
        FileStoreView {
            url: self.url@,
            user: self.user@,
            pass: self.pass@,
            bucket: self.bucket@,
            expiration: self.expiration,
        }
    }
}

impl Clone for FileStore {
    fn clone(&self) -> (r: Self)
        ensures
            r == *self,
    {
        FileStore {
            url: self.url.clone(),
            user: self.user.clone(),
            pass: self.pass.clone(),
            bucket: self.bucket.clone(),
            expiration: self.expiration,
        }
    }
}

/// A request to put a text into a search index.
#[derive(Debug)]
pub struct IndexRequestBody {
    pub content: String,
    pub filename: Option<String>,
    pub url: Option<String>,
    pub source: Option<String>,
    pub index_name: Option<String>,
}

pub struct IndexRequestBodyView {
    pub content: Seq<char>,
    pub filename: Option<Seq<char>>,
    pub url: Option<Seq<char>>,
    pub source: Option<Seq<char>>,
    pub index_name: Option<Seq<char>>,
}

impl View for IndexRequestBody {
    type V = IndexRequestBodyView;

    open spec fn view(&self) -> IndexRequestBodyView {
        IndexRequestBodyView {
            content: self.content@,
            filename: text_of(self.filename),
            url: text_of(self.url),
            source: text_of(self.source),
            index_name: text_of(self.index_name),
        }
    }
}

impl Clone for IndexRequestBody {
    fn clone(&self) -> (r: Self)
        ensures
            r == *self,
    {
        IndexRequestBody {
            content: self.content.clone(),
            filename: self.filename.clone(),
            url: self.url.clone(),
            source: self.source.clone(),
            index_name: self.index_name.clone(),
        }
    }
}

/// A document as a search index keeps it.
#[derive(Debug)]
pub struct Document<N> {
    pub text: String,
    pub vector: Vec<N>,
    pub filename: Option<String>,
    pub url: Option<String>,
    pub source: Option<String>,
    pub model: Option<String>,
    pub timestamp: Option<String>,
}

pub struct DocumentView<N> {
    pub text: Seq<char>,
    pub vector: Seq<N>,
    pub filename: Option<Seq<char>>,
    pub url: Option<Seq<char>>,
    pub source: Option<Seq<char>>,
    pub model: Option<Seq<char>>,
    pub timestamp: Option<Seq<char>>,
}

impl<N> View for Document<N> {
    type V = DocumentView<N>;

    open spec fn view(&self) -> DocumentView<N> {
        DocumentView {
            text: self.text@,
            vector: self.vector@,
            filename: text_of(self.filename),
            url: text_of(self.url),
            source: text_of(self.source),
            model: text_of(self.model),
            timestamp: text_of(self.timestamp),
        }
    }
}

/// What a search found.
#[derive(Debug)]
pub struct SearchResponse<N> {
    pub _shards: Shards,
    pub hits: Hits<N>,
    pub timed_out: bool,
    pub took: u64,
}

/// How many parts of the index took part in a search.
#[derive(Debug)]
pub struct Shards {
    pub failed: u32,
    pub skipped: u32,
    pub successful: u32,
    pub total: u32,
}

/// The hits of a search.
#[derive(Debug)]
pub struct Hits<N> {
    pub hits: Vec<Hit<N>>,
    pub max_score: Option<N>,
    pub total: TotalHits,
}

/// One hit of a search.
#[derive(Debug)]
pub struct Hit<N> {
    pub _id: String,
    pub _index: String,
    pub _score: Option<N>,
    pub _source: Source<N>,
}

/// The part of a document that a hit shows.
#[derive(Debug)]
pub struct Source<N> {
    pub embedding: Vec<N>,
    pub text: String,
}

/// How many documents match.
#[derive(Debug)]
pub struct TotalHits {
    pub relation: String,
    pub value: u32,
}

/// The texts of the documents found, in the order of the hits.
pub open spec fn hit_texts<N>(r: SearchResponse<N>) -> Seq<Seq<char>> {
    Seq::new(r.hits.hits@.len(), |i: int| r.hits.hits@[i]._source.text@)
}

impl<N> SearchResponse<N> {
    /// The texts of the documents found, in the order of the hits.
    pub fn texts(&self) -> (r: Vec<String>)
        ensures
            texts_of(r@) == hit_texts(*self),
    {
        let mut r: Vec<String> = Vec::new();
        for i in 0..self.hits.hits.len()
            invariant
                r@.len() == i,
                i <= self.hits.hits@.len(),
                forall|j: int| 0 <= j < i ==> r@[j]@ == self.hits.hits@[j]._source.text@,
        {
            r.push(self.hits.hits[i]._source.text.clone());
        }
        assert(texts_of(r@) =~= hit_texts(*self));
        r
    }
}

} // verus!
