//! The settings that the work is done with.

use vstd::prelude::*;

use crate::protocol::{LlmJob, LlmJobView};
use crate::types::{
    copy_servers, servers_of, FileStore, FileStoreView, LLMServer, LLMServerView, OSServer,
    RequestBody, RequestBodyView,
};

verus! {

/// The configuration of the service.
#[derive(Debug)]
pub struct AppConfig {
    pub redis_url: String,
    pub s3_url: String,
    pub s3_user: String,
    pub s3_pass: String,
    pub s3_expiration: i32,
    pub s3_prompt_bucket: String,
    pub redis_expiration: u64,
    pub servers: Vec<LLMServer>,
    pub opensearch_user: String,
    pub opensearch_password: String,
    pub opensearch_servers: Vec<OSServer>,
    pub opensearch_index: String,
    pub embedding_model: String,
}

/// What every request is served with.
#[derive(Debug)]
pub struct State {
    pub possible_servers: Vec<LLMServer>,
    pub redis_expiration: u64,
    pub s3_url: String,
    pub s3_user: String,
    pub s3_pass: String,
    pub s3_expiration: i32,
    pub s3_bucket: String,
    pub opensearch_user: String,
    pub opensearch_password: String,
    pub opensearch_servers: Vec<OSServer>,
    pub opensearch_index: String,
    pub embedding_model: String,
}

/// The part of the settings that decides what is done.
pub struct StateView {
    pub servers: Seq<LLMServerView>,
    pub ttl: u64,
    pub files: FileStoreView,
    pub index: Seq<char>,
    pub clusters: nat,
    pub embedding_model: Seq<char>,
}

impl View for State {
    type V = StateView;

    open spec fn view(&self) -> StateView {
        StateView {
            servers: servers_of(self.possible_servers@),
            ttl: self.redis_expiration,
            files: FileStoreView {
                url: self.s3_url@,
                user: self.s3_user@,
                pass: self.s3_pass@,
                bucket: self.s3_bucket@,
                expiration: self.s3_expiration,
            },
            index: self.opensearch_index@,
            clusters: self.opensearch_servers@.len(),
            embedding_model: self.embedding_model@,
        }
    }
}

/// The settings that a configuration asks for.
pub open spec fn configured(c: AppConfig) -> StateView {
    StateView {
        servers: servers_of(c.servers@),
        ttl: c.redis_expiration,
        files: FileStoreView {
            url: c.s3_url@,
            user: c.s3_user@,
            pass: c.s3_pass@,
            bucket: c.s3_prompt_bucket@,
            expiration: c.s3_expiration,
        },
        index: c.opensearch_index@,
        clusters: c.opensearch_servers@.len(),
        embedding_model: c.embedding_model@,
    }
}

/// The job that sees a request through at a server.
pub open spec fn job_of(
    s: StateView,
    request: RequestBodyView,
    server: LLMServerView,
    id: u128,
    stamp: Seq<char>,
) -> LlmJobView {
    LlmJobView {
        request,
        server,
        id,
        stamp,
        ttl: s.ttl,
        files: s.files,
        index: s.index,
        clusters: s.clusters as usize,
        embedding_model: s.embedding_model,
    }
}

/// The settings that work is done with are those of the service, field by field.
pub proof fn settings_are_taken_over(s: State, c: AppConfig)
    ensures
        s@.servers.len() == s.possible_servers@.len(),
        forall|i: int|
            0 <= i < s.possible_servers@.len() ==> {
                &&& (#[trigger] s@.servers[i]).url == s.possible_servers@[i].url@
                &&& s@.servers[i].weight == s.possible_servers@[i].weight
                &&& s@.servers[i].max_concurrent == s.possible_servers@[i].max_concurrent
            },
        s@.ttl == s.redis_expiration,
        s@.files.url == s.s3_url@,
        s@.files.user == s.s3_user@,
        s@.files.pass == s.s3_pass@,
        s@.files.bucket == s.s3_bucket@,
        s@.files.expiration == s.s3_expiration,
        s@.index == s.opensearch_index@,
        s@.clusters == s.opensearch_servers@.len(),
        s@.embedding_model == s.embedding_model@,
        configured(c).servers.len() == c.servers@.len(),
        forall|i: int|
            0 <= i < c.servers@.len() ==> {
                &&& (#[trigger] configured(c).servers[i]).url == c.servers@[i].url@
                &&& configured(c).servers[i].weight == c.servers@[i].weight
                &&& configured(c).servers[i].max_concurrent == c.servers@[i].max_concurrent
            },
        configured(c).ttl == c.redis_expiration,
        configured(c).files.url == c.s3_url@,
        configured(c).files.user == c.s3_user@,
        configured(c).files.pass == c.s3_pass@,
        configured(c).files.bucket == c.s3_prompt_bucket@,
        configured(c).files.expiration == c.s3_expiration,
        configured(c).index == c.opensearch_index@,
        configured(c).clusters == c.opensearch_servers@.len(),
        configured(c).embedding_model == c.embedding_model@,
{
}

/// A job is for the request, the server, the id and the time that it is made with, and has the
/// rest from the settings.
pub proof fn jobs_are_for_their_request_and_server(
    s: StateView,
    request: RequestBodyView,
    server: LLMServerView,
    id: u128,
    stamp: Seq<char>,
)
    ensures
        ({
            let job = job_of(s, request, server, id, stamp);
            &&& job.request.model == request.model
            &&& job.request.prompt == request.prompt
            &&& job.request.stream == request.stream
            &&& job.request.contextualize == request.contextualize
            &&& job.server.url == server.url
            &&& job.server.weight == server.weight
            &&& job.server.max_concurrent == server.max_concurrent
            &&& job.id == id
            &&& job.stamp == stamp
            &&& job.ttl == s.ttl
            &&& job.files == s.files
            &&& job.index == s.index
            &&& s.clusters <= usize::MAX ==> job.clusters == s.clusters
            &&& job.embedding_model == s.embedding_model
        }),
{
}

impl State {
    /// Takes the settings over from the configuration.
    pub fn new(config: AppConfig) -> (r: State)
        ensures
            r@ == configured(config),
            r.possible_servers == config.servers,
            r.redis_expiration == config.redis_expiration,
            r.s3_url == config.s3_url,
            r.s3_user == config.s3_user,
            r.s3_pass == config.s3_pass,
            r.s3_expiration == config.s3_expiration,
            r.s3_bucket == config.s3_prompt_bucket,
            r.opensearch_index == config.opensearch_index,
            r.embedding_model == config.embedding_model,
            r.opensearch_user == config.opensearch_user,
            r.opensearch_password == config.opensearch_password,
            r.opensearch_servers == config.opensearch_servers,
    {
        State {
            possible_servers: config.servers,
            redis_expiration: config.redis_expiration,
            s3_url: config.s3_url,
            s3_user: config.s3_user,
            s3_pass: config.s3_pass,
            s3_expiration: config.s3_expiration,
            s3_bucket: config.s3_prompt_bucket,
            opensearch_user: config.opensearch_user,
            opensearch_password: config.opensearch_password,
            opensearch_servers: config.opensearch_servers,
            opensearch_index: config.opensearch_index,
            embedding_model: config.embedding_model,
        }
    }

    /// The file store that answers are written to.
    pub fn files(&self) -> (r: FileStore)
        ensures
            r@ == self@.files,
            r.url@ == self.s3_url@,
            r.user@ == self.s3_user@,
            r.pass@ == self.s3_pass@,
            r.bucket@ == self.s3_bucket@,
            r.expiration == self.s3_expiration,
    {
        FileStore {
            url: self.s3_url.clone(),
            user: self.s3_user.clone(),
            pass: self.s3_pass.clone(),
            bucket: self.s3_bucket.clone(),
            expiration: self.s3_expiration,
        }
    }

    /// The servers that a request may go to.
    pub fn servers(&self) -> (r: Vec<LLMServer>)
        ensures
            servers_of(r@) == self@.servers,
            r@ == self.possible_servers@,
    {
        copy_servers(&self.possible_servers)
    }

    /// The job that sees a request through at a server.
    pub fn job(&self, request: RequestBody, server: LLMServer, id: u128, stamp: String) -> (r:
        LlmJob)
        ensures
            r@ == job_of(self@, request@, server@, id, stamp@),
            r.request == request,
            r.server == server,
            r.id == id,
            r.stamp == stamp,
            r.ttl == self.redis_expiration,
            r.files.url@ == self.s3_url@,
            r.files.user@ == self.s3_user@,
            r.files.pass@ == self.s3_pass@,
            r.files.bucket@ == self.s3_bucket@,
            r.files.expiration == self.s3_expiration,
            r.index@ == self.opensearch_index@,
            r.clusters == self.opensearch_servers@.len(),
            r.embedding_model@ == self.embedding_model@,
    {
        LlmJob {
            request,
            server,
            id,
            stamp,
            ttl: self.redis_expiration,
            files: self.files(),
            index: self.opensearch_index.clone(),
            clusters: self.opensearch_servers.len(),
            embedding_model: self.embedding_model.clone(),
        }
    }

    /// Copies the settings.
    pub fn copy(&self) -> (r: State)
        ensures
            r@ == self@,
            r.possible_servers@ == self.possible_servers@,
            r.redis_expiration == self.redis_expiration,
            r.s3_url@ == self.s3_url@,
            r.s3_user@ == self.s3_user@,
            r.s3_pass@ == self.s3_pass@,
            r.s3_expiration == self.s3_expiration,
            r.s3_bucket@ == self.s3_bucket@,
            r.opensearch_index@ == self.opensearch_index@,
            r.embedding_model@ == self.embedding_model@,
            r.opensearch_user == self.opensearch_user,
            r.opensearch_password == self.opensearch_password,
            r.opensearch_servers@ == self.opensearch_servers@,
    {
        let opensearch_servers = self.opensearch_servers.clone();
        assert(opensearch_servers@ =~= self.opensearch_servers@);
        State {
            possible_servers: copy_servers(&self.possible_servers),
            redis_expiration: self.redis_expiration,
            s3_url: self.s3_url.clone(),
            s3_user: self.s3_user.clone(),
            s3_pass: self.s3_pass.clone(),
            s3_expiration: self.s3_expiration,
            s3_bucket: self.s3_bucket.clone(),
            opensearch_user: self.opensearch_user.clone(),
            opensearch_password: self.opensearch_password.clone(),
            opensearch_servers,
            opensearch_index: self.opensearch_index.clone(),
            embedding_model: self.embedding_model.clone(),
        }
    }
}

} // verus!
