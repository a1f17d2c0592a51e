//! Serving a request to generate text: from what is kept, at a server, or by making it wait.

use vstd::prelude::*;

use crate::clock::{clock_fault, clock_fault_text, stamp_in};
use crate::keys::{hash_text, prompt_key, prompt_key_of, queue_key, queue_key_of};
use crate::outside::{is_random_uuid, uuid_new_v4, uuid_text, uuid_to_string, uuid_value};
use crate::protocol::{
    count_in, flag_in, json_reply, reply_json, text_in, unwrap_fault, unwrap_fault_text, Content,
    Effect, EffectView, HttpReply, HttpReplyView, Next, NextView, Reply, ReplyView,
};
use crate::server::{
    begin_search, draw, draw_fits, pool_of, search_begin, search_next, search_pool, server_of,
    servers_elsewhere_stay, Search, SearchView, ServerSearch, ServerSearchView,
};
use crate::state::{job_of, State, StateView};
use crate::types::{
    text_of, ApiResponse, ApiResponseView, LLMServer, LLMServerView, RequestBody, RequestBodyView,
};

verus! {

/// Where the serving of a request stands.
pub enum RequestPhase {
    /// Asked whether the prompt is answered or running.
    Checking,
    /// Asked for the id of the answer.
    FetchingId,
    /// Asked for the answer.
    FetchingAnswer,
    /// Reading the clock.
    Clock,
    /// Asked a server for its load.
    Searching { stamp: String, search: ServerSearch },
    /// Starting the job at a server.
    Spawning { pending: ApiResponse },
    /// Having the pending answer written out, with a server at work.
    EncodingTaken,
    /// Keeping the pending answer, with a server at work.
    StoringTaken,
    /// Keeping the id of the answer under the prompt.
    StoringPrompt,
    /// Asked whether the prompt waits already.
    CheckingQueue { stamp: String },
    /// Making the prompt wait.
    StoringQueue { stamp: String },
    /// Having the pending answer written out, without a server.
    EncodingQueued,
    /// Keeping the pending answer, without a server.
    StoringQueued,
}

pub enum RequestPhaseView {
    Checking,
    FetchingId,
    FetchingAnswer,
    Clock,
    Searching { stamp: Seq<char>, search: ServerSearchView },
    Spawning { pending: ApiResponseView },
    EncodingTaken,
    StoringTaken,
    StoringPrompt,
    CheckingQueue { stamp: Seq<char> },
    StoringQueue { stamp: Seq<char> },
    EncodingQueued,
    StoringQueued,
}

impl View for RequestPhase {
    type V = RequestPhaseView;

    open spec fn view(&self) -> RequestPhaseView {
        match self {
            RequestPhase::Checking => RequestPhaseView::Checking,
            RequestPhase::FetchingId => RequestPhaseView::FetchingId,
            RequestPhase::FetchingAnswer => RequestPhaseView::FetchingAnswer,
            RequestPhase::Clock => RequestPhaseView::Clock,
            RequestPhase::Searching { stamp, search } => RequestPhaseView::Searching {
                stamp: stamp@,
                search: search@,
            },
            RequestPhase::Spawning { pending } => RequestPhaseView::Spawning { pending: pending@ },
            RequestPhase::EncodingTaken => RequestPhaseView::EncodingTaken,
            RequestPhase::StoringTaken => RequestPhaseView::StoringTaken,
            RequestPhase::StoringPrompt => RequestPhaseView::StoringPrompt,
            RequestPhase::CheckingQueue { stamp } => RequestPhaseView::CheckingQueue {
                stamp: stamp@,
            },
            RequestPhase::StoringQueue { stamp } => RequestPhaseView::StoringQueue {
                stamp: stamp@,
            },
            RequestPhase::EncodingQueued => RequestPhaseView::EncodingQueued,
            RequestPhase::StoringQueued => RequestPhaseView::StoringQueued,
        }
    }
}

/// The serving of a request: the request, the id of its answer, and the settings.
pub struct RequestRun {
    pub body: RequestBody,
    pub id: u128,
    pub state: State,
    pub phase: RequestPhase,
}

pub struct RequestView {
    pub body: RequestBodyView,
    pub id: u128,
    pub state: StateView,
    pub phase: RequestPhaseView,
}

impl View for RequestRun {
    type V = RequestView;

    open spec fn view(&self) -> RequestView {
        RequestView { body: self.body@, id: self.id, state: self.state@, phase: self.phase@ }
    }
}

/// The key under which the answer to a request is found.
pub open spec fn prompt_key_in(body: RequestBodyView) -> Seq<char> {
    prompt_key(hash_text(body.prompt), body.model)
}

/// The key under which a request waits.
pub open spec fn queue_key_in(body: RequestBodyView) -> Seq<char> {
    queue_key(hash_text(body.prompt), body.model)
}

/// The answer that is kept while there is none yet.
pub open spec fn pending_answer(
    body: RequestBodyView,
    id: u128,
    stamp: Seq<char>,
    server_url: Option<Seq<char>>,
) -> ApiResponseView {
    ApiResponseView {
        key: Some(uuid_text(id)),
        model: body.model,
        created_at: stamp,
        response: Seq::empty(),
        done: false,
        ms_taken: None,
        server_url,
        original_api_request: Some(body),
    }
}

/// The body of the reply to a request that a server took.
pub open spec fn taken_body(id: Seq<char>) -> Seq<char> {
    "{ 'response_id': '"@ + id + "' }"@
}

/// The body of the reply to a request that waits.
pub open spec fn queued_body(id: Seq<char>) -> Seq<char> {
    "{'response_id': '"@ + id + "', 'queued': true}"@
}

/// The step that writes `value` under `key` and then waits in `phase`.
pub open spec fn request_put<N>(
    s: RequestView,
    phase: RequestPhaseView,
    key: Seq<char>,
    value: Seq<char>,
) -> NextView<RequestView, N, HttpReplyView> {
    NextView::Ask(
        RequestView { phase, ..s },
        EffectView::Put { key, value, ttl: s.state.ttl },
    )
}

/// What follows from where the search for a server stands: its next question, the job at the
/// server found, or the queue.
pub open spec fn request_search<N>(s: RequestView, stamp: Seq<char>, search: SearchView) -> NextView<
    RequestView,
    N,
    HttpReplyView,
> {
    match search {
        SearchView::Ask(t) => NextView::Ask(
            RequestView { phase: RequestPhaseView::Searching { stamp, search: t }, ..s },
            EffectView::Load(t.candidate.url),
        ),
        SearchView::Found(server) => NextView::Ask(
            RequestView {
                phase: RequestPhaseView::Spawning {
                    pending: pending_answer(s.body, s.id, stamp, Some(server.url)),
                },
                ..s
            },
            EffectView::Spawn(job_of(s.state, s.body, server, s.id, stamp)),
        ),
        SearchView::Exhausted => NextView::Ask(
            RequestView { phase: RequestPhaseView::CheckingQueue { stamp }, ..s },
            EffectView::Get(queue_key_in(s.body)),
        ),
    }
}

/// The start of the serving of a request.
pub open spec fn request_start<N>(body: RequestBodyView, state: StateView, id: u128) -> NextView<
    RequestView,
    N,
    HttpReplyView,
> {
    NextView::Ask(
        RequestView { body, id, state, phase: RequestPhaseView::Checking },
        EffectView::Exists(prompt_key_in(body)),
    )
}

/// The servers from which the next candidate is drawn on a reply; none where none is drawn.
pub open spec fn request_pool<N>(s: RequestView, r: ReplyView<N>) -> Option<Seq<LLMServerView>> {
    match s.phase {
        RequestPhaseView::Clock => match stamp_in(r) {
            Some(_) => Some(s.state.servers),
            None => None,
        },
        RequestPhaseView::Searching { search, .. } => search_pool(search, count_in(r)),
        _ => None,
    }
}

/// The serving of a request after a reply, with the candidate that was drawn where one is.
pub open spec fn request_next<N>(
    s: RequestView,
    r: ReplyView<N>,
    choice: Option<LLMServerView>,
) -> NextView<RequestView, N, HttpReplyView> {
    match s.phase {
        RequestPhaseView::Checking => if flag_in(r) {
            NextView::Ask(
                RequestView { phase: RequestPhaseView::FetchingId, ..s },
                EffectView::Get(prompt_key_in(s.body)),
            )
        } else {
            NextView::Ask(RequestView { phase: RequestPhaseView::Clock, ..s }, EffectView::Now)
        },
        RequestPhaseView::FetchingId => match r {
            ReplyView::Text(id) => NextView::Ask(
                RequestView { phase: RequestPhaseView::FetchingAnswer, ..s },
                EffectView::Get(id),
            ),
            _ => NextView::Halt("get response cache key"@),
        },
        RequestPhaseView::FetchingAnswer => match r {
            ReplyView::Text(answer) => NextView::Finish(json_reply(200, answer)),
            _ => NextView::Halt("get cached response"@),
        },
        RequestPhaseView::Clock => match stamp_in(r) {
            Some(stamp) => request_search(s, stamp, search_begin(s.state.servers, choice)),
            None => NextView::Halt(clock_fault()),
        },
        RequestPhaseView::Searching { stamp, search } => request_search(
            s,
            stamp,
            search_next(search, count_in(r), choice),
        ),
        RequestPhaseView::Spawning { pending } => NextView::Ask(
            RequestView { phase: RequestPhaseView::EncodingTaken, ..s },
            EffectView::EncodeResponse(pending),
        ),
        RequestPhaseView::EncodingTaken => match r {
            ReplyView::Text(data) => request_put(
                s,
                RequestPhaseView::StoringTaken,
                uuid_text(s.id),
                data,
            ),
            _ => NextView::Halt(unwrap_fault()),
        },
        RequestPhaseView::StoringTaken => match r {
            ReplyView::Done => request_put(
                s,
                RequestPhaseView::StoringPrompt,
                prompt_key_in(s.body),
                uuid_text(s.id),
            ),
            _ => NextView::Halt(unwrap_fault()),
        },
        RequestPhaseView::StoringPrompt => match r {
            ReplyView::Done => NextView::Finish(json_reply(200, taken_body(uuid_text(s.id)))),
            _ => NextView::Halt(unwrap_fault()),
        },
        RequestPhaseView::CheckingQueue { stamp } => if text_in(r).len() == 0 {
            request_put(
                s,
                RequestPhaseView::StoringQueue { stamp },
                queue_key_in(s.body),
                uuid_text(s.id),
            )
        } else {
            NextView::Finish(json_reply(429, queued_body(text_in(r))))
        },
        RequestPhaseView::StoringQueue { stamp } => match r {
            ReplyView::Done => NextView::Ask(
                RequestView { phase: RequestPhaseView::EncodingQueued, ..s },
                EffectView::EncodeResponse(pending_answer(s.body, s.id, stamp, None)),
            ),
            _ => NextView::Halt("set the queue key"@),
        },
        RequestPhaseView::EncodingQueued => match r {
            ReplyView::Text(data) => request_put(
                s,
                RequestPhaseView::StoringQueued,
                uuid_text(s.id),
                data,
            ),
            _ => NextView::Halt(unwrap_fault()),
        },
        RequestPhaseView::StoringQueued => match r {
            ReplyView::Done => NextView::Finish(json_reply(429, queued_body(uuid_text(s.id)))),
            _ => NextView::Halt("set the queue key"@),
        },
    }
}

/// The answer that is kept while there is none yet.
fn pending(body: &RequestBody, id: u128, stamp: String, server_url: Option<String>) -> (r:
    ApiResponse)
    ensures
        r@ == pending_answer(
            body@,
            id,
            stamp@,
            match server_url {
                Some(u) => Some(u@),
                None => None,
            },
        ),
        uuid_value(uuid_text(id)) == Some(id),
{
    ApiResponse {
        key: Some(uuid_to_string(id)),
        model: body.model.clone(),
        created_at: stamp,
        response: String::new(),
        done: false,
        ms_taken: None,
        server_url,
        original_api_request: Some(body.clone()),
    }
}

/// The reply to a request that a server took.
fn taken(id: u128) -> (r: HttpReply)
    ensures
        r@ == json_reply(200, taken_body(uuid_text(id))),
{
    let body = "{ 'response_id': '".to_owned().concat(uuid_to_string(id).as_str()).concat("' }");
    reply_json(200, body)
}

/// The reply to a request that waits.
fn queued(id: &str) -> (r: HttpReply)
    ensures
        r@ == json_reply(429, queued_body(id@)),
{
    let body = "{'response_id': '".to_owned().concat(id).concat("', 'queued': true}");
    reply_json(429, body)
}

/// The answer to a client that asks for what is kept under an id: the text found, or an empty
/// one.
pub open spec fn get_reply(found: Option<Seq<char>>) -> HttpReplyView {
    json_reply(
        200,
        match found {
            Some(t) => t,
            None => Seq::empty(),
        },
    )
}

/// Answers a client that asks for what is kept under an id.
pub fn get(found: Option<String>) -> (r: HttpReply)
    ensures
        r@ == get_reply(text_of(found)),
        r.status == 200,
        r.content == Content::Json,
        found matches Some(t) ==> r.body == t,
        found is None ==> r.body@.len() == 0,
{
    match found {
        Some(t) => reply_json(200, t),
        None => reply_json(200, String::new()),
    }
}

/// Starts to serve a request whose answer gets the id given.
pub fn request_with_id<N>(body: RequestBody, state: State, id: u128) -> (r: Next<
    RequestRun,
    N,
    HttpReply,
>)
    ensures
        r@ == request_start::<N>(body@, state@, id),
{
    let key = prompt_key_of(body.prompt.as_str(), body.model.as_str());
    Next::Ask(RequestRun { body, id, state, phase: RequestPhase::Checking }, Effect::Exists(key))
}

/// Starts to serve a request. Its answer gets a new random id.
pub fn request<N>(body: RequestBody, state: State) -> (r: Next<RequestRun, N, HttpReply>)
    ensures
        exists|id: u128| #[trigger]
            is_random_uuid(id) && r@ == request_start::<N>(body@, state@, id),
{
    let id = uuid_new_v4();
    assert(is_random_uuid(id));
    request_with_id(body, state, id)
}

impl RequestRun {
    /// Asks the next question of a search for a server, or does what its end asks for.
    fn searched<N>(self, stamp: String, search: Search) -> (r: Next<RequestRun, N, HttpReply>)
        ensures
            r@ == request_search::<N>(self@, stamp@, search@),
    {
        let RequestRun { body, id, state, phase: _ } = self;
        match search {
            Search::Ask(search) => {
                let url = search.candidate.url.clone();
                Next::Ask(
                    RequestRun {
                        body,
                        id,
                        state,
                        phase: RequestPhase::Searching { stamp, search },
                    },
                    Effect::Load(url),
                )
            },
            Search::Found(server) => {
                let pending = pending(&body, id, stamp.clone(), Some(server.url.clone()));
                let job = state.job(body.clone(), server, id, stamp);
                Next::Ask(
                    RequestRun { body, id, state, phase: RequestPhase::Spawning { pending } },
                    Effect::Spawn(job),
                )
            },
            Search::Exhausted => {
                let key = queue_key_of(body.prompt.as_str(), body.model.as_str());
                Next::Ask(
                    RequestRun { body, id, state, phase: RequestPhase::CheckingQueue { stamp } },
                    Effect::Get(key),
                )
            },
        }
    }

    /// Writes `value` under `key` and then waits in `phase`.
    fn put<N>(self, phase: RequestPhase, key: String, value: String) -> (r: Next<
        RequestRun,
        N,
        HttpReply,
    >)
        ensures
            r@ == request_put::<N>(self@, phase@, key@, value@),
    {
        let ttl: u64 = self.state.redis_expiration;
        Next::Ask(
            RequestRun { body: self.body, id: self.id, state: self.state, phase },
            Effect::Put { key, value, ttl },
        )
    }

    /// The servers from which the next candidate is drawn on a reply; none where none is drawn.
    pub fn pool_after<N>(&self, reply: &Reply<N>) -> (r: Option<Vec<LLMServer>>)
        ensures
            pool_of(r) == request_pool(self@, reply@),
    {
        match &self.phase {
            RequestPhase::Clock => match reply.stamp() {
                Some(_) => Some(self.state.servers()),
                None => None,
            },
            RequestPhase::Searching { search, .. } => search.pool_after(reply.count()),
            _ => None,
        }
    }

    /// Goes on with a reply and, where one is drawn, the next candidate. The id in the pending
    /// answer of a request that waits can be read back.
    #[verifier::rlimit(50)]
    pub fn resume<N>(self, reply: Reply<N>, choice: Option<LLMServer>) -> (r: Next<
        RequestRun,
        N,
        HttpReply,
    >)
        ensures
            r@ == request_next(self@, reply@, server_of(choice)),
            self@.phase is StoringQueue && reply@ is Done ==> uuid_value(uuid_text(self@.id))
                == Some(self@.id),
    {
        let RequestRun { body, id, state, phase } = self;
        match phase {
            RequestPhase::Checking => if reply.flag() {
                let key = prompt_key_of(body.prompt.as_str(), body.model.as_str());
                Next::Ask(
                    RequestRun { body, id, state, phase: RequestPhase::FetchingId },
                    Effect::Get(key),
                )
            } else {
                Next::Ask(RequestRun { body, id, state, phase: RequestPhase::Clock }, Effect::Now)
            },
            RequestPhase::FetchingId => match reply {
                Reply::Text(found) => Next::Ask(
                    RequestRun { body, id, state, phase: RequestPhase::FetchingAnswer },
                    Effect::Get(found),
                ),
                _ => Next::Halt("get response cache key".to_owned()),
            },
            RequestPhase::FetchingAnswer => match reply {
                Reply::Text(answer) => Next::Finish(reply_json(200, answer)),
                _ => Next::Halt("get cached response".to_owned()),
            },
            RequestPhase::Clock => match reply.stamp() {
                Some(stamp) => {
                    let search = begin_search(state.servers(), choice);
                    RequestRun { body, id, state, phase: RequestPhase::Clock }.searched(
                        stamp,
                        search,
                    )
                },
                None => Next::Halt(clock_fault_text()),
            },
            RequestPhase::Searching { stamp, search } => {
                let search = search.resume(reply.count(), choice);
                RequestRun { body, id, state, phase: RequestPhase::Clock }.searched(stamp, search)
            },
            RequestPhase::Spawning { pending } => Next::Ask(
                RequestRun { body, id, state, phase: RequestPhase::EncodingTaken },
                Effect::EncodeResponse(pending),
            ),
            RequestPhase::EncodingTaken => match reply {
                Reply::Text(data) => {
                    RequestRun { body, id, state, phase: RequestPhase::Clock }.put(
                        RequestPhase::StoringTaken,
                        uuid_to_string(id),
                        data,
                    )
                },
                _ => Next::Halt(unwrap_fault_text()),
            },
            RequestPhase::StoringTaken => match reply {
                Reply::Done => {
                    let key = prompt_key_of(body.prompt.as_str(), body.model.as_str());
                    RequestRun { body, id, state, phase: RequestPhase::Clock }.put(
                        RequestPhase::StoringPrompt,
                        key,
                        uuid_to_string(id),
                    )
                },
                _ => Next::Halt(unwrap_fault_text()),
            },
            RequestPhase::StoringPrompt => match reply {
                Reply::Done => Next::Finish(taken(id)),
                _ => Next::Halt(unwrap_fault_text()),
            },
            RequestPhase::CheckingQueue { stamp } => {
                let waiting = reply.text();
                if waiting.as_str().is_empty() {
                    let key = queue_key_of(body.prompt.as_str(), body.model.as_str());
                    RequestRun { body, id, state, phase: RequestPhase::Clock }.put(
                        RequestPhase::StoringQueue { stamp },
                        key,
                        uuid_to_string(id),
                    )
                } else {
                    Next::Finish(queued(waiting.as_str()))
                }
            },
            RequestPhase::StoringQueue { stamp } => match reply {
                Reply::Done => {
                    let pending = pending(&body, id, stamp, None);
                    Next::Ask(
                        RequestRun { body, id, state, phase: RequestPhase::EncodingQueued },
                        Effect::EncodeResponse(pending),
                    )
                },
                _ => Next::Halt("set the queue key".to_owned()),
            },
            RequestPhase::EncodingQueued => match reply {
                Reply::Text(data) => {
                    RequestRun { body, id, state, phase: RequestPhase::Clock }.put(
                        RequestPhase::StoringQueued,
                        uuid_to_string(id),
                        data,
                    )
                },
                _ => Next::Halt(unwrap_fault_text()),
            },
            RequestPhase::StoringQueued => match reply {
                Reply::Done => Next::Finish(queued(uuid_to_string(id).as_str())),
                _ => Next::Halt("set the queue key".to_owned()),
            },
        }
    }

    /// Goes on with a reply, drawing the next candidate where one is needed.
    pub fn step<N>(self, reply: Reply<N>) -> (r: Next<RequestRun, N, HttpReply>)
        ensures
            exists|c: Option<LLMServerView>| #[trigger]
                draw_fits(request_pool(self@, reply@), c) && r@ == request_next(
                    self@,
                    reply@,
                    c,
                ),
    {
        let choice = draw(&self.pool_after(&reply));
        assert(draw_fits(request_pool(self@, reply@), server_of(choice)));
        self.resume(reply, choice)
    }
}

/// The serving of a request starts with the question whether its prompt is answered or running.
pub proof fn prompts_are_looked_for_first<N>(body: RequestBodyView, state: StateView, id: u128)
    ensures
        request_start::<N>(body, state, id) matches NextView::Ask(s, e) && {
            &&& s.body == body
            &&& s.state == state
            &&& s.id == id
            &&& s.phase is Checking
            &&& e == EffectView::<N>::Exists(prompt_key(hash_text(body.prompt), body.model))
        },
{
}

/// The serving of a request stops before its end exactly where the clock cannot be read or a reply
/// is of another kind than the one asked for; only whether the prompt is kept or waits, and the load
/// of a server, may stay unsaid. It comes to its end exactly where the client can be answered.
pub proof fn requests_stop_only_on_faults<N>(
    s: RequestView,
    r: ReplyView<N>,
    c: Option<LLMServerView>,
)
    ensures
        request_next(s, r, c) is Halt <==> match s.phase {
            RequestPhaseView::FetchingId => !(r is Text),
            RequestPhaseView::FetchingAnswer => !(r is Text),
            RequestPhaseView::Clock => stamp_in(r) is None,
            RequestPhaseView::EncodingTaken => !(r is Text),
            RequestPhaseView::StoringTaken => !(r is Done),
            RequestPhaseView::StoringPrompt => !(r is Done),
            RequestPhaseView::StoringQueue { .. } => !(r is Done),
            RequestPhaseView::EncodingQueued => !(r is Text),
            RequestPhaseView::StoringQueued => !(r is Done),
            _ => false,
        },
        request_next(s, r, c) is Finish <==> match s.phase {
            RequestPhaseView::FetchingAnswer => r is Text,
            RequestPhaseView::StoringPrompt => r is Done,
            RequestPhaseView::CheckingQueue { .. } => r is Text && r->Text_0.len() > 0,
            RequestPhaseView::StoringQueued => r is Done,
            _ => false,
        },
        request_next(s, r, c) matches NextView::Finish(reply) ==> {
            &&& reply.content == Content::Json
            &&& match s.phase {
                RequestPhaseView::FetchingAnswer => {
                    &&& reply.status == 200
                    &&& reply.body == r->Text_0
                },
                RequestPhaseView::StoringPrompt => {
                    &&& reply.status == 200
                    &&& reply.body == "{ 'response_id': '"@ + uuid_text(s.id) + "' }"@
                },
                RequestPhaseView::CheckingQueue { .. } => {
                    &&& reply.status == 429
                    &&& reply.body == "{'response_id': '"@ + r->Text_0 + "', 'queued': true}"@
                },
                RequestPhaseView::StoringQueued => {
                    &&& reply.status == 429
                    &&& reply.body == "{'response_id': '"@ + uuid_text(s.id) + "', 'queued': true}"@
                },
                _ => false,
            }
        },
{
}

/// A client that asks for an id gets what is kept under it, character for character, and an empty
/// text where nothing is.
pub proof fn clients_get_what_is_kept(t: Seq<char>)
    ensures
        get_reply(Some(t)).status == 200,
        get_reply(Some(t)).content == Content::Json,
        get_reply(Some(t)).body == t,
        get_reply(None).status == 200,
        get_reply(None).content == Content::Json,
        get_reply(None).body.len() == 0,
{
}

/// The candidates of a search for a server are drawn from all servers of the settings at first, and
/// then from those at other addresses than the ones found full.
pub proof fn requests_draw_from_all_servers<N>(s: RequestView, r: ReplyView<N>)
    ensures
        s.phase is Clock && stamp_in(r) is Some ==> request_pool(s, r) == Some(s.state.servers),
        s.phase matches RequestPhaseView::Searching { search, .. } ==> {
            let load: i64 = match r {
                ReplyView::Count(n) => n,
                _ => 0,
            };
            &&& load < search.candidate.max_concurrent ==> request_pool(s, r) is None
            &&& load >= search.candidate.max_concurrent ==> (request_pool(s, r) matches Some(rest)
                && forall|t: LLMServerView| #[trigger]
                rest.contains(t) <==> search.remaining.contains(t) && t.url
                    != search.candidate.url)
        },
{
    if let RequestPhaseView::Searching { search, .. } = s.phase {
        servers_elsewhere_stay(search.remaining, search.candidate.url);
    }
}

} // verus!
