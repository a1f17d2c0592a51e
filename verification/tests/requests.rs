use std::collections::HashMap;

use llm_gateway::keys::{prompt_key_of, queue_key_of};
use llm_gateway::protocol::{Content, Effect, HttpReply, LlmJob, Next, Reply};
use llm_gateway::request::{get, request, request_with_id, RequestRun};
use llm_gateway::state::{AppConfig, State};
use llm_gateway::types::{ApiResponse, LLMServer, OSServer, RequestBody};

const ID: u128 = 0x0000_0000_0000_4000_8000_0000_0000_0001;
const ID_TEXT: &str = "00000000-0000-4000-8000-000000000001";

struct Place {
    store: HashMap<String, String>,
    ttls: HashMap<String, u64>,
    loads: HashMap<String, i64>,
    records: Vec<ApiResponse>,
    jobs: Vec<LlmJob>,
}

fn place() -> Place {
    Place {
        store: HashMap::new(),
        ttls: HashMap::new(),
        loads: HashMap::new(),
        records: vec![],
        jobs: vec![],
    }
}

fn settings(servers: Vec<LLMServer>) -> State {
    State::new(AppConfig {
        redis_url: "redis://localhost".to_string(),
        s3_url: "http://files".to_string(),
        s3_user: "user".to_string(),
        s3_pass: "pass".to_string(),
        s3_expiration: 30,
        s3_prompt_bucket: "prompts".to_string(),
        redis_expiration: 3600,
        servers,
        opensearch_user: "u".to_string(),
        opensearch_password: "p".to_string(),
        opensearch_servers: vec![OSServer { url: "http://search".to_string() }],
        opensearch_index: "conversations".to_string(),
        embedding_model: "mxbai".to_string(),
    })
}

fn one_server() -> Vec<LLMServer> {
    vec![LLMServer { url: "http://a/".to_string(), weight: 1, max_concurrent: 1 }]
}

fn body(prompt: &str) -> RequestBody {
    RequestBody {
        model: "llama3".to_string(),
        prompt: prompt.to_string(),
        stream: Some(true),
        contextualize: None,
    }
}

fn perform(p: &mut Place, e: Effect<f64>) -> Reply<f64> {
    match e {
        Effect::Exists(k) => Reply::Flag(p.store.contains_key(&k)),
        Effect::Get(k) => match p.store.get(&k) {
            Some(v) => Reply::Text(v.clone()),
            None => Reply::Failed("nil".to_string()),
        },
        Effect::Load(k) => Reply::Count(*p.loads.get(&k).unwrap_or(&0)),
        Effect::Put { key, value, ttl } => {
            p.ttls.insert(key.clone(), ttl);
            p.store.insert(key, value);
            Reply::Done
        }
        Effect::Now => Reply::Time { seconds: 1_431_648_000, nanos: 0 },
        Effect::EncodeResponse(v) => {
            p.records.push(v);
            Reply::Text(format!("record {}", p.records.len() - 1))
        }
        Effect::Spawn(job) => {
            p.jobs.push(job);
            Reply::Done
        }
        other => panic!("not expected: {other:?}"),
    }
}

fn run(p: &mut Place, mut next: Next<RequestRun, f64, HttpReply>) -> Result<HttpReply, String> {
    loop {
        match next {
            Next::Ask(r, e) => {
                let reply = perform(p, e);
                next = r.step(reply);
            }
            Next::Finish(reply) => return Ok(reply),
            Next::Halt(m) => return Err(m),
        }
    }
}

fn advance(next: Next<RequestRun, f64, HttpReply>, reply: Reply<f64>) -> Next<RequestRun, f64, HttpReply> {
    match next {
        Next::Ask(r, _) => r.step(reply),
        _ => panic!("the work has ended"),
    }
}

fn halted(next: Next<RequestRun, f64, HttpReply>) -> String {
    match next {
        Next::Halt(m) => m,
        _ => panic!("no fault"),
    }
}

#[test]
fn a_free_server_takes_the_request() {
    let mut p = place();
    let reply = run(&mut p, request_with_id(body("hi"), settings(one_server()), ID)).unwrap();
    assert_eq!(reply.status, 200);
    assert_eq!(reply.content, Content::Json);
    assert_eq!(reply.body, format!("{{ 'response_id': '{ID_TEXT}' }}"));
    assert_eq!(p.store.get(&prompt_key_of("hi", "llama3")).unwrap(), ID_TEXT);
    assert_eq!(p.store.get(ID_TEXT).unwrap(), "record 0");
    assert_eq!(p.ttls.get(ID_TEXT), Some(&3600));
    assert_eq!(p.store.len(), 2);
    let pending = &p.records[0];
    assert_eq!(pending.key.as_deref(), Some(ID_TEXT));
    assert_eq!(pending.model, "llama3");
    assert_eq!(pending.created_at, "2015-05-15 00:00:00");
    assert_eq!(pending.response, "");
    assert!(!pending.done);
    assert!(pending.ms_taken.is_none());
    assert_eq!(pending.server_url.as_deref(), Some("http://a/"));
    assert_eq!(pending.original_api_request.as_ref().unwrap().prompt, "hi");
}

#[test]
fn the_job_gets_the_settings() {
    let mut p = place();
    run(&mut p, request_with_id(body("hi"), settings(one_server()), ID)).unwrap();
    assert_eq!(p.jobs.len(), 1);
    let job = &p.jobs[0];
    assert_eq!(job.id, ID);
    assert_eq!(job.request.prompt, "hi");
    assert_eq!(job.server.url, "http://a/");
    assert_eq!(job.stamp, "2015-05-15 00:00:00");
    assert_eq!(job.ttl, 3600);
    assert_eq!(job.files.url, "http://files");
    assert_eq!(job.files.user, "user");
    assert_eq!(job.files.pass, "pass");
    assert_eq!(job.files.bucket, "prompts");
    assert_eq!(job.files.expiration, 30);
    assert_eq!(job.index, "conversations");
    assert_eq!(job.clusters, 1);
    assert_eq!(job.embedding_model, "mxbai");
}

#[test]
fn a_kept_answer_is_served_as_it_is() {
    let mut p = place();
    p.store.insert(prompt_key_of("hi", "llama3"), "some id".to_string());
    p.store.insert("some id".to_string(), "{\"response\": \"hello\"}".to_string());
    let before = p.store.clone();
    let reply = run(&mut p, request_with_id(body("hi"), settings(one_server()), ID)).unwrap();
    assert_eq!(reply.status, 200);
    assert_eq!(reply.body, "{\"response\": \"hello\"}");
    assert_eq!(p.store, before);
    assert!(p.jobs.is_empty());
}

#[test]
fn the_second_request_is_served_what_the_first_left() {
    let mut p = place();
    run(&mut p, request_with_id(body("hi"), settings(one_server()), ID)).unwrap();
    let before = p.store.clone();
    let reply = run(&mut p, request_with_id(body("hi"), settings(one_server()), 99)).unwrap();
    assert_eq!(reply.status, 200);
    assert_eq!(reply.body, "record 0");
    assert_eq!(p.store, before);
    assert_eq!(p.jobs.len(), 1);
}

#[test]
fn another_model_is_another_request() {
    let mut p = place();
    run(&mut p, request_with_id(body("hi"), settings(one_server()), ID)).unwrap();
    let mut other = body("hi");
    other.model = "phi".to_string();
    run(&mut p, request_with_id(other, settings(one_server()), 99)).unwrap();
    assert_eq!(p.jobs.len(), 2);
}

#[test]
fn a_request_waits_while_all_servers_are_full() {
    let mut p = place();
    p.loads.insert("http://a/".to_string(), 1);
    let reply = run(&mut p, request_with_id(body("hi"), settings(one_server()), ID)).unwrap();
    assert_eq!(reply.status, 429);
    assert_eq!(reply.content, Content::Json);
    assert_eq!(reply.body, format!("{{'response_id': '{ID_TEXT}', 'queued': true}}"));
    assert_eq!(p.store.get(&queue_key_of("hi", "llama3")).unwrap(), ID_TEXT);
    assert_eq!(p.store.get(ID_TEXT).unwrap(), "record 0");
    assert_eq!(p.ttls.get(&queue_key_of("hi", "llama3")), Some(&3600));
    assert!(p.records[0].server_url.is_none());
    assert!(!p.records[0].done);
    assert!(p.jobs.is_empty());
}

#[test]
fn a_prompt_waits_once() {
    let mut p = place();
    p.loads.insert("http://a/".to_string(), 1);
    let first = run(&mut p, request_with_id(body("hi"), settings(one_server()), ID)).unwrap();
    let before = p.store.clone();
    let second = run(&mut p, request_with_id(body("hi"), settings(one_server()), 99)).unwrap();
    assert_eq!(second.status, 429);
    assert_eq!(second.body, first.body);
    assert_eq!(p.store, before);
}

#[test]
fn without_servers_every_request_waits() {
    let mut p = place();
    let reply = run(&mut p, request_with_id(body("hi"), settings(vec![]), ID)).unwrap();
    assert_eq!(reply.status, 429);
}

#[test]
fn new_ids_are_random_and_marked_so() {
    let first: Next<RequestRun, f64, HttpReply> = request(body("hi"), settings(one_server()));
    let second: Next<RequestRun, f64, HttpReply> = request(body("hi"), settings(one_server()));
    let (Next::Ask(a, _), Next::Ask(b, _)) = (first, second) else {
        panic!("a request starts with a question");
    };
    assert_ne!(a.id, b.id);
    for id in [a.id, b.id] {
        assert_eq!((id >> 76) & 0xf, 4);
        assert_eq!((id >> 62) & 0x3, 2);
    }
}

#[test]
fn the_first_question_is_for_the_prompt() {
    let next: Next<RequestRun, f64, HttpReply> =
        request_with_id(body("hi"), settings(one_server()), ID);
    let Next::Ask(_, Effect::Exists(key)) = next else {
        panic!("the prompt is looked up first");
    };
    assert_eq!(key, prompt_key_of("hi", "llama3"));
}

#[test]
fn a_store_that_fails_counts_as_empty_at_first() {
    let next = request_with_id(body("hi"), settings(one_server()), ID);
    let next = advance(next, Reply::Failed("down".to_string()));
    assert!(matches!(next, Next::Ask(_, Effect::Now)));
}

#[test]
fn faults_of_a_kept_answer() {
    let next = advance(
        request_with_id(body("hi"), settings(one_server()), ID),
        Reply::Flag(true),
    );
    let fault = halted(advance(next, Reply::Failed("gone".to_string())));
    assert_eq!(fault, "get response cache key");
    let next = advance(
        request_with_id(body("hi"), settings(one_server()), ID),
        Reply::Flag(true),
    );
    let next = advance(next, Reply::Text("x".to_string()));
    let fault = halted(advance(next, Reply::Failed("gone".to_string())));
    assert_eq!(fault, "get cached response");
}

#[test]
fn faults_of_the_clock_and_of_writes() {
    let ask = || {
        advance(request_with_id(body("hi"), settings(one_server()), ID), Reply::Flag(false))
    };
    assert_eq!(halted(advance(ask(), Reply::Done)), "No such local time");
    let now = || Reply::Time { seconds: 0, nanos: 0 };
    let taken = || advance(advance(ask(), now()), Reply::Count(0));
    let unwrap = "called `Result::unwrap()` on an `Err` value";
    let encoding = || advance(taken(), Reply::Done);
    assert_eq!(halted(advance(encoding(), Reply::Done)), unwrap);
    let storing = || advance(encoding(), Reply::Text("r".to_string()));
    assert_eq!(halted(advance(storing(), Reply::Failed("full".to_string()))), unwrap);
    let prompt = || advance(storing(), Reply::Done);
    assert_eq!(halted(advance(prompt(), Reply::Failed("full".to_string()))), unwrap);
    let full = || advance(advance(ask(), now()), Reply::Count(1));
    let queueing = || advance(full(), Reply::Failed("nil".to_string()));
    assert_eq!(halted(advance(queueing(), Reply::Failed("no".to_string()))), "set the queue key");
    let written = || advance(queueing(), Reply::Done);
    assert_eq!(halted(advance(written(), Reply::Done)), unwrap);
    let last = || advance(written(), Reply::Text("r".to_string()));
    assert_eq!(halted(advance(last(), Reply::Failed("no".to_string()))), "set the queue key");
}

#[test]
fn a_client_reads_what_is_kept_under_an_id() {
    let found = get(Some("{\"done\": true}".to_string()));
    assert_eq!(found.status, 200);
    assert_eq!(found.content, Content::Json);
    assert_eq!(found.body, "{\"done\": true}");
    let missing = get(None);
    assert_eq!(missing.status, 200);
    assert_eq!(missing.body, "");
}

#[test]
fn the_next_candidate_can_be_given() {
    let servers = vec![
        LLMServer { url: "http://a/".to_string(), weight: 3, max_concurrent: 1 },
        LLMServer { url: "http://b/".to_string(), weight: 3, max_concurrent: 1 },
    ];
    let next: Next<RequestRun, f64, HttpReply> = request_with_id(body("hi"), settings(servers), ID);
    let Next::Ask(r, _) = advance(next, Reply::Flag(false)) else {
        panic!("the clock is read");
    };
    let reply = Reply::<f64>::Time { seconds: 0, nanos: 0 };
    let pool = r.pool_after(&reply).unwrap();
    assert_eq!(pool.len(), 2);
    let Next::Ask(r, Effect::Load(url)) = r.resume(reply, Some(pool[1].clone())) else {
        panic!("the load is asked for");
    };
    assert_eq!(url, "http://b/");
    let reply = Reply::<f64>::Count(1);
    let left = r.pool_after(&reply).unwrap();
    assert_eq!(left.len(), 1);
    assert_eq!(left[0].url, "http://a/");
    assert!(r.pool_after(&Reply::<f64>::Count(0)).is_none());
}
