use std::collections::HashMap;

use llm_gateway::keys::{hash_string, prompt_cache_string, prompt_key_of, queue_key_of};
use llm_gateway::llm::{llm_request, LlmRun};
use llm_gateway::protocol::{Effect, HttpReply, LlmJob, Next, Reply};
use llm_gateway::queue::{pop_queue, PopRun};
use llm_gateway::request::{get, request_with_id, RequestRun};
use llm_gateway::state::{AppConfig, State};
use llm_gateway::storage::get_lifecycle_xml;
use llm_gateway::types::{ApiResponse, EmbeddingResponse, LLMServer, OSServer, RequestBody};

const ID: u128 = 0x0000_0000_0000_4000_8000_0000_0000_0001;
const ID_TEXT: &str = "00000000-0000-4000-8000-000000000001";

struct Surroundings {
    store: HashMap<String, String>,
    load: i64,
    records: Vec<ApiResponse>,
    jobs: usize,
    started: Vec<LlmJob>,
    chunks: Vec<Vec<u8>>,
    healthy: bool,
}

fn surroundings(load: i64) -> Surroundings {
    Surroundings {
        store: HashMap::new(),
        load,
        records: vec![],
        jobs: 0,
        started: vec![],
        chunks: vec![],
        healthy: true,
    }
}

fn config() -> State {
    State::new(AppConfig {
        redis_url: "redis://localhost".to_string(),
        s3_url: "http://files".to_string(),
        s3_user: "user".to_string(),
        s3_pass: "pass".to_string(),
        s3_expiration: 30,
        s3_prompt_bucket: "prompts".to_string(),
        redis_expiration: 60,
        servers: vec![LLMServer { url: "http://a/".to_string(), weight: 1, max_concurrent: 1 }],
        opensearch_user: "u".to_string(),
        opensearch_password: "p".to_string(),
        opensearch_servers: vec![OSServer { url: "http://search".to_string() }],
        opensearch_index: "conversations".to_string(),
        embedding_model: "mxbai".to_string(),
    })
}

fn prompt(text: &str) -> RequestBody {
    RequestBody {
        model: "llama3".to_string(),
        prompt: text.to_string(),
        stream: Some(true),
        contextualize: None,
    }
}

fn copy_of(v: &ApiResponse) -> ApiResponse {
    ApiResponse {
        key: v.key.clone(),
        model: v.model.clone(),
        created_at: v.created_at.clone(),
        response: v.response.clone(),
        done: v.done,
        ms_taken: v.ms_taken,
        server_url: v.server_url.clone(),
        original_api_request: v.original_api_request.clone(),
    }
}

// A record is written as its number; an object of a stream as the text between its braces.
fn parse(s: &Surroundings, text: &str) -> Reply<f64> {
    if text.starts_with('{') {
        let mut v = copy_of(&s.records[0]);
        v.response = text.trim_matches(|c| c == '{' || c == '}').to_string();
        return Reply::Response(v);
    }
    match text.parse::<usize>() {
        Ok(n) => Reply::Response(copy_of(&s.records[n])),
        Err(_) => Reply::Failed("no record".to_string()),
    }
}

fn perform(s: &mut Surroundings, e: Effect<f64>) -> Reply<f64> {
    match e {
        Effect::Exists(k) => Reply::Flag(s.store.contains_key(&k)),
        Effect::Get(k) => match s.store.get(&k) {
            Some(v) => Reply::Text(v.clone()),
            None => Reply::Failed("nil".to_string()),
        },
        Effect::Load(_) => Reply::Count(s.load),
        Effect::Put { key, value, .. } => {
            s.store.insert(key, value);
            Reply::Done
        }
        Effect::Delete(k) => {
            s.store.remove(&k);
            Reply::Done
        }
        Effect::Increment(_) => {
            s.load += 1;
            Reply::Done
        }
        Effect::Decrement(_) => {
            s.load -= 1;
            Reply::Done
        }
        Effect::Scan { .. } => {
            let mut keys: Vec<String> =
                s.store.keys().filter(|k| k.starts_with("queue-")).cloned().collect();
            keys.sort();
            Reply::Page { cursor: 0, keys }
        }
        Effect::Now => Reply::Time { seconds: 1_431_648_000, nanos: 0 },
        Effect::ReadTimer => Reply::Millis(7),
        Effect::EncodeResponse(v) => {
            s.records.push(v);
            Reply::Text((s.records.len() - 1).to_string())
        }
        Effect::DecodeResponse(t) => parse(s, &t),
        Effect::EncodeEmbedding(_) => Reply::Text("e".to_string()),
        Effect::PostGenerate { .. } => {
            s.chunks = vec![b"lo}".to_vec(), b"{hel}{".to_vec()];
            Reply::Status { success: s.healthy, line: "line".to_string() }
        }
        Effect::NextChunk => match s.chunks.pop() {
            Some(c) => Reply::Chunk(c),
            None => Reply::End,
        },
        Effect::PostEmbed { .. } => Reply::Embedding(EmbeddingResponse {
            model: "mxbai".to_string(),
            embeddings: vec![vec![1.0]],
        }),
        Effect::Spawn(job) => {
            s.started.push(job);
            Reply::Done
        }
        Effect::Run(job) => {
            s.jobs += 1;
            run_job(s, job);
            Reply::Done
        }
        _ => Reply::Done,
    }
}

fn run_job(s: &mut Surroundings, job: LlmJob) {
    let mut next: Next<LlmRun<f64>, f64, ()> = llm_request(job);
    loop {
        match next {
            Next::Ask(r, e) => {
                let reply = perform(s, e);
                next = r.step(reply);
            }
            Next::Finish(()) => return,
            Next::Halt(m) => panic!("{m}"),
        }
    }
}

fn send(s: &mut Surroundings, body: RequestBody, id: u128) -> HttpReply {
    let mut next: Next<RequestRun, f64, HttpReply> = request_with_id(body, config(), id);
    loop {
        match next {
            Next::Ask(r, e) => {
                let reply = perform(s, e);
                next = r.step(reply);
            }
            Next::Finish(reply) => return reply,
            Next::Halt(m) => panic!("{m}"),
        }
    }
}

fn serve_queue(s: &mut Surroundings) {
    let mut next: Next<PopRun, f64, ()> = pop_queue(config());
    loop {
        match next {
            Next::Ask(r, e) => {
                let reply = perform(s, e);
                next = r.step(reply);
            }
            Next::Finish(()) => return,
            Next::Halt(m) => panic!("{m}"),
        }
    }
}

#[test]
fn a_request_that_waited_is_answered_under_its_id() {
    let mut s = surroundings(1);
    assert_eq!(send(&mut s, prompt("hi"), ID).status, 429);
    s.load = 0;
    serve_queue(&mut s);
    assert_eq!(s.jobs, 1);
    let kept = s.store.get(ID_TEXT).cloned().unwrap();
    let v = &s.records[kept.parse::<usize>().unwrap()];
    assert_eq!(v.key.as_deref(), Some(ID_TEXT));
    assert!(v.done);
    assert_eq!(v.response, "hello");
    assert_eq!(v.ms_taken, Some(7));
    assert_eq!(v.original_api_request.as_ref().unwrap().prompt, "hi");
    assert_eq!(get(Some(kept.clone())).body, kept);
    let again = send(&mut s, prompt("hi"), 99);
    assert_eq!((again.status, again.body), (200, kept));
    assert!(!s.store.contains_key(&queue_key_of("hi", "llama3")));
}

#[test]
fn a_request_that_was_taken_is_answered_when_its_job_ends() {
    let mut s = surroundings(0);
    assert_eq!(send(&mut s, prompt("hi"), ID).status, 200);
    assert_eq!(s.started.len(), 1);
    let pending = s.store.get(ID_TEXT).cloned().unwrap();
    assert!(!s.records[pending.parse::<usize>().unwrap()].done);
    let job = s.started.pop().unwrap();
    assert_eq!(job.id, ID);
    run_job(&mut s, job);
    let kept = s.store.get(ID_TEXT).cloned().unwrap();
    let v = &s.records[kept.parse::<usize>().unwrap()];
    assert!(v.done);
    assert_eq!(v.response, "hello");
    assert_eq!(v.server_url.as_deref(), Some("http://a/"));
    assert_eq!(s.store.get(&prompt_key_of("hi", "llama3")).unwrap(), ID_TEXT);
    assert!(!s.store.contains_key(&queue_key_of("hi", "llama3")));
    let again = send(&mut s, prompt("hi"), 99);
    assert_eq!((again.status, again.body), (200, kept));
    assert!(s.started.is_empty());
}

#[test]
fn one_job_is_started_for_a_request_that_is_taken_and_none_for_another() {
    let mut s = surroundings(1);
    assert_eq!(send(&mut s, prompt("one"), 1).status, 429);
    assert!(s.started.is_empty());
    s.load = 0;
    assert_eq!(send(&mut s, prompt("two"), 2).status, 200);
    assert_eq!(s.started.len(), 1);
    assert_eq!(s.started[0].request.prompt, "two");
    assert_eq!(send(&mut s, prompt("two"), 3).status, 200);
    assert_eq!(s.started.len(), 1);
    assert_eq!(s.jobs, 0);
}

// Every waiting key leads to a record of its own prompt, and no id waits twice.
fn assert_in_order(s: &Surroundings) {
    let mut ids: Vec<String> = vec![];
    for (key, id) in s.store.iter().filter(|(k, _)| k.starts_with("queue-")) {
        let v = &s.records[s.store[id].parse::<usize>().unwrap()];
        let waiting = v.original_api_request.as_ref().unwrap();
        assert_eq!(*key, queue_key_of(&waiting.prompt, &waiting.model));
        assert_eq!(v.key.as_ref(), Some(id));
        assert!(s.started.iter().all(|job| job.request.prompt != waiting.prompt));
        assert!(!ids.contains(id));
        ids.push(id.clone());
    }
    for (_, id) in s.store.iter().filter(|(k, _)| k.starts_with("prompt-")) {
        assert!(s.store.contains_key(id));
    }
}

#[test]
fn everything_stays_in_order_whatever_happens() {
    let mut s = surroundings(1);
    assert_in_order(&s);
    send(&mut s, prompt("one"), 1);
    assert_in_order(&s);
    send(&mut s, prompt("two"), 2);
    assert_in_order(&s);
    send(&mut s, prompt("one"), 3);
    assert_in_order(&s);
    s.load = 0;
    send(&mut s, prompt("three"), 4);
    assert_in_order(&s);
    let job = s.started.pop().unwrap();
    run_job(&mut s, job);
    assert_in_order(&s);
    serve_queue(&mut s);
    assert_in_order(&s);
    assert_eq!(s.jobs, 2);
    assert!(!s.store.keys().any(|k| k.starts_with("queue-")));
}

#[test]
fn a_server_that_fails_leaves_an_empty_answer() {
    let mut s = surroundings(1);
    send(&mut s, prompt("hi"), ID);
    s.load = 0;
    s.healthy = false;
    serve_queue(&mut s);
    let kept = s.store.get(ID_TEXT).cloned().unwrap();
    let v = &s.records[kept.parse::<usize>().unwrap()];
    assert!(v.done);
    assert_eq!(v.response, "");
}

#[test]
fn only_those_without_room_go_on_waiting() {
    let mut s = surroundings(1);
    send(&mut s, prompt("one"), 1);
    send(&mut s, prompt("two"), 2);
    s.store.insert(prompt_key_of("two", "llama3"), "elsewhere".to_string());
    serve_queue(&mut s);
    assert!(s.store.contains_key(&queue_key_of("one", "llama3")));
    assert!(!s.store.contains_key(&queue_key_of("two", "llama3")));
    assert_eq!(s.jobs, 0);
    s.load = 0;
    serve_queue(&mut s);
    assert!(!s.store.contains_key(&queue_key_of("one", "llama3")));
    assert_eq!(s.jobs, 1);
    assert_eq!(s.load, 0);
}

#[test]
fn hashes_are_short_and_in_lower_case() {
    for text in ["", "a", "why is the sky blue?"] {
        let h = hash_string(text);
        assert!((1..=32).contains(&h.len()));
        assert!(h.chars().all(|c| c.is_ascii_digit() || ('a'..='f').contains(&c)));
        assert!(!h.starts_with('0') || h == "0");
    }
}

#[test]
fn colons_in_models_do_not_mix_keys_up() {
    assert_ne!(prompt_cache_string("ab", "c:d"), prompt_cache_string("ab", "c"));
    assert_eq!(prompt_cache_string("ab", "c:d").split_once(':').unwrap().1, "c:d");
}

#[test]
fn lifecycles_hold_their_days_once() {
    for days in [0, 5, 14, u32::MAX] {
        let xml = get_lifecycle_xml(days);
        assert!(xml.starts_with("<?xml version=\"1.0\" encoding=\"UTF-8\"?>"));
        assert!(xml.ends_with("</LifecycleConfiguration>"));
        let id = format!("<ID>ExpireObjectsAfter{days}Days</ID>");
        assert_eq!(xml.matches(id.as_str()).count(), 1);
        assert_eq!(xml.matches(format!("<Days>{days}</Days>").as_str()).count(), 1);
    }
    assert_ne!(get_lifecycle_xml(5), get_lifecycle_xml(50));
}
