use std::collections::HashMap;

use llm_gateway::keys::{prompt_key_of, queue_key_of};
use llm_gateway::protocol::{Effect, LlmJob, Next, Reply};
use llm_gateway::queue::{pop_queue, PopRun};
use llm_gateway::state::{AppConfig, State};
use llm_gateway::types::{ApiResponse, LLMServer, OSServer, RequestBody};

const FIRST: &str = "00000000-0000-4000-8000-000000000001";
const SECOND: &str = "00000000-0000-4000-8000-000000000002";

struct Queue {
    store: HashMap<String, String>,
    load: i64,
    jobs: Vec<LlmJob>,
    put: Vec<(String, String, u64)>,
    removed: Vec<String>,
}

fn queue() -> Queue {
    Queue { store: HashMap::new(), load: 0, jobs: vec![], put: vec![], removed: vec![] }
}

fn queue_settings() -> State {
    State::new(AppConfig {
        redis_url: "redis://localhost".to_string(),
        s3_url: "http://files".to_string(),
        s3_user: "user".to_string(),
        s3_pass: "pass".to_string(),
        s3_expiration: 30,
        s3_prompt_bucket: "prompts".to_string(),
        redis_expiration: 60,
        servers: vec![LLMServer { url: "http://a/".to_string(), weight: 1, max_concurrent: 1 }],
        opensearch_user: "u".to_string(),
        opensearch_password: "p".to_string(),
        opensearch_servers: vec![OSServer { url: "http://search".to_string() }],
        opensearch_index: "conversations".to_string(),
        embedding_model: "mxbai".to_string(),
    })
}

// A record is written "<id>|<prompt>"; either part may be missing as "-".
fn parse(text: &str) -> Option<ApiResponse> {
    let (id, prompt) = text.split_once('|')?;
    Some(ApiResponse {
        key: if id == "-" { None } else { Some(id.to_string()) },
        model: "llama3".to_string(),
        created_at: String::new(),
        response: String::new(),
        done: false,
        ms_taken: None,
        server_url: None,
        original_api_request: if prompt == "-" {
            None
        } else {
            Some(RequestBody {
                model: "llama3".to_string(),
                prompt: prompt.to_string(),
                stream: None,
                contextualize: None,
            })
        },
    })
}

fn enqueue(q: &mut Queue, id: &str, prompt: &str) {
    q.store.insert(queue_key_of(prompt, "llama3"), id.to_string());
    q.store.insert(id.to_string(), format!("{id}|{prompt}"));
}

fn perform_on(q: &mut Queue, e: Effect<f64>) -> Reply<f64> {
    match e {
        Effect::Exists(k) => Reply::Flag(q.store.contains_key(&k)),
        Effect::Get(k) => match q.store.get(&k) {
            Some(v) => Reply::Text(v.clone()),
            None => Reply::Failed("nil".to_string()),
        },
        Effect::Load(_) => Reply::Count(q.load),
        Effect::Put { key, value, ttl } => {
            q.put.push((key.clone(), value.clone(), ttl));
            q.store.insert(key, value);
            Reply::Done
        }
        Effect::Delete(k) => {
            q.store.remove(&k);
            q.removed.push(k);
            Reply::Done
        }
        Effect::Scan { cursor, pattern, count } => {
            assert_eq!(cursor, 0);
            assert_eq!(pattern, "queue-*");
            assert_eq!(count, 100);
            let mut keys: Vec<String> =
                q.store.keys().filter(|k| k.starts_with("queue-")).cloned().collect();
            keys.sort();
            Reply::Page { cursor: 0, keys }
        }
        Effect::Now => Reply::Time { seconds: 1_431_648_000, nanos: 0 },
        Effect::DecodeResponse(t) => match parse(&t) {
            Some(v) => Reply::Response(v),
            None => Reply::Failed("not a record".to_string()),
        },
        Effect::Run(job) => {
            q.jobs.push(job);
            Reply::Done
        }
        other => panic!("not expected: {other:?}"),
    }
}

fn serve(q: &mut Queue) -> Result<(), String> {
    let mut next: Next<PopRun, f64, ()> = pop_queue(queue_settings());
    loop {
        match next {
            Next::Ask(r, e) => {
                let reply = perform_on(q, e);
                next = r.step(reply);
            }
            Next::Finish(()) => return Ok(()),
            Next::Halt(m) => return Err(m),
        }
    }
}

#[test]
fn an_empty_queue_is_served_at_once() {
    let mut q = queue();
    serve(&mut q).unwrap();
    assert!(q.jobs.is_empty());
    assert!(q.store.is_empty());
}

#[test]
fn a_waiting_request_is_run_and_kept_under_its_prompt() {
    let mut q = queue();
    enqueue(&mut q, FIRST, "hi");
    serve(&mut q).unwrap();
    assert_eq!(q.jobs.len(), 1);
    assert_eq!(q.jobs[0].id, 0x0000_0000_0000_4000_8000_0000_0000_0001);
    assert_eq!(q.jobs[0].request.prompt, "hi");
    assert_eq!(q.jobs[0].server.url, "http://a/");
    assert_eq!(q.jobs[0].stamp, "2015-05-15 00:00:00");
    assert_eq!(q.put, vec![(prompt_key_of("hi", "llama3"), FIRST.to_string(), 60)]);
    assert_eq!(q.removed, vec![queue_key_of("hi", "llama3")]);
    assert!(q.store.contains_key(FIRST));
}

#[test]
fn all_that_wait_get_their_turn() {
    let mut q = queue();
    enqueue(&mut q, FIRST, "one");
    enqueue(&mut q, SECOND, "two");
    serve(&mut q).unwrap();
    assert_eq!(q.jobs.len(), 2);
    assert_eq!(q.removed.len(), 2);
    assert!(q.store.keys().all(|k| !k.starts_with("queue-")));
}

#[test]
fn a_prompt_in_flight_only_leaves_the_queue() {
    let mut q = queue();
    enqueue(&mut q, FIRST, "hi");
    q.store.insert(prompt_key_of("hi", "llama3"), SECOND.to_string());
    serve(&mut q).unwrap();
    assert!(q.jobs.is_empty());
    assert!(q.put.is_empty());
    assert_eq!(q.removed, vec![queue_key_of("hi", "llama3")]);
    assert_eq!(q.store.get(&prompt_key_of("hi", "llama3")).unwrap(), SECOND);
}

#[test]
fn without_room_requests_go_on_waiting() {
    let mut q = queue();
    q.load = 1;
    enqueue(&mut q, FIRST, "one");
    enqueue(&mut q, SECOND, "two");
    let before = q.store.clone();
    serve(&mut q).unwrap();
    assert_eq!(q.store, before);
    assert!(q.jobs.is_empty());
}

#[test]
fn a_record_that_does_not_parse_stops_the_serving() {
    let mut q = queue();
    let key = queue_key_of("hi", "llama3");
    q.store.insert(key.clone(), FIRST.to_string());
    assert_eq!(serve(&mut q).unwrap_err(), format!("unmarshal api request from queue {key}"));
    assert!(q.store.contains_key(&key));
}

#[test]
fn a_record_without_a_request_stops_the_serving() {
    let mut q = queue();
    q.store.insert(queue_key_of("hi", "llama3"), FIRST.to_string());
    q.store.insert(FIRST.to_string(), format!("{FIRST}|-"));
    assert_eq!(
        serve(&mut q).unwrap_err(),
        "queued responses should have origin requests available"
    );
}

#[test]
fn a_record_without_an_id_stops_the_serving() {
    for id in ["-", "not an id"] {
        let mut q = queue();
        q.store.insert(queue_key_of("hi", "llama3"), FIRST.to_string());
        q.store.insert(FIRST.to_string(), format!("{id}|hi"));
        assert_eq!(serve(&mut q).unwrap_err(), "queued response must have a key");
        assert!(q.jobs.is_empty());
    }
}

#[test]
fn a_prompt_in_flight_needs_no_id() {
    let mut q = queue();
    q.store.insert(queue_key_of("hi", "llama3"), FIRST.to_string());
    q.store.insert(FIRST.to_string(), "-|hi".to_string());
    q.store.insert(prompt_key_of("hi", "llama3"), SECOND.to_string());
    serve(&mut q).unwrap();
    assert_eq!(q.removed.len(), 1);
}

fn next_after(next: Next<PopRun, f64, ()>, reply: Reply<f64>) -> Next<PopRun, f64, ()> {
    match next {
        Next::Ask(r, _) => r.step(reply),
        _ => panic!("the work has ended"),
    }
}

fn fault_of(next: Next<PopRun, f64, ()>) -> String {
    match next {
        Next::Halt(m) => m,
        _ => panic!("no fault"),
    }
}

fn no() -> Reply<f64> {
    Reply::Failed("no".to_string())
}

#[test]
fn faults_of_the_serving() {
    let now = || Reply::Time { seconds: 0, nanos: 0 };
    assert_eq!(fault_of(next_after(pop_queue(queue_settings()), no())), "No such local time");
    let scanning = || next_after(pop_queue(queue_settings()), now());
    assert_eq!(fault_of(next_after(scanning(), no())), "scan available queue keys");
    let turn = || {
        let page = Reply::Page { cursor: 0, keys: vec!["queue-1:m".to_string()] };
        let next = next_after(scanning(), page);
        let next = next_after(next, Reply::Text(FIRST.to_string()));
        let next = next_after(next, Reply::Text("r".to_string()));
        next_after(next, Reply::Response(parse(&format!("{FIRST}|hi")).unwrap()))
    };
    let dropping = || next_after(turn(), Reply::Flag(true));
    assert_eq!(fault_of(next_after(dropping(), no())), "removed in flight-already queued key");
    let storing = || {
        let next = next_after(next_after(turn(), Reply::Flag(false)), Reply::Count(0));
        next_after(next, Reply::Done)
    };
    let unwrap = "called `Result::unwrap()` on an `Err` value";
    assert_eq!(fault_of(next_after(storing(), no())), unwrap);
    let removing = || next_after(storing(), Reply::Done);
    assert_eq!(fault_of(next_after(removing(), no())), "removed");
    assert!(matches!(next_after(removing(), Reply::Done), Next::Finish(())));
}

#[test]
fn keys_come_page_by_page() {
    let next = next_after(pop_queue(queue_settings()), Reply::Time { seconds: 0, nanos: 0 });
    let Next::Ask(r, Effect::Scan { cursor: 0, .. }) = next else {
        panic!("the first page is asked for");
    };
    let next: Next<PopRun, f64, ()> =
        r.step(Reply::Page { cursor: 17, keys: vec!["queue-1:m".to_string()] });
    let Next::Ask(r, Effect::Scan { cursor: 17, pattern, count: 100 }) = next else {
        panic!("the second page is asked for");
    };
    assert_eq!(pattern, "queue-*");
    let next: Next<PopRun, f64, ()> =
        r.step(Reply::Page { cursor: 0, keys: vec!["queue-2:m".to_string()] });
    let Next::Ask(_, Effect::Get(key)) = next else {
        panic!("the first key is read");
    };
    assert_eq!(key, "queue-1:m");
}
