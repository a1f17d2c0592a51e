use llm_gateway::keys::embed_key_of;
use llm_gateway::llm::{llm_request, LlmRun};
use llm_gateway::protocol::{Effect, LlmJob, Next, Reply};
use llm_gateway::types::{
    ApiResponse, EmbeddingResponse, FileStore, Hit, Hits, LLMServer, RequestBody, SearchResponse,
    Shards, Source, TotalHits,
};

const JOB_ID: u128 = 0x0000_0000_0000_4000_8000_0000_0000_0001;
const JOB_ID_TEXT: &str = "00000000-0000-4000-8000-000000000001";

type Step = Next<LlmRun<f64>, f64, ()>;

fn job(contextualize: Option<bool>, clusters: usize) -> LlmJob {
    LlmJob {
        request: RequestBody {
            model: "llama3".to_string(),
            prompt: "hi".to_string(),
            stream: Some(true),
            contextualize,
        },
        server: LLMServer { url: "http://a/".to_string(), weight: 1, max_concurrent: 1 },
        id: JOB_ID,
        stamp: "2015-05-15 00:00:00".to_string(),
        ttl: 60,
        files: FileStore {
            url: "http://files".to_string(),
            user: "user".to_string(),
            pass: "pass".to_string(),
            bucket: "prompts".to_string(),
            expiration: 30,
        },
        index: "conversations".to_string(),
        clusters,
        embedding_model: "mxbai".to_string(),
    }
}

fn answer(prompt: &str, response: &str) -> ApiResponse {
    ApiResponse {
        key: None,
        model: "llama3".to_string(),
        created_at: String::new(),
        response: response.to_string(),
        done: true,
        ms_taken: None,
        server_url: None,
        original_api_request: Some(RequestBody {
            model: "llama3".to_string(),
            prompt: prompt.to_string(),
            stream: None,
            contextualize: None,
        }),
    }
}

fn found(texts: &[&str]) -> SearchResponse<f64> {
    SearchResponse {
        _shards: Shards { failed: 0, skipped: 0, successful: 1, total: 1 },
        hits: Hits {
            hits: texts
                .iter()
                .map(|t| Hit {
                    _id: "1".to_string(),
                    _index: "conversations".to_string(),
                    _score: Some(0.5),
                    _source: Source { embedding: vec![], text: t.to_string() },
                })
                .collect(),
            max_score: None,
            total: TotalHits { relation: "eq".to_string(), value: texts.len() as u32 },
        },
        timed_out: false,
        took: 1,
    }
}

fn embedding() -> EmbeddingResponse<f64> {
    EmbeddingResponse { model: "mxbai".to_string(), embeddings: vec![vec![1.0, 2.0], vec![3.0]] }
}

fn on(step: Step, reply: Reply<f64>) -> Step {
    match step {
        Next::Ask(r, _) => r.step(reply),
        _ => panic!("the job has ended"),
    }
}

fn effect_of(step: &Step) -> &Effect<f64> {
    match step {
        Next::Ask(_, e) => e,
        _ => panic!("the job has ended"),
    }
}

fn fault(step: Step) -> String {
    match step {
        Next::Halt(m) => m,
        _ => panic!("no fault"),
    }
}

fn bad() -> Reply<f64> {
    Reply::Failed("no".to_string())
}

fn text(t: &str) -> Reply<f64> {
    Reply::Text(t.to_string())
}

// A job without context that has sent its prompt.
fn posted() -> Step {
    on(on(llm_request(job(None, 2)), Reply::Done), Reply::Done)
}

// A job that has read its answer, in two objects.
fn stopped() -> Step {
    let s = on(posted(), Reply::Status { success: true, line: "200 OK".to_string() });
    let s = on(s, Reply::Chunk(b"{1}{2}".to_vec()));
    let s = on(s, Reply::Response(answer("hi", "hel")));
    let s = on(s, Reply::Response(answer("hi", "lo")));
    on(s, Reply::End)
}

// A job whose answer is written to a file.
fn written() -> Step {
    let s = on(stopped(), Reply::Millis(42));
    let s = on(s, text("{\"a\": 1}"));
    let s = on(s, Reply::Done);
    let s = on(s, Reply::Done);
    on(s, Reply::Done)
}

// A job whose answer has its embedding from the server.
fn embedded() -> Step {
    let s = on(written(), Reply::Flag(false));
    let s = on(s, Reply::Embedding(embedding()));
    let s = on(s, text("Man"));
    on(s, Reply::Done)
}

#[test]
fn an_address_that_is_no_url_stops_the_job() {
    let mut j = job(None, 0);
    j.server.url = "no url at all".to_string();
    let s: Step = llm_request(j);
    assert_eq!(fault(s), "URL");
}

#[test]
fn a_job_is_counted_first() {
    let s: Step = llm_request(job(None, 0));
    let Effect::Increment(counter) = effect_of(&s) else {
        panic!("the job is counted");
    };
    assert_eq!(counter, "http://a/");
    assert!(matches!(effect_of(&on(s, Reply::Done)), Effect::StartTimer));
}

#[test]
fn a_plain_prompt_is_sent_as_it_came() {
    for contextualize in [None, Some(false)] {
        let s: Step = llm_request(job(contextualize, 2));
        let s = on(on(s, Reply::Done), Reply::Done);
        let Effect::PostGenerate { url, body } = effect_of(&s) else {
            panic!("the prompt is sent");
        };
        assert_eq!(url, "http://a/generate");
        assert_eq!(body.prompt, "hi");
        assert_eq!(body.model, "llama3");
        assert_eq!(body.stream, Some(true));
        assert_eq!(body.contextualize, contextualize);
    }
}

#[test]
fn a_prompt_is_put_into_context() {
    let s: Step = llm_request(job(Some(true), 2));
    let s = on(on(s, Reply::Done), Reply::Done);
    let Effect::Exists(key) = effect_of(&s) else {
        panic!("a kept embedding is looked for");
    };
    assert_eq!(*key, embed_key_of("hi", "mxbai"));
    let s = on(s, Reply::Flag(false));
    let Effect::PostEmbed { url, request } = effect_of(&s) else {
        panic!("the embedding is asked for");
    };
    assert_eq!(url, "http://a/embed");
    assert_eq!(request.input, "hi");
    assert_eq!(request.model, "mxbai");
    assert_eq!(request.stream, Some(false));
    let s = on(s, Reply::Embedding(embedding()));
    let s = on(on(s, text("Man")), Reply::Done);
    let Effect::Search { cluster: 0, index, query } = effect_of(&s) else {
        panic!("the first cluster is searched");
    };
    assert_eq!(index, "conversations");
    assert_eq!(query.size, 3);
    assert_eq!(query.k, 25);
    assert_eq!(query.vector, vec![1.0, 2.0, 3.0]);
    let s = on(s, Reply::Found(found(&["one", "two"])));
    assert!(matches!(effect_of(&s), Effect::DecodeResponse(t) if t == "one"));
    let s = on(s, Reply::Response(answer("q1", "a1")));
    assert!(matches!(effect_of(&s), Effect::DecodeResponse(t) if t == "two"));
    let s = on(s, Reply::Response(answer("q2", "a2")));
    assert!(matches!(effect_of(&s), Effect::Search { cluster: 1, .. }));
    let s = on(s, Reply::Found(found(&["three"])));
    let s = on(s, Reply::Response(answer("q3", "a3")));
    let Effect::PostGenerate { body, .. } = effect_of(&s) else {
        panic!("the prompt is sent");
    };
    assert_eq!(
        body.prompt,
        "For additional context use our previous conversation:  \n\n q1 \n a1 \n\n q2 \n a2 \n\n q3 \n a3 \n::: prompt :::\n hi\n"
    );
    assert_eq!(body.contextualize, Some(true));
}

#[test]
fn context_may_be_empty() {
    let s: Step = llm_request(job(Some(true), 0));
    let s = on(on(on(s, Reply::Done), Reply::Done), Reply::Flag(true));
    let s = on(on(s, text("TWFu")), Reply::Embedding(embedding()));
    let Effect::PostGenerate { body, .. } = effect_of(&s) else {
        panic!("the prompt is sent");
    };
    assert_eq!(
        body.prompt,
        "For additional context use our previous conversation:  \n::: prompt :::\n hi\n"
    );
}

#[test]
fn the_answer_is_made_of_the_stream() {
    let s = on(stopped(), Reply::Millis(42));
    let Effect::EncodeResponse(v) = effect_of(&s) else {
        panic!("the answer is written out");
    };
    assert_eq!(v.key.as_deref(), Some(JOB_ID_TEXT));
    assert_eq!(v.response, "hello");
    assert_eq!(v.model, "llama3");
    assert_eq!(v.created_at, "2015-05-15 00:00:00");
    assert!(v.done);
    assert_eq!(v.ms_taken, Some(42));
    assert_eq!(v.server_url.as_deref(), Some("http://a/"));
    assert_eq!(v.original_api_request.as_ref().unwrap().prompt, "hi");
}

#[test]
fn a_stream_that_fails_gives_an_empty_answer() {
    let s = on(posted(), Reply::Status { success: false, line: "500".to_string() });
    let s = on(s, bad());
    let Effect::EncodeResponse(v) = effect_of(&s) else {
        panic!("the answer is written out");
    };
    assert_eq!(v.response, "");
    assert_eq!(v.ms_taken, None);
    assert!(v.done);
}

#[test]
fn the_answer_is_written_to_a_file() {
    let s = on(on(stopped(), Reply::Millis(42)), text("{\"a\": 1}"));
    let Effect::OpenFiles(files) = effect_of(&s) else {
        panic!("the file store is opened");
    };
    assert_eq!(files.url, "http://files");
    let s = on(s, Reply::Done);
    let Effect::PutFile { bucket, name, data } = effect_of(&s) else {
        panic!("the file is written");
    };
    assert_eq!(bucket, "prompts");
    assert_eq!(*name, format!("{JOB_ID_TEXT}.json"));
    assert_eq!(data, b"{\"a\": 1}");
}

#[test]
fn a_file_store_out_of_reach_does_not_stop_the_job() {
    let s = on(on(stopped(), Reply::Millis(42)), text("{\"a\": 1}"));
    let s = on(s, bad());
    assert!(matches!(effect_of(&s), Effect::Exists(_)));
}

#[test]
fn the_answer_goes_to_every_cluster() {
    let mut s = embedded();
    for c in 0..2 {
        let Effect::Insert { cluster, index, id, document } = effect_of(&s) else {
            panic!("the answer is put into the index");
        };
        assert_eq!(*cluster, c);
        assert_eq!(index, "conversations");
        assert_eq!(id, JOB_ID_TEXT);
        assert_eq!(document.text, "{\"a\": 1}");
        assert_eq!(document.vector, vec![1.0, 2.0, 3.0]);
        assert!(document.filename.is_none());
        assert!(document.url.is_none());
        assert!(document.source.is_none());
        assert!(document.model.is_none());
        assert!(document.timestamp.is_none());
        s = on(s, Reply::Done);
    }
    assert!(matches!(effect_of(&s), Effect::EncodeEmbedding(_)));
}

#[test]
fn the_end_of_a_job() {
    let s = on(on(embedded(), Reply::Done), Reply::Done);
    let s = on(s, text("Man"));
    let Effect::Put { key, value, ttl } = effect_of(&s) else {
        panic!("the embedding is kept");
    };
    assert_eq!(*key, embed_key_of("{\"a\": 1}", "mxbai"));
    assert_eq!(value, "TWFu");
    assert_eq!(*ttl, 60);
    let s = on(s, Reply::Done);
    let Effect::Put { key, value, ttl } = effect_of(&s) else {
        panic!("the answer is kept");
    };
    assert_eq!(key, JOB_ID_TEXT);
    assert_eq!(value, "{\"a\": 1}");
    assert_eq!(*ttl, 60);
    let s = on(s, Reply::Done);
    let Effect::Decrement(counter) = effect_of(&s) else {
        panic!("the job is counted out");
    };
    assert_eq!(counter, "http://a/");
    assert!(matches!(on(s, Reply::Done), Next::Finish(())));
}

#[test]
fn faults_before_the_prompt_is_sent() {
    let unwrap = "called `Result::unwrap()` on an `Err` value";
    assert_eq!(fault(on(llm_request(job(None, 1)), bad())), unwrap);
    let context = || {
        let s: Step = llm_request(job(Some(true), 1));
        let s = on(on(on(s, Reply::Done), Reply::Done), Reply::Flag(true));
        on(on(s, text("TWFu")), Reply::Embedding(embedding()))
    };
    assert_eq!(fault(on(context(), bad())), "search");
    let hit = || on(context(), Reply::Found(found(&["one"])));
    assert_eq!(fault(on(hit(), bad())), "json valid");
    let mut v = answer("q", "a");
    v.original_api_request = None;
    assert_eq!(fault(on(hit(), Reply::Response(v))), "api request exists");
    assert_eq!(fault(on(posted(), bad())), "Failed to send request");
}

#[test]
fn faults_after_the_answer_is_read() {
    let unwrap = "called `Result::unwrap()` on an `Err` value";
    let encoding = || on(stopped(), Reply::Millis(1));
    assert_eq!(fault(on(encoding(), bad())), unwrap);
    let uploading = || on(on(encoding(), text("x")), Reply::Done);
    assert_eq!(fault(on(uploading(), bad())), "Failed to upload file");
    assert_eq!(fault(on(embedded(), bad())), "Inserted into opensearch");
    let sealing = || on(on(embedded(), Reply::Done), Reply::Done);
    assert_eq!(fault(on(sealing(), bad())), unwrap);
    let keeping = || on(sealing(), text("x"));
    assert_eq!(fault(on(keeping(), bad())), "set val");
    let answering = || on(keeping(), Reply::Done);
    assert_eq!(fault(on(answering(), bad())), "set val");
    let releasing = || on(answering(), Reply::Done);
    assert_eq!(fault(on(releasing(), bad())), unwrap);
}
