use llm_gateway::embedding::{copy_rows, embedding_request, flatten, seal, EmbedRun};
use llm_gateway::keys::embed_key_of;
use llm_gateway::protocol::{Effect, Next, Reply};
use llm_gateway::stream::{process_stream, StreamRun, Streamed};
use llm_gateway::types::{ApiResponse, EmbedRequestBody, EmbeddingResponse};

type Reading = Next<StreamRun, f64, Streamed>;
type Work = Next<EmbedRun<f64>, f64, EmbeddingResponse<f64>>;

// Objects parse to what stands between their braces, except "{!}".
fn read(chunks: &[&[u8]]) -> Result<String, String> {
    let mut left = chunks.iter();
    let mut next: Reading = process_stream(true, "200 OK".to_string());
    loop {
        match next {
            Next::Ask(r, Effect::NextChunk) => {
                next = match left.next() {
                    Some(c) => r.step(Reply::Chunk(c.to_vec())),
                    None => r.step(Reply::End),
                };
            }
            Next::Ask(r, Effect::DecodeResponse(object)) => {
                let inner = object.trim_start_matches('{').trim_end_matches('}').to_string();
                next = if inner == "!" {
                    r.step(Reply::Failed("bad object".to_string()))
                } else {
                    r.step(Reply::Response(piece(&inner)))
                };
            }
            Next::Finish(s) => return s.text,
            _ => panic!("not expected"),
        }
    }
}

fn piece(response: &str) -> ApiResponse {
    ApiResponse {
        key: None,
        model: String::new(),
        created_at: String::new(),
        response: response.to_string(),
        done: false,
        ms_taken: None,
        server_url: None,
        original_api_request: None,
    }
}

#[test]
fn objects_are_joined() {
    assert_eq!(read(&[b"{hel}{lo}"]).unwrap(), "hello");
    assert_eq!(read(&[b"{hel}", b"{lo}"]).unwrap(), "hello");
    assert_eq!(read(&[]).unwrap(), "");
}

#[test]
fn the_cut_into_chunks_does_not_matter() {
    let whole = read(&[b"{hel}{lo}"]);
    assert_eq!(read(&[b"{h", b"el", b"}{", b"lo}"]), whole);
    assert_eq!(read(&[b"", b"{hel}{lo}", b""]), whole);
}

#[test]
fn text_behind_the_last_object_is_dropped() {
    assert_eq!(read(&[b"{a}{b"]).unwrap(), "a");
}

#[test]
fn a_chunk_that_is_no_text_is_skipped() {
    assert_eq!(read(&[b"{a}", &[0xff, 0xfe], b"{b}"]).unwrap(), "ab");
    assert_eq!(read(&["{ä}".as_bytes()]).unwrap(), "ä");
    assert_eq!(read(&[b"{x", &[0xc3], &[0xa4], b"}"]).unwrap(), "x");
}

#[test]
fn the_first_bad_object_ends_the_stream() {
    assert_eq!(
        read(&[b"{a}{!}{b}"]).unwrap_err(),
        "Failed to deserialize chunk: bad object"
    );
}

#[test]
fn a_broken_stream_ends_with_its_fault() {
    let next: Reading = process_stream(true, "200 OK".to_string());
    let Next::Ask(r, Effect::NextChunk) = next else {
        panic!("a chunk is asked for");
    };
    let next: Reading = r.step(Reply::Failed("cut off".to_string()));
    let Next::Finish(s) = next else {
        panic!("the stream ends");
    };
    assert_eq!(s.text.unwrap_err(), "Error while streaming: cut off");
}

#[test]
fn a_refusal_is_not_read() {
    let next: Reading = process_stream(false, "503 Service Unavailable".to_string());
    let Next::Finish(s) = next else {
        panic!("the stream ends");
    };
    assert_eq!(
        s.text.unwrap_err(),
        "Failed to get a valid response. Status: 503 Service Unavailable"
    );
}

#[test]
fn rows_are_put_behind_one_another() {
    let rows = vec![vec![1.5, 2.0], vec![], vec![-3.0]];
    assert_eq!(flatten(&rows), vec![1.5, 2.0, -3.0]);
    assert_eq!(copy_rows(&rows), rows);
    let none: Vec<Vec<f64>> = vec![];
    assert!(flatten(&none).is_empty());
}

#[test]
fn texts_are_sealed_in_base64() {
    assert_eq!(seal("").unwrap(), "");
    assert_eq!(seal("M").unwrap(), "TQ==");
    assert_eq!(seal("Ma").unwrap(), "TWE=");
    assert_eq!(seal("Man").unwrap(), "TWFu");
    assert_eq!(seal("ä").unwrap(), "w6Q=");
    assert_eq!(seal("~~>").unwrap(), "fn4+");
    assert_eq!(seal("~~?").unwrap(), "fn4/");
    assert_eq!(seal("Many").unwrap(), "TWFueQ==");
}

fn wanted(url: &str) -> Work {
    embedding_request(
        &url.to_string(),
        EmbedRequestBody {
            model: "mxbai".to_string(),
            input: "some text".to_string(),
            stream: Some(false),
        },
        5,
        60,
    )
}

fn step(work: Work, reply: Reply<f64>) -> Work {
    match work {
        Next::Ask(r, _) => r.step(reply),
        _ => panic!("the work has ended"),
    }
}

fn stopped_by(work: Work) -> String {
    match work {
        Next::Halt(m) => m,
        _ => panic!("no fault"),
    }
}

fn vector() -> EmbeddingResponse<f64> {
    EmbeddingResponse { model: "mxbai".to_string(), embeddings: vec![vec![0.25]] }
}

#[test]
fn a_kept_embedding_is_read_back() {
    let Next::Ask(r, Effect::Exists(key)) = wanted("http://a/") else {
        panic!("a kept embedding is looked for");
    };
    assert_eq!(key, embed_key_of("some text", "mxbai"));
    let Next::Ask(r, Effect::Get(asked)) = r.step(Reply::Flag(true)) else {
        panic!("the kept embedding is read");
    };
    assert_eq!(asked, key);
    let kept = seal("{\"model\": \"mxbai\"}").unwrap();
    let Next::Ask(r, Effect::DecodeEmbedding(bytes)) = r.step(Reply::Text(kept)) else {
        panic!("the kept embedding is parsed");
    };
    assert_eq!(bytes, b"{\"model\": \"mxbai\"}");
    let Next::Finish(e) = r.step(Reply::Embedding(vector())) else {
        panic!("the work ends");
    };
    assert_eq!(e.embeddings, vec![vec![0.25]]);
}

#[test]
fn a_server_is_asked_where_nothing_is_kept() {
    for reply in [Reply::Flag(false), Reply::Failed("down".to_string())] {
        let Next::Ask(r, Effect::PostEmbed { url, request }) = step(wanted("http://a/"), reply)
        else {
            panic!("a server is asked");
        };
        assert_eq!(url, "http://a/embed");
        assert_eq!(request.input, "some text");
        let Next::Ask(r, Effect::EncodeEmbedding(e)) = r.step(Reply::Embedding(vector())) else {
            panic!("the embedding is written out");
        };
        assert_eq!(e.embeddings, vec![vec![0.25]]);
        let Next::Ask(r, Effect::Put { key, value, ttl }) = r.step(Reply::Text("Man".to_string()))
        else {
            panic!("the embedding is kept");
        };
        assert_eq!(key, "00000000-0000-0000-0000-000000000005");
        assert_eq!(value, "TWFu");
        assert_eq!(ttl, 60);
        let Next::Finish(e) = r.step(Reply::Done) else {
            panic!("the work ends");
        };
        assert_eq!(e.model, "mxbai");
        assert_eq!(e.embeddings, vec![vec![0.25]]);
    }
}

#[test]
fn faults_of_the_work_for_an_embedding() {
    let no = || Reply::Failed("no".to_string());
    assert_eq!(stopped_by(wanted("::")), "URL");
    let fetching = || step(wanted("http://a/"), Reply::Flag(true));
    assert_eq!(stopped_by(step(fetching(), no())), "get response cache key");
    let garbled = Reply::Text("***".to_string());
    assert_eq!(stopped_by(step(fetching(), garbled)), "decode proper");
    let decoding = || step(fetching(), Reply::Text("TWFu".to_string()));
    assert_eq!(stopped_by(step(decoding(), no())), "valid json");
    let posting = || step(wanted("http://a/"), Reply::Flag(false));
    assert_eq!(stopped_by(step(posting(), no())), "Failed to send request");
    let refused = Reply::Refused("not json".to_string());
    assert_eq!(stopped_by(step(posting(), refused)), "works");
    let encoding = || step(posting(), Reply::Embedding(vector()));
    let unwrap = "called `Result::unwrap()` on an `Err` value";
    assert_eq!(stopped_by(step(encoding(), no())), unwrap);
    let storing = || step(encoding(), Reply::Text("x".to_string()));
    assert_eq!(stopped_by(step(storing(), no())), "set val");
}
