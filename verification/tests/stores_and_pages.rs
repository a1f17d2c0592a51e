use llm_gateway::home::{
    home, page_reply, DocTemplate, FilesTemplate, HomeRun, HomeTemplate,
};
use llm_gateway::index::{index, index_with_id, IndexRun, Indexed};
use llm_gateway::protocol::{Content, Effect, Next, Reply};
use llm_gateway::scan::{scan_keys, KeyList, ScanRun};
use llm_gateway::search::{create_index, insert_document, search_similar};
use llm_gateway::state::{AppConfig, State};
use llm_gateway::storage::{get_lifecycle_xml, set_lifecycle_policy, write_file_fs, WriteRun};
use llm_gateway::types::{
    ApiResponse, EmbeddingResponse, FileStore, IndexRequestBody, LLMServer, OSServer,
};

fn store_of_files() -> FileStore {
    FileStore {
        url: "http://files".to_string(),
        user: "user".to_string(),
        pass: "pass".to_string(),
        bucket: "prompts".to_string(),
        expiration: 30,
    }
}

#[test]
fn the_lifecycle_names_its_days_twice() {
    let expected = "<?xml version=\"1.0\" encoding=\"UTF-8\"?>
    <LifecycleConfiguration>
        <Rule>
            <ID>ExpireObjectsAfter14Days</ID>
            <Status>Enabled</Status>
            <Filter>
                <Prefix>your-object-prefix/</Prefix>
            </Filter>
            <Expiration>
                <Days>14</Days>
            </Expiration>
        </Rule>
    </LifecycleConfiguration>";
    assert_eq!(get_lifecycle_xml(14), expected);
    assert!(get_lifecycle_xml(0).contains("After0Days"));
}

#[test]
fn files_are_asked_to_expire_after_five_days() {
    let request = set_lifecycle_policy(&store_of_files());
    assert_eq!(request.url, "http://files/prompts?lifecycle");
    assert_eq!(request.user, "user");
    assert_eq!(request.pass, "pass");
    assert_eq!(request.content_type, "application/xml");
    assert_eq!(request.body, get_lifecycle_xml(5));
}

fn after<R, T>(next: Next<R, f64, T>, step: fn(R, Reply<f64>) -> Next<R, f64, T>, reply: Reply<f64>) -> Next<R, f64, T> {
    match next {
        Next::Ask(r, _) => step(r, reply),
        _ => panic!("the work has ended"),
    }
}

fn write_of(name: &str) -> Next<WriteRun, f64, bool> {
    write_file_fs(store_of_files(), name.to_string(), vec![1, 2, 3])
}

#[test]
fn a_file_is_written_and_set_to_expire() {
    let next = after(write_of("x.json"), WriteRun::step, Reply::Done);
    let Next::Ask(r, Effect::PutFile { bucket, name, data }) = next else {
        panic!("the file is written");
    };
    assert_eq!(bucket, "prompts");
    assert_eq!(name, "x.json");
    assert_eq!(data, vec![1, 2, 3]);
    let next: Next<WriteRun, f64, bool> = r.step(Reply::Done);
    let Next::Ask(r, Effect::PutLifecycle(l)) = next else {
        panic!("the expiry is set");
    };
    assert_eq!(l.url, "http://files/prompts?lifecycle");
    let next: Next<WriteRun, f64, bool> = r.step(Reply::Done);
    assert!(matches!(next, Next::Finish(true)));
}

#[test]
fn what_comes_of_a_file_that_cannot_be_written() {
    let no = || Reply::Failed("no".to_string());
    let unreached = after(write_of("x"), WriteRun::step, no());
    assert!(matches!(unreached, Next::Finish(false)));
    let uploading = after(write_of("x"), WriteRun::step, Reply::Done);
    let Next::Halt(m) = after(uploading, WriteRun::step, no()) else {
        panic!("no fault");
    };
    assert_eq!(m, "Failed to upload file");
    let uploading = after(write_of("x"), WriteRun::step, Reply::Done);
    let expiring = after(uploading, WriteRun::step, Reply::Done);
    assert!(matches!(after(expiring, WriteRun::step, no()), Next::Finish(false)));
}

#[test]
fn a_scan_collects_all_pages() {
    let next: Next<ScanRun, f64, KeyList> = scan_keys("queue-*".to_string());
    let Next::Ask(r, Effect::Scan { cursor: 0, pattern, count: 100 }) = next else {
        panic!("the first page is asked for");
    };
    assert_eq!(pattern, "queue-*");
    let keys = |names: &[&str]| names.iter().map(|n| n.to_string()).collect::<Vec<String>>();
    let next: Next<ScanRun, f64, KeyList> =
        r.step(Reply::Page { cursor: 9, keys: keys(&["a", "b"]) });
    let Next::Ask(r, Effect::Scan { cursor: 9, .. }) = next else {
        panic!("the second page is asked for");
    };
    let next: Next<ScanRun, f64, KeyList> = r.step(Reply::Page { cursor: 0, keys: keys(&["c"]) });
    let Next::Finish(list) = next else {
        panic!("the scan ends");
    };
    assert_eq!(list.keys, keys(&["a", "b", "c"]));
}

#[test]
fn a_scan_that_fails_says_why() {
    let next: Next<ScanRun, f64, KeyList> = scan_keys("x*".to_string());
    let Next::Halt(m) = after(next, ScanRun::step, Reply::Failed("down".to_string())) else {
        panic!("no fault");
    };
    assert_eq!(m, "down");
}

#[test]
fn an_index_is_created_once() {
    assert!(create_index(true).is_none());
    let body = create_index(false).unwrap();
    assert!(body.knn);
    let fields: Vec<(String, String, Option<u32>)> =
        body.properties.into_iter().map(|p| (p.name, p.kind, p.dimension)).collect();
    let plain = |name: &str, kind: &str| (name.to_string(), kind.to_string(), None);
    assert_eq!(
        fields,
        vec![
            ("vector".to_string(), "knn_vector".to_string(), Some(384)),
            plain("filename", "keyword"),
            plain("text", "text"),
            plain("url", "keyword"),
            plain("source", "keyword"),
            plain("model", "text"),
            plain("timestamp", "text"),
        ]
    );
}

#[test]
fn similar_documents_are_searched_for_by_the_flat_vector() {
    let Effect::Search { cluster, index, query } =
        search_similar(4, "docs".to_string(), &vec![vec![1.0], vec![2.0, 3.0]])
    else {
        panic!("a search");
    };
    assert_eq!(cluster, 4);
    assert_eq!(index, "docs");
    assert_eq!((query.size, query.k), (3, 25));
    assert_eq!(query.vector, vec![1.0, 2.0, 3.0]);
}

#[test]
fn documents_keep_what_they_are_given() {
    let Effect::Insert { cluster, index, id, document } = insert_document(
        1,
        "docs".to_string(),
        "7".to_string(),
        "body".to_string(),
        &vec![vec![1.0], vec![2.0]],
        Some("f.txt".to_string()),
        None,
        Some("mail".to_string()),
        None,
        Some("now".to_string()),
    ) else {
        panic!("an insertion");
    };
    assert_eq!((cluster, index.as_str(), id.as_str()), (1, "docs", "7"));
    assert_eq!(document.text, "body");
    assert_eq!(document.vector, vec![1.0, 2.0]);
    assert_eq!(document.filename.as_deref(), Some("f.txt"));
    assert!(document.url.is_none());
    assert_eq!(document.source.as_deref(), Some("mail"));
    assert!(document.model.is_none());
    assert_eq!(document.timestamp.as_deref(), Some("now"));
}

fn index_settings(clusters: usize) -> State {
    State::new(AppConfig {
        redis_url: "redis://localhost".to_string(),
        s3_url: "http://files".to_string(),
        s3_user: "user".to_string(),
        s3_pass: "pass".to_string(),
        s3_expiration: 30,
        s3_prompt_bucket: "prompts".to_string(),
        redis_expiration: 60,
        servers: vec![LLMServer { url: "http://a/".to_string(), weight: 1, max_concurrent: 1 }],
        opensearch_user: "u".to_string(),
        opensearch_password: "p".to_string(),
        opensearch_servers: (0..clusters)
            .map(|_| OSServer { url: "http://search".to_string() })
            .collect(),
        opensearch_index: "conversations".to_string(),
        embedding_model: "mxbai".to_string(),
    })
}

fn sent(index_name: Option<&str>) -> IndexRequestBody {
    IndexRequestBody {
        content: "some text".to_string(),
        filename: Some("f.txt".to_string()),
        url: None,
        source: Some("mail".to_string()),
        index_name: index_name.map(|n| n.to_string()),
    }
}

type Indexing = Next<IndexRun<f64>, f64, Indexed>;

fn looked_up(index_name: Option<&str>, clusters: usize, load: i64) -> Indexing {
    let next: Indexing = index_with_id(sent(index_name), index_settings(clusters), 5);
    let time = Reply::Time { seconds: 1_431_648_000, nanos: 0 };
    let next = after(next, IndexRun::step, time);
    after(next, IndexRun::step, Reply::Count(load))
}

fn inserting(index_name: Option<&str>) -> Indexing {
    let next = looked_up(index_name, 2, 0);
    let next = after(next, IndexRun::step, Reply::Flag(false));
    let e = EmbeddingResponse { model: "mxbai".to_string(), embeddings: vec![vec![1.0], vec![2.0]] };
    let next = after(next, IndexRun::step, Reply::Embedding(e));
    let next = after(next, IndexRun::step, Reply::Text("Man".to_string()));
    after(next, IndexRun::step, Reply::Done)
}

#[test]
fn a_text_goes_to_the_first_cluster() {
    let Next::Ask(r, Effect::Insert { cluster, index, id, document }) = inserting(None) else {
        panic!("the document is put into the index");
    };
    assert_eq!(cluster, 0);
    assert_eq!(index, "default_index");
    assert_eq!(id, "00000000-0000-0000-0000-000000000005");
    assert_eq!(document.text, "some text");
    assert_eq!(document.vector, vec![1.0, 2.0]);
    assert_eq!(document.filename.as_deref(), Some("f.txt"));
    assert!(document.url.is_none());
    assert_eq!(document.source.as_deref(), Some("mail"));
    assert_eq!(document.model.as_deref(), Some("mxbai"));
    assert_eq!(document.timestamp.as_deref(), Some("2015-05-15 00:00:00"));
    let Next::Finish(Indexed::Answered(reply)) = r.step(Reply::Done) else {
        panic!("the client is answered");
    };
    assert_eq!((reply.status, reply.body.as_str()), (200, "{}"));
    assert_eq!(reply.content, Content::Json);
}

#[test]
fn a_text_may_name_its_index() {
    let Next::Ask(_, Effect::Insert { index, .. }) = inserting(Some("mails")) else {
        panic!("the document is put into the index");
    };
    assert_eq!(index, "mails");
}

#[test]
fn a_text_asks_for_its_own_embedding() {
    let next = after(looked_up(None, 1, 0), IndexRun::step, Reply::Flag(false));
    let Next::Ask(_, Effect::PostEmbed { url, request }) = next else {
        panic!("the embedding is asked for");
    };
    assert_eq!(url, "http://a/embed");
    assert_eq!(request.input, "some text");
    assert_eq!(request.model, "mxbai");
    assert_eq!(request.stream, Some(false));
}

#[test]
fn a_text_is_turned_away_where_all_servers_are_full() {
    let Next::Finish(Indexed::Answered(reply)) = looked_up(None, 1, 1) else {
        panic!("the client is answered");
    };
    assert_eq!((reply.status, reply.body.as_str()), (429, "{}"));
}

#[test]
fn a_text_needs_a_cluster() {
    for load in [0, 1] {
        let Next::Halt(m) = looked_up(None, 0, load) else {
            panic!("no fault");
        };
        assert_eq!(m, "no open search cluster is available for use");
    }
}

#[test]
fn a_document_that_is_refused_is_passed_on() {
    let next = after(inserting(None), IndexRun::step, Reply::Failed("refused".to_string()));
    let Next::Finish(Indexed::Failed(m)) = next else {
        panic!("the failure is passed on");
    };
    assert_eq!(m, "refused");
}

#[test]
fn a_text_needs_the_clock() {
    let next: Indexing = index(sent(None), index_settings(1));
    let Next::Halt(m) = after(next, IndexRun::step, Reply::Done) else {
        panic!("no fault");
    };
    assert_eq!(m, "No such local time");
}

#[test]
fn documents_get_new_ids() {
    let first: Indexing = index(sent(None), index_settings(1));
    let second: Indexing = index(sent(None), index_settings(1));
    let (Next::Ask(a, _), Next::Ask(b, _)) = (first, second) else {
        panic!("the work starts with a question");
    };
    assert_ne!(a.id, b.id);
}

#[test]
fn settings_can_be_copied() {
    let copy = index_settings(2).copy();
    assert_eq!(copy.opensearch_servers.len(), 2);
    assert_eq!(copy.possible_servers[0].url, "http://a/");
    assert_eq!(copy.redis_expiration, 60);
    assert_eq!(copy.s3_bucket, "prompts");
    assert_eq!(copy.opensearch_user, "u");
    assert_eq!(copy.opensearch_password, "p");
}

fn record(response: &str) -> ApiResponse {
    ApiResponse {
        key: None,
        model: String::new(),
        created_at: String::new(),
        response: response.to_string(),
        done: true,
        ms_taken: None,
        server_url: None,
        original_api_request: None,
    }
}

// Every key leads to the record of its own name; a key with "gone" in it leads to none.
fn gather(queued: Reply<f64>, prompts: Reply<f64>) -> Result<HomeTemplate, String> {
    let servers = vec![LLMServer { url: "http://a/".to_string(), weight: 1, max_concurrent: 1 }];
    let mut next: Next<HomeRun, f64, HomeTemplate> = home(servers);
    let mut lists = vec![prompts, queued];
    loop {
        match next {
            Next::Ask(r, e) => {
                let reply = match e {
                    Effect::Scan { pattern, .. } => {
                        let expected = if lists.len() == 2 { "queue-*" } else { "prompt-*" };
                        assert_eq!(pattern, expected);
                        lists.pop().unwrap()
                    }
                    Effect::Get(k) if k.contains("gone") => Reply::Failed("nil".to_string()),
                    Effect::Get(k) => Reply::Text(k),
                    Effect::DecodeResponse(t) if t.is_empty() => Reply::Failed("eof".to_string()),
                    Effect::DecodeResponse(t) => Reply::Response(record(&t)),
                    other => panic!("not expected: {other:?}"),
                };
                next = r.step(reply);
            }
            Next::Finish(page) => return Ok(page),
            Next::Halt(m) => return Err(m),
        }
    }
}

fn page_of(keys: &[&str]) -> Reply<f64> {
    Reply::Page { cursor: 0, keys: keys.iter().map(|k| k.to_string()).collect() }
}

fn responses(list: &[ApiResponse]) -> Vec<&str> {
    list.iter().map(|r| r.response.as_str()).collect()
}

#[test]
fn the_start_page_lists_all_in_order() {
    let page = gather(page_of(&["q1", "q2"]), page_of(&["p1", "p2", "p3"])).unwrap();
    assert_eq!(responses(&page.queued), vec!["q1", "q2"]);
    assert_eq!(responses(&page.prompts), vec!["p1", "p2", "p3"]);
    assert_eq!(page.possible_servers[0].url, "http://a/");
}

#[test]
fn the_start_page_may_be_empty() {
    let page = gather(page_of(&[]), page_of(&[])).unwrap();
    assert!(page.queued.is_empty());
    assert!(page.prompts.is_empty());
}

#[test]
fn taken_requests_that_are_gone_are_left_out() {
    let page = gather(page_of(&[]), page_of(&["p1", "gone", "p2"])).unwrap();
    assert_eq!(responses(&page.prompts), vec!["p1", "p2"]);
}

#[test]
fn waiting_requests_must_be_there() {
    let fault = gather(page_of(&["gone"]), page_of(&[])).unwrap_err();
    assert_eq!(fault, "response json is valid");
}

#[test]
fn lists_that_cannot_be_collected_are_empty() {
    let no = || Reply::Failed("down".to_string());
    let page = gather(no(), page_of(&["p1"])).unwrap();
    assert!(page.queued.is_empty());
    assert_eq!(responses(&page.prompts), vec!["p1"]);
    let page = gather(page_of(&["q1"]), no()).unwrap();
    assert_eq!(responses(&page.queued), vec!["q1"]);
    assert!(page.prompts.is_empty());
}

#[test]
fn pages_are_html() {
    let reply = page_reply("<p>hello</p>".to_string());
    assert_eq!(reply.status, 200);
    assert_eq!(reply.content, Content::Html);
    assert_eq!(reply.body, "<p>hello</p>");
}

#[test]
fn templates_hold_what_they_are_given() {
    let page = HomeTemplate::new(vec![], vec![record("a")], vec![]);
    assert_eq!(page.queued.len(), 1);
    let files = FilesTemplate::new(vec!["x.json".to_string()]);
    assert_eq!(files.files, vec!["x.json".to_string()]);
    assert_eq!(DocTemplate::new(), DocTemplate {});
}
