use llm_gateway::server::{
    drop_url, find_available_server, heaviest, select_best_server, Search,
};
use llm_gateway::types::LLMServer;

fn server(url: &str, weight: i32, max_concurrent: i64) -> LLMServer {
    LLMServer { url: url.to_string(), weight, max_concurrent }
}

fn search_with(servers: Vec<LLMServer>, load: fn(&str) -> i64) -> (Option<LLMServer>, usize) {
    let mut asked = 0;
    let mut at = find_available_server(servers);
    loop {
        match at {
            Search::Ask(s) => {
                asked += 1;
                let l = load(s.candidate.url.as_str());
                at = s.step(l);
            }
            Search::Found(s) => return (Some(s), asked),
            Search::Exhausted => return (None, asked),
        }
    }
}

#[test]
fn no_server_no_choice() {
    assert!(select_best_server(&vec![]).is_none());
    assert!(heaviest(&vec![]).is_empty());
}

#[test]
fn heaviest_lists_all_ties_in_order() {
    let servers = vec![server("a", 1, 1), server("b", 7, 1), server("c", 3, 1), server("d", 7, 1)];
    assert_eq!(heaviest(&servers), vec![1, 3]);
    let negative = vec![server("a", -5, 1), server("b", -2, 1)];
    assert_eq!(heaviest(&negative), vec![1]);
}

#[test]
fn the_best_server_is_chosen() {
    for _ in 0..20 {
        let servers = vec![server("a", 1, 1), server("b", 9, 4), server("c", 3, 1)];
        let best = select_best_server(&servers).unwrap();
        assert_eq!(best.url, "b");
        assert_eq!(best.weight, 9);
        assert_eq!(best.max_concurrent, 4);
    }
}

#[test]
fn every_tie_comes_up() {
    let servers = vec![server("a", 5, 1), server("b", 5, 1), server("c", 1, 1)];
    let mut a = 0;
    let mut b = 0;
    for _ in 0..400 {
        match select_best_server(&servers).unwrap().url.as_str() {
            "a" => a += 1,
            "b" => b += 1,
            other => panic!("{other} is not among the best"),
        }
    }
    assert!(a > 0 && b > 0);
}

#[test]
fn addresses_are_dropped_with_all_their_servers() {
    let servers = vec![server("a", 1, 1), server("b", 2, 1), server("a", 3, 1)];
    let left = drop_url(&servers, &"a".to_string());
    assert_eq!(left.len(), 1);
    assert_eq!(left[0].url, "b");
    assert_eq!(drop_url(&servers, &"z".to_string()).len(), 3);
}

#[test]
fn a_free_server_is_found_at_once() {
    let servers = vec![server("a", 1, 1), server("b", 2, 1)];
    let (found, asked) = search_with(servers, |_| 0);
    assert_eq!(found.unwrap().url, "b");
    assert_eq!(asked, 1);
}

#[test]
fn full_servers_are_passed_over() {
    let servers = vec![server("a", 1, 2), server("b", 2, 3)];
    let (found, asked) = search_with(servers, |url| if url == "b" { 3 } else { 1 });
    assert_eq!(found.unwrap().url, "a");
    assert_eq!(asked, 2);
}

#[test]
fn a_server_at_its_limit_is_full() {
    let one = vec![server("a", 1, 2)];
    assert!(search_with(one, |_| 2).0.is_none());
    let one = vec![server("a", 1, 2)];
    assert!(search_with(one, |_| 1).0.is_some());
    let none = vec![server("a", 1, 0)];
    assert!(search_with(none, |_| 0).0.is_none());
}

#[test]
fn a_search_ends_when_all_are_full() {
    let servers = vec![server("a", 1, 1), server("b", 2, 1), server("c", 3, 1)];
    let (found, asked) = search_with(servers, |_| 1);
    assert!(found.is_none());
    assert_eq!(asked, 3);
}

#[test]
fn servers_at_one_address_share_its_fate() {
    let servers = vec![server("a", 2, 1), server("a", 1, 9)];
    let (found, asked) = search_with(servers, |_| 1);
    assert!(found.is_none());
    assert_eq!(asked, 1);
}

#[test]
fn a_search_without_servers_ends_at_once() {
    let (found, asked) = search_with(vec![], |_| 0);
    assert!(found.is_none());
    assert_eq!(asked, 0);
}
