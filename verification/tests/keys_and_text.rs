use llm_gateway::assets::{serve_dir, unreadable_status};
use llm_gateway::clock::{clock_fault_text, stamp};
use llm_gateway::keys::{
    embed_cache_string, embed_key_of, file_name, hash_string, prompt_cache_string, prompt_key_of,
    queue_cache_string, queue_key_of,
};
use llm_gateway::text::{contains, cut_after, remove_all, write_numeral};
use twox_hash::XxHash3_128;

#[test]
fn numerals_have_no_leading_zeros() {
    assert_eq!(write_numeral(0, 10), "0");
    assert_eq!(write_numeral(0, 16), "0");
    assert_eq!(write_numeral(5, 10), "5");
    assert_eq!(write_numeral(1205, 10), "1205");
    assert_eq!(write_numeral(255, 16), "ff");
    assert_eq!(write_numeral(256, 16), "100");
    assert_eq!(write_numeral(6, 2), "110");
    assert_eq!(write_numeral(u128::MAX, 16), "ffffffffffffffffffffffffffffffff");
}

#[test]
fn hash_of_nothing() {
    assert_eq!(hash_string(""), "99aa06d3014798d86001c324468d497f");
}

#[test]
fn hashes_are_those_of_the_bytes() {
    for text in ["a", "why is the sky blue?", "größe", "a much longer text, a much longer text"] {
        let expected = format!("{:x}", XxHash3_128::oneshot(text.as_bytes()));
        assert_eq!(hash_string(text), expected);
        assert_ne!(hash_string(text), text);
    }
}

#[test]
fn keys_have_their_prefixes() {
    assert_eq!(prompt_cache_string("ab12", "llama3"), "prompt-ab12:llama3");
    assert_eq!(queue_cache_string("ab12", "llama3"), "queue-ab12:llama3");
    assert_eq!(embed_cache_string("ab12", "mxbai:large"), "embed-ab12:mxbai:large");
}

#[test]
fn keys_of_texts_hash_them() {
    let h = hash_string("hello");
    assert_eq!(prompt_key_of("hello", "m"), format!("prompt-{h}:m"));
    assert_eq!(queue_key_of("hello", "m"), format!("queue-{h}:m"));
    assert_eq!(embed_key_of("hello", "m"), format!("embed-{h}:m"));
}

#[test]
fn keys_tell_prompts_and_models_apart() {
    assert_ne!(prompt_key_of("a", "m"), prompt_key_of("b", "m"));
    assert_ne!(prompt_key_of("a", "m"), prompt_key_of("a", "n"));
    assert_ne!(prompt_key_of("a", "m"), queue_key_of("a", "m"));
    assert_eq!(prompt_key_of("a", "m"), prompt_key_of("a", "m"));
}

#[test]
fn files_are_named_after_the_id() {
    assert_eq!(
        file_name(0x0123_4567_89ab_cdef_0123_4567_89ab_cdef),
        "01234567-89ab-cdef-0123-456789abcdef.json"
    );
    assert_eq!(file_name(7), "00000000-0000-0000-0000-000000000007.json");
}

#[test]
fn stamps_are_written_to_the_second() {
    assert_eq!(stamp(0, 0).unwrap(), "1970-01-01 00:00:00");
    assert_eq!(stamp(1_431_648_000, 0).unwrap(), "2015-05-15 00:00:00");
    assert_eq!(stamp(1_431_648_000, 999_999_999).unwrap(), "2015-05-15 00:00:00");
    assert_eq!(stamp(951_782_399, 0).unwrap(), "2000-02-28 23:59:59");
    assert_eq!(stamp(253_402_300_799, 0).unwrap(), "9999-12-31 23:59:59");
}

#[test]
fn moments_beyond_the_calendar_have_no_stamp() {
    assert!(stamp(i64::MAX, 0).is_none());
    assert!(stamp(i64::MIN, 0).is_none());
    assert_eq!(clock_fault_text(), "No such local time");
}

#[test]
fn needles_are_found_anywhere() {
    assert!(contains("site.css", ".css"));
    assert!(contains(".css", ".css"));
    assert!(contains("a.css?x", ".css"));
    assert!(!contains("a.cs", ".css"));
    assert!(contains("abc", ""));
    assert!(contains("", ""));
    assert!(!contains("", "a"));
}

#[test]
fn needles_are_removed_without_overlap() {
    assert_eq!(remove_all("/fs/a/fs/b", "/fs"), "/a/b");
    assert_eq!(remove_all("/f/fss", "/fs"), "/fs");
    assert_eq!(remove_all("ababa", "aba"), "ba");
    assert_eq!(remove_all("nothing here", "/fs"), "nothing here");
    assert_eq!(remove_all("", "/fs"), "");
    assert_eq!(remove_all("ä/fsö", "/fs"), "äö");
}

#[test]
fn texts_are_cut_behind_the_first_brace() {
    let (piece, rest) = cut_after("{a}{b}", '}');
    assert_eq!(piece.unwrap(), "{a}");
    assert_eq!(rest, "{b}");
    let (piece, rest) = cut_after("ä}", '}');
    assert_eq!(piece.unwrap(), "ä}");
    assert_eq!(rest, "");
    let (piece, rest) = cut_after("no end", '}');
    assert!(piece.is_none());
    assert_eq!(rest, "no end");
}

#[test]
fn assets_lie_under_their_directory() {
    let page = serve_dir("/fs/logo.png");
    assert_eq!(page.path, "./assets/logo.png");
    assert!(page.cache_control.is_none());
    let style = serve_dir("/fs/css/site.css");
    assert_eq!(style.path, "./assets/css/site.css");
    assert_eq!(style.cache_control.unwrap(), "max-age=31536000, immutable");
    let script = serve_dir("/fs/app.js");
    assert_eq!(script.path, "./assets/app.js");
    assert_eq!(script.cache_control.unwrap(), "max-age=31536000, immutable");
}

#[test]
fn assets_lose_every_marker() {
    assert_eq!(serve_dir("/fs/a/fs/b.png").path, "./assets/a/b.png");
    assert!(serve_dir("/fs/data.json").cache_control.is_some());
}

#[test]
fn only_missing_assets_get_an_answer() {
    assert_eq!(unreadable_status(true), Some(404));
    assert_eq!(unreadable_status(false), None);
}
