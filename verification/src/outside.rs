//! Calls into other crates, and what the proofs of this library rest on there.
//!
//! Every function below hands its arguments to one function of another crate. Verus takes
//! its contract on trust.

use std::str::FromStr;

use chrono::{DateTime, Utc};
use rand::seq::IndexedRandom;
use reqwest::Url;
use twox_hash::XxHash3_128;
use uuid::Uuid;
use vstd::prelude::*;
use vstd::utf8::{decode_utf8, valid_utf8};

use crate::text::digit_char;

verus! {

/// The 128-bit XXH3 hash of a byte string.
pub uninterp spec fn xxh3(bytes: Seq<u8>) -> u128;

/// `twox_hash::XxHash3_128::oneshot`: the hash is a function of the bytes alone (the seed and
/// the secret are the crate's fixed defaults). What the hash is stays unsaid.
#[verifier::external_body]
pub(crate) fn xxh3_oneshot(bytes: &[u8]) -> (r: u128)
    ensures
        r == xxh3(bytes@),
{
    XxHash3_128::oneshot(bytes)
}

/// The character of standard base64 for six bits.
pub open spec fn base64_char(bits: int) -> char {
    "ABCDEFGHIJKLMNOPQRSTUVWXYZabcdefghijklmnopqrstuvwxyz0123456789+/"@[bits]
}

/// The standard base64 text of a byte string: four characters for every three bytes, of six bits
/// each from the highest down. Where one or two bytes are left over, the bits behind them are
/// zeros, and the characters that hold none of theirs are equals signs.
pub open spec fn base64_text(bytes: Seq<u8>) -> Seq<char>
    decreases bytes.len(),
{
    let a = bytes[0] as int;
    let b = bytes[1] as int;
    let c = bytes[2] as int;
    if bytes.len() == 0 {
        Seq::empty()
    } else if bytes.len() == 1 {
        seq![base64_char(a / 4), base64_char(a % 4 * 16), '=', '=']
    } else if bytes.len() == 2 {
        seq![base64_char(a / 4), base64_char(a % 4 * 16 + b / 16), base64_char(b % 16 * 4), '=']
    } else {
        seq![
            base64_char(a / 4),
            base64_char(a % 4 * 16 + b / 16),
            base64_char(b % 16 * 4 + c / 64),
            base64_char(c % 64),
        ] + base64_text(bytes.skip(3))
    }
}

/// The byte string that a base64 text stands for, if it is well formed.
pub uninterp spec fn base64_bytes(text: Seq<char>) -> Option<Seq<u8>>;

/// `base64::encode`: the text is the standard one, and decodes to the bytes again. The bound
/// says that the text, four characters for every three bytes begun, can be allocated; beyond
/// it the crate panics.
#[verifier::external_body]
#[allow(deprecated)]
pub(crate) fn base64_encode(bytes: &[u8]) -> (r: String)
    requires
        (bytes@.len() + 2) / 3 * 4 <= isize::MAX,
    ensures
        r@ == base64_text(bytes@),
        base64_bytes(r@) == Some(bytes@),
{
    base64::encode(bytes)
}

/// `base64::decode`: what a text decodes to, if anything, is a function of the text. Which
/// fault a malformed text has is dropped.
#[verifier::external_body]
#[allow(deprecated)]
pub(crate) fn base64_decode(text: &str) -> (r: Option<Vec<u8>>)
    ensures
        base64_bytes(text@) == match r {
            Some(v) => Some(v@),
            None => None,
        },
{
    base64::decode(text).ok()
}

/// `n` in hexadecimal, cut or filled with zeros to `width` digits.
pub open spec fn padded_hex(n: nat, width: nat) -> Seq<char>
    decreases width,
{
    if width == 0 {
        Seq::empty()
    } else {
        padded_hex(n / 16, (width - 1) as nat).push(digit_char((n % 16) as int))
    }
}

/// The text of a UUID: its 32 digits in groups of 8, 4, 4, 4 and 12.
pub open spec fn uuid_text(id: u128) -> Seq<char> {
    let h = padded_hex(id as nat, 32);
    h.subrange(0, 8) + "-"@ + h.subrange(8, 12) + "-"@ + h.subrange(12, 16) + "-"@ + h.subrange(
        16,
        20,
    ) + "-"@ + h.subrange(20, 32)
}

/// The UUID that a text stands for, if it is one.
pub uninterp spec fn uuid_value(text: Seq<char>) -> Option<u128>;

/// `uuid::Uuid::to_string`: the hyphenated lower-case form, which parses to the same UUID.
#[verifier::external_body]
pub(crate) fn uuid_to_string(id: u128) -> (r: String)
    ensures
        r@ == uuid_text(id),
        uuid_value(r@) == Some(id),
{
    Uuid::from_u128(id).to_string()
}

/// `uuid::Uuid::from_str`: what a text parses to, if anything, is a function of the text. Which
/// forms are accepted beside the hyphenated one stays unsaid.
#[verifier::external_body]
pub(crate) fn uuid_from_str(text: &str) -> (r: Option<u128>)
    ensures
        r == uuid_value(text@),
{
    match Uuid::from_str(text) {
        Ok(id) => Some(id.as_u128()),
        Err(_) => None,
    }
}

/// Whether a UUID is marked as random: version 4, variant 10.
pub open spec fn is_random_uuid(id: u128) -> bool {
    &&& (id as nat / 0x1000_0000_0000_0000_0000) % 16 == 4
    &&& (id as nat / 0x4000_0000_0000_0000) % 4 == 2
}

/// `uuid::Uuid::new_v4`: some UUID with the marks of a random one. It panics where the system
/// has no source of randomness.
#[verifier::external_body]
pub(crate) fn uuid_new_v4() -> (r: u128)
    ensures
        is_random_uuid(r),
{
    Uuid::new_v4().as_u128()
}

/// The pattern by which times are written.
pub open spec fn stamp_pattern() -> Seq<char> {
    "%Y-%m-%d %H:%M:%S"@
}

/// A moment in UTC, given as seconds and nanoseconds since 1970, written by a pattern; nothing
/// where the calendar does not reach that far.
pub uninterp spec fn utc_text(seconds: i64, nanos: u32, pattern: Seq<char>) -> Option<Seq<char>>;

/// `chrono::DateTime::format` on the moment `chrono::DateTime::from_timestamp`: the text is a
/// function of the moment and the pattern, and there is one for every moment of the years 1970
/// to 9999. Only the one pattern is admitted: writing by a malformed one panics.
#[verifier::external_body]
pub(crate) fn utc_format(seconds: i64, nanos: u32, pattern: &str) -> (r: Option<String>)
    requires
        pattern@ == stamp_pattern(),
    ensures
        utc_text(seconds, nanos, pattern@) == match r {
            Some(s) => Some(s@),
            None => None,
        },
        0 <= seconds <= 253_402_300_799 && nanos < 1_000_000_000 ==> r is Some,
{
    match DateTime::<Utc>::from_timestamp(seconds, nanos) {
        Some(moment) => Some(moment.format(pattern).to_string()),
        None => None,
    }
}

/// Whether a text is an absolute URL.
pub uninterp spec fn url_accepted(text: Seq<char>) -> bool;

/// `reqwest::Url::from_str`: whether a text parses is a function of the text. The parsed form
/// is dropped; which texts parse stays unsaid.
#[verifier::external_body]
pub(crate) fn url_parses(text: &str) -> (r: bool)
    ensures
        r == url_accepted(text@),
{
    Url::from_str(text).is_ok()
}

/// `rand::seq::IndexedRandom::choose` with `rand::rng()`: one of the elements, and nothing only
/// where there are none. Which one is left to chance. It panics where the system has no source
/// of randomness.
#[verifier::external_body]
pub(crate) fn choose_one(of: &Vec<usize>) -> (r: Option<usize>)
    ensures
        r is None <==> of@.len() == 0,
        r is Some ==> of@.contains(r->0),
{
    of.choose(&mut rand::rng()).copied()
}

/// `core::str::from_utf8`: the characters that the bytes encode, where they are valid UTF-8.
#[verifier::external_body]
pub(crate) fn utf8_to_str(bytes: &[u8]) -> (r: Option<&str>)
    ensures
        r is Some <==> valid_utf8(bytes@),
        r is Some ==> r->0@ == decode_utf8(bytes@),
{
    core::str::from_utf8(bytes).ok()
}

} // verus!
