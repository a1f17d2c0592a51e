//! The names under which answers, embeddings and waiting requests are kept.

use vstd::arithmetic::power::pow;
use vstd::prelude::*;
use vstd::utf8::encode_utf8;

use crate::outside::{padded_hex, uuid_text, uuid_to_string, xxh3, xxh3_oneshot};
use crate::text::{
    digit_char, digits_have_their_value, numeral, numeral_characters, numeral_length,
    numeral_start, numerals_are_distinct, numerals_read_back, value_of, write_numeral,
};

verus! {

/// The hash of a text, in hexadecimal without leading zeros.
pub open spec fn hash_text(input: Seq<char>) -> Seq<char> {
    numeral(xxh3(encode_utf8(input)) as nat, 16)
}

/// The key of an answered or running prompt.
pub open spec fn prompt_key(hash: Seq<char>, model: Seq<char>) -> Seq<char> {
    "prompt-"@ + hash + ":"@ + model
}

/// The key of a waiting prompt.
pub open spec fn queue_key(hash: Seq<char>, model: Seq<char>) -> Seq<char> {
    "queue-"@ + hash + ":"@ + model
}

/// The key of an embedding.
pub open spec fn embed_key(hash: Seq<char>, model: Seq<char>) -> Seq<char> {
    "embed-"@ + hash + ":"@ + model
}

/// Hashes a text.
pub fn hash_string(input: &str) -> (r: String)
    ensures
        r@ == hash_text(input@),
{
    write_numeral(xxh3_oneshot(input.as_bytes()), 16)
}

/// Joins a prefix, a hash and a model by the colon between hash and model.
fn cache_string(prefix: &str, hash: &str, model: &str) -> (r: String)
    ensures
        r@ == prefix@ + hash@ + ":"@ + model@,
{
    prefix.to_owned().concat(hash).concat(":").concat(model)
}

/// The key under which the embedding of a text with this hash is kept for a model.
pub fn embed_cache_string(embedt_hash: &str, model: &str) -> (r: String)
    ensures
        r@ == embed_key(embedt_hash@, model@),
{
    cache_string("embed-", embedt_hash, model)
}

/// The key under which the answer to a prompt with this hash is kept for a model.
pub fn prompt_cache_string(prompt_hash: &str, model: &str) -> (r: String)
    ensures
        r@ == prompt_key(prompt_hash@, model@),
{
    cache_string("prompt-", prompt_hash, model)
}

/// The key under which a prompt with this hash waits for a model.
pub fn queue_cache_string(prompt_hash: &str, model: &str) -> (r: String)
    ensures
        r@ == queue_key(prompt_hash@, model@),
{
    cache_string("queue-", prompt_hash, model)
}

/// The key of the prompt itself.
pub fn prompt_key_of(prompt: &str, model: &str) -> (r: String)
    ensures
        r@ == prompt_key(hash_text(prompt@), model@),
{
    prompt_cache_string(hash_string(prompt).as_str(), model)
}

/// The key under which the prompt itself waits.
pub fn queue_key_of(prompt: &str, model: &str) -> (r: String)
    ensures
        r@ == queue_key(hash_text(prompt@), model@),
{
    queue_cache_string(hash_string(prompt).as_str(), model)
}

/// The key of the embedding of the input itself.
pub fn embed_key_of(input: &str, model: &str) -> (r: String)
    ensures
        r@ == embed_key(hash_text(input@), model@),
{
    embed_cache_string(hash_string(input).as_str(), model)
}

/// The name of the file that keeps the answer with this id.
pub fn file_name(id: u128) -> (r: String)
    ensures
        r@ == uuid_text(id) + ".json"@,
{
    uuid_to_string(id).concat(".json")
}

/// Whether a text begins with another.
pub open spec fn begins_with(s: Seq<char>, prefix: Seq<char>) -> bool {
    s.len() >= prefix.len() && s.take(prefix.len() as int) == prefix
}

/// Keys of different kinds differ, whatever hashes and models they are made of.
pub proof fn kinds_of_keys_are_apart(
    h1: Seq<char>,
    m1: Seq<char>,
    h2: Seq<char>,
    m2: Seq<char>,
)
    ensures
        prompt_key(h1, m1) != queue_key(h2, m2),
        prompt_key(h1, m1) != embed_key(h2, m2),
        queue_key(h1, m1) != embed_key(h2, m2),
{
    reveal_strlit("prompt-");
    reveal_strlit("queue-");
    reveal_strlit("embed-");
    assert(prompt_key(h1, m1)[0] == 'p');
    assert(queue_key(h1, m1)[0] == 'q');
    assert(queue_key(h2, m2)[0] == 'q');
    assert(embed_key(h2, m2)[0] == 'e');
}

/// The waiting prompts are found by their prefix, and nothing else is found with them; the same
/// holds of the answered ones.
pub proof fn prefixes_tell_kinds(h: Seq<char>, m: Seq<char>)
    ensures
        begins_with(queue_key(h, m), "queue-"@),
        !begins_with(prompt_key(h, m), "queue-"@),
        !begins_with(embed_key(h, m), "queue-"@),
        begins_with(prompt_key(h, m), "prompt-"@),
        !begins_with(queue_key(h, m), "prompt-"@),
        !begins_with(embed_key(h, m), "prompt-"@),
{
    reveal_strlit("prompt-");
    reveal_strlit("queue-");
    reveal_strlit("embed-");
    let q = queue_key(h, m);
    let p = prompt_key(h, m);
    let e = embed_key(h, m);
    assert(q.take(6) =~= "queue-"@);
    assert(p.take(7) =~= "prompt-"@);
    assert(p[0] == 'p' && e[0] == 'e' && q[0] == 'q');
    assert(p.take(6)[0] == 'p' && e.take(6)[0] == 'e');
    if begins_with(q, "prompt-"@) {
        assert(q.take(7)[0] == 'q');
    }
    if begins_with(e, "prompt-"@) {
        assert(e.take(7)[0] == 'e');
    }
}

/// A hash holds no colon.
proof fn lemma_hash_without_colon(input: Seq<char>)
    ensures
        forall|i: int| 0 <= i < hash_text(input).len() ==> hash_text(input)[i] != ':',
{
    let n = xxh3(encode_utf8(input)) as nat;
    numeral_characters(n, 16);
    reveal_strlit("0123456789abcdef");
    assert forall|i: int| 0 <= i < hash_text(input).len() implies hash_text(input)[i] != ':' by {
        let d = choose|d: int|
            0 <= d < 16 && #[trigger] digit_char(d) == #[trigger] numeral(n, 16)[i];
        assert(digit_char(d) != ':');
    }
}

/// A text that is split at its first colon is split in one way only.
proof fn lemma_split_at_colon(h1: Seq<char>, m1: Seq<char>, h2: Seq<char>, m2: Seq<char>)
    requires
        h1 + ":"@ + m1 == h2 + ":"@ + m2,
        forall|i: int| 0 <= i < h1.len() ==> h1[i] != ':',
        forall|i: int| 0 <= i < h2.len() ==> h2[i] != ':',
    ensures
        h1 == h2,
        m1 == m2,
{
    reveal_strlit(":");
    let s = h1 + ":"@ + m1;
    let t = h2 + ":"@ + m2;
    if h1.len() < h2.len() {
        assert(s[h1.len() as int] == ':');
        assert(t[h1.len() as int] == h2[h1.len() as int]);
    }
    if h2.len() < h1.len() {
        assert(t[h2.len() as int] == ':');
        assert(s[h2.len() as int] == h1[h2.len() as int]);
    }
    assert forall|i: int| 0 <= i < h1.len() implies h1[i] == h2[i] by {
        assert(s[i] == h1[i] && t[i] == h2[i]);
    }
    assert(h1 =~= h2);
    assert(s.len() == t.len());
    assert forall|i: int| 0 <= i < m1.len() implies m1[i] == m2[i] by {
        assert(s[h1.len() + 1 + i] == m1[i] && t[h1.len() + 1 + i] == m2[i]);
    }
    assert(m1 =~= m2);
}

/// Keys of one kind are split at the first colon behind the prefix: where the hashes hold no colon,
/// two keys are the same exactly where the hashes and the models are, colons in the models or not.
pub proof fn keys_are_split_at_the_first_colon(
    h1: Seq<char>,
    m1: Seq<char>,
    h2: Seq<char>,
    m2: Seq<char>,
)
    requires
        forall|i: int| 0 <= i < h1.len() ==> h1[i] != ':',
        forall|i: int| 0 <= i < h2.len() ==> h2[i] != ':',
    ensures
        prompt_key(h1, m1) == prompt_key(h2, m2) <==> h1 == h2 && m1 == m2,
        queue_key(h1, m1) == queue_key(h2, m2) <==> h1 == h2 && m1 == m2,
        embed_key(h1, m1) == embed_key(h2, m2) <==> h1 == h2 && m1 == m2,
{
    lemma_keys_split("prompt-"@, h1, m1, h2, m2);
    lemma_keys_split("queue-"@, h1, m1, h2, m2);
    lemma_keys_split("embed-"@, h1, m1, h2, m2);
}

proof fn lemma_keys_split(
    prefix: Seq<char>,
    h1: Seq<char>,
    m1: Seq<char>,
    h2: Seq<char>,
    m2: Seq<char>,
)
    requires
        forall|i: int| 0 <= i < h1.len() ==> h1[i] != ':',
        forall|i: int| 0 <= i < h2.len() ==> h2[i] != ':',
    ensures
        prefix + h1 + ":"@ + m1 == prefix + h2 + ":"@ + m2 <==> h1 == h2 && m1 == m2,
{
    let k1 = prefix + h1 + ":"@ + m1;
    let k2 = prefix + h2 + ":"@ + m2;
    if k1 == k2 {
        assert(k1.skip(prefix.len() as int) =~= h1 + ":"@ + m1);
        assert(k2.skip(prefix.len() as int) =~= h2 + ":"@ + m2);
        lemma_split_at_colon(h1, m1, h2, m2);
    }
}

/// Two prompts share the key under which they wait exactly where they share the key of their
/// answer.
pub proof fn queue_keys_pair_with_prompt_keys(
    h1: Seq<char>,
    m1: Seq<char>,
    h2: Seq<char>,
    m2: Seq<char>,
)
    ensures
        queue_key(h1, m1) == queue_key(h2, m2) <==> prompt_key(h1, m1) == prompt_key(h2, m2),
{
    let t1 = h1 + ":"@ + m1;
    let t2 = h2 + ":"@ + m2;
    let q = "queue-"@.len() as int;
    let p = "prompt-"@.len() as int;
    assert(queue_key(h1, m1).skip(q) =~= t1 && queue_key(h2, m2).skip(q) =~= t2);
    assert(prompt_key(h1, m1).skip(p) =~= t1 && prompt_key(h2, m2).skip(p) =~= t2);
    assert(queue_key(h1, m1) =~= "queue-"@ + t1 && queue_key(h2, m2) =~= "queue-"@ + t2);
    assert(prompt_key(h1, m1) =~= "prompt-"@ + t1 && prompt_key(h2, m2) =~= "prompt-"@ + t2);
}

/// Whether a character is a hexadecimal digit in lower case.
pub open spec fn is_hex_digit(c: char) -> bool {
    '0' <= c <= '9' || 'a' <= c <= 'f'
}

/// A hash is written with 1 to 32 hexadecimal digits in lower case, and starts with a zero only
/// where it is zero and that digit all there is.
pub proof fn hashes_are_short_hexadecimal(input: Seq<char>)
    ensures
        1 <= hash_text(input).len() <= 32,
        forall|i: int|
            0 <= i < hash_text(input).len() ==> is_hex_digit(#[trigger] hash_text(input)[i]),
        hash_text(input)[0] == '0' ==> hash_text(input) == seq!['0'],
{
    let n = xxh3(encode_utf8(input)) as nat;
    lemma_u128_width(n as u128);
    numeral_length(n, 16, 32);
    numeral_start(n, 16);
    numeral_characters(n, 16);
    assert forall|i: int| 0 <= i < hash_text(input).len() implies is_hex_digit(
        #[trigger] hash_text(input)[i],
    ) by {
        let d = choose|d: int|
            0 <= d < 16 && #[trigger] digit_char(d) == #[trigger] numeral(n, 16)[i];
        lemma_digit_is_hex(d);
    }
}

proof fn lemma_digit_is_hex(d: int)
    requires
        0 <= d < 16,
    ensures
        is_hex_digit(digit_char(d)),
{
    reveal_strlit("0123456789abcdef");
}

/// A number of 128 bits has 32 hexadecimal digits.
proof fn lemma_u128_width(n: u128)
    ensures
        (n as nat) < pow(16, 32),
{
    reveal_with_fuel(pow, 33);
    assert(pow(16, 32) == 0x1_0000_0000_0000_0000_0000_0000_0000_0000int);
}

/// Two requests share the key of their answer exactly where the models are the same and the
/// prompts hash alike.
pub proof fn prompt_keys_shared(p1: Seq<char>, m1: Seq<char>, p2: Seq<char>, m2: Seq<char>)
    ensures
        prompt_key(hash_text(p1), m1) == prompt_key(hash_text(p2), m2) <==> {
            &&& xxh3(encode_utf8(p1)) == xxh3(encode_utf8(p2))
            &&& m1 == m2
        },
{
    lemma_keys_shared("prompt-"@, p1, m1, p2, m2);
}

/// Two requests share the key under which they wait exactly where the models are the same and
/// the prompts hash alike.
pub proof fn queue_keys_shared(p1: Seq<char>, m1: Seq<char>, p2: Seq<char>, m2: Seq<char>)
    ensures
        queue_key(hash_text(p1), m1) == queue_key(hash_text(p2), m2) <==> {
            &&& xxh3(encode_utf8(p1)) == xxh3(encode_utf8(p2))
            &&& m1 == m2
        },
{
    lemma_keys_shared("queue-"@, p1, m1, p2, m2);
}

/// Two texts share the key of their embedding exactly where the models are the same and the
/// texts hash alike.
pub proof fn embed_keys_shared(p1: Seq<char>, m1: Seq<char>, p2: Seq<char>, m2: Seq<char>)
    ensures
        embed_key(hash_text(p1), m1) == embed_key(hash_text(p2), m2) <==> {
            &&& xxh3(encode_utf8(p1)) == xxh3(encode_utf8(p2))
            &&& m1 == m2
        },
{
    lemma_keys_shared("embed-"@, p1, m1, p2, m2);
}

proof fn lemma_keys_shared(
    prefix: Seq<char>,
    p1: Seq<char>,
    m1: Seq<char>,
    p2: Seq<char>,
    m2: Seq<char>,
)
    ensures
        prefix + hash_text(p1) + ":"@ + m1 == prefix + hash_text(p2) + ":"@ + m2 <==> {
            &&& xxh3(encode_utf8(p1)) == xxh3(encode_utf8(p2))
            &&& m1 == m2
        },
{
    lemma_hash_without_colon(p1);
    lemma_hash_without_colon(p2);
    lemma_keys_split(prefix, hash_text(p1), m1, hash_text(p2), m2);
    if hash_text(p1) == hash_text(p2) {
        numerals_are_distinct(xxh3(encode_utf8(p1)) as nat, xxh3(encode_utf8(p2)) as nat, 16);
    }
}

/// The padded hexadecimal form has the width asked for, and digits only.
proof fn lemma_padded_hex(n: nat, width: nat)
    ensures
        padded_hex(n, width).len() == width,
        forall|i: int|
            0 <= i < width ==> exists|d: int|
                0 <= d < 16 && #[trigger] digit_char(d) == #[trigger] padded_hex(n, width)[i],
    decreases width,
{
    if width > 0 {
        lemma_padded_hex(n / 16, (width - 1) as nat);
        let s = padded_hex(n, width);
        assert forall|i: int| 0 <= i < width implies exists|d: int|
            0 <= d < 16 && #[trigger] digit_char(d) == #[trigger] s[i] by {
            if i == width - 1 {
                assert(s[i] == digit_char((n % 16) as int));
            } else {
                assert(s[i] == padded_hex(n / 16, (width - 1) as nat)[i]);
            }
        }
    }
}

/// The id of an answer is never the key of a prompt, of a waiting prompt or of an embedding, is
/// never found by the prefix of the waiting or the answered ones, and is never empty.
pub proof fn ids_are_no_keys(id: u128, h: Seq<char>, m: Seq<char>)
    ensures
        uuid_text(id) != prompt_key(h, m),
        uuid_text(id) != queue_key(h, m),
        uuid_text(id) != embed_key(h, m),
        !begins_with(uuid_text(id), "queue-"@),
        !begins_with(uuid_text(id), "prompt-"@),
        uuid_text(id).len() == 36,
{
    reveal_strlit("-");
    reveal_strlit("prompt-");
    reveal_strlit("queue-");
    reveal_strlit("embed-");
    reveal_strlit("0123456789abcdef");
    lemma_padded_hex(id as nat, 32);
    let x = padded_hex(id as nat, 32);
    let t = uuid_text(id);
    assert(t[0] == x[0] && t[1] == x[1]);
    let d0 = choose|d: int| 0 <= d < 16 && #[trigger] digit_char(d) == x[0];
    let d1 = choose|d: int| 0 <= d < 16 && #[trigger] digit_char(d) == x[1];
    assert(x[0] != 'p' && x[0] != 'q');
    assert(x[1] != 'm');
    assert(prompt_key(h, m)[0] == 'p');
    assert(queue_key(h, m)[0] == 'q');
    assert(embed_key(h, m)[1] == 'm');
    assert(t.take(6)[0] == x[0] && t.take(7)[0] == x[0]);
}

/// Numbers below a power of sixteen are told apart by their padded hexadecimal forms of that width.
proof fn lemma_padded_hex_distinct(a: nat, b: nat, width: nat)
    requires
        a < pow(16, width),
        b < pow(16, width),
        padded_hex(a, width) == padded_hex(b, width),
    ensures
        a == b,
    decreases width,
{
    reveal(pow);
    if width > 0 {
        let w = (width - 1) as nat;
        let s = padded_hex(a, width);
        let t = padded_hex(b, width);
        assert(s.drop_last() =~= padded_hex(a / 16, w));
        assert(t.drop_last() =~= padded_hex(b / 16, w));
        assert(s.last() == t.last());
        lemma_padded_hex_distinct(a / 16, b / 16, w);
        reveal_strlit("0123456789abcdef");
        assert(digit_char((a % 16) as int) == digit_char((b % 16) as int));
    }
}

/// Every id has a text of its own.
pub proof fn ids_have_their_own_texts(a: u128, b: u128)
    requires
        uuid_text(a) == uuid_text(b),
    ensures
        a == b,
{
    reveal_strlit("-");
    let x = padded_hex(a as nat, 32);
    let y = padded_hex(b as nat, 32);
    let s = uuid_text(a);
    let t = uuid_text(b);
    lemma_padded_hex(a as nat, 32);
    lemma_padded_hex(b as nat, 32);
    assert(s.subrange(0, 8) =~= x.subrange(0, 8) && t.subrange(0, 8) =~= y.subrange(0, 8));
    assert(s.subrange(9, 13) =~= x.subrange(8, 12) && t.subrange(9, 13) =~= y.subrange(8, 12));
    assert(s.subrange(14, 18) =~= x.subrange(12, 16) && t.subrange(14, 18) =~= y.subrange(12, 16));
    assert(s.subrange(19, 23) =~= x.subrange(16, 20) && t.subrange(19, 23) =~= y.subrange(16, 20));
    assert(s.subrange(24, 36) =~= x.subrange(20, 32) && t.subrange(24, 36) =~= y.subrange(20, 32));
    assert(x =~= x.subrange(0, 8) + x.subrange(8, 12) + x.subrange(12, 16) + x.subrange(16, 20)
        + x.subrange(20, 32));
    assert(y =~= y.subrange(0, 8) + y.subrange(8, 12) + y.subrange(12, 16) + y.subrange(16, 20)
        + y.subrange(20, 32));
    lemma_u128_width(a);
    lemma_u128_width(b);
    lemma_padded_hex_distinct(a as nat, b as nat, 32);
}

/// Keys are spelled as their prefix, the hash, a colon and the model, each of them whole.
pub proof fn keys_are_spelled_out(h: Seq<char>, m: Seq<char>)
    ensures
        prompt_key(h, m).take(7) == "prompt-"@,
        prompt_key(h, m).skip(7) == h + ":"@ + m,
        queue_key(h, m).take(6) == "queue-"@,
        queue_key(h, m).skip(6) == h + ":"@ + m,
        embed_key(h, m).take(6) == "embed-"@,
        embed_key(h, m).skip(6) == h + ":"@ + m,
{
    reveal_strlit("prompt-");
    reveal_strlit("queue-");
    reveal_strlit("embed-");
    let tail = h + ":"@ + m;
    assert(prompt_key(h, m) =~= "prompt-"@ + tail);
    assert(queue_key(h, m) =~= "queue-"@ + tail);
    assert(embed_key(h, m) =~= "embed-"@ + tail);
    assert(("prompt-"@ + tail).take(7) =~= "prompt-"@);
    assert(("prompt-"@ + tail).skip(7) =~= tail);
    assert(("queue-"@ + tail).take(6) =~= "queue-"@);
    assert(("queue-"@ + tail).skip(6) =~= tail);
    assert(("embed-"@ + tail).take(6) =~= "embed-"@);
    assert(("embed-"@ + tail).skip(6) =~= tail);
}

/// A hash is the number that the hash function gives for all bytes of the text, in hexadecimal.
pub proof fn hashes_read_back(input: Seq<char>)
    ensures
        value_of(hash_text(input), 16) == xxh3(encode_utf8(input)),
{
    numerals_read_back(xxh3(encode_utf8(input)) as nat, 16);
}

proof fn lemma_padded_hex_reads_back(n: nat, width: nat)
    requires
        n < pow(16, width),
    ensures
        value_of(padded_hex(n, width), 16) == n,
    decreases width,
{
    reveal(pow);
    if width > 0 {
        let s = padded_hex(n, width);
        let w = (width - 1) as nat;
        lemma_padded_hex_reads_back(n / 16, w);
        assert(s.drop_last() =~= padded_hex(n / 16, w));
        digits_have_their_value((n % 16) as int);
    }
}

/// The text of an id has 36 characters: hyphens at four places, and hexadecimal digits in lower
/// case at all others, which without the hyphens spell the id.
pub proof fn ids_read_back(id: u128)
    ensures
        ({
            let s = uuid_text(id);
            let digits = s.subrange(0, 8) + s.subrange(9, 13) + s.subrange(14, 18) + s.subrange(
                19,
                23,
            ) + s.subrange(24, 36);
            &&& s.len() == 36
            &&& s[8] == '-' && s[13] == '-' && s[18] == '-' && s[23] == '-'
            &&& forall|i: int| 0 <= i < 32 ==> is_hex_digit(#[trigger] digits[i])
            &&& value_of(digits, 16) == id
        }),
{
    reveal_strlit("-");
    let x = padded_hex(id as nat, 32);
    let s = uuid_text(id);
    let digits = s.subrange(0, 8) + s.subrange(9, 13) + s.subrange(14, 18) + s.subrange(19, 23)
        + s.subrange(24, 36);
    lemma_padded_hex(id as nat, 32);
    lemma_u128_width(id);
    lemma_padded_hex_reads_back(id as nat, 32);
    assert(s.subrange(0, 8) =~= x.subrange(0, 8));
    assert(s.subrange(9, 13) =~= x.subrange(8, 12));
    assert(s.subrange(14, 18) =~= x.subrange(12, 16));
    assert(s.subrange(19, 23) =~= x.subrange(16, 20));
    assert(s.subrange(24, 36) =~= x.subrange(20, 32));
    assert(digits =~= x);
    assert forall|i: int| 0 <= i < 32 implies is_hex_digit(#[trigger] digits[i]) by {
        let d = choose|d: int| 0 <= d < 16 && #[trigger] digit_char(d) == #[trigger] x[i];
        digits_have_their_value(d);
    }
}

} // verus!
