//! Numerals, and searching and cutting of text.

use vstd::arithmetic::power::{lemma_pow1, pow};
use vstd::prelude::*;

verus! {

/// The character of a digit below sixteen, in lower case.
pub open spec fn digit_char(d: int) -> char {
    "0123456789abcdef"@[d]
}

/// `n` written in `base` without leading zeros; zero is one digit.
pub open spec fn numeral(n: nat, base: nat) -> Seq<char>
    decreases n,
{
    if base < 2 || n < base {
        seq![digit_char(n as int)]
    } else {
        proof {
            assert(n / base < n) by (nonlinear_arith)
                requires
                    2 <= base <= n,
            ;
        }
        numeral(n / base, base).push(digit_char((n % base) as int))
    }
}

/// Dividing by two or more makes a positive number smaller.
proof fn lemma_quotient_smaller(n: nat, base: nat)
    requires
        base >= 2,
        n >= base,
    ensures
        n / base < n,
{
    assert(n / base < n) by (nonlinear_arith)
        requires
            base >= 2,
            n >= base,
    ;
}

/// Two different digits are written differently.
proof fn lemma_digits_differ(a: int, b: int)
    requires
        0 <= a < 16,
        0 <= b < 16,
        digit_char(a) == digit_char(b),
    ensures
        a == b,
{
    reveal_strlit("0123456789abcdef");
}

/// Numbers written in one base are told apart by their numerals.
pub proof fn numerals_are_distinct(a: nat, b: nat, base: nat)
    requires
        2 <= base <= 16,
        numeral(a, base) == numeral(b, base),
    ensures
        a == b,
    decreases a,
{
    let s = numeral(a, base);
    let t = numeral(b, base);
    if a >= base {
        lemma_quotient_smaller(a, base);
        lemma_numeral_not_empty(a / base, base);
    }
    if b >= base {
        lemma_numeral_not_empty(b / base, base);
    }
    if a < base && b < base {
        assert(s[0] == t[0]);
        lemma_digits_differ(a as int, b as int);
    } else if a >= base && b >= base {
        assert(s.last() == t.last());
        assert(s.drop_last() =~= numeral(a / base, base));
        assert(t.drop_last() =~= numeral(b / base, base));
        numerals_are_distinct(a / base, b / base, base);
        vstd::arithmetic::div_mod::lemma_mod_bound(a as int, base as int);
        vstd::arithmetic::div_mod::lemma_mod_bound(b as int, base as int);
        lemma_digits_differ((a % base) as int, (b % base) as int);
        vstd::arithmetic::div_mod::lemma_fundamental_div_mod(a as int, base as int);
        vstd::arithmetic::div_mod::lemma_fundamental_div_mod(b as int, base as int);
    } else {
        assert(s.len() != t.len());
    }
}

/// A numeral has at least one digit.
proof fn lemma_numeral_not_empty(n: nat, base: nat)
    ensures
        numeral(n, base).len() > 0,
{
}

/// Every character of a numeral is a digit below sixteen.
pub proof fn numeral_characters(n: nat, base: nat)
    requires
        2 <= base <= 16,
    ensures
        forall|i: int|
            0 <= i < numeral(n, base).len() ==> exists|d: int|
                0 <= d < 16 && #[trigger] digit_char(d) == #[trigger] numeral(n, base)[i],
    decreases n,
{
    let s = numeral(n, base);
    assert forall|i: int| 0 <= i < s.len() implies exists|d: int|
        0 <= d < 16 && #[trigger] digit_char(d) == #[trigger] s[i] by {
        if n < base {
            assert(s[i] == digit_char(n as int));
        } else {
            vstd::arithmetic::div_mod::lemma_mod_bound(n as int, base as int);
            if i == s.len() - 1 {
                assert(s[i] == digit_char((n % base) as int));
            } else {
                lemma_quotient_smaller(n, base);
                numeral_characters(n / base, base);
                assert(s[i] == numeral(n / base, base)[i]);
            }
        }
    }
}

/// A number below a power of the base has no more digits than the exponent says.
pub proof fn numeral_length(n: nat, base: nat, width: nat)
    requires
        2 <= base <= 16,
        width > 0,
        n < pow(base as int, width),
    ensures
        1 <= numeral(n, base).len() <= width,
    decreases width,
{
    if n >= base {
        lemma_pow1(base as int);
        reveal(pow);
        let p = pow(base as int, (width - 1) as nat);
        assert(n < base * p);
        assert(n / base < p) by (nonlinear_arith)
            requires
                n < base * p,
                base > 0,
        ;
        assert(width > 1);
        numeral_length(n / base, base, (width - 1) as nat);
    }
}

/// A numeral starts with a zero only where it is the numeral of zero, which is that digit alone.
pub proof fn numeral_start(n: nat, base: nat)
    requires
        2 <= base <= 16,
    ensures
        numeral(n, base).len() > 0,
        numeral(n, base)[0] == '0' <==> n == 0,
        n == 0 ==> numeral(n, base) == seq!['0'],
    decreases n,
{
    reveal_strlit("0123456789abcdef");
    if n < base {
        if digit_char(n as int) == '0' {
            lemma_digits_differ(n as int, 0);
        }
    } else {
        lemma_quotient_smaller(n, base);
        numeral_start(n / base, base);
        assert(numeral(n, base)[0] == numeral(n / base, base)[0]);
        assert(n / base > 0) by (nonlinear_arith)
            requires
                n >= base,
                base > 0,
        ;
    }
}

/// The one-character text of a digit below sixteen.
fn digit(d: u128) -> (r: &'static str)
    requires
        d < 16,
    ensures
        r@ == seq![digit_char(d as int)],
{
    let all: &'static str = "0123456789abcdef";
    proof {
        reveal_strlit("0123456789abcdef");
    }
    let i: usize = d as usize;
    let r = all.substring_char(i, i + 1);
    assert(r@ =~= seq![digit_char(d as int)]);
    r
}

/// Writes `n` in `base`.
pub fn write_numeral(n: u128, base: u128) -> (r: String)
    requires
        2 <= base <= 16,
    ensures
        r@ == numeral(n as nat, base as nat),
    decreases n,
{
    if n < base {
        digit(n).to_owned()
    } else {
        proof {
            lemma_quotient_smaller(n as nat, base as nat);
        }
        let mut r = write_numeral(n / base, base);
        r.append(digit(n % base));
        r
    }
}

/// All characters of a text.
fn characters(s: &str) -> (r: Vec<char>)
    ensures
        r@ == s@,
{
    let mut r: Vec<char> = Vec::new();
    for c in it: s.chars()
        invariant
            r@ == it.seq().take(it.index()),
            it.seq() == s@,
    {
        r.push(c);
    }
    assert(s@.take(s@.len() as int) == s@);
    r
}

/// Whether `needle` stands in `hay` at position `i`.
pub open spec fn stands_at(hay: Seq<char>, needle: Seq<char>, i: int) -> bool {
    &&& 0 <= i
    &&& i + needle.len() <= hay.len()
    &&& hay.subrange(i, i + needle.len()) == needle
}

/// Whether `needle` stands anywhere in `hay`.
pub open spec fn occurs(hay: Seq<char>, needle: Seq<char>) -> bool {
    exists|i: int| stands_at(hay, needle, i)
}

/// `hay` without any occurrence of `needle`, taken from the left and without overlap.
pub open spec fn without(hay: Seq<char>, needle: Seq<char>) -> Seq<char>
    decreases hay.len(),
{
    if hay.len() == 0 || needle.len() == 0 {
        hay
    } else if stands_at(hay, needle, 0) {
        without(hay.skip(needle.len() as int), needle)
    } else {
        seq![hay[0]] + without(hay.skip(1), needle)
    }
}

/// Tests whether `needle` stands in `hay` at position `i`.
fn matches_at(hay: &Vec<char>, needle: &Vec<char>, i: usize) -> (r: bool)
    requires
        i <= hay@.len(),
    ensures
        r == stands_at(hay@, needle@, i as int),
{
    if needle.len() > hay.len() - i {
        return false;
    }
    let total: usize = hay.len();
    for k in 0..needle.len()
        invariant
            i + needle@.len() <= total,
            total == hay@.len(),
            forall|j: int| 0 <= j < k ==> hay@[i + j] == needle@[j],
    {
        if hay[i + k] != needle[k] {
            proof {
                assert(hay@.subrange(i as int, i + needle@.len())[k as int] != needle@[k as int]);
            }
            return false;
        }
    }
    assert(hay@.subrange(i as int, i + needle@.len()) =~= needle@);
    true
}

/// Tests whether `needle` occurs in `hay`.
pub fn contains(hay: &str, needle: &str) -> (r: bool)
    ensures
        r == occurs(hay@, needle@),
{
    let h = characters(hay);
    let n = characters(needle);
    let mut i: usize = 0;
    while i < h.len()
        invariant
            i <= h@.len(),
            h@ == hay@,
            n@ == needle@,
            forall|j: int| 0 <= j < i ==> !stands_at(h@, n@, j),
        decreases h@.len() - i,
    {
        if matches_at(&h, &n, i) {
            return true;
        }
        i = i + 1;
    }
    matches_at(&h, &n, i)
}

/// Removes every occurrence of `needle` from `hay`.
pub fn remove_all(hay: &str, needle: &str) -> (r: String)
    requires
        needle@.len() > 0,
    ensures
        r@ == without(hay@, needle@),
{
    let h = characters(hay);
    let n = characters(needle);
    let mut r = String::new();
    let mut i: usize = 0;
    assert(h@.skip(0) =~= h@);
    while i < h.len()
        invariant
            i <= h@.len(),
            h@ == hay@,
            n@ == needle@,
            n@.len() > 0,
            r@ + without(h@.skip(i as int), n@) == without(h@, n@),
        decreases h@.len() - i,
    {
        let ghost rest = h@.skip(i as int);
        let ghost before = r@;
        let found = matches_at(&h, &n, i);
        proof {
            if i + n@.len() <= h@.len() {
                assert(rest.subrange(0, n@.len() as int) =~= h@.subrange(
                    i as int,
                    i + n@.len(),
                ));
            }
        }
        if found {
            proof {
                assert(rest.skip(n@.len() as int) =~= h@.skip(i + n@.len()));
            }
            i = i + n.len();
        } else {
            r.append(hay.substring_char(i, i + 1));
            proof {
                assert(rest.skip(1) =~= h@.skip(i + 1));
                assert(r@ =~= before + seq![rest[0]]);
                assert(r@ + without(rest.skip(1), n@) =~= before + (seq![rest[0]] + without(
                    rest.skip(1),
                    n@,
                )));
            }
            i = i + 1;
        }
    }
    assert(h@.skip(i as int) =~= Seq::<char>::empty());
    assert(r@ + Seq::<char>::empty() =~= r@);
    r
}

/// The position of the first `c`, or the length where there is none.
pub open spec fn first_position(s: Seq<char>, c: char) -> nat
    decreases s.len(),
{
    if s.len() == 0 || s[0] == c {
        0
    } else {
        1 + first_position(s.skip(1), c)
    }
}

/// What `first_position` means.
pub proof fn first_position_is_first(s: Seq<char>, c: char)
    ensures
        first_position(s, c) <= s.len(),
        first_position(s, c) < s.len() ==> s[first_position(s, c) as int] == c,
        forall|i: int| 0 <= i < first_position(s, c) ==> s[i] != c,
    decreases s.len(),
{
    if s.len() > 0 && s[0] != c {
        first_position_is_first(s.skip(1), c);
        assert forall|i: int| 0 <= i < first_position(s, c) implies s[i] != c by {
            if i > 0 {
                assert(s.skip(1)[i - 1] == s[i]);
            }
        }
    }
}

/// A position before which there is no `c`, and where there is one or the text ends, is the first.
pub proof fn first_position_unique(s: Seq<char>, c: char, i: int)
    requires
        0 <= i <= s.len(),
        i < s.len() ==> s[i] == c,
        forall|j: int| 0 <= j < i ==> s[j] != c,
    ensures
        first_position(s, c) == i,
{
    first_position_is_first(s, c);
}

/// Cuts a text behind the first `c`. Without any `c` there is no first piece.
pub fn cut_after(s: &str, c: char) -> (r: (Option<String>, String))
    ensures
        ({
            let at = first_position(s@, c) as int;
            if at < s@.len() {
                &&& r.0 is Some
                &&& r.0->0@ == s@.take(at + 1)
                &&& r.1@ == s@.skip(at + 1)
            } else {
                r.0 is None && r.1@ == s@
            }
        }),
{
    let h = characters(s);
    let mut i: usize = 0;
    while i < h.len() && h[i] != c
        invariant
            i <= h@.len(),
            h@ == s@,
            forall|j: int| 0 <= j < i ==> s@[j] != c,
        decreases h@.len() - i,
    {
        i = i + 1;
    }
    proof {
        first_position_unique(s@, c, i as int);
    }
    if i < h.len() {
        let piece = s.substring_char(0, i + 1).to_owned();
        let rest = s.substring_char(i + 1, h.len()).to_owned();
        (Some(piece), rest)
    } else {
        (None, s.to_owned())
    }
}

/// The value of a digit, in lower case.
pub open spec fn digit_value(c: char) -> int {
    if '0' <= c <= '9' {
        c as int - '0' as int
    } else {
        c as int - 'a' as int + 10
    }
}

/// The number that a text of digits stands for.
pub open spec fn value_of(s: Seq<char>, base: int) -> int
    decreases s.len(),
{
    if s.len() == 0 {
        0
    } else {
        value_of(s.drop_last(), base) * base + digit_value(s.last())
    }
}

/// A digit is written as the character that has its value.
pub proof fn digits_have_their_value(d: int)
    requires
        0 <= d < 16,
    ensures
        digit_value(digit_char(d)) == d,
        '0' <= digit_char(d) <= '9' || 'a' <= digit_char(d) <= 'f',
{
    reveal_strlit("0123456789abcdef");
}

/// A numeral, read digit by digit, gives the number back.
pub proof fn numerals_read_back(n: nat, base: nat)
    requires
        2 <= base <= 16,
    ensures
        value_of(numeral(n, base), base as int) == n,
    decreases n,
{
    let s = numeral(n, base);
    if n < base {
        digits_have_their_value(n as int);
        assert(s.drop_last() =~= Seq::empty());
        assert(value_of(s.drop_last(), base as int) == 0);
    } else {
        lemma_quotient_smaller(n, base);
        numerals_read_back(n / base, base);
        vstd::arithmetic::div_mod::lemma_mod_bound(n as int, base as int);
        digits_have_their_value((n % base) as int);
        assert(s.drop_last() =~= numeral(n / base, base));
        vstd::arithmetic::div_mod::lemma_fundamental_div_mod(n as int, base as int);
        assert(n as int / base as int * base as int == base as int * (n as int / base as int))
            by (nonlinear_arith);
    }
}

/// A text in which the needle does not occur stays as it is.
pub proof fn nothing_is_removed_in_vain(hay: Seq<char>, needle: Seq<char>)
    requires
        !occurs(hay, needle),
    ensures
        without(hay, needle) == hay,
    decreases hay.len(),
{
    if hay.len() > 0 && needle.len() > 0 {
        let rest = hay.skip(1);
        assert(!stands_at(hay, needle, 0));
        assert(!occurs(rest, needle)) by {
            if occurs(rest, needle) {
                let i = choose|i: int| stands_at(rest, needle, i);
                assert(hay.subrange(i + 1, i + 1 + needle.len()) =~= rest.subrange(
                    i,
                    i + needle.len(),
                ));
                assert(stands_at(hay, needle, i + 1));
            }
        }
        nothing_is_removed_in_vain(rest, needle);
        assert(seq![hay[0]] + rest =~= hay);
    }
}

/// The first occurrence of the needle is cut out, what stands before it stays, and the same is
/// done with what stands behind it.
pub proof fn occurrences_are_cut_out(before: Seq<char>, needle: Seq<char>, after: Seq<char>)
    requires
        needle.len() > 0,
        forall|i: int|
            0 <= i < before.len() ==> !#[trigger] stands_at(before + needle + after, needle, i),
    ensures
        without(before + needle + after, needle) == before + without(after, needle),
    decreases before.len(),
{
    let hay = before + needle + after;
    if before.len() == 0 {
        assert(hay.subrange(0, needle.len() as int) =~= needle);
        assert(stands_at(hay, needle, 0));
        assert(hay.skip(needle.len() as int) =~= after);
        assert(before + without(after, needle) =~= without(after, needle));
    } else {
        let rest = before.skip(1);
        let tail = rest + needle + after;
        assert(!stands_at(hay, needle, 0));
        assert(hay.skip(1) =~= tail);
        assert forall|i: int| 0 <= i < rest.len() implies !#[trigger] stands_at(
            tail,
            needle,
            i,
        ) by {
            assert(!stands_at(hay, needle, i + 1));
            if stands_at(tail, needle, i) {
                assert(hay.subrange(i + 1, i + 1 + needle.len()) =~= tail.subrange(
                    i,
                    i + needle.len(),
                ));
            }
        }
        occurrences_are_cut_out(rest, needle, after);
        assert(seq![hay[0]] + (rest + without(after, needle)) =~= before + without(
            after,
            needle,
        ));
    }
}

/// A needle occurs in a text exactly where the text is the needle with something before it and
/// something behind it.
pub proof fn occurrences_stand_between(hay: Seq<char>, needle: Seq<char>)
    ensures
        occurs(hay, needle) <==> exists|a: Seq<char>, b: Seq<char>| hay == #[trigger] (a + needle
            + b),
{
    if occurs(hay, needle) {
        let i = choose|i: int| stands_at(hay, needle, i);
        let a = hay.take(i);
        let b = hay.skip(i + needle.len());
        assert(hay =~= a + needle + b);
    }
    if exists|a: Seq<char>, b: Seq<char>| hay == #[trigger] (a + needle + b) {
        let (a, b) = choose|a: Seq<char>, b: Seq<char>| hay == #[trigger] (a + needle + b);
        let i = a.len() as int;
        assert(hay.subrange(i, i + needle.len()) =~= needle);
        assert(stands_at(hay, needle, i));
    }
}

} // verus!
