//! Verified text primitives over sequences of Unicode scalar values.
//!
//! Every function here works on `Vec<char>` (viewed as `Seq<char>`) and is
//! specified by a spec function over `Seq<char>`.
use vstd::prelude::*;

verus! {

// ───────────────────────── conversions ─────────────────────────

/// The characters of `s`, in order.
pub fn chars_of(s: &str) -> (r: Vec<char>)
    ensures
        r@ == s@,
{
    broadcast use vstd::string::group_string_axioms;

    let mut r: Vec<char> = Vec::new();
    for c in it: s.chars()
        invariant
            it.seq() == s@,
            r@ == s@.take(it.index() as int),
    {
        r.push(c);
    }
    r
}

/// Builds a `String` from a sequence of characters (std's `FromIterator<&char>`
/// for `String`); the string holds exactly these characters, in order.
#[verifier::external_body]
pub(crate) fn string_of(v: &Vec<char>) -> (s: String)
    ensures
        s@ == v@,
{
    v.iter().collect()
}

/// Appends the characters of `s` to `v`.
pub fn push_str(v: &mut Vec<char>, s: &str)
    ensures
        final(v)@ == old(v)@ + s@,
{
    let cs = chars_of(s);
    push_chars(v, &cs);
}

/// Appends the characters of `w` to `v`.
pub fn push_chars(v: &mut Vec<char>, w: &Vec<char>)
    ensures
        final(v)@ == old(v)@ + w@,
{
    let ghost v0 = v@;
    let mut i: usize = 0;
    while i < w.len()
        invariant
            i <= w.len(),
            v@ == v0 + w@.take(i as int),
        decreases w.len() - i,
    {
        v.push(w[i]);
        i = i + 1;
        proof {
            assert(w@.take(i as int) == w@.take((i - 1) as int).push(w@[i - 1]));
        }
    }
    proof {
        assert(w@.take(i as int) == w@);
    }
}

/// A fresh vector holding `s[lo..hi]`.
pub fn slice_chars(s: &Vec<char>, lo: usize, hi: usize) -> (r: Vec<char>)
    requires
        lo <= hi <= s.len(),
    ensures
        r@ == s@.subrange(lo as int, hi as int),
{
    let mut r: Vec<char> = Vec::new();
    let mut i: usize = lo;
    while i < hi
        invariant
            lo <= i <= hi <= s.len(),
            r@ == s@.subrange(lo as int, i as int),
        decreases hi - i,
    {
        r.push(s[i]);
        i = i + 1;
        proof {
            assert(s@.subrange(lo as int, i as int) == s@.subrange(lo as int, (i - 1) as int).push(
                s@[i - 1],
            ));
        }
    }
    r
}

/// Exact equality of two character sequences.
pub fn chars_eq(a: &Vec<char>, b: &Vec<char>) -> (r: bool)
    ensures
        r == (a@ == b@),
{
    if a.len() != b.len() {
        return false;
    }
    let mut i: usize = 0;
    while i < a.len()
        invariant
            a.len() == b.len(),
            i <= a.len(),
            forall|k: int| 0 <= k < i ==> a@[k] == b@[k],
        decreases a.len() - i,
    {
        if a[i] != b[i] {
            return false;
        }
        i = i + 1;
    }
    proof {
        assert(a@ =~= b@);
    }
    true
}

/// Equality of a character sequence with a string.
pub fn eq_str(a: &Vec<char>, b: &str) -> (r: bool)
    ensures
        r == (a@ == b@),
{
    let bc = chars_of(b);
    chars_eq(a, &bc)
}

// ───────────────────────── decimal numerals ─────────────────────────

/// The decimal digit character for `d` (`0 <= d < 10`).
pub open spec fn digit_char(d: nat) -> char {
    if d == 0 {
        '0'
    } else if d == 1 {
        '1'
    } else if d == 2 {
        '2'
    } else if d == 3 {
        '3'
    } else if d == 4 {
        '4'
    } else if d == 5 {
        '5'
    } else if d == 6 {
        '6'
    } else if d == 7 {
        '7'
    } else if d == 8 {
        '8'
    } else {
        '9'
    }
}

/// The decimal numeral of `n`, without leading zeros (`"0"` for zero).
pub open spec fn decimal(n: nat) -> Seq<char>
    decreases n,
{
    if n < 10 {
        seq![digit_char(n)]
    } else {
        decimal(n / 10).push(digit_char(n % 10))
    }
}

fn digit_of(d: u64) -> (c: char)
    requires
        d < 10,
    ensures
        c == digit_char(d as nat),
{
    if d == 0 {
        '0'
    } else if d == 1 {
        '1'
    } else if d == 2 {
        '2'
    } else if d == 3 {
        '3'
    } else if d == 4 {
        '4'
    } else if d == 5 {
        '5'
    } else if d == 6 {
        '6'
    } else if d == 7 {
        '7'
    } else if d == 8 {
        '8'
    } else {
        '9'
    }
}

/// The six decimal digits of `n` (below one million), zero-padded.
pub open spec fn six_digits(n: nat) -> Seq<char> {
    seq![
        digit_char(n / 100000 % 10),
        digit_char(n / 10000 % 10),
        digit_char(n / 1000 % 10),
        digit_char(n / 100 % 10),
        digit_char(n / 10 % 10),
        digit_char(n % 10),
    ]
}

/// Appends the six zero-padded digits of `n` (what `format!("{n:06}")` writes).
pub fn push_six_digits(v: &mut Vec<char>, n: u64)
    requires
        n < 1_000_000,
    ensures
        final(v)@ == old(v)@ + six_digits(n as nat),
{
    let ghost v0 = v@;
    v.push(digit_of(n / 100000 % 10));
    v.push(digit_of(n / 10000 % 10));
    v.push(digit_of(n / 1000 % 10));
    v.push(digit_of(n / 100 % 10));
    v.push(digit_of(n / 10 % 10));
    v.push(digit_of(n % 10));
    proof {
        assert(v@ =~= v0 + six_digits(n as nat));
    }
}

/// Appends the decimal numeral of `n` to `v` (what `format!("{n}")` writes).
pub fn push_decimal(v: &mut Vec<char>, n: u64)
    ensures
        final(v)@ == old(v)@ + decimal(n as nat),
    decreases n,
{
    if n < 10 {
        v.push(digit_of(n));
        proof {
            assert(decimal(n as nat) == seq![digit_char(n as nat)]);
        }
    } else {
        let ghost v0 = v@;
        push_decimal(v, n / 10);
        v.push(digit_of(n % 10));
        proof {
            assert(v@ == v0 + decimal((n / 10) as nat).push(digit_char((n % 10) as nat)));
        }
    }
}

} // verus!

verus! {

// ───────────────────────── ASCII case ─────────────────────────

/// `char::to_ascii_lowercase`: `A`–`Z` map to `a`–`z`, every other char is kept.
pub open spec fn ascii_lower(c: char) -> char {
    if 'A' <= c && c <= 'Z' {
        ((c as u32) + 32) as char
    } else {
        c
    }
}

/// `str::to_ascii_lowercase`, character by character.
pub open spec fn ascii_lower_seq(s: Seq<char>) -> Seq<char> {
    s.map_values(|c: char| ascii_lower(c))
}

/// `char::to_ascii_uppercase`: `a`–`z` map to `A`–`Z`, every other char is kept.
pub open spec fn ascii_upper(c: char) -> char {
    if 'a' <= c && c <= 'z' {
        ((c as u32) - 32) as char
    } else {
        c
    }
}

/// `str::to_ascii_uppercase`, character by character.
pub open spec fn ascii_upper_seq(s: Seq<char>) -> Seq<char> {
    s.map_values(|c: char| ascii_upper(c))
}

/// Every character is ASCII.
pub open spec fn is_ascii_text(s: Seq<char>) -> bool {
    forall|i: int| 0 <= i < s.len() ==> (#[trigger] s[i]) <= '\u{7f}'
}

pub fn ascii_lower_char(c: char) -> (r: char)
    ensures
        r == ascii_lower(c),
{
    if 'A' <= c && c <= 'Z' {
        ((c as u8) + 32) as char
    } else {
        c
    }
}

/// `to_ascii_lowercase` of a character sequence.
pub fn to_ascii_lower(s: &Vec<char>) -> (r: Vec<char>)
    ensures
        r@ == ascii_lower_seq(s@),
{
    let mut r: Vec<char> = Vec::new();
    let mut i: usize = 0;
    while i < s.len()
        invariant
            i <= s.len(),
            r@ == ascii_lower_seq(s@.take(i as int)),
        decreases s.len() - i,
    {
        let c = ascii_lower_char(s[i]);
        r.push(c);
        i = i + 1;
        proof {
            assert(ascii_lower_seq(s@.take(i as int)) =~= ascii_lower_seq(s@.take((i - 1) as int)).push(
                ascii_lower(s@[i - 1]),
            ));
        }
    }
    proof {
        assert(s@.take(i as int) == s@);
    }
    r
}

} // verus!

verus! {

// ───────────────────────── Unicode tables (std) ─────────────────────────

/// What `str::to_lowercase` returns for a string holding the characters `s`
/// (std's Unicode lowercase mapping, including its context rule for final sigma).
pub uninterp spec fn lowercase(s: Seq<char>) -> Seq<char>;

/// What `str::to_uppercase` returns for a string holding the characters `s`
/// (std's Unicode uppercase mapping).
pub uninterp spec fn uppercase(s: Seq<char>) -> Seq<char>;

/// What `char::is_alphanumeric` returns for `c` (Unicode `Alphabetic` or `Numeric`).
pub uninterp spec fn alphanumeric(c: char) -> bool;

/// What `char::is_alphabetic` returns for `c` (Unicode `Alphabetic`).
pub uninterp spec fn alphabetic(c: char) -> bool;

/// Calls std's `str::to_lowercase` on the string made of these characters.
/// Contract: the result's characters are `lowercase` of the argument's, and on
/// ASCII text, where Unicode lowercasing maps exactly `A`–`Z` to `a`–`z`, they
/// are the ASCII lowercase; the mapping of other characters (std's case
/// tables) is not stated.
#[verifier::external_body]
pub(crate) fn to_lowercase(s: &Vec<char>) -> (r: Vec<char>)
    ensures
        r@ == lowercase(s@),
        is_ascii_text(s@) ==> r@ == ascii_lower_seq(s@),
{
    let t: String = s.iter().collect();
    t.to_lowercase().chars().collect()
}

/// Calls std's `str::to_uppercase` on the string made of these characters.
/// Contract: the result's characters are `uppercase` of the argument's, and on
/// ASCII text, where Unicode uppercasing maps exactly `a`–`z` to `A`–`Z`, they
/// are the ASCII uppercase; the mapping of other characters (std's case
/// tables) is not stated.
#[verifier::external_body]
pub(crate) fn to_uppercase(s: &Vec<char>) -> (r: Vec<char>)
    ensures
        r@ == uppercase(s@),
        is_ascii_text(s@) ==> r@ == ascii_upper_seq(s@),
{
    let t: String = s.iter().collect();
    t.to_uppercase().chars().collect()
}

/// Calls std's `char::is_alphanumeric`. Contract: the result is `alphanumeric(c)`;
/// the Unicode property tables behind it are not stated.
#[verifier::external_body]
pub(crate) fn is_alphanumeric(c: char) -> (r: bool)
    ensures
        r == alphanumeric(c),
{
    c.is_alphanumeric()
}

/// Calls std's `char::is_alphabetic`. Contract: the result is `alphabetic(c)`;
/// the Unicode property table behind it is not stated.
#[verifier::external_body]
pub(crate) fn is_alphabetic(c: char) -> (r: bool)
    ensures
        r == alphabetic(c),
{
    c.is_alphabetic()
}

// ───────────────────────── UTF-8 lengths ─────────────────────────

/// Bytes `c` takes in UTF-8 (`char::len_utf8`).
pub open spec fn char_utf8_len(c: char) -> nat {
    if c <= '\u{7f}' {
        1
    } else if c <= '\u{7ff}' {
        2
    } else if c <= '\u{ffff}' {
        3
    } else {
        4
    }
}

/// Bytes `s` takes in UTF-8 (`str::len`).
pub open spec fn utf8_len(s: Seq<char>) -> nat
    decreases s.len(),
{
    if s.len() == 0 {
        0
    } else {
        utf8_len(s.drop_last()) + char_utf8_len(s.last())
    }
}

pub fn len_utf8(c: char) -> (r: usize)
    ensures
        r == char_utf8_len(c),
{
    if c <= '\u{7f}' {
        1
    } else if c <= '\u{7ff}' {
        2
    } else if c <= '\u{ffff}' {
        3
    } else {
        4
    }
}

/// Whether `s` takes at least `n` bytes in UTF-8.
pub fn utf8_len_at_least(s: &Vec<char>, n: usize) -> (r: bool)
    ensures
        r == (utf8_len(s@) >= n),
{
    if n == 0 {
        return true;
    }
    let mut acc: usize = 0;
    let mut i: usize = 0;
    while i < s.len()
        invariant
            i <= s.len(),
            acc == utf8_len(s@.take(i as int)),
            acc < n,
        decreases s.len() - i,
    {
        proof {
            assert(s@.take(i + 1).drop_last() =~= s@.take(i as int));
        }
        let l = len_utf8(s[i]);
        if l >= n - acc {
            proof {
                lemma_utf8_len_prefix(s@, i + 1);
            }
            return true;
        }
        acc = acc + l;
        i = i + 1;
    }
    proof {
        assert(s@.take(i as int) =~= s@);
    }
    false
}

/// The bytes of two sequences put together are the bytes of each.
pub proof fn lemma_utf8_len_concat(a: Seq<char>, b: Seq<char>)
    ensures
        utf8_len(a + b) == utf8_len(a) + utf8_len(b),
    decreases b.len(),
{
    if b.len() == 0 {
        assert(a + b =~= a);
    } else {
        assert((a + b).drop_last() =~= a + b.drop_last());
        assert((a + b).last() == b.last());
        lemma_utf8_len_concat(a, b.drop_last());
    }
}

/// A prefix takes no more bytes than the whole.
pub proof fn lemma_utf8_len_prefix(s: Seq<char>, i: int)
    requires
        0 <= i <= s.len(),
    ensures
        utf8_len(s.take(i)) <= utf8_len(s),
    decreases s.len() - i,
{
    if i < s.len() {
        lemma_utf8_len_prefix(s, i + 1);
        assert(s.take(i + 1).drop_last() =~= s.take(i));
    } else {
        assert(s.take(i) =~= s);
    }
}

} // verus!
