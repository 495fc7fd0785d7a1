//! Trimming, prefix tests, substring search and word splitting over
//! sequences of Unicode scalar values, each specified by a spec function.
use vstd::prelude::*;

use crate::text::chars_of;

verus! {

// ───────────────────────── whitespace ─────────────────────────

/// The Unicode `White_Space` property, which `char::is_whitespace` tests.
pub open spec fn is_ws(c: char) -> bool {
    ||| c == ' '
    ||| ('\t' <= c && c <= '\r')
    ||| c == '\u{85}'
    ||| c == '\u{a0}'
    ||| c == '\u{1680}'
    ||| ('\u{2000}' <= c && c <= '\u{200a}')
    ||| c == '\u{2028}'
    ||| c == '\u{2029}'
    ||| c == '\u{202f}'
    ||| c == '\u{205f}'
    ||| c == '\u{3000}'
}

pub fn is_whitespace(c: char) -> (r: bool)
    ensures
        r == is_ws(c),
{
    c == ' ' || ('\t' <= c && c <= '\r') || c == '\u{85}' || c == '\u{a0}' || c == '\u{1680}' || (
    '\u{2000}' <= c && c <= '\u{200a}') || c == '\u{2028}' || c == '\u{2029}' || c == '\u{202f}'
        || c == '\u{205f}' || c == '\u{3000}'
}

/// `s` without its leading whitespace (`str::trim_start`).
pub open spec fn trim_start_seq(s: Seq<char>) -> Seq<char>
    decreases s.len(),
{
    if s.len() > 0 && is_ws(s[0]) {
        trim_start_seq(s.drop_first())
    } else {
        s
    }
}

/// `s` without its trailing whitespace (`str::trim_end`).
pub open spec fn trim_end_seq(s: Seq<char>) -> Seq<char>
    decreases s.len(),
{
    if s.len() > 0 && is_ws(s.last()) {
        trim_end_seq(s.drop_last())
    } else {
        s
    }
}

/// `s` without leading and trailing whitespace (`str::trim`).
pub open spec fn trim_seq(s: Seq<char>) -> Seq<char> {
    trim_end_seq(trim_start_seq(s))
}

pub fn trim_start(s: &Vec<char>) -> (r: Vec<char>)
    ensures
        r@ == trim_start_seq(s@),
{
    let mut i: usize = 0;
    proof {
        assert(s@.skip(0) =~= s@);
    }
    while i < s.len() && is_whitespace(s[i])
        invariant
            i <= s.len(),
            trim_start_seq(s@.skip(i as int)) == trim_start_seq(s@),
        decreases s.len() - i,
    {
        proof {
            assert(s@.skip(i as int).drop_first() =~= s@.skip(i + 1));
        }
        i = i + 1;
    }
    crate::text::slice_chars(s, i, s.len())
}

pub fn trim_end(s: &Vec<char>) -> (r: Vec<char>)
    ensures
        r@ == trim_end_seq(s@),
{
    let mut j: usize = s.len();
    proof {
        assert(s@.take(s.len() as int) =~= s@);
    }
    while j > 0 && is_whitespace(s[j - 1])
        invariant
            j <= s.len(),
            trim_end_seq(s@.take(j as int)) == trim_end_seq(s@),
        decreases j,
    {
        proof {
            assert(s@.take(j as int).drop_last() =~= s@.take(j - 1));
        }
        j = j - 1;
    }
    proof {
        assert(s@.subrange(0, j as int) =~= s@.take(j as int));
    }
    crate::text::slice_chars(s, 0, j)
}

pub fn trim(s: &Vec<char>) -> (r: Vec<char>)
    ensures
        r@ == trim_seq(s@),
{
    let t = trim_start(s);
    trim_end(&t)
}

// ───────────────────────── prefixes ─────────────────────────

/// `s` begins with `p`.
pub open spec fn has_prefix(s: Seq<char>, p: Seq<char>) -> bool {
    p.len() <= s.len() && s.take(p.len() as int) == p
}

/// `s` ends with `p`.
pub open spec fn has_suffix(s: Seq<char>, p: Seq<char>) -> bool {
    p.len() <= s.len() && s.skip(s.len() - p.len()) == p
}

/// `str::trim_start_matches` with a string pattern: every leading copy of `p` removed.
pub open spec fn trim_start_matches_seq(s: Seq<char>, p: Seq<char>) -> Seq<char>
    decreases s.len(),
{
    if p.len() > 0 && has_prefix(s, p) {
        trim_start_matches_seq(s.skip(p.len() as int), p)
    } else {
        s
    }
}

/// `str::trim_end_matches` with a string pattern: every trailing copy of `p` removed.
pub open spec fn trim_end_matches_seq(s: Seq<char>, p: Seq<char>) -> Seq<char>
    decreases s.len(),
{
    if p.len() > 0 && has_suffix(s, p) {
        trim_end_matches_seq(s.take(s.len() - p.len()), p)
    } else {
        s
    }
}

/// `str::strip_prefix`: the rest of `s` after `p`, if `s` begins with `p`.
pub open spec fn strip_prefix_seq(s: Seq<char>, p: Seq<char>) -> Option<Seq<char>> {
    if has_prefix(s, p) {
        Some(s.skip(p.len() as int))
    } else {
        None
    }
}

pub fn starts_with(s: &Vec<char>, p: &str) -> (r: bool)
    ensures
        r == has_prefix(s@, p@),
{
    let pc = chars_of(p);
    starts_with_chars(s, &pc)
}

pub fn starts_with_chars(s: &Vec<char>, p: &Vec<char>) -> (r: bool)
    ensures
        r == has_prefix(s@, p@),
{
    if p.len() > s.len() {
        return false;
    }
    let mut i: usize = 0;
    while i < p.len()
        invariant
            p.len() <= s.len(),
            i <= p.len(),
            forall|k: int| 0 <= k < i ==> s@[k] == p@[k],
        decreases p.len() - i,
    {
        if s[i] != p[i] {
            proof {
                assert(s@.take(p.len() as int)[i as int] != p@[i as int]);
            }
            return false;
        }
        i = i + 1;
    }
    proof {
        assert(s@.take(p.len() as int) =~= p@);
    }
    true
}

pub fn ends_with(s: &Vec<char>, p: &str) -> (r: bool)
    ensures
        r == has_suffix(s@, p@),
{
    let pc = chars_of(p);
    if pc.len() > s.len() {
        return false;
    }
    let off = s.len() - pc.len();
    let mut i: usize = 0;
    while i < pc.len()
        invariant
            pc@ == p@,
            off == s.len() - pc.len(),
            i <= pc.len(),
            forall|k: int| 0 <= k < i ==> s@[off + k] == pc@[k],
        decreases pc.len() - i,
    {
        if s[off + i] != pc[i] {
            proof {
                assert(s@.skip(off as int)[i as int] != p@[i as int]);
            }
            return false;
        }
        i = i + 1;
    }
    proof {
        assert(s@.skip(off as int) =~= p@);
    }
    true
}

pub fn strip_prefix(s: &Vec<char>, p: &str) -> (r: Option<Vec<char>>)
    ensures
        match strip_prefix_seq(s@, p@) {
            Some(t) => r matches Some(v) && v@ == t,
            None => r is None,
        },
{
    if starts_with(s, p) {
        let pc = chars_of(p);
        Some(crate::text::slice_chars(s, pc.len(), s.len()))
    } else {
        None
    }
}

pub fn trim_start_matches(s: &Vec<char>, p: &str) -> (r: Vec<char>)
    ensures
        r@ == trim_start_matches_seq(s@, p@),
{
    let pc = chars_of(p);
    if pc.len() == 0 {
        return crate::text::slice_chars(s, 0, s.len());
    }
    let mut rest = crate::text::slice_chars(s, 0, s.len());
    proof {
        assert(rest@ =~= s@);
    }
    while starts_with_chars(&rest, &pc)
        invariant
            pc@ == p@,
            pc.len() > 0,
            trim_start_matches_seq(rest@, p@) == trim_start_matches_seq(s@, p@),
        decreases rest.len(),
    {
        let ghost before = rest@;
        rest = crate::text::slice_chars(&rest, pc.len(), rest.len());
        proof {
            assert(rest@ =~= before.skip(p@.len() as int));
        }
    }
    rest
}

pub fn trim_end_matches(s: &Vec<char>, p: &str) -> (r: Vec<char>)
    ensures
        r@ == trim_end_matches_seq(s@, p@),
{
    let pc = chars_of(p);
    let mut rest = crate::text::slice_chars(s, 0, s.len());
    proof {
        assert(rest@ =~= s@);
    }
    if pc.len() == 0 {
        return rest;
    }
    while ends_with(&rest, p)
        invariant
            pc@ == p@,
            pc.len() > 0,
            trim_end_matches_seq(rest@, p@) == trim_end_matches_seq(s@, p@),
        decreases rest.len(),
    {
        let ghost before = rest@;
        let n = rest.len() - pc.len();
        rest = crate::text::slice_chars(&rest, 0, n);
        proof {
            assert(rest@ =~= before.take(before.len() - p@.len()));
        }
    }
    rest
}

// ───────────────────────── search ─────────────────────────

/// `p` occurs in `s` starting at position `i`.
pub open spec fn occurs_at(s: Seq<char>, p: Seq<char>, i: int) -> bool {
    0 <= i && i + p.len() <= s.len() && s.subrange(i, i + p.len()) == p
}

/// `s` contains `p` (`str::contains` with a string pattern).
pub open spec fn contains_seq(s: Seq<char>, p: Seq<char>) -> bool {
    exists|i: int| occurs_at(s, p, i)
}

/// The first position at or after `i` where `p` occurs in `s`.
pub open spec fn find_from(s: Seq<char>, p: Seq<char>, i: int) -> Option<int>
    decreases s.len() + 1 - i,
{
    if i < 0 || i + p.len() > s.len() {
        None
    } else if occurs_at(s, p, i) {
        Some(i)
    } else {
        find_from(s, p, i + 1)
    }
}

/// The first position where `p` occurs in `s` (`str::find`, counted in characters).
pub open spec fn find_seq(s: Seq<char>, p: Seq<char>) -> Option<int> {
    find_from(s, p, 0)
}

/// What `find_from` returns, stated by occurrences.
pub proof fn lemma_find_from(s: Seq<char>, p: Seq<char>, i: int)
    requires
        0 <= i,
    ensures
        match find_from(s, p, i) {
            Some(k) => i <= k && occurs_at(s, p, k) && forall|j: int|
                i <= j < k ==> !occurs_at(s, p, j),
            None => forall|j: int| i <= j ==> !occurs_at(s, p, j),
        },
    decreases s.len() + 1 - i,
{
    if i + p.len() <= s.len() && !occurs_at(s, p, i) {
        lemma_find_from(s, p, i + 1);
    }
}

/// `find_seq` finds something exactly when `p` occurs in `s`.
pub proof fn lemma_find_contains(s: Seq<char>, p: Seq<char>)
    ensures
        find_seq(s, p) is Some <==> contains_seq(s, p),
{
    lemma_find_from(s, p, 0);
    if contains_seq(s, p) {
        let i = choose|i: int| occurs_at(s, p, i);
        assert(0 <= i);
    }
}

fn occurs_at_exec(s: &Vec<char>, p: &Vec<char>, i: usize) -> (r: bool)
    requires
        i + p.len() <= s.len(),
    ensures
        r == occurs_at(s@, p@, i as int),
{
    let mut k: usize = 0;
    while k < p.len()
        invariant
            i + p.len() <= s.len(),
            k <= p.len(),
            forall|j: int| 0 <= j < k ==> s@[i + j] == p@[j],
        decreases p.len() - k,
    {
        if s[i + k] != p[k] {
            proof {
                assert(s@.subrange(i as int, i + p.len())[k as int] != p@[k as int]);
            }
            return false;
        }
        k = k + 1;
    }
    proof {
        assert(s@.subrange(i as int, i + p.len()) =~= p@);
    }
    true
}

pub fn find_chars(s: &Vec<char>, p: &Vec<char>) -> (r: Option<usize>)
    ensures
        match find_seq(s@, p@) {
            Some(k) => r == Some(k as usize),
            None => r is None,
        },
        r matches Some(k) ==> find_seq(s@, p@) == Some(k as int),
{
    if p.len() > s.len() {
        return None;
    }
    let n = s.len() - p.len();
    let mut i: usize = 0;
    while i < n
        invariant
            i <= n,
            n == s.len() - p.len(),
            find_from(s@, p@, i as int) == find_from(s@, p@, 0),
        decreases n - i,
    {
        if occurs_at_exec(s, p, i) {
            return Some(i);
        }
        i = i + 1;
    }
    proof {
        assert(find_from(s@, p@, n + 1) is None);
    }
    if occurs_at_exec(s, p, n) {
        Some(n)
    } else {
        None
    }
}

pub fn find(s: &Vec<char>, p: &str) -> (r: Option<usize>)
    ensures
        match find_seq(s@, p@) {
            Some(k) => r == Some(k as usize),
            None => r is None,
        },
        r matches Some(k) ==> find_seq(s@, p@) == Some(k as int),
{
    let pc = chars_of(p);
    find_chars(s, &pc)
}

pub fn contains(s: &Vec<char>, p: &str) -> (r: bool)
    ensures
        r == contains_seq(s@, p@),
{
    proof {
        lemma_find_contains(s@, p@);
    }
    find(s, p).is_some()
}

pub fn contains_chars(s: &Vec<char>, p: &Vec<char>) -> (r: bool)
    ensures
        r == contains_seq(s@, p@),
{
    proof {
        lemma_find_contains(s@, p@);
    }
    find_chars(s, p).is_some()
}

/// `s` contains the character `c`.
pub fn has_char(s: &Vec<char>, c: char) -> (r: bool)
    ensures
        r == s@.contains(c),
{
    let mut i: usize = 0;
    while i < s.len()
        invariant
            i <= s.len(),
            forall|j: int| 0 <= j < i ==> s@[j] != c,
        decreases s.len() - i,
    {
        if s[i] == c {
            return true;
        }
        i = i + 1;
    }
    false
}

// ───────────────────────── words ─────────────────────────

/// Length of the leading run of non-whitespace characters of `s`.
pub open spec fn word_len(s: Seq<char>) -> nat
    decreases s.len(),
{
    if s.len() == 0 || is_ws(s[0]) {
        0
    } else {
        1 + word_len(s.drop_first())
    }
}

/// The whitespace-separated words of `s` (`str::split_whitespace`).
pub open spec fn words_seq(s: Seq<char>) -> Seq<Seq<char>>
    decreases s.len(),
{
    let t = trim_start_seq(s);
    if t.len() == 0 {
        seq![]
    } else {
        proof {
            lemma_trim_start_len(s);
            lemma_word_len_pos(t);
        }
        seq![t.take(word_len(t) as int)] + words_seq(t.skip(word_len(t) as int))
    }
}

/// What `trim_end_seq` keeps is a prefix that does not end in whitespace.
pub proof fn lemma_trim_end_shape(s: Seq<char>)
    ensures
        trim_end_seq(s).len() <= s.len(),
        trim_end_seq(s) == s.take(trim_end_seq(s).len() as int),
        trim_end_seq(s).len() > 0 ==> !is_ws(trim_end_seq(s).last()),
    decreases s.len(),
{
    if s.len() > 0 && is_ws(s.last()) {
        lemma_trim_end_shape(s.drop_last());
        let t = trim_end_seq(s.drop_last());
        assert(s.drop_last().take(t.len() as int) =~= s.take(t.len() as int));
    } else {
        assert(s.take(s.len() as int) =~= s);
    }
}

/// Trimming a trimmed text changes nothing.
pub proof fn lemma_trim_idempotent(s: Seq<char>)
    ensures
        trim_seq(trim_seq(s)) == trim_seq(s),
{
    let a = trim_start_seq(s);
    let u = trim_seq(s);
    lemma_trim_start_len(s);
    lemma_trim_end_shape(a);
    if u.len() > 0 {
        assert(u[0] == a[0]);
        assert(!is_ws(u[0]));
        assert(trim_start_seq(u) == u);
        assert(trim_end_seq(u) == u);
    } else {
        assert(trim_start_seq(u) =~= u);
        assert(trim_end_seq(u) =~= u);
    }
}

/// Replacing inside a text with no occurrence of `from` changes nothing.
pub proof fn lemma_replace_absent(s: Seq<char>, from: Seq<char>, to: Seq<char>)
    requires
        !contains_seq(s, from),
    ensures
        replace_seq(s, from, to) == s,
{
    if from.len() > 0 {
        lemma_find_from(s, from, 0);
        if find_seq(s, from) is Some {
            let i = find_seq(s, from).unwrap();
            assert(occurs_at(s, from, i));
        }
    }
}

/// A run of non-whitespace characters.
pub open spec fn solid(x: Seq<char>) -> bool {
    x.len() > 0 && forall|i: int| 0 <= i < x.len() ==> !is_ws(#[trigger] x[i])
}

/// The first word of `x` followed by anything is all of a solid `x` when the
/// next character is whitespace or there is none.
proof fn lemma_word_len_solid(x: Seq<char>, rest: Seq<char>)
    requires
        solid(x),
        rest.len() == 0 || is_ws(rest[0]),
    ensures
        word_len(x + rest) == x.len(),
    decreases x.len(),
{
    let s = x + rest;
    assert(s[0] == x[0]);
    assert(!is_ws(x[0]));
    assert(word_len(s) == 1 + word_len(s.drop_first()));
    if x.len() == 1 {
        assert(s.drop_first() =~= rest);
        assert(word_len(rest) == 0);
    } else {
        let x1 = x.drop_first();
        assert forall|i: int| 0 <= i < x1.len() implies !is_ws(#[trigger] x1[i]) by {
            assert(x1[i] == x[i + 1]);
        }
        assert(s.drop_first() =~= x1 + rest);
        lemma_word_len_solid(x1, rest);
    }
}

/// A leading space does not change the words.
pub proof fn lemma_words_skip_space(rest: Seq<char>)
    ensures
        words_seq(seq![' '] + rest) == words_seq(rest),
{
    let s = seq![' '] + rest;
    assert(s.drop_first() =~= rest);
    assert(trim_start_seq(s) == trim_start_seq(rest));
}

/// A solid word, a space, then more text: that word, then the words of the rest.
pub proof fn lemma_words_cons(x: Seq<char>, rest: Seq<char>)
    requires
        solid(x),
    ensures
        words_seq(x + seq![' '] + rest) == seq![x] + words_seq(rest),
{
    let s = x + seq![' '] + rest;
    let tail = seq![' '] + rest;
    assert(s =~= x + tail);
    assert(s[0] == x[0]);
    assert(!is_ws(x[0]));
    assert(trim_start_seq(s) == s);
    lemma_word_len_solid(x, tail);
    assert(s.take(x.len() as int) =~= x);
    assert(s.skip(x.len() as int) =~= tail);
    lemma_words_skip_space(rest);
}

/// A solid word alone is one word.
pub proof fn lemma_words_single(x: Seq<char>)
    requires
        solid(x),
    ensures
        words_seq(x) == seq![x],
{
    assert(!is_ws(x[0]));
    assert(trim_start_seq(x) == x);
    assert(x + Seq::<char>::empty() =~= x);
    lemma_word_len_solid(x, Seq::<char>::empty());
    assert(word_len(x) == x.len());
    assert(x.take(x.len() as int) =~= x);
    assert(x.skip(x.len() as int) =~= Seq::<char>::empty());
    assert(trim_start_seq(Seq::<char>::empty()) =~= Seq::<char>::empty());
    assert(words_seq(Seq::<char>::empty()) =~= Seq::<Seq<char>>::empty());
    assert(words_seq(x) == seq![x.take(word_len(x) as int)] + words_seq(x.skip(word_len(x) as int)));
    assert(seq![x] + Seq::<Seq<char>>::empty() =~= seq![x]);
}

/// Trimming a text that starts and ends with non-whitespace changes nothing.
pub proof fn lemma_trim_solid_ends(s: Seq<char>)
    requires
        s.len() > 0,
        !is_ws(s[0]),
        !is_ws(s.last()),
    ensures
        trim_seq(s) == s,
{
    assert(trim_start_seq(s) == s);
    assert(trim_end_seq(s) == s);
}

/// The value of a numeral: an ASCII digit string whose value fits in a `u64`.
pub open spec fn numeral(d: Seq<char>) -> bool {
    parse_u64_spec(d) is Some && d.len() > 0 && forall|i: int| 0 <= i < d.len() ==> is_digit(#[trigger] d[i])
}

pub proof fn lemma_trim_start_len(s: Seq<char>)
    ensures
        trim_start_seq(s).len() <= s.len(),
        trim_start_seq(s).len() > 0 ==> !is_ws(trim_start_seq(s)[0]),
        exists|k: int| 0 <= k <= s.len() && trim_start_seq(s) == s.skip(k),
    decreases s.len(),
{
    if s.len() > 0 && is_ws(s[0]) {
        lemma_trim_start_len(s.drop_first());
        let k = choose|k: int| 0 <= k <= s.drop_first().len() && trim_start_seq(s.drop_first()) == s.drop_first().skip(k);
        assert(s.drop_first().skip(k) =~= s.skip(k + 1));
    } else {
        assert(s.skip(0) =~= s);
    }
}

pub proof fn lemma_word_len_pos(t: Seq<char>)
    requires
        t.len() > 0,
        !is_ws(t[0]),
    ensures
        0 < word_len(t) <= t.len(),
{
    lemma_word_len_bound(t);
}

pub proof fn lemma_word_len_bound(t: Seq<char>)
    ensures
        word_len(t) <= t.len(),
        forall|j: int| 0 <= j < word_len(t) ==> !is_ws(#[trigger] t[j]),
        word_len(t) < t.len() ==> is_ws(t[word_len(t) as int]),
    decreases t.len(),
{
    if t.len() > 0 && !is_ws(t[0]) {
        lemma_word_len_bound(t.drop_first());
        assert forall|j: int| 0 <= j < word_len(t) implies !is_ws(#[trigger] t[j]) by {
            if j > 0 {
                assert(t[j] == t.drop_first()[j - 1]);
            }
        }
    }
}

/// The whitespace-separated words of `s`.
pub fn words(s: &Vec<char>) -> (r: Vec<Vec<char>>)
    ensures
        r@.len() == words_seq(s@).len(),
        forall|i: int| 0 <= i < r@.len() ==> (#[trigger] r@[i])@ == words_seq(s@)[i],
{
    let mut out: Vec<Vec<char>> = Vec::new();
    let mut rest = trim_start(s);
    proof {
        assert(words_seq(s@) == words_seq(rest@)) by {
            lemma_words_trim(s@);
        }
        lemma_trim_start_idem(s@);
    }
    let ghost acc: Seq<Seq<char>> = seq![];
    while rest.len() > 0
        invariant
            rest@ == trim_start_seq(rest@),
            out@.len() == acc.len(),
            forall|i: int| 0 <= i < out@.len() ==> (#[trigger] out@[i])@ == acc[i],
            acc + words_seq(rest@) == words_seq(s@),
        decreases rest.len(),
    {
        let mut k: usize = 0;
        proof {
            assert(rest@.skip(0) =~= rest@);
        }
        while k < rest.len() && !is_whitespace(rest[k])
            invariant
                k <= rest.len(),
                forall|j: int| 0 <= j < k ==> !is_ws(#[trigger] rest@[j]),
                word_len(rest@.skip(k as int)) + k == word_len(rest@),
            decreases rest.len() - k,
        {
            proof {
                assert(rest@.skip(k as int).drop_first() =~= rest@.skip(k + 1));
            }
            k = k + 1;
        }
        proof {
            assert(word_len(rest@.skip(k as int)) == 0);
            lemma_trim_start_len(rest@);
            lemma_word_len_pos(rest@);
        }
        let w = crate::text::slice_chars(&rest, 0, k);
        let tail = crate::text::slice_chars(&rest, k, rest.len());
        let next = trim_start(&tail);
        proof {
            assert(w@ =~= rest@.take(k as int));
            assert(tail@ =~= rest@.skip(k as int));
            assert(words_seq(rest@) == seq![w@] + words_seq(tail@));
            lemma_words_trim(tail@);
            acc = acc.push(w@);
            assert(acc + words_seq(next@) =~= (acc.drop_last() + seq![w@]) + words_seq(next@));
            lemma_trim_start_idem(tail@);
            lemma_trim_start_len(tail@);
        }
        out.push(w);
        rest = next;
    }
    proof {
        assert(words_seq(rest@) =~= Seq::<Seq<char>>::empty());
        assert(acc =~= words_seq(s@));
    }
    out
}

proof fn lemma_trim_start_idem(s: Seq<char>)
    ensures
        trim_start_seq(trim_start_seq(s)) == trim_start_seq(s),
    decreases s.len(),
{
    if s.len() > 0 && is_ws(s[0]) {
        lemma_trim_start_idem(s.drop_first());
    }
}

proof fn lemma_words_trim(s: Seq<char>)
    ensures
        words_seq(trim_start_seq(s)) == words_seq(s),
{
    lemma_trim_start_idem(s);
}

/// The words of `ws` joined by `sep` (`[&str]::join`).
pub open spec fn join_seq(ws: Seq<Seq<char>>, sep: Seq<char>) -> Seq<char>
    decreases ws.len(),
{
    if ws.len() == 0 {
        seq![]
    } else if ws.len() == 1 {
        ws[0]
    } else {
        join_seq(ws.drop_last(), sep) + sep + ws.last()
    }
}

pub fn join(ws: &Vec<Vec<char>>, sep: &str) -> (r: Vec<char>)
    ensures
        r@ == join_seq(ws@.map_values(|w: Vec<char>| w@), sep@),
{
    let ghost views = ws@.map_values(|w: Vec<char>| w@);
    let mut r: Vec<char> = Vec::new();
    let mut i: usize = 0;
    while i < ws.len()
        invariant
            i <= ws.len(),
            views == ws@.map_values(|w: Vec<char>| w@),
            r@ == join_seq(views.take(i as int), sep@),
        decreases ws.len() - i,
    {
        if i > 0 {
            crate::text::push_str(&mut r, sep);
        }
        crate::text::push_chars(&mut r, &ws[i]);
        proof {
            let t = views.take(i + 1);
            assert(t.drop_last() =~= views.take(i as int));
            assert(t.last() == ws@[i as int]@);
            if i == 0 {
                assert(t.len() == 1);
            }
        }
        i = i + 1;
    }
    proof {
        assert(views.take(i as int) =~= views);
    }
    r
}


// ───────────────────────── lines ─────────────────────────

/// The lines of `s` (`str::lines`): split at `\n`, a `\r` before the `\n`
/// dropped, no empty line after a final `\n`.
pub open spec fn lines_seq(s: Seq<char>) -> Seq<Seq<char>>
    decreases s.len(),
{
    if s.len() == 0 {
        seq![]
    } else {
        match find_seq(s, seq!['\n']) {
            None => seq![s],
            Some(i) => {
                proof {
                    lemma_find_from(s, seq!['\n'], 0);
                }
                let line = s.take(i);
                let line = if line.len() > 0 && line.last() == '\r' {
                    line.drop_last()
                } else {
                    line
                };
                seq![line] + lines_seq(s.skip(i + 1))
            },
        }
    }
}

/// The lines of `s`.
pub fn lines(s: &Vec<char>) -> (r: Vec<Vec<char>>)
    ensures
        r@.len() == lines_seq(s@).len(),
        forall|i: int| 0 <= i < r@.len() ==> (#[trigger] r@[i])@ == lines_seq(s@)[i],
{
    let mut out: Vec<Vec<char>> = Vec::new();
    let mut rest = crate::text::slice_chars(s, 0, s.len());
    let ghost acc: Seq<Seq<char>> = seq![];
    proof {
        assert(rest@ =~= s@);
    }
    while rest.len() > 0
        invariant
            out@.len() == acc.len(),
            forall|i: int| 0 <= i < out@.len() ==> (#[trigger] out@[i])@ == acc[i],
            acc + lines_seq(rest@) == lines_seq(s@),
        decreases rest.len(),
    {
        let nl: Vec<char> = vec!['\n'];
        proof {
            assert(nl@ =~= seq!['\n']);
            lemma_find_from(rest@, seq!['\n'], 0);
        }
        match find_chars(&rest, &nl) {
            None => {
                let line = crate::text::slice_chars(&rest, 0, rest.len());
                proof {
                    assert(line@ =~= rest@);
                    acc = acc.push(line@);
                    assert(acc =~= lines_seq(s@));
                }
                out.push(line);
                return out;
            },
            Some(i) => {
                let mut end = i;
                if end > 0 && rest[end - 1] == '\r' {
                    end = end - 1;
                }
                let line = crate::text::slice_chars(&rest, 0, end);
                let next = crate::text::slice_chars(&rest, i + 1, rest.len());
                proof {
                    assert(line@ =~= (if rest@.take(i as int).len() > 0 && rest@.take(i as int).last() == '\r' {
                        rest@.take(i as int).drop_last()
                    } else {
                        rest@.take(i as int)
                    }));
                    assert(next@ =~= rest@.skip(i + 1));
                    acc = acc.push(line@);
                    assert(acc + lines_seq(next@) =~= (acc.drop_last() + seq![line@]) + lines_seq(next@));
                }
                out.push(line);
                rest = next;
            },
        }
    }
    proof {
        assert(acc =~= lines_seq(s@));
    }
    out
}

// ───────────────────────── replacement ─────────────────────────

/// `str::replace`: every non-overlapping occurrence of `from`, left to right, replaced by `to`.
pub open spec fn replace_seq(s: Seq<char>, from: Seq<char>, to: Seq<char>) -> Seq<char>
    decreases s.len(),
{
    if from.len() == 0 {
        s
    } else {
        match find_seq(s, from) {
            None => s,
            Some(i) => {
                proof {
                    lemma_find_from(s, from, 0);
                }
                s.take(i) + to + replace_seq(s.skip(i + from.len()), from, to)
            },
        }
    }
}

/// `s` with every occurrence of the non-empty `from` replaced by `to`.
pub fn replace(s: &Vec<char>, from: &str, to: &str) -> (r: Vec<char>)
    requires
        from@.len() > 0,
    ensures
        r@ == replace_seq(s@, from@, to@),
{
    let fc = chars_of(from);
    let tc = chars_of(to);
    let mut out: Vec<char> = Vec::new();
    let mut rest = crate::text::slice_chars(s, 0, s.len());
    proof {
        assert(rest@ =~= s@);
        assert(out@ + replace_seq(rest@, from@, to@) =~= replace_seq(s@, from@, to@));
    }
    loop
        invariant
            fc@ == from@,
            tc@ == to@,
            fc.len() > 0,
            out@ + replace_seq(rest@, from@, to@) == replace_seq(s@, from@, to@),
        decreases rest.len(),
    {
        proof {
            lemma_find_from(rest@, from@, 0);
        }
        match find_chars(&rest, &fc) {
            None => {
                crate::text::push_chars(&mut out, &rest);
                return out;
            },
            Some(i) => {
                let head = crate::text::slice_chars(&rest, 0, i);
                let next = crate::text::slice_chars(&rest, i + fc.len(), rest.len());
                let ghost out0 = out@;
                crate::text::push_chars(&mut out, &head);
                crate::text::push_chars(&mut out, &tc);
                proof {
                    assert(head@ =~= rest@.take(i as int));
                    assert(next@ =~= rest@.skip(i + from@.len()));
                    assert(out0 + (head@ + to@ + replace_seq(next@, from@, to@)) =~= out@
                        + replace_seq(next@, from@, to@));
                }
                rest = next;
            },
        }
    }
}

// ───────────────────────── suffixes and numerals ─────────────────────────

/// `str::strip_suffix` with a character pattern.
pub open spec fn strip_suffix_char(s: Seq<char>, c: char) -> Option<Seq<char>> {
    if s.len() > 0 && s.last() == c {
        Some(s.drop_last())
    } else {
        None
    }
}

pub fn strip_suffix(s: &Vec<char>, c: char) -> (r: Option<Vec<char>>)
    ensures
        match strip_suffix_char(s@, c) {
            Some(t) => r matches Some(v) && v@ == t,
            None => r is None,
        },
{
    if s.len() > 0 && s[s.len() - 1] == c {
        let v = crate::text::slice_chars(s, 0, s.len() - 1);
        proof {
            assert(v@ =~= s@.drop_last());
        }
        Some(v)
    } else {
        None
    }
}

pub open spec fn is_digit(c: char) -> bool {
    '0' <= c && c <= '9'
}

pub open spec fn digit_value(c: char) -> nat {
    (c as u32 - '0' as u32) as nat
}

/// The value of a string of decimal digits.
pub open spec fn digits_value(d: Seq<char>) -> nat
    decreases d.len(),
{
    if d.len() == 0 {
        0
    } else {
        digits_value(d.drop_last()) * 10 + digit_value(d.last())
    }
}

/// What `str::parse::<u64>` accepts: an optional `+`, then one or more ASCII
/// digits whose value fits in a `u64`.
pub open spec fn parse_u64_spec(s: Seq<char>) -> Option<nat> {
    parse_u64_spec_digits(
        if s.len() > 0 && s[0] == '+' {
            s.drop_first()
        } else {
            s
        },
    )
}

proof fn lemma_digits_value_mono(d: Seq<char>, k: int)
    requires
        0 <= k <= d.len(),
        forall|i: int| 0 <= i < d.len() ==> is_digit(#[trigger] d[i]),
    ensures
        digits_value(d.take(k)) <= digits_value(d),
    decreases d.len() - k,
{
    if k < d.len() {
        lemma_digits_value_mono(d, k + 1);
        assert(d.take(k + 1).drop_last() =~= d.take(k));
    } else {
        assert(d.take(k) =~= d);
    }
}

/// `str::parse::<u64>`.
pub fn parse_u64(s: &Vec<char>) -> (r: Option<u64>)
    ensures
        match parse_u64_spec(s@) {
            Some(n) => r == Some(n as u64),
            None => r is None,
        },
{
    let start: usize = if s.len() > 0 && s[0] == '+' {
        1
    } else {
        0
    };
    let ghost d = if s@.len() > 0 && s@[0] == '+' {
        s@.drop_first()
    } else {
        s@
    };
    proof {
        assert(d =~= s@.skip(start as int));
        assert(parse_u64_spec(s@) == parse_u64_spec_digits(d));
    }
    if start >= s.len() {
        return None;
    }
    let mut acc: u64 = 0;
    let mut i: usize = start;
    while i < s.len()
        invariant
            start <= i <= s.len(),
            d == s@.skip(start as int),
            parse_u64_spec(s@) == parse_u64_spec_digits(d),
            forall|k: int| 0 <= k < i - start ==> is_digit(#[trigger] d[k]),
            acc == digits_value(d.take(i - start)),
        decreases s.len() - i,
    {
        let c = s[i];
        if !('0' <= c && c <= '9') {
            proof {
                assert(!is_digit(d[i - start]));
                assert(!(forall|k: int| 0 <= k < d.len() ==> is_digit(#[trigger] d[k])));
            }
            return None;
        }
        let dv = (c as u32 - '0' as u32) as u64;
        proof {
            assert(d.take(i - start + 1).drop_last() =~= d.take(i - start));
            assert(d[i - start] == c);
        }
        let m = acc.checked_mul(10);
        match m {
            None => {
                proof {
                    lemma_all_digits_then(d, s@, start, i);
                }
                return None;
            },
            Some(m) => {
                match m.checked_add(dv) {
                    None => {
                        proof {
                            lemma_all_digits_then(d, s@, start, i);
                        }
                        return None;
                    },
                    Some(v) => {
                        acc = v;
                    },
                }
            },
        }
        i = i + 1;
    }
    proof {
        assert(d.take(i - start) =~= d);
    }
    Some(acc)
}

/// Once a prefix overflows, the whole value (if all digits) overflows too.
proof fn lemma_all_digits_then(d: Seq<char>, s: Seq<char>, start: usize, i: usize)
    requires
        d == s.skip(start as int),
        start <= i < s.len(),
        forall|k: int| 0 <= k < i - start ==> is_digit(#[trigger] d[k]),
        is_digit(d[i - start]),
        digits_value(d.take(i - start + 1)) > u64::MAX,
    ensures
        parse_u64_spec_digits(d) is None,
{
    if forall|k: int| 0 <= k < d.len() ==> is_digit(#[trigger] d[k]) {
        lemma_digits_value_mono(d, i - start + 1);
    }
}

/// `parse_u64_spec` after the optional sign has been removed.
pub open spec fn parse_u64_spec_digits(d: Seq<char>) -> Option<nat> {
    if d.len() > 0 && (forall|i: int| 0 <= i < d.len() ==> is_digit(#[trigger] d[i])) && digits_value(d)
        <= u64::MAX {
        Some(digits_value(d))
    } else {
        None
    }
}

// ───────────────────────── byte-bounded prefixes ─────────────────────────

/// How many leading characters of `s` fit in `n` bytes of UTF-8.
pub open spec fn fit_count(s: Seq<char>, n: int) -> nat
    decreases s.len(),
{
    if s.len() == 0 || crate::text::char_utf8_len(s[0]) > n {
        0
    } else {
        1 + fit_count(s.drop_first(), n - crate::text::char_utf8_len(s[0]))
    }
}

/// The number of leading characters of `s` that fit in `n` bytes.
pub fn fitting_prefix_len(s: &Vec<char>, n: usize) -> (r: usize)
    ensures
        r == fit_count(s@, n as int),
        r <= s.len(),
{
    let mut i: usize = 0;
    let mut left: usize = n;
    proof {
        assert(s@.skip(0) =~= s@);
    }
    while i < s.len()
        invariant
            i <= s.len(),
            left <= n,
            i + fit_count(s@.skip(i as int), left as int) == fit_count(s@, n as int),
        decreases s.len() - i,
    {
        let l = crate::text::len_utf8(s[i]);
        if l > left {
            return i;
        }
        proof {
            assert(s@.skip(i as int).drop_first() =~= s@.skip(i + 1));
        }
        left = left - l;
        i = i + 1;
    }
    i
}


// ───────────────────────── ordering ─────────────────────────

/// Lexicographic order of character sequences by code point (the order
/// `str::cmp` gives, since UTF-8 preserves code point order byte-wise).
pub open spec fn lex_lt(a: Seq<char>, b: Seq<char>) -> bool
    decreases a.len(),
{
    if b.len() == 0 {
        false
    } else if a.len() == 0 {
        true
    } else if a[0] != b[0] {
        a[0] < b[0]
    } else {
        lex_lt(a.drop_first(), b.drop_first())
    }
}

pub proof fn lemma_lex_irreflexive(a: Seq<char>)
    ensures
        !lex_lt(a, a),
    decreases a.len(),
{
    if a.len() > 0 {
        lemma_lex_irreflexive(a.drop_first());
    }
}

pub proof fn lemma_lex_transitive(a: Seq<char>, b: Seq<char>, c: Seq<char>)
    requires
        lex_lt(a, b),
        lex_lt(b, c),
    ensures
        lex_lt(a, c),
    decreases a.len(),
{
    if a.len() > 0 && b.len() > 0 && c.len() > 0 && a[0] == b[0] && b[0] == c[0] {
        lemma_lex_transitive(a.drop_first(), b.drop_first(), c.drop_first());
    }
}

pub proof fn lemma_lex_total(a: Seq<char>, b: Seq<char>)
    ensures
        a != b ==> lex_lt(a, b) || lex_lt(b, a),
        !(lex_lt(a, b) && lex_lt(b, a)),
    decreases a.len(),
{
    if a.len() > 0 && b.len() > 0 && a[0] == b[0] {
        lemma_lex_total(a.drop_first(), b.drop_first());
        if a != b {
            assert(a =~= seq![a[0]] + a.drop_first());
            assert(b =~= seq![b[0]] + b.drop_first());
        }
    } else if a.len() == 0 && b.len() == 0 {
        assert(a =~= b);
    }
}

/// Whether `a` comes before `b` in code point order.
pub fn lex_less(a: &Vec<char>, b: &Vec<char>) -> (r: bool)
    ensures
        r == lex_lt(a@, b@),
{
    let mut i: usize = 0;
    proof {
        assert(a@.skip(0) =~= a@);
        assert(b@.skip(0) =~= b@);
    }
    while i < a.len() && i < b.len() && a[i] == b[i]
        invariant
            i <= a.len(),
            i <= b.len(),
            lex_lt(a@.skip(i as int), b@.skip(i as int)) == lex_lt(a@, b@),
        decreases a.len() - i,
    {
        proof {
            assert(a@.skip(i as int).drop_first() =~= a@.skip(i + 1));
            assert(b@.skip(i as int).drop_first() =~= b@.skip(i + 1));
        }
        i = i + 1;
    }
    if i >= b.len() {
        false
    } else if i >= a.len() {
        true
    } else {
        a[i] < b[i]
    }
}

} // verus!
