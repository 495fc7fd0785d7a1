//! Keyword-based intent classification: deterministic, offline, no model.
//!
//! Priority: goodbye, help, ecosystem intents, timer, alarm, reminder,
//! messaging, call, camera, battery, location, clipboard, query, conversation.
use vstd::prelude::*;

use crate::scan::{
    contains, contains_seq, find, find_seq, fit_count, has_prefix, is_digit, is_whitespace, is_ws,
    join, join_seq, lemma_find_from, parse_u64, parse_u64_spec, starts_with, strip_prefix,
    strip_prefix_seq, trim, trim_end_matches, trim_end_matches_seq, trim_seq, trim_start_matches,
    trim_start_matches_seq, words, words_seq,
};
use crate::text::{
    alphabetic, ascii_lower_seq, is_ascii_text, char_utf8_len, chars_of, eq_str, is_alphabetic, len_utf8,
    lowercase, push_str, slice_chars, string_of, to_ascii_lower, to_lowercase, utf8_len,
};

verus! {

/// What the user asked for.
#[derive(Debug, PartialEq)]
#[allow(inconsistent_fields)]
pub enum Intent {
    SetTimer { duration_secs: u64, label: Option<String> },
    CancelTimer { label: Option<String> },
    SetAlarm { time: String },
    SetReminder { text: String, when: String },
    Remember { key: String, value: String },
    Recall { key: String },
    Forget { key: String },
    SendMessage { contact: String, message: String },
    Call { contact: String },
    TakePhoto,
    BatteryStatus,
    GetLocation,
    SetClipboard { text: String },
    GetClipboard,
    Solve { query: String },
    Validate { text: String, context: String },
    Score { text: String },
    Fix { text: String, context: String },
    Eval { expression: String },
    /// `value` is the numeral as written (a literal `str::parse::<f64>` accepts).
    Convert { value: String, from: String, to: String },
    Formula { name: String, args: Vec<String> },
    SearchFormulas { keyword: String },
    Traverse { domain: String, depth: usize },
    Classify { token: String },
    Wheel { domain: Option<String> },
    Reason { have: String, want: String, max_depth: usize },
    Shikai { query: String },
    BankaiSolve { query: String },
    EvalFormula { formula_id: String, args: String },
    ChainFormulas { formulas: String, args: String },
    Query { text: String },
    Conversational { text: String },
    Goodbye,
    Help,
    Unknown,
}

/// A copy of an optional text.
pub(crate) fn copy_opt_string(o: &Option<String>) -> (r: Option<String>)
    ensures
        r == *o,
{
    match o {
        Some(s) => Some(s.clone()),
        None => None,
    }
}

/// A copy of a list of texts.
pub(crate) fn copy_strings(v: &Vec<String>) -> (r: Vec<String>)
    ensures
        r@ == v@,
{
    let mut r: Vec<String> = Vec::new();
    let mut i: usize = 0;
    while i < v.len()
        invariant
            i <= v.len(),
            r@ == v@.take(i as int),
        decreases v.len() - i,
    {
        r.push(v[i].clone());
        proof {
            assert(v@.take(i + 1) =~= v@.take(i as int).push(v@[i as int]));
        }
        i = i + 1;
    }
    proof {
        assert(v@.take(v.len() as int) =~= v@);
    }
    r
}

impl Clone for Intent {
    fn clone(&self) -> (r: Self)
        ensures
            r@ == self@,
    {
        match self {
            Intent::SetTimer { duration_secs, label } => Intent::SetTimer {
                duration_secs: *duration_secs,
                label: copy_opt_string(label),
            },
            Intent::CancelTimer { label } => Intent::CancelTimer {
                label: copy_opt_string(label),
            },
            Intent::SetAlarm { time } => Intent::SetAlarm {
                time: time.clone(),
            },
            Intent::SetReminder { text, when } => Intent::SetReminder {
                text: text.clone(),
                when: when.clone(),
            },
            Intent::Remember { key, value } => Intent::Remember {
                key: key.clone(),
                value: value.clone(),
            },
            Intent::Recall { key } => Intent::Recall {
                key: key.clone(),
            },
            Intent::Forget { key } => Intent::Forget {
                key: key.clone(),
            },
            Intent::SendMessage { contact, message } => Intent::SendMessage {
                contact: contact.clone(),
                message: message.clone(),
            },
            Intent::Call { contact } => Intent::Call {
                contact: contact.clone(),
            },
            Intent::TakePhoto => Intent::TakePhoto,
            Intent::BatteryStatus => Intent::BatteryStatus,
            Intent::GetLocation => Intent::GetLocation,
            Intent::SetClipboard { text } => Intent::SetClipboard {
                text: text.clone(),
            },
            Intent::GetClipboard => Intent::GetClipboard,
            Intent::Solve { query } => Intent::Solve {
                query: query.clone(),
            },
            Intent::Validate { text, context } => Intent::Validate {
                text: text.clone(),
                context: context.clone(),
            },
            Intent::Score { text } => Intent::Score {
                text: text.clone(),
            },
            Intent::Fix { text, context } => Intent::Fix {
                text: text.clone(),
                context: context.clone(),
            },
            Intent::Eval { expression } => Intent::Eval {
                expression: expression.clone(),
            },
            Intent::Convert { value, from, to } => Intent::Convert {
                value: value.clone(),
                from: from.clone(),
                to: to.clone(),
            },
            Intent::Formula { name, args } => Intent::Formula {
                name: name.clone(),
                args: copy_strings(args),
            },
            Intent::SearchFormulas { keyword } => Intent::SearchFormulas {
                keyword: keyword.clone(),
            },
            Intent::Traverse { domain, depth } => Intent::Traverse {
                domain: domain.clone(),
                depth: *depth,
            },
            Intent::Classify { token } => Intent::Classify {
                token: token.clone(),
            },
            Intent::Wheel { domain } => Intent::Wheel {
                domain: copy_opt_string(domain),
            },
            Intent::Reason { have, want, max_depth } => Intent::Reason {
                have: have.clone(),
                want: want.clone(),
                max_depth: *max_depth,
            },
            Intent::Shikai { query } => Intent::Shikai {
                query: query.clone(),
            },
            Intent::BankaiSolve { query } => Intent::BankaiSolve {
                query: query.clone(),
            },
            Intent::EvalFormula { formula_id, args } => Intent::EvalFormula {
                formula_id: formula_id.clone(),
                args: args.clone(),
            },
            Intent::ChainFormulas { formulas, args } => Intent::ChainFormulas {
                formulas: formulas.clone(),
                args: args.clone(),
            },
            Intent::Query { text } => Intent::Query {
                text: text.clone(),
            },
            Intent::Conversational { text } => Intent::Conversational {
                text: text.clone(),
            },
            Intent::Goodbye => Intent::Goodbye,
            Intent::Help => Intent::Help,
            Intent::Unknown => Intent::Unknown,
        }
    }
}

/// An intent with its text fields as character sequences.
#[allow(inconsistent_fields)]
pub enum IntentSpec {
    SetTimer { duration_secs: u64, label: Option<Seq<char>> },
    CancelTimer { label: Option<Seq<char>> },
    SetAlarm { time: Seq<char> },
    SetReminder { text: Seq<char>, when: Seq<char> },
    Remember { key: Seq<char>, value: Seq<char> },
    Recall { key: Seq<char> },
    Forget { key: Seq<char> },
    SendMessage { contact: Seq<char>, message: Seq<char> },
    Call { contact: Seq<char> },
    TakePhoto,
    BatteryStatus,
    GetLocation,
    SetClipboard { text: Seq<char> },
    GetClipboard,
    Solve { query: Seq<char> },
    Validate { text: Seq<char>, context: Seq<char> },
    Score { text: Seq<char> },
    Fix { text: Seq<char>, context: Seq<char> },
    Eval { expression: Seq<char> },
    Convert { value: Seq<char>, from: Seq<char>, to: Seq<char> },
    Formula { name: Seq<char>, args: Seq<Seq<char>> },
    SearchFormulas { keyword: Seq<char> },
    Traverse { domain: Seq<char>, depth: usize },
    Classify { token: Seq<char> },
    Wheel { domain: Option<Seq<char>> },
    Reason { have: Seq<char>, want: Seq<char>, max_depth: usize },
    Shikai { query: Seq<char> },
    BankaiSolve { query: Seq<char> },
    EvalFormula { formula_id: Seq<char>, args: Seq<char> },
    ChainFormulas { formulas: Seq<char>, args: Seq<char> },
    Query { text: Seq<char> },
    Conversational { text: Seq<char> },
    Goodbye,
    Help,
    Unknown,
}

pub open spec fn opt_str(o: Option<String>) -> Option<Seq<char>> {
    match o {
        Some(s) => Some(s@),
        None => None,
    }
}

impl View for Intent {
    type V = IntentSpec;

    open spec fn view(&self) -> IntentSpec {
        match self {
            Intent::SetTimer { duration_secs, label } => IntentSpec::SetTimer {
                duration_secs: *duration_secs,
                label: opt_str(*label),
            },
            Intent::CancelTimer { label } => IntentSpec::CancelTimer { label: opt_str(*label) },
            Intent::SetAlarm { time } => IntentSpec::SetAlarm { time: time@ },
            Intent::SetReminder { text, when } => IntentSpec::SetReminder { text: text@, when: when@ },
            Intent::Remember { key, value } => IntentSpec::Remember { key: key@, value: value@ },
            Intent::Recall { key } => IntentSpec::Recall { key: key@ },
            Intent::Forget { key } => IntentSpec::Forget { key: key@ },
            Intent::SendMessage { contact, message } => IntentSpec::SendMessage {
                contact: contact@,
                message: message@,
            },
            Intent::Call { contact } => IntentSpec::Call { contact: contact@ },
            Intent::TakePhoto => IntentSpec::TakePhoto,
            Intent::BatteryStatus => IntentSpec::BatteryStatus,
            Intent::GetLocation => IntentSpec::GetLocation,
            Intent::SetClipboard { text } => IntentSpec::SetClipboard { text: text@ },
            Intent::GetClipboard => IntentSpec::GetClipboard,
            Intent::Solve { query } => IntentSpec::Solve { query: query@ },
            Intent::Validate { text, context } => IntentSpec::Validate { text: text@, context: context@ },
            Intent::Score { text } => IntentSpec::Score { text: text@ },
            Intent::Fix { text, context } => IntentSpec::Fix { text: text@, context: context@ },
            Intent::Eval { expression } => IntentSpec::Eval { expression: expression@ },
            Intent::Convert { value, from, to } => IntentSpec::Convert {
                value: value@,
                from: from@,
                to: to@,
            },
            Intent::Formula { name, args } => IntentSpec::Formula {
                name: name@,
                args: args@.map_values(|a: String| a@),
            },
            Intent::SearchFormulas { keyword } => IntentSpec::SearchFormulas { keyword: keyword@ },
            Intent::Traverse { domain, depth } => IntentSpec::Traverse { domain: domain@, depth: *depth },
            Intent::Classify { token } => IntentSpec::Classify { token: token@ },
            Intent::Wheel { domain } => IntentSpec::Wheel { domain: opt_str(*domain) },
            Intent::Reason { have, want, max_depth } => IntentSpec::Reason {
                have: have@,
                want: want@,
                max_depth: *max_depth,
            },
            Intent::Shikai { query } => IntentSpec::Shikai { query: query@ },
            Intent::BankaiSolve { query } => IntentSpec::BankaiSolve { query: query@ },
            Intent::EvalFormula { formula_id, args } => IntentSpec::EvalFormula {
                formula_id: formula_id@,
                args: args@,
            },
            Intent::ChainFormulas { formulas, args } => IntentSpec::ChainFormulas {
                formulas: formulas@,
                args: args@,
            },
            Intent::Query { text } => IntentSpec::Query { text: text@ },
            Intent::Conversational { text } => IntentSpec::Conversational { text: text@ },
            Intent::Goodbye => IntentSpec::Goodbye,
            Intent::Help => IntentSpec::Help,
            Intent::Unknown => IntentSpec::Unknown,
        }
    }
}

pub open spec fn opt_view(o: Option<Intent>) -> Option<IntentSpec> {
    match o {
        Some(i) => Some(i@),
        None => None,
    }
}

fn s(v: &Vec<char>) -> (r: String)
    ensures
        r@ == v@,
{
    string_of(v)
}

fn empty() -> (r: String)
    ensures
        r@ == Seq::<char>::empty(),
{
    let v: Vec<char> = Vec::new();
    string_of(&v)
}

fn lit(t: &str) -> (r: String)
    ensures
        r@ == t@,
{
    string_of(&chars_of(t))
}

// ───────────────────────── byte offsets ─────────────────────────

/// The character index at which byte offset `b` of `s` falls, if it is a boundary.
pub open spec fn char_at_byte(s: Seq<char>, b: int) -> Option<int>
    decreases s.len(),
{
    if b == 0 {
        Some(0)
    } else if s.len() == 0 || b < char_utf8_len(s[0]) {
        None
    } else {
        match char_at_byte(s.drop_first(), b - char_utf8_len(s[0])) {
            Some(i) => Some(i + 1),
            None => None,
        }
    }
}

/// `s.get(b..).unwrap_or("")`: the text from byte `b` on, or empty when `b`
/// is not a character boundary of `s`.
pub open spec fn get_from(s: Seq<char>, b: int) -> Seq<char> {
    match char_at_byte(s, b) {
        Some(i) => s.skip(i),
        None => seq![],
    }
}

/// `s` before byte offset `b`, cut at the last boundary at or below `b`.
pub open spec fn before_byte(s: Seq<char>, b: int) -> Seq<char> {
    s.take(fit_count(s, b) as int)
}

/// `s` from byte offset `b` on, cut at the last boundary at or below `b`.
pub open spec fn after_byte(s: Seq<char>, b: int) -> Seq<char> {
    s.skip(fit_count(s, b) as int)
}

pub proof fn lemma_fit_count_len(s: Seq<char>, b: int)
    ensures
        fit_count(s, b) <= s.len(),
    decreases s.len(),
{
    if s.len() > 0 && char_utf8_len(s[0]) <= b {
        lemma_fit_count_len(s.drop_first(), b - char_utf8_len(s[0]));
    }
}

pub proof fn lemma_char_at_byte(s: Seq<char>, b: int)
    ensures
        char_at_byte(s, b) matches Some(i) ==> 0 <= i <= s.len(),
    decreases s.len(),
{
    if b != 0 && s.len() > 0 && b >= char_utf8_len(s[0]) {
        lemma_char_at_byte(s.drop_first(), b - char_utf8_len(s[0]));
    }
}

fn exec_get_from(v: &Vec<char>, b: u128) -> (r: Vec<char>)
    ensures
        r@ == get_from(v@, b as int),
{
    let mut i: usize = 0;
    let mut left: u128 = b;
    proof {
        assert(v@.skip(0) =~= v@);
    }
    while left > 0
        invariant
            i <= v.len(),
            left <= b,
            match char_at_byte(v@.skip(i as int), left as int) {
                Some(k) => char_at_byte(v@, b as int) == Some(k + i),
                None => char_at_byte(v@, b as int) is None,
            },
        decreases left,
    {
        if i >= v.len() {
            return Vec::new();
        }
        let l = len_utf8(v[i]) as u128;
        if left < l {
            return Vec::new();
        }
        proof {
            assert(v@.skip(i as int).drop_first() =~= v@.skip(i + 1));
        }
        left = left - l;
        i = i + 1;
    }
    slice_chars(v, i, v.len())
}

/// Byte length of `s[..p]`, as a wide integer.
fn bytes_before(s: &Vec<char>, p: usize) -> (r: u128)
    requires
        p <= s.len(),
    ensures
        r == utf8_len(s@.take(p as int)),
        r <= 4 * p,
{
    let mut acc: u128 = 0;
    let mut i: usize = 0;
    while i < p
        invariant
            i <= p <= s.len(),
            acc == utf8_len(s@.take(i as int)),
            acc <= 4 * i,
        decreases p - i,
    {
        proof {
            assert(s@.take(i + 1).drop_last() =~= s@.take(i as int));
        }
        acc = acc + len_utf8(s[i]) as u128;
        i = i + 1;
    }
    acc
}

/// How many leading characters of `s` fit in `n` bytes (wide `n`).
fn fit_wide(s: &Vec<char>, n: u128) -> (r: usize)
    ensures
        r == fit_count(s@, n as int),
        r <= s.len(),
{
    let mut i: usize = 0;
    let mut left: u128 = n;
    proof {
        assert(s@.skip(0) =~= s@);
    }
    while i < s.len()
        invariant
            i <= s.len(),
            left <= n,
            i + fit_count(s@.skip(i as int), left as int) == fit_count(s@, n as int),
        decreases s.len() - i,
    {
        let l = len_utf8(s[i]) as u128;
        if l > left {
            return i;
        }
        proof {
            assert(s@.skip(i as int).drop_first() =~= s@.skip(i + 1));
        }
        left = left - l;
        i = i + 1;
    }
    i
}

fn exec_before_byte(s: &Vec<char>, b: u128) -> (r: Vec<char>)
    ensures
        r@ == before_byte(s@, b as int),
{
    let k = fit_wide(s, b);
    let r = slice_chars(s, 0, k);
    proof {
        assert(r@ =~= s@.take(k as int));
    }
    r
}

fn exec_after_byte(s: &Vec<char>, b: u128) -> (r: Vec<char>)
    ensures
        r@ == after_byte(s@, b as int),
{
    let k = fit_wide(s, b);
    let r = slice_chars(s, k, s.len());
    proof {
        assert(r@ =~= s@.skip(k as int));
    }
    r
}

/// `text` split around the first case-insensitive occurrence of `sep`:
/// the trimmed parts before and after it, located by byte offsets found in
/// the lowercased text.
pub open spec fn split_around(text: Seq<char>, sep: Seq<char>) -> Option<(Seq<char>, Seq<char>)> {
    let lt = lowercase(text);
    match find_seq(lt, sep) {
        Some(p) => {
            let b = utf8_len(lt.take(p)) as int;
            Some((trim_seq(before_byte(text, b)), trim_seq(after_byte(text, b + sep.len()))))
        },
        None => None,
    }
}

/// `split_around` for an ASCII separator.
fn exec_split_around(text: &Vec<char>, sep: &str) -> (r: Option<(Vec<char>, Vec<char>)>)
    ensures
        match split_around(text@, sep@) {
            Some((a, b)) => r matches Some((x, y)) && x@ == a && y@ == b,
            None => r is None,
        },
{
    let lt = to_lowercase(text);
    match find(&lt, sep) {
        Some(p) => {
            proof {
                lemma_find_from(lt@, sep@, 0);
            }
            let b = bytes_before(&lt, p);
            let sc = chars_of(sep);
            let left = trim(&exec_before_byte(text, b));
            let right = trim(&exec_after_byte(text, b + sc.len() as u128));
            Some((left, right))
        },
        None => None,
    }
}


// ───────────────────────── numerals and math ─────────────────────────

pub open spec fn all_digits(s: Seq<char>) -> bool {
    forall|i: int| 0 <= i < s.len() ==> is_digit(#[trigger] s[i])
}

fn exec_all_digits(s: &Vec<char>, lo: usize, hi: usize) -> (r: bool)
    requires
        lo <= hi <= s.len(),
    ensures
        r == all_digits(s@.subrange(lo as int, hi as int)),
{
    let mut i: usize = lo;
    while i < hi
        invariant
            lo <= i <= hi <= s.len(),
            forall|k: int| lo <= k < i ==> is_digit(#[trigger] s@[k]),
        decreases hi - i,
    {
        if !('0' <= s[i] && s[i] <= '9') {
            proof {
                assert(!is_digit(s@.subrange(lo as int, hi as int)[i - lo]));
            }
            return false;
        }
        i = i + 1;
    }
    proof {
        assert forall|k: int| 0 <= k < hi - lo implies is_digit(
            #[trigger] s@.subrange(lo as int, hi as int)[k],
        ) by {
            assert(s@.subrange(lo as int, hi as int)[k] == s@[lo + k]);
        }
    }
    true
}

/// Digits with at most one point and a digit on some side of it.
pub open spec fn mantissa_ok(m: Seq<char>) -> bool {
    match find_seq(m, seq!['.']) {
        None => m.len() > 0 && all_digits(m),
        Some(k) => all_digits(m.take(k)) && all_digits(m.skip(k + 1)) && (k > 0 || m.len() > k + 1),
    }
}

/// An optionally signed run of one or more digits.
pub open spec fn exponent_ok(t: Seq<char>) -> bool {
    let d = if t.len() > 0 && (t[0] == '+' || t[0] == '-') {
        t.drop_first()
    } else {
        t
    };
    d.len() > 0 && all_digits(d)
}

pub open spec fn number_ok(u: Seq<char>) -> bool {
    match find_seq(u, seq!['e']) {
        None => mantissa_ok(u),
        Some(k) => mantissa_ok(u.take(k)) && exponent_ok(u.skip(k + 1)),
    }
}

/// The strings `str::parse::<f64>` accepts: an optional sign, then `inf`,
/// `infinity`, `nan`, or digits with an optional point and exponent (ASCII
/// case ignored).
pub open spec fn float_literal(s: Seq<char>) -> bool {
    let t = ascii_lower_seq(s);
    let u = if t.len() > 0 && (t[0] == '+' || t[0] == '-') {
        t.drop_first()
    } else {
        t
    };
    u == "inf"@ || u == "infinity"@ || u == "nan"@ || number_ok(u)
}

fn exec_mantissa_ok(m: &Vec<char>) -> (r: bool)
    ensures
        r == mantissa_ok(m@),
{
    let dot: Vec<char> = vec!['.'];
    proof {
        assert(dot@ =~= seq!['.']);
    }
    match crate::scan::find_chars(m, &dot) {
        None => {
            proof {
                assert(m@.subrange(0, m@.len() as int) =~= m@);
            }
            m.len() > 0 && exec_all_digits(m, 0, m.len())
        },
        Some(k) => {
            proof {
                lemma_find_from(m@, seq!['.'], 0);
                assert(m@.subrange(0, k as int) =~= m@.take(k as int));
                assert(m@.subrange(k + 1, m@.len() as int) =~= m@.skip(k + 1));
            }
            let n: usize = m.len();
            let after: usize = k + 1;
            exec_all_digits(m, 0, k) && exec_all_digits(m, after, n) && (k > 0 || n > after)
        },
    }
}

fn exec_exponent_ok(t: &Vec<char>) -> (r: bool)
    ensures
        r == exponent_ok(t@),
{
    let start: usize = if t.len() > 0 && (t[0] == '+' || t[0] == '-') {
        1
    } else {
        0
    };
    proof {
        assert(t@.subrange(start as int, t@.len() as int) =~= (if t@.len() > 0 && (t@[0] == '+'
            || t@[0] == '-') {
            t@.drop_first()
        } else {
            t@
        }));
    }
    start < t.len() && exec_all_digits(t, start, t.len())
}

fn exec_number_ok(u: &Vec<char>) -> (r: bool)
    ensures
        r == number_ok(u@),
{
    let e: Vec<char> = vec!['e'];
    proof {
        assert(e@ =~= seq!['e']);
    }
    match crate::scan::find_chars(u, &e) {
        None => exec_mantissa_ok(u),
        Some(k) => {
            proof {
                assert(find_seq(u@, e@) == Some(k as int));
                assert(e@ == seq!['e']);
                lemma_find_from(u@, seq!['e'], 0);
                assert(crate::scan::occurs_at(u@, seq!['e'], k as int));
                assert(k < u.len());
            }
            let m = slice_chars(u, 0, k);
            let x = slice_chars(u, k + 1, u.len());
            proof {
                assert(m@ =~= u@.take(k as int));
                assert(x@ =~= u@.skip(k + 1));
            }
            exec_mantissa_ok(&m) && exec_exponent_ok(&x)
        },
    }
}

/// Whether `str::parse::<f64>` accepts `s`.
pub fn is_float_literal(s: &Vec<char>) -> (r: bool)
    ensures
        r == float_literal(s@),
{
    let t = to_ascii_lower(s);
    let u = if t.len() > 0 && (t[0] == '+' || t[0] == '-') {
        slice_chars(&t, 1, t.len())
    } else {
        slice_chars(&t, 0, t.len())
    };
    proof {
        assert(u@ =~= (if t@.len() > 0 && (t@[0] == '+' || t@[0] == '-') {
            t@.drop_first()
        } else {
            t@
        }));
    }
    eq_str(&u, "inf") || eq_str(&u, "infinity") || eq_str(&u, "nan") || exec_number_ok(&u)
}

pub open spec fn is_math_op(c: char) -> bool {
    c == '+' || c == '-' || c == '*' || c == '/' || c == '^' || c == '%' || c == '(' || c == ')'
}

/// Heuristic: digits together with an operator, or a math function name.
pub open spec fn looks_like_math(t: Seq<char>) -> bool {
    ||| ((exists|i: int| 0 <= i < t.len() && is_digit(#[trigger] t[i])) && (exists|i: int|
        0 <= i < t.len() && is_math_op(#[trigger] t[i])))
    ||| contains_seq(t, "sqrt"@)
    ||| contains_seq(t, "sin"@)
    ||| contains_seq(t, "cos"@)
    ||| contains_seq(t, "tan"@)
    ||| contains_seq(t, "log"@)
    ||| contains_seq(t, "ln"@)
    ||| contains_seq(t, "exp"@)
    ||| contains_seq(t, "abs"@)
    ||| contains_seq(t, "pow"@)
}

fn any_digit(t: &Vec<char>) -> (r: bool)
    ensures
        r == exists|i: int| 0 <= i < t@.len() && is_digit(#[trigger] t@[i]),
{
    let mut i: usize = 0;
    while i < t.len()
        invariant
            i <= t.len(),
            forall|k: int| 0 <= k < i ==> !is_digit(#[trigger] t@[k]),
        decreases t.len() - i,
    {
        if '0' <= t[i] && t[i] <= '9' {
            return true;
        }
        i = i + 1;
    }
    false
}

fn any_math_op(t: &Vec<char>) -> (r: bool)
    ensures
        r == exists|i: int| 0 <= i < t@.len() && is_math_op(#[trigger] t@[i]),
{
    let mut i: usize = 0;
    while i < t.len()
        invariant
            i <= t.len(),
            forall|k: int| 0 <= k < i ==> !is_math_op(#[trigger] t@[k]),
        decreases t.len() - i,
    {
        let c = t[i];
        if c == '+' || c == '-' || c == '*' || c == '/' || c == '^' || c == '%' || c == '(' || c
            == ')' {
            return true;
        }
        i = i + 1;
    }
    false
}

fn exec_looks_like_math(t: &Vec<char>) -> (r: bool)
    ensures
        r == looks_like_math(t@),
{
    (any_digit(t) && any_math_op(t)) || contains(t, "sqrt") || contains(t, "sin") || contains(
        t,
        "cos",
    ) || contains(t, "tan") || contains(t, "log") || contains(t, "ln") || contains(t, "exp")
        || contains(t, "abs") || contains(t, "pow")
}

// ───────────────────────── convert ─────────────────────────

/// Separators of the "convert <n> <from> <to>" form: whitespace and `,`.
pub open spec fn conv_sep(c: char) -> bool {
    is_ws(c) || c == ','
}

/// Length of the leading run of non-separators.
pub open spec fn conv_run(s: Seq<char>) -> nat
    decreases s.len(),
{
    if s.len() == 0 || conv_sep(s[0]) {
        0
    } else {
        1 + conv_run(s.drop_first())
    }
}

pub proof fn lemma_conv_run(s: Seq<char>)
    ensures
        conv_run(s) <= s.len(),
    decreases s.len(),
{
    if s.len() > 0 && !conv_sep(s[0]) {
        lemma_conv_run(s.drop_first());
    }
}

proof fn lemma_conv_run_at(s: Seq<char>, k: int)
    requires
        0 <= k <= s.len(),
        forall|j: int| 0 <= j < k ==> !conv_sep(#[trigger] s[j]),
        k < s.len() ==> conv_sep(s[k]),
    ensures
        conv_run(s) == k,
    decreases k,
{
    if k > 0 {
        assert forall|j: int| 0 <= j < k - 1 implies !conv_sep(#[trigger] s.drop_first()[j]) by {
            assert(s.drop_first()[j] == s[j + 1]);
        }
        if k < s.len() {
            assert(s.drop_first()[k - 1] == s[k]);
        }
        lemma_conv_run_at(s.drop_first(), k - 1);
    }
}

/// The pieces of `str::splitn(3, sep)`: up to two leading pieces cut at
/// separators, then the rest.
pub open spec fn split3(s: Seq<char>) -> Seq<Seq<char>> {
    let r1 = conv_run(s);
    if r1 >= s.len() {
        seq![s]
    } else {
        let t = s.skip(r1 + 1 as int);
        let r2 = conv_run(t);
        if r2 >= t.len() {
            seq![s.take(r1 as int), t]
        } else {
            seq![s.take(r1 as int), t.take(r2 as int), t.skip(r2 + 1 as int)]
        }
    }
}

/// Index of the first separator at or after `from`, or `s.len()`.
fn next_conv_sep(s: &Vec<char>, from: usize) -> (r: usize)
    requires
        from <= s.len(),
    ensures
        from <= r <= s.len(),
        r - from == conv_run(s@.skip(from as int)),
{
    let mut j: usize = from;
    while j < s.len() && !(is_whitespace(s[j]) || s[j] == ',')
        invariant
            from <= j <= s.len(),
            forall|k: int| from <= k < j ==> !conv_sep(#[trigger] s@[k]),
        decreases s.len() - j,
    {
        j = j + 1;
    }
    proof {
        let t = s@.skip(from as int);
        assert forall|k: int| 0 <= k < j - from implies !conv_sep(#[trigger] t[k]) by {
            assert(t[k] == s@[from + k]);
        }
        if j < s.len() {
            assert(t[j - from] == s@[j as int]);
        }
        lemma_conv_run_at(t, j - from);
    }
    j
}

#[verifier::rlimit(40)]
fn exec_split3(s: &Vec<char>) -> (r: Vec<Vec<char>>)
    ensures
        crate::gate::views(r@) == split3(s@),
{
    let j1 = next_conv_sep(s, 0);
    proof {
        assert(s@.skip(0) =~= s@);
    }
    if j1 >= s.len() {
        let a = slice_chars(s, 0, s.len());
        let r = vec![a];
        proof {
            assert(crate::gate::views(r@) =~= seq![s@]);
        }
        return r;
    }
    let j2 = next_conv_sep(s, j1 + 1);
    let a = slice_chars(s, 0, j1);
    proof {
        let t = s@.skip(j1 + 1);
        assert(s@.skip(j1 + 1) =~= t);
        assert(a@ =~= s@.take(j1 as int));
    }
    if j2 >= s.len() {
        let b = slice_chars(s, j1 + 1, s.len());
        let r = vec![a, b];
        proof {
            assert(b@ =~= s@.skip(j1 + 1));
            assert(crate::gate::views(r@) =~= split3(s@));
        }
        r
    } else {
        let b = slice_chars(s, j1 + 1, j2);
        let c = slice_chars(s, j2 + 1, s.len());
        let r = vec![a, b, c];
        proof {
            let t = s@.skip(j1 + 1);
            assert(b@ =~= t.take(j2 - j1 - 1));
            assert(c@ =~= t.skip(j2 - j1 - 1 + 1));
            assert(crate::gate::views(r@) =~= split3(s@));
        }
        r
    }
}

/// "convert 100 miles to kilometers": number, unit, target unit.
pub open spec fn convert_rest(rest: Seq<char>) -> Option<IntentSpec> {
    let parts = split3(rest);
    if parts.len() >= 3 && float_literal(parts[0]) {
        Some(
            IntentSpec::Convert {
                value: parts[0],
                from: trim_seq(parts[1]),
                to: trim_seq(
                    trim_start_matches_seq(
                        trim_start_matches_seq(trim_seq(parts[2]), "to "@),
                        "in "@,
                    ),
                ),
            },
        )
    } else {
        None
    }
}

/// "100 miles to kilometers" / "5 kg in pounds" anywhere among the words.
pub open spec fn convert_scan(ws: Seq<Seq<char>>, i: int) -> Option<IntentSpec>
    decreases ws.len() - i,
{
    if i < 0 || i >= ws.len() {
        None
    } else if float_literal(ws[i]) && i + 2 < ws.len() && (ws[i + 2] == "to"@ || ws[i + 2] == "in"@)
        && join_seq(ws.skip(i + 3), " "@).len() > 0 {
        Some(
            IntentSpec::Convert { value: ws[i], from: ws[i + 1], to: join_seq(ws.skip(i + 3), " "@) },
        )
    } else {
        convert_scan(ws, i + 1)
    }
}

/// "convert miles to kilometers": no number, one unit.
pub open spec fn convert_plain(written: Seq<char>) -> Option<IntentSpec> {
    let rest = trim_seq(trim_start_matches_seq(written, "convert "@));
    match split_around(rest, " to "@) {
        Some((f, t)) if f.len() > 0 && t.len() > 0 => Some(
            IntentSpec::Convert { value: "1.0"@, from: f, to: t },
        ),
        _ => match split_around(rest, " in "@) {
            Some((f, t)) if f.len() > 0 && t.len() > 0 => Some(
                IntentSpec::Convert { value: "1.0"@, from: f, to: t },
            ),
            _ => None,
        },
    }
}

pub open spec fn parse_convert_spec(lower: Seq<char>, written: Seq<char>) -> Option<IntentSpec> {
    if !contains_seq(lower, "convert"@) && !contains_seq(lower, " in "@) && !contains_seq(
        lower,
        " to "@,
    ) {
        None
    } else if strip_prefix_seq(lower, "convert "@) is Some && convert_rest(
        strip_prefix_seq(lower, "convert "@).unwrap(),
    ) is Some {
        convert_rest(strip_prefix_seq(lower, "convert "@).unwrap())
    } else if convert_scan(words_seq(lower), 0) is Some {
        convert_scan(words_seq(lower), 0)
    } else if has_prefix(lower, "convert "@) {
        convert_plain(written)
    } else {
        None
    }
}

fn exec_convert_rest(rest: &Vec<char>) -> (r: Option<Intent>)
    ensures
        opt_view(r) == convert_rest(rest@),
{
    let parts = exec_split3(rest);
    proof {
        assert(parts@.len() == split3(rest@).len());
    }
    if parts.len() >= 3 && is_float_literal(&parts[0]) {
        proof {
            assert(parts@[0]@ == split3(rest@)[0]);
            assert(parts@[1]@ == split3(rest@)[1]);
            assert(parts@[2]@ == split3(rest@)[2]);
        }
        let from = trim(&parts[1]);
        let to = trim(
            &trim_start_matches(&trim_start_matches(&trim(&parts[2]), "to "), "in "),
        );
        Some(Intent::Convert { value: s(&parts[0]), from: s(&from), to: s(&to) })
    } else {
        proof {
            if parts@.len() >= 3 {
                assert(parts@[0]@ == split3(rest@)[0]);
            }
        }
        None
    }
}

fn exec_convert_scan(ws: &Vec<Vec<char>>) -> (r: Option<Intent>)
    ensures
        opt_view(r) == convert_scan(crate::gate::views(ws@), 0),
{
    let ghost wv = crate::gate::views(ws@);
    let mut i: usize = 0;
    while i < ws.len()
        invariant
            i <= ws.len(),
            wv == crate::gate::views(ws@),
            convert_scan(wv, i as int) == convert_scan(wv, 0),
        decreases ws.len() - i,
    {
        if is_float_literal(&ws[i]) && ws.len() - i > 2 && (eq_str(&ws[i + 2], "to") || eq_str(
            &ws[i + 2],
            "in",
        )) {
            let mut rest: Vec<Vec<char>> = Vec::new();
            let mut k: usize = i + 3;
            while k < ws.len()
                invariant
                    i + 3 <= k <= ws.len(),
                    wv == crate::gate::views(ws@),
                    crate::gate::views(rest@) == wv.subrange(i + 3, k as int),
                decreases ws.len() - k,
            {
                let w = slice_chars(&ws[k], 0, ws[k].len());
                proof {
                    assert(w@ =~= ws@[k as int]@);
                    assert(crate::gate::views(rest@.push(w)) =~= crate::gate::views(rest@).push(w@));
                    assert(wv.subrange(i + 3, k + 1) =~= wv.subrange(i + 3, k as int).push(w@));
                }
                rest.push(w);
                k = k + 1;
            }
            let to = join(&rest, " ");
            proof {
                assert(wv.subrange(i + 3, ws@.len() as int) =~= wv.skip(i + 3));
                assert(crate::gate::views(rest@) == rest@.map_values(|w: Vec<char>| w@));
            }
            if to.len() > 0 {
                return Some(
                    Intent::Convert { value: s(&ws[i]), from: s(&ws[i + 1]), to: s(&to) },
                );
            }
        }
        i = i + 1;
    }
    None
}

fn exec_convert_plain(written: &Vec<char>) -> (r: Option<Intent>)
    ensures
        opt_view(r) == convert_plain(written@),
{
    let rest = trim(&trim_start_matches(written, "convert "));
    match exec_split_around(&rest, " to ") {
        Some((f, t)) => {
            if f.len() > 0 && t.len() > 0 {
                return Some(Intent::Convert { value: lit("1.0"), from: s(&f), to: s(&t) });
            }
        },
        None => {},
    }
    match exec_split_around(&rest, " in ") {
        Some((f, t)) => {
            if f.len() > 0 && t.len() > 0 {
                return Some(Intent::Convert { value: lit("1.0"), from: s(&f), to: s(&t) });
            }
        },
        None => {},
    }
    None
}

fn parse_convert(lower: &Vec<char>, written: &Vec<char>) -> (r: Option<Intent>)
    ensures
        opt_view(r) == parse_convert_spec(lower@, written@),
{
    if !contains(lower, "convert") && !contains(lower, " in ") && !contains(lower, " to ") {
        return None;
    }
    match strip_prefix(lower, "convert ") {
        Some(rest) => {
            let c = exec_convert_rest(&rest);
            if c.is_some() {
                return c;
            }
        },
        None => {},
    }
    let ws = words(lower);
    proof {
        assert(crate::gate::views(ws@) =~= words_seq(lower@));
    }
    let c = exec_convert_scan(&ws);
    if c.is_some() {
        return c;
    }
    if starts_with(lower, "convert ") {
        return exec_convert_plain(written);
    }
    None
}


// ───────────────────────── ecosystem parsers ─────────────────────────

fn some_if<T>(c: bool, v: T) -> (r: Option<T>)
    ensures
        r == (if c {
            Some(v)
        } else {
            None
        }),
{
    if c {
        Some(v)
    } else {
        None
    }
}

/// The first word of `s`, or empty.
pub open spec fn first_word(s: Seq<char>) -> Seq<char> {
    if words_seq(s).len() > 0 {
        words_seq(s)[0]
    } else {
        seq![]
    }
}

fn exec_first_word(s: &Vec<char>) -> (r: Vec<char>)
    ensures
        r@ == first_word(s@),
{
    let ws = words(s);
    if ws.len() > 0 {
        slice_chars(&ws[0], 0, ws[0].len())
    } else {
        Vec::new()
    }
}

/// `s` without leading `:` and space characters.
pub open spec fn trim_colon_space(s: Seq<char>) -> Seq<char>
    decreases s.len(),
{
    if s.len() > 0 && (s[0] == ':' || s[0] == ' ') {
        trim_colon_space(s.drop_first())
    } else {
        s
    }
}

fn exec_trim_colon_space(s: &Vec<char>) -> (r: Vec<char>)
    ensures
        r@ == trim_colon_space(s@),
{
    let mut i: usize = 0;
    proof {
        assert(s@.skip(0) =~= s@);
    }
    while i < s.len() && (s[i] == ':' || s[i] == ' ')
        invariant
            i <= s.len(),
            trim_colon_space(s@.skip(i as int)) == trim_colon_space(s@),
        decreases s.len() - i,
    {
        proof {
            assert(s@.skip(i as int).drop_first() =~= s@.skip(i + 1));
        }
        i = i + 1;
    }
    slice_chars(s, i, s.len())
}

pub open spec fn eval_triggers() -> Seq<&'static str> {
    seq!["calculate", "compute", "evaluate", "eval", "solve for", "what is", "what's"]
}

pub open spec fn eval_after(rest: Seq<char>) -> Option<IntentSpec> {
    let e = trim_colon_space(trim_seq(rest));
    if e.len() > 0 && looks_like_math(e) {
        Some(IntentSpec::Eval { expression: e })
    } else {
        None
    }
}

/// The first trigger, from the `k`-th on, followed by a math expression.
pub open spec fn eval_scan(lower: Seq<char>, k: int) -> Option<IntentSpec>
    decreases 7 - k,
{
    if k < 0 || k >= 7 {
        None
    } else {
        match strip_prefix_seq(lower, eval_triggers()[k]@) {
            Some(rest) if eval_after(rest) is Some => eval_after(rest),
            _ => eval_scan(lower, k + 1),
        }
    }
}

/// "calculate 2+2" / "what's sqrt(144)" / a bare expression without spaces.
pub open spec fn parse_eval_spec(lower: Seq<char>, written: Seq<char>) -> Option<IntentSpec> {
    if eval_scan(lower, 0) is Some {
        eval_scan(lower, 0)
    } else if looks_like_math(lower) && !lower.contains(' ') && (exists|i: int|
        0 <= i < lower.len() && is_math_op(#[trigger] lower[i])) {
        Some(IntentSpec::Eval { expression: written })
    } else {
        None
    }
}

fn parse_eval(lower: &Vec<char>, written: &Vec<char>) -> (r: Option<Intent>)
    ensures
        opt_view(r) == parse_eval_spec(lower@, written@),
{
    let triggers: Vec<&'static str> = vec![
        "calculate",
        "compute",
        "evaluate",
        "eval",
        "solve for",
        "what is",
        "what's",
    ];
    assert(triggers@ == eval_triggers());
    let mut k: usize = 0;
    while k < triggers.len()
        invariant
            triggers@ == eval_triggers(),
            k <= 7,
            eval_scan(lower@, k as int) == eval_scan(lower@, 0),
        decreases 7 - k,
    {
        match strip_prefix(lower, triggers[k]) {
            Some(rest) => {
                let e = exec_trim_colon_space(&trim(&rest));
                if e.len() > 0 && exec_looks_like_math(&e) {
                    return Some(Intent::Eval { expression: s(&e) });
                }
            },
            None => {},
        }
        k = k + 1;
    }
    if exec_looks_like_math(lower) && !crate::scan::has_char(lower, ' ') && any_math_op(lower) {
        return Some(Intent::Eval { expression: s(written) });
    }
    None
}

/// "X against Y": both sides trimmed and non-empty.
pub open spec fn against(text: Seq<char>) -> Option<(Seq<char>, Seq<char>)> {
    match split_around(text, " against "@) {
        Some((l, r)) if l.len() > 0 && r.len() > 0 => Some((l, r)),
        _ => None,
    }
}

fn exec_against(text: &Vec<char>) -> (r: Option<(Vec<char>, Vec<char>)>)
    ensures
        match against(text@) {
            Some((a, b)) => r matches Some((x, y)) && x@ == a && y@ == b,
            None => r is None,
        },
{
    match exec_split_around(text, " against ") {
        Some((l, r)) => {
            if l.len() > 0 && r.len() > 0 {
                Some((l, r))
            } else {
                None
            }
        },
        None => None,
    }
}

/// "validate X against Y" / "check if X" / "verify X".
pub open spec fn parse_validate_spec(lower: Seq<char>, written: Seq<char>) -> Option<IntentSpec> {
    if has_prefix(lower, "validate "@) {
        let rest = lower.skip(9);
        match against(rest) {
            Some((c, x)) => Some(IntentSpec::Validate { text: c, context: x }),
            None => Some(IntentSpec::Validate { text: rest, context: seq![] }),
        }
    } else if has_prefix(lower, "check if "@) || has_prefix(lower, "verify "@) {
        let n: int = if has_prefix(lower, "check if "@) {
            9
        } else {
            7
        };
        Some(IntentSpec::Validate { text: get_from(trim_seq(written), n), context: seq![] })
    } else {
        None
    }
}

fn parse_validate(lower: &Vec<char>, written: &Vec<char>) -> (r: Option<Intent>)
    ensures
        opt_view(r) == parse_validate_spec(lower@, written@),
{
    proof {
        reveal_strlit("validate ");
    }
    if starts_with(lower, "validate ") {
        let rest = slice_chars(lower, 9, lower.len());
        proof {
            assert(rest@ =~= lower@.skip(9));
        }
        return match exec_against(&rest) {
            Some((c, x)) => Some(Intent::Validate { text: s(&c), context: s(&x) }),
            None => Some(Intent::Validate { text: s(&rest), context: empty() }),
        };
    }
    if starts_with(lower, "check if ") || starts_with(lower, "verify ") {
        let n: u128 = if starts_with(lower, "check if ") {
            9
        } else {
            7
        };
        let claim = exec_get_from(&trim(written), n);
        return Some(Intent::Validate { text: s(&claim), context: empty() });
    }
    None
}

/// "score this" / "how confident" / "confidence level" / "rate this".
pub open spec fn parse_score_spec(lower: Seq<char>, written: Seq<char>) -> Option<IntentSpec> {
    if has_prefix(lower, "score "@) || has_prefix(lower, "score this"@) || contains_seq(
        lower,
        "how confident"@,
    ) || contains_seq(lower, "confidence level"@) || contains_seq(lower, "rate this"@) {
        Some(IntentSpec::Score { text: written })
    } else {
        None
    }
}

fn parse_score(lower: &Vec<char>, written: &Vec<char>) -> (r: Option<Intent>)
    ensures
        opt_view(r) == parse_score_spec(lower@, written@),
{
    if starts_with(lower, "score ") || starts_with(lower, "score this") || contains(
        lower,
        "how confident",
    ) || contains(lower, "confidence level") || contains(lower, "rate this") {
        Some(Intent::Score { text: s(written) })
    } else {
        None
    }
}

/// "fix X" / "auto-fix X against Y".
pub open spec fn parse_fix_spec(lower: Seq<char>, written: Seq<char>) -> Option<IntentSpec> {
    if has_prefix(lower, "fix "@) || has_prefix(lower, "auto-fix "@) || has_prefix(
        lower,
        "autofix "@,
    ) {
        let rest = trim_seq(
            trim_start_matches_seq(
                trim_start_matches_seq(
                    trim_start_matches_seq(trim_seq(written), "fix "@),
                    "auto-fix "@,
                ),
                "autofix "@,
            ),
        );
        match against(rest) {
            Some((t, c)) => Some(IntentSpec::Fix { text: t, context: c }),
            None => Some(IntentSpec::Fix { text: rest, context: seq![] }),
        }
    } else {
        None
    }
}

fn parse_fix(lower: &Vec<char>, written: &Vec<char>) -> (r: Option<Intent>)
    ensures
        opt_view(r) == parse_fix_spec(lower@, written@),
{
    if starts_with(lower, "fix ") || starts_with(lower, "auto-fix ") || starts_with(
        lower,
        "autofix ",
    ) {
        let rest = trim(
            &trim_start_matches(
                &trim_start_matches(&trim_start_matches(&trim(written), "fix "), "auto-fix "),
                "autofix ",
            ),
        );
        return match exec_against(&rest) {
            Some((t, c)) => Some(Intent::Fix { text: s(&t), context: s(&c) }),
            None => Some(Intent::Fix { text: s(&rest), context: empty() }),
        };
    }
    None
}

/// "prove X" / "reason about X" / "reason on X" / "reasoning about X".
pub open spec fn parse_solve_spec(lower: Seq<char>, written: Seq<char>) -> Option<IntentSpec> {
    if has_prefix(lower, "prove "@) || has_prefix(lower, "reason about "@) || has_prefix(
        lower,
        "reason on "@,
    ) || has_prefix(lower, "reasoning about "@) {
        let n: int = if has_prefix(lower, "reasoning "@) {
            16
        } else if has_prefix(lower, "reason on "@) {
            10
        } else {
            utf8_len(first_word(lower)) + 1int
        };
        let q = get_from(trim_seq(written), n);
        if q.len() > 0 {
            Some(IntentSpec::Solve { query: q })
        } else {
            None
        }
    } else {
        None
    }
}

fn parse_solve(lower: &Vec<char>, written: &Vec<char>) -> (r: Option<Intent>)
    ensures
        opt_view(r) == parse_solve_spec(lower@, written@),
{
    if starts_with(lower, "prove ") || starts_with(lower, "reason about ") || starts_with(
        lower,
        "reason on ",
    ) || starts_with(lower, "reasoning about ") {
        let n: u128 = if starts_with(lower, "reasoning ") {
            16
        } else if starts_with(lower, "reason on ") {
            10
        } else {
            let fw = exec_first_word(lower);
            proof {
                assert(fw@.take(fw@.len() as int) =~= fw@);
            }
            bytes_before(&fw, fw.len()) + 1
        };
        let q = exec_get_from(&trim(written), n);
        return some_if(q.len() > 0, Intent::Solve { query: s(&q) });
    }
    None
}

/// Optional arguments after " with " or " using ".
pub open spec fn with_args(text: Seq<char>) -> Option<(Seq<char>, Seq<char>)> {
    match split_around(text, " with "@) {
        Some(p) => Some(p),
        None => split_around(text, " using "@),
    }
}

fn exec_with_args(text: &Vec<char>) -> (r: Option<(Vec<char>, Vec<char>)>)
    ensures
        match with_args(text@) {
            Some((a, b)) => r matches Some((x, y)) && x@ == a && y@ == b,
            None => r is None,
        },
{
    match exec_split_around(text, " with ") {
        Some(p) => Some(p),
        None => exec_split_around(text, " using "),
    }
}

/// "NAME with ARGS" / "NAME using ARGS" / "NAME ...".
pub open spec fn formula_with_args(rest: Seq<char>) -> Option<IntentSpec> {
    if with_args(rest) is Some {
        match split_around(rest, " with "@) {
            Some((n, a)) => Some(IntentSpec::Formula { name: n, args: seq![a] }),
            None => match split_around(rest, " using "@) {
                Some((n, a)) => Some(IntentSpec::Formula { name: n, args: seq![a] }),
                None => if first_word(rest).len() > 0 {
                    Some(IntentSpec::Formula { name: first_word(rest), args: seq![] })
                } else {
                    None
                },
            },
        }
    } else {
        None
    }
}

fn one_arg(a: &Vec<char>) -> (r: Vec<String>)
    ensures
        r@.map_values(|x: String| x@) == seq![a@],
{
    let v = vec![s(a)];
    proof {
        assert(v@.map_values(|x: String| x@) =~= seq![a@]);
    }
    v
}

fn no_args() -> (r: Vec<String>)
    ensures
        r@.map_values(|x: String| x@) == Seq::<Seq<char>>::empty(),
{
    let v: Vec<String> = Vec::new();
    proof {
        assert(v@.map_values(|x: String| x@) =~= Seq::<Seq<char>>::empty());
    }
    v
}

fn exec_formula_with_args(rest: &Vec<char>) -> (r: Option<Intent>)
    ensures
        opt_view(r) == formula_with_args(rest@),
{
    if exec_with_args(rest).is_none() {
        return None;
    }
    let name0 = exec_first_word(rest);
    match exec_split_around(rest, " with ") {
        Some((n, a)) => {
            return Some(Intent::Formula { name: s(&n), args: one_arg(&a) });
        },
        None => {},
    }
    match exec_split_around(rest, " using ") {
        Some((n, a)) => {
            return Some(Intent::Formula { name: s(&n), args: one_arg(&a) });
        },
        None => {},
    }
    if name0.len() > 0 {
        return Some(Intent::Formula { name: s(&name0), args: no_args() });
    }
    None
}

pub open spec fn formula_triggers() -> Seq<&'static str> {
    seq![
        "evaluate formula ",
        "run formula ",
        "use formula ",
        "evaluate the formula ",
        "use the formula ",
    ]
}

/// The result for the first trigger, from the `k`-th on, that `lower` starts with.
pub open spec fn formula_scan(lower: Seq<char>, written: Seq<char>, k: int) -> Option<
    Option<IntentSpec>,
>
    decreases 5 - k,
{
    if k < 0 || k >= 5 {
        None
    } else if has_prefix(lower, formula_triggers()[k]@) {
        Some(
            formula_with_args(
                trim_seq(trim_start_matches_seq(trim_seq(written), formula_triggers()[k]@)),
            ),
        )
    } else {
        formula_scan(lower, written, k + 1)
    }
}

/// "evaluate formula X with ..." / "evaluate the X formula with ...".
pub open spec fn parse_formula_spec(lower: Seq<char>, written: Seq<char>) -> Option<IntentSpec> {
    match formula_scan(lower, written, 0) {
        Some(r) => r,
        None => if has_prefix(lower, "evaluate the "@) || has_prefix(lower, "run the "@) {
            let n: int = if has_prefix(lower, "evaluate the "@) {
                13
            } else {
                8
            };
            let rest = get_from(trim_seq(written), n);
            match split_around(rest, " formula"@) {
                Some((name, after)) if name.len() > 0 => match with_args(after) {
                    Some((a, _)) => Some(IntentSpec::Formula { name, args: seq![a] }),
                    None => Some(IntentSpec::Formula { name, args: seq![] }),
                },
                _ => None,
            }
        } else {
            None
        },
    }
}

fn parse_formula(lower: &Vec<char>, written: &Vec<char>) -> (r: Option<Intent>)
    ensures
        opt_view(r) == parse_formula_spec(lower@, written@),
{
    let triggers: Vec<&'static str> = vec![
        "evaluate formula ",
        "run formula ",
        "use formula ",
        "evaluate the formula ",
        "use the formula ",
    ];
    assert(triggers@ == formula_triggers());
    let mut k: usize = 0;
    while k < triggers.len()
        invariant
            triggers@ == formula_triggers(),
            k <= 5,
            formula_scan(lower@, written@, k as int) == formula_scan(lower@, written@, 0),
        decreases 5 - k,
    {
        if starts_with(lower, triggers[k]) {
            let rest = trim(&trim_start_matches(&trim(written), triggers[k]));
            return exec_formula_with_args(&rest);
        }
        k = k + 1;
    }
    if starts_with(lower, "evaluate the ") || starts_with(lower, "run the ") {
        let n: u128 = if starts_with(lower, "evaluate the ") {
            13
        } else {
            8
        };
        let rest = exec_get_from(&trim(written), n);
        match exec_split_around(&rest, " formula") {
            Some((name, after)) => {
                if name.len() > 0 {
                    return match exec_with_args(&after) {
                        Some((a, _)) => Some(Intent::Formula { name: s(&name), args: one_arg(&a) }),
                        None => Some(Intent::Formula { name: s(&name), args: no_args() }),
                    };
                }
            },
            None => {},
        }
    }
    None
}

/// "search formulas for X" / "find formulas about X" / "look up formula X".
pub open spec fn parse_search_spec(lower: Seq<char>) -> Option<IntentSpec> {
    if has_prefix(lower, "search formulas for "@) || has_prefix(lower, "find formulas for "@)
        || has_prefix(lower, "search formulas about "@) || has_prefix(lower, "find formulas about "@)
        || has_prefix(lower, "look up formula "@) || has_prefix(lower, "look up formulas "@) {
        let k = trim_seq(
            trim_start_matches_seq(
                trim_start_matches_seq(
                    trim_start_matches_seq(
                        trim_start_matches_seq(
                            trim_start_matches_seq(
                                trim_start_matches_seq(lower, "search formulas for "@),
                                "find formulas for "@,
                            ),
                            "search formulas about "@,
                        ),
                        "find formulas about "@,
                    ),
                    "look up formula "@,
                ),
                "look up formulas "@,
            ),
        );
        if k.len() > 0 {
            Some(IntentSpec::SearchFormulas { keyword: k })
        } else {
            None
        }
    } else {
        None
    }
}

fn parse_search(lower: &Vec<char>) -> (r: Option<Intent>)
    ensures
        opt_view(r) == parse_search_spec(lower@),
{
    if starts_with(lower, "search formulas for ") || starts_with(lower, "find formulas for ")
        || starts_with(lower, "search formulas about ") || starts_with(
        lower,
        "find formulas about ",
    ) || starts_with(lower, "look up formula ") || starts_with(lower, "look up formulas ") {
        let a = trim_start_matches(lower, "search formulas for ");
        let b = trim_start_matches(&a, "find formulas for ");
        let c = trim_start_matches(&b, "search formulas about ");
        let d = trim_start_matches(&c, "find formulas about ");
        let e = trim_start_matches(&d, "look up formula ");
        let f = trim_start_matches(&e, "look up formulas ");
        let k = trim(&f);
        return some_if(k.len() > 0, Intent::SearchFormulas { keyword: s(&k) });
    }
    None
}

/// "chain formulas A, B with ARGS".
pub open spec fn parse_chain_spec(lower: Seq<char>, written: Seq<char>) -> Option<IntentSpec> {
    if has_prefix(lower, "chain formulas "@) || has_prefix(lower, "chain formula "@) {
        let rest = trim_seq(
            trim_start_matches_seq(
                trim_start_matches_seq(trim_seq(written), "chain formulas "@),
                "chain formula "@,
            ),
        );
        match split_around(rest, " with "@) {
            Some((f, a)) => Some(IntentSpec::ChainFormulas { formulas: f, args: a }),
            None => match split_around(rest, " using "@) {
                Some((f, a)) => Some(IntentSpec::ChainFormulas { formulas: f, args: a }),
                None => Some(IntentSpec::ChainFormulas { formulas: rest, args: seq![] }),
            },
        }
    } else {
        None
    }
}

fn parse_chain(lower: &Vec<char>, written: &Vec<char>) -> (r: Option<Intent>)
    ensures
        opt_view(r) == parse_chain_spec(lower@, written@),
{
    if starts_with(lower, "chain formulas ") || starts_with(lower, "chain formula ") {
        let rest = trim(
            &trim_start_matches(&trim_start_matches(&trim(written), "chain formulas "), "chain formula "),
        );
        match exec_split_around(&rest, " with ") {
            Some((f, a)) => {
                return Some(Intent::ChainFormulas { formulas: s(&f), args: s(&a) });
            },
            None => {},
        }
        match exec_split_around(&rest, " using ") {
            Some((f, a)) => {
                return Some(Intent::ChainFormulas { formulas: s(&f), args: s(&a) });
            },
            None => {},
        }
        return Some(Intent::ChainFormulas { formulas: s(&rest), args: empty() });
    }
    None
}

pub open spec fn traverse_triggers() -> Seq<&'static str> {
    seq!["traverse ", "explore ", "walk ", "go through "]
}

pub open spec fn traverse_domain(rest: Seq<char>) -> Seq<char> {
    trim_end_matches_seq(
        trim_seq(trim_start_matches_seq(trim_start_matches_seq(rest, "the "@), "domain "@)),
        " domain"@,
    )
}

/// The first trigger, from the `k`-th on, followed by a non-empty domain.
pub open spec fn traverse_scan(lower: Seq<char>, k: int) -> Option<IntentSpec>
    decreases 4 - k,
{
    if k < 0 || k >= 4 {
        None
    } else {
        match strip_prefix_seq(lower, traverse_triggers()[k]@) {
            Some(rest) if traverse_domain(rest).len() > 0 => Some(
                IntentSpec::Traverse { domain: traverse_domain(rest), depth: 5 },
            ),
            _ => traverse_scan(lower, k + 1),
        }
    }
}

fn parse_traverse(lower: &Vec<char>) -> (r: Option<Intent>)
    ensures
        opt_view(r) == traverse_scan(lower@, 0),
{
    let triggers: Vec<&'static str> = vec!["traverse ", "explore ", "walk ", "go through "];
    assert(triggers@ == traverse_triggers());
    let mut k: usize = 0;
    while k < triggers.len()
        invariant
            triggers@ == traverse_triggers(),
            k <= 4,
            traverse_scan(lower@, k as int) == traverse_scan(lower@, 0),
        decreases 4 - k,
    {
        match strip_prefix(lower, triggers[k]) {
            Some(rest) => {
                let d = trim_end_matches(
                    &trim(&trim_start_matches(&trim_start_matches(&rest, "the "), "domain ")),
                    " domain",
                );
                if d.len() > 0 {
                    return Some(Intent::Traverse { domain: s(&d), depth: 5 });
                }
            },
            None => {},
        }
        k = k + 1;
    }
    None
}

/// "classify X" / "what axis is X".
pub open spec fn parse_classify_spec(lower: Seq<char>) -> Option<IntentSpec> {
    if has_prefix(lower, "classify "@) && trim_seq(lower.skip(9)).len() > 0 {
        Some(IntentSpec::Classify { token: trim_seq(lower.skip(9)) })
    } else if has_prefix(lower, "what axis is "@) && trim_seq(lower.skip(13)).len() > 0 {
        Some(IntentSpec::Classify { token: trim_seq(lower.skip(13)) })
    } else {
        None
    }
}

fn parse_classify(lower: &Vec<char>) -> (r: Option<Intent>)
    ensures
        opt_view(r) == parse_classify_spec(lower@),
{
    proof {
        reveal_strlit("classify ");
        reveal_strlit("what axis is ");
    }
    if starts_with(lower, "classify ") {
        let t = trim(&slice_chars(lower, 9, lower.len()));
        proof {
            assert(lower@.subrange(9, lower@.len() as int) =~= lower@.skip(9));
        }
        if t.len() > 0 {
            return Some(Intent::Classify { token: s(&t) });
        }
    }
    if starts_with(lower, "what axis is ") {
        let t = trim(&slice_chars(lower, 13, lower.len()));
        proof {
            assert(lower@.subrange(13, lower@.len() as int) =~= lower@.skip(13));
        }
        if t.len() > 0 {
            return Some(Intent::Classify { token: s(&t) });
        }
    }
    None
}

pub open spec fn wheel_domains() -> Seq<&'static str> {
    seq![
        "aries", "taurus", "gemini", "cancer", "leo", "virgo", "libra", "scorpio", "sagittarius",
        "capricorn", "aquarius", "pisces", "mangala", "vrishabha", "mithuna", "karka", "simha",
        "kanya", "tula", "vrishchika", "dhanu", "makara", "kumbha", "meena",
    ]
}

/// The first sign, from the `k`-th on, named in `lower`.
pub open spec fn wheel_scan(lower: Seq<char>, k: int) -> Option<Seq<char>>
    decreases 24 - k,
{
    if k < 0 || k >= 24 {
        None
    } else if contains_seq(lower, wheel_domains()[k]@) {
        Some(wheel_domains()[k]@)
    } else {
        wheel_scan(lower, k + 1)
    }
}

/// "show the wheel" / "show the aries wheel" / anything mentioning the wheel.
pub open spec fn parse_wheel_spec(lower: Seq<char>) -> Option<IntentSpec> {
    if contains_seq(lower, "show the wheel"@) || contains_seq(lower, "show wheel"@) || contains_seq(
        lower,
        "zodiac wheel"@,
    ) || contains_seq(lower, "what's on the wheel"@) || contains_seq(lower, "wheel"@) {
        Some(IntentSpec::Wheel { domain: wheel_scan(lower, 0) })
    } else {
        None
    }
}

fn parse_wheel(lower: &Vec<char>) -> (r: Option<Intent>)
    ensures
        opt_view(r) == parse_wheel_spec(lower@),
{
    if contains(lower, "show the wheel") || contains(lower, "show wheel") || contains(
        lower,
        "zodiac wheel",
    ) || contains(lower, "what's on the wheel") || contains(lower, "wheel") {
        let domains: Vec<&'static str> = vec![
            "aries", "taurus", "gemini", "cancer", "leo", "virgo", "libra", "scorpio",
            "sagittarius", "capricorn", "aquarius", "pisces", "mangala", "vrishabha", "mithuna",
            "karka", "simha", "kanya", "tula", "vrishchika", "dhanu", "makara", "kumbha", "meena",
        ];
        assert(domains@ == wheel_domains());
        assert(domains@.len() == 24);
        let mut k: usize = 0;
        while k < domains.len()
            invariant
                domains@ == wheel_domains(),
                k <= 24,
                wheel_scan(lower@, k as int) == wheel_scan(lower@, 0),
                parse_wheel_spec(lower@) == Some(IntentSpec::Wheel { domain: wheel_scan(lower@, 0) }),
            decreases 24 - k,
        {
            if contains(lower, domains[k]) {
                return Some(Intent::Wheel { domain: Some(lit(domains[k])) });
            }
            k = k + 1;
        }
        return Some(Intent::Wheel { domain: None });
    }
    None
}

/// "reason from X to Y" / "derive X into Y".
pub open spec fn parse_reason_spec(lower: Seq<char>, written: Seq<char>) -> Option<IntentSpec> {
    if has_prefix(lower, "reason from "@) || has_prefix(lower, "derive "@) {
        let n: int = if has_prefix(lower, "reason from "@) {
            12
        } else {
            7
        };
        let rest = get_from(trim_seq(written), n);
        match split_around(rest, " to "@) {
            Some((h, w)) if h.len() > 0 && w.len() > 0 => Some(
                IntentSpec::Reason { have: h, want: w, max_depth: 5 },
            ),
            _ => match split_around(rest, " into "@) {
                Some((h, w)) if h.len() > 0 && w.len() > 0 => Some(
                    IntentSpec::Reason { have: h, want: w, max_depth: 5 },
                ),
                _ => None,
            },
        }
    } else {
        None
    }
}

fn parse_reason(lower: &Vec<char>, written: &Vec<char>) -> (r: Option<Intent>)
    ensures
        opt_view(r) == parse_reason_spec(lower@, written@),
{
    if starts_with(lower, "reason from ") || starts_with(lower, "derive ") {
        let n: u128 = if starts_with(lower, "reason from ") {
            12
        } else {
            7
        };
        let rest = exec_get_from(&trim(written), n);
        match exec_split_around(&rest, " to ") {
            Some((h, w)) => {
                if h.len() > 0 && w.len() > 0 {
                    return Some(Intent::Reason { have: s(&h), want: s(&w), max_depth: 5 });
                }
            },
            None => {},
        }
        match exec_split_around(&rest, " into ") {
            Some((h, w)) => {
                if h.len() > 0 && w.len() > 0 {
                    return Some(Intent::Reason { have: s(&h), want: s(&w), max_depth: 5 });
                }
            },
            None => {},
        }
    }
    None
}

/// "shikai X" / "process through shikai X".
pub open spec fn parse_shikai_spec(lower: Seq<char>, written: Seq<char>) -> Option<IntentSpec> {
    let q = trim_seq(
        trim_start_matches_seq(
            trim_start_matches_seq(trim_seq(written), "shikai "@),
            "process through shikai "@,
        ),
    );
    if (has_prefix(lower, "shikai "@) || has_prefix(lower, "process through shikai "@)) && q.len()
        > 0 {
        Some(IntentSpec::Shikai { query: q })
    } else {
        None
    }
}

fn parse_shikai(lower: &Vec<char>, written: &Vec<char>) -> (r: Option<Intent>)
    ensures
        opt_view(r) == parse_shikai_spec(lower@, written@),
{
    if starts_with(lower, "shikai ") || starts_with(lower, "process through shikai ") {
        let q = trim(
            &trim_start_matches(&trim_start_matches(&trim(written), "shikai "), "process through shikai "),
        );
        return some_if(q.len() > 0, Intent::Shikai { query: s(&q) });
    }
    None
}

/// "bankai X" / "full bankai solve for X".
pub open spec fn parse_bankai_spec(lower: Seq<char>, written: Seq<char>) -> Option<IntentSpec> {
    let q = trim_seq(
        trim_start_matches_seq(
            trim_start_matches_seq(
                trim_start_matches_seq(trim_seq(written), "bankai "@),
                "full bankai solve "@,
            ),
            "for "@,
        ),
    );
    if (has_prefix(lower, "bankai "@) || has_prefix(lower, "full bankai solve "@)) && q.len() > 0 {
        Some(IntentSpec::BankaiSolve { query: q })
    } else {
        None
    }
}

fn parse_bankai(lower: &Vec<char>, written: &Vec<char>) -> (r: Option<Intent>)
    ensures
        opt_view(r) == parse_bankai_spec(lower@, written@),
{
    if starts_with(lower, "bankai ") || starts_with(lower, "full bankai solve ") {
        let q = trim(
            &trim_start_matches(
                &trim_start_matches(&trim_start_matches(&trim(written), "bankai "), "full bankai solve "),
                "for ",
            ),
        );
        return some_if(q.len() > 0, Intent::BankaiSolve { query: s(&q) });
    }
    None
}


// ───────────────────────── system action parsers ─────────────────────────

/// Seconds per unit word following a timer number (minutes when unnamed).
pub open spec fn unit_factor(next: Seq<char>) -> int {
    if next == "second"@ || next == "seconds"@ || next == "sec"@ || next == "secs"@ {
        1
    } else if next == "minute"@ || next == "minutes"@ || next == "min"@ || next == "mins"@ {
        60
    } else if next == "hour"@ || next == "hours"@ || next == "hr"@ || next == "hrs"@ {
        3600
    } else {
        60
    }
}

fn exec_unit_factor(next: &Vec<char>) -> (r: u64)
    ensures
        r == unit_factor(next@),
{
    if eq_str(next, "second") || eq_str(next, "seconds") || eq_str(next, "sec") || eq_str(
        next,
        "secs",
    ) {
        1
    } else if eq_str(next, "minute") || eq_str(next, "minutes") || eq_str(next, "min") || eq_str(
        next,
        "mins",
    ) {
        60
    } else if eq_str(next, "hour") || eq_str(next, "hours") || eq_str(next, "hr") || eq_str(
        next,
        "hrs",
    ) {
        3600
    } else {
        60
    }
}

/// The word after position `i`, or empty.
pub open spec fn next_word(ws: Seq<Seq<char>>, i: int) -> Seq<char> {
    if i + 1 < ws.len() {
        ws[i + 1]
    } else {
        seq![]
    }
}

/// The duration set by the first `i` words: the last number seen, times its unit.
pub open spec fn timer_duration(ws: Seq<Seq<char>>, i: int) -> int
    decreases i,
{
    if i <= 0 {
        0
    } else {
        match parse_u64_spec(ws[i - 1]) {
            Some(n) => n * unit_factor(next_word(ws, i - 1)),
            None => timer_duration(ws, i - 1),
        }
    }
}

/// Some number among the words, times its unit, does not fit in a `u64`.
pub open spec fn timer_overflow(ws: Seq<Seq<char>>) -> bool {
    exists|i: int|
        0 <= i < ws.len() && #[trigger] parse_u64_spec(ws[i]) is Some && parse_u64_spec(
            ws[i],
        ).unwrap() * unit_factor(next_word(ws, i)) > u64::MAX
}

pub open spec fn is_skip(w: Seq<char>) -> bool {
    w == "cancel"@ || w == "timer"@
}

/// The words after a "cancel" or "timer", skipping those words and numbers.
pub open spec fn label_words(ws: Seq<Seq<char>>) -> Seq<Seq<char>>
    decreases ws.len(),
{
    if ws.len() == 0 {
        seq![]
    } else {
        let rest = label_words(ws.drop_last());
        let w = ws.last();
        if !is_skip(w) && (exists|j: int| 0 <= j < ws.len() - 1 && is_skip(#[trigger] ws[j]))
            && !all_digits(w) {
            rest.push(w)
        } else {
            rest
        }
    }
}

pub open spec fn extract_label_spec(lower: Seq<char>) -> Option<Seq<char>> {
    let lw = label_words(words_seq(lower));
    if lw.len() == 0 {
        None
    } else {
        Some(join_seq(lw, " "@))
    }
}

/// The label after " for ": its words joined by single spaces.
pub open spec fn timer_label(lower: Seq<char>) -> Option<Seq<char>> {
    match find_seq(lower, " for "@) {
        Some(p) => {
            let t = join_seq(words_seq(lower.skip(p + 5)), " "@);
            if t.len() > 0 {
                Some(t)
            } else {
                None
            }
        },
        None => None,
    }
}

/// The timer branch applies and some number times its unit overflows.
pub open spec fn timer_panics(lower: Seq<char>) -> bool {
    &&& contains_seq(lower, "timer"@) || contains_seq(lower, "set a"@)
    &&& !contains_seq(lower, "cancel"@)
    &&& timer_overflow(words_seq(lower))
}

/// "set a 5 minute timer for tea" / "cancel the tea timer".
pub open spec fn parse_timer_spec(lower: Seq<char>) -> Option<IntentSpec> {
    if !contains_seq(lower, "timer"@) && !contains_seq(lower, "set a"@) {
        None
    } else if contains_seq(lower, "cancel"@) {
        Some(IntentSpec::CancelTimer { label: extract_label_spec(lower) })
    } else {
        let ws = words_seq(lower);
        let d = timer_duration(ws, ws.len() as int);
        if d > 0 {
            Some(IntentSpec::SetTimer { duration_secs: d as u64, label: timer_label(lower) })
        } else {
            None
        }
    }
}

fn exec_extract_label(lower: &Vec<char>) -> (r: Option<String>)
    ensures
        opt_str(r) == extract_label_spec(lower@),
{
    let ws = words(lower);
    let ghost wv = words_seq(lower@);
    proof {
        assert(crate::gate::views(ws@) =~= wv);
    }
    let mut label: Vec<Vec<char>> = Vec::new();
    let mut collecting = false;
    let mut i: usize = 0;
    while i < ws.len()
        invariant
            i <= ws.len(),
            wv == crate::gate::views(ws@),
            collecting == exists|j: int| 0 <= j < i && is_skip(#[trigger] wv[j]),
            crate::gate::views(label@) == label_words(wv.take(i as int)),
        decreases ws.len() - i,
    {
        let w = &ws[i];
        proof {
            let t = wv.take(i + 1);
            assert(t.drop_last() =~= wv.take(i as int));
            assert(t.last() == wv[i as int]);
            assert((exists|j: int| 0 <= j < t.len() - 1 && is_skip(#[trigger] t[j])) == collecting) by {
                if collecting {
                    let j = choose|j: int| 0 <= j < i && is_skip(#[trigger] wv[j]);
                    assert(t[j] == wv[j]);
                }
                if exists|j: int| 0 <= j < t.len() - 1 && is_skip(#[trigger] t[j]) {
                    let j = choose|j: int| 0 <= j < t.len() - 1 && is_skip(#[trigger] t[j]);
                    assert(t[j] == wv[j]);
                }
            }
        }
        if eq_str(w, "cancel") || eq_str(w, "timer") {
            collecting = true;
        } else if collecting && !exec_all_digits(w, 0, w.len()) {
            proof {
                assert(w@.subrange(0, w@.len() as int) =~= w@);
            }
            let c = slice_chars(w, 0, w.len());
            proof {
                assert(c@ =~= w@);
                assert(crate::gate::views(label@.push(c)) =~= crate::gate::views(label@).push(c@));
            }
            label.push(c);
        } else {
            proof {
                if !eq_skip(w@) && collecting {
                    assert(w@.subrange(0, w@.len() as int) =~= w@);
                }
            }
        }
        i = i + 1;
    }
    proof {
        assert(wv.take(i as int) =~= wv);
    }
    if label.len() == 0 {
        None
    } else {
        let j = join(&label, " ");
        proof {
            assert(crate::gate::views(label@) == label@.map_values(|w: Vec<char>| w@));
        }
        Some(s(&j))
    }
}

spec fn eq_skip(w: Seq<char>) -> bool {
    is_skip(w)
}

fn exec_timer_label(lower: &Vec<char>) -> (r: Option<String>)
    ensures
        opt_str(r) == timer_label(lower@),
{
    match find(lower, " for ") {
        Some(p) => {
            proof {
                lemma_find_from(lower@, " for "@, 0);
                reveal_strlit(" for ");
                assert(" for "@.len() == 5);
                assert(p + 5 <= lower@.len());
                assert(p + 5 <= lower.len());
            }
            let start: usize = p + 5;
            let after = slice_chars(lower, start, lower.len());
            proof {
                assert(after@ =~= lower@.skip(p + 5));
            }
            let ws = words(&after);
            proof {
                assert(crate::gate::views(ws@) =~= words_seq(after@));
                assert(crate::gate::views(ws@) == ws@.map_values(|w: Vec<char>| w@));
            }
            let t = join(&ws, " ");
            some_if(t.len() > 0, s(&t))
        },
        None => None,
    }
}

/// Whether some number among the words, times its unit, overflows a `u64`.
fn exec_timer_overflow(ws: &Vec<Vec<char>>) -> (r: bool)
    ensures
        r == timer_overflow(crate::gate::views(ws@)),
{
    let ghost wv = crate::gate::views(ws@);
    let mut i: usize = 0;
    while i < ws.len()
        invariant
            i <= ws.len(),
            wv == crate::gate::views(ws@),
            forall|j: int|
                0 <= j < i ==> !(#[trigger] parse_u64_spec(wv[j]) is Some && parse_u64_spec(
                    wv[j],
                ).unwrap() * unit_factor(next_word(wv, j)) > u64::MAX),
        decreases ws.len() - i,
    {
        proof {
            assert(wv[i as int] == ws@[i as int]@);
        }
        if let Some(n) = parse_u64(&ws[i]) {
            let next = if ws.len() - i > 1 {
                slice_chars(&ws[i + 1], 0, ws[i + 1].len())
            } else {
                Vec::new()
            };
            proof {
                assert(next@ =~= next_word(wv, i as int));
            }
            let f = exec_unit_factor(&next);
            if n.checked_mul(f).is_none() {
                proof {
                    assert(parse_u64_spec(wv[i as int]) is Some && parse_u64_spec(wv[i as int]).unwrap()
                        * unit_factor(next_word(wv, i as int)) > u64::MAX);
                }
                return true;
            }
        }
        i = i + 1;
    }
    false
}

fn parse_timer(lower: &Vec<char>) -> (r: Option<Intent>)
    requires
        !timer_panics(lower@),
    ensures
        opt_view(r) == parse_timer_spec(lower@),
{
    if !contains(lower, "timer") && !contains(lower, "set a") {
        return None;
    }
    if contains(lower, "cancel") {
        return Some(Intent::CancelTimer { label: exec_extract_label(lower) });
    }
    let ws = words(lower);
    let ghost wv = words_seq(lower@);
    proof {
        assert(crate::gate::views(ws@) =~= wv);
    }
    let mut duration: u64 = 0;
    let mut i: usize = 0;
    while i < ws.len()
        invariant
            i <= ws.len(),
            wv == crate::gate::views(ws@),
            !timer_overflow(wv),
            duration == timer_duration(wv, i as int),
        decreases ws.len() - i,
    {
        if let Some(n) = parse_u64(&ws[i]) {
            let next = if ws.len() - i > 1 {
                slice_chars(&ws[i + 1], 0, ws[i + 1].len())
            } else {
                Vec::new()
            };
            proof {
                assert(next@ =~= next_word(wv, i as int));
                assert(!(parse_u64_spec(wv[i as int]) is Some && parse_u64_spec(wv[i as int]).unwrap()
                    * unit_factor(next_word(wv, i as int)) > u64::MAX));
            }
            let f = exec_unit_factor(&next);
            duration = n * f;
        }
        i = i + 1;
    }
    let label = exec_timer_label(lower);
    if duration > 0 {
        Some(Intent::SetTimer { duration_secs: duration, label })
    } else {
        None
    }
}

/// The first time-like word: one containing "am", "pm" or ':', or a word
/// starting with a digit after "at" or "for".
pub open spec fn time_scan(ws: Seq<Seq<char>>, i: int) -> Option<Seq<char>>
    decreases ws.len() - i,
{
    if i < 0 || i >= ws.len() {
        None
    } else if contains_seq(ws[i], "am"@) || contains_seq(ws[i], "pm"@) || ws[i].contains(':') {
        Some(ws[i])
    } else if (ws[i] == "at"@ || ws[i] == "for"@) && i + 1 < ws.len() && ws[i + 1].len() > 0
        && is_digit(ws[i + 1][0]) {
        Some(ws[i + 1])
    } else {
        time_scan(ws, i + 1)
    }
}

fn exec_time(lower: &Vec<char>) -> (r: Option<Vec<char>>)
    ensures
        match time_scan(words_seq(lower@), 0) {
            Some(t) => r matches Some(v) && v@ == t,
            None => r is None,
        },
{
    let ws = words(lower);
    let ghost wv = words_seq(lower@);
    proof {
        assert(crate::gate::views(ws@) =~= wv);
    }
    let mut i: usize = 0;
    while i < ws.len()
        invariant
            i <= ws.len(),
            wv == crate::gate::views(ws@),
            wv == words_seq(lower@),
            time_scan(wv, i as int) == time_scan(wv, 0),
        decreases ws.len() - i,
    {
        let w = &ws[i];
        proof {
            assert(wv[i as int] == ws@[i as int]@);
            if i + 1 < ws.len() {
                assert(wv[i + 1] == ws@[i + 1]@);
            }
        }
        if contains(w, "am") || contains(w, "pm") || crate::scan::has_char(w, ':') {
            let v = slice_chars(w, 0, w.len());
            proof {
                assert(v@ =~= w@);
            }
            return Some(v);
        }
        if (eq_str(w, "at") || eq_str(w, "for")) && ws.len() - i > 1 {
            let n = &ws[i + 1];
            if n.len() > 0 && '0' <= n[0] && n[0] <= '9' {
                let v = slice_chars(n, 0, n.len());
                proof {
                    assert(v@ =~= n@);
                }
                return Some(v);
            }
        }
        i = i + 1;
    }
    None
}

/// "set an alarm for 7am".
pub open spec fn parse_alarm_spec(lower: Seq<char>) -> Option<IntentSpec> {
    if !contains_seq(lower, "alarm"@) {
        None
    } else {
        Some(
            IntentSpec::SetAlarm {
                time: match time_scan(words_seq(lower), 0) {
                    Some(t) => t,
                    None => "unknown"@,
                },
            },
        )
    }
}

fn parse_alarm(lower: &Vec<char>) -> (r: Option<Intent>)
    ensures
        opt_view(r) == parse_alarm_spec(lower@),
{
    if !contains(lower, "alarm") {
        return None;
    }
    let time = match exec_time(lower) {
        Some(t) => s(&t),
        None => lit("unknown"),
    };
    Some(Intent::SetAlarm { time })
}

/// "remind me to call mom at 3pm".
pub open spec fn parse_reminder_spec(lower: Seq<char>) -> Option<IntentSpec> {
    if !contains_seq(lower, "remind"@) && !contains_seq(lower, "reminder"@) {
        None
    } else {
        let when = match time_scan(words_seq(lower), 0) {
            Some(t) => t,
            None => "later"@,
        };
        let text = trim_seq(
            trim_start_matches_seq(
                trim_start_matches_seq(
                    trim_start_matches_seq(
                        trim_start_matches_seq(lower, "remind me to"@),
                        "remind me"@,
                    ),
                    "reminder to"@,
                ),
                "reminder:"@,
            ),
        );
        Some(
            IntentSpec::SetReminder {
                text: if text.len() == 0 {
                    "something"@
                } else {
                    text
                },
                when,
            },
        )
    }
}

fn parse_reminder(lower: &Vec<char>) -> (r: Option<Intent>)
    ensures
        opt_view(r) == parse_reminder_spec(lower@),
{
    if !contains(lower, "remind") && !contains(lower, "reminder") {
        return None;
    }
    let when = match exec_time(lower) {
        Some(t) => s(&t),
        None => lit("later"),
    };
    let a = trim_start_matches(lower, "remind me to");
    let b = trim_start_matches(&a, "remind me");
    let c = trim_start_matches(&b, "reminder to");
    let d = trim_start_matches(&c, "reminder:");
    let text = trim(&d);
    if text.len() == 0 {
        return Some(Intent::SetReminder { text: lit("something"), when });
    }
    Some(Intent::SetReminder { text: s(&text), when })
}

/// `s.splitn(2, ' ')`: the text before the first space and what follows it.
pub open spec fn split_space(t: Seq<char>) -> (Seq<char>, Seq<char>) {
    match find_seq(t, seq![' ']) {
        Some(i) => (t.take(i), t.skip(i + 1)),
        None => (t, seq![]),
    }
}

/// "text John hello" / "send a message to John hello".
pub open spec fn parse_sms_spec(lower: Seq<char>, written: Seq<char>) -> Option<IntentSpec> {
    if !has_prefix(lower, "text "@) && !has_prefix(lower, "send "@) && !has_prefix(
        lower,
        "message "@,
    ) {
        None
    } else {
        let after = if has_prefix(lower, "send a message to "@) {
            Some(trim_start_matches_seq(written, "send a message to "@))
        } else if has_prefix(lower, "send message to "@) {
            Some(trim_start_matches_seq(written, "send message to "@))
        } else if has_prefix(lower, "text "@) {
            Some(trim_start_matches_seq(written, "text "@))
        } else if has_prefix(lower, "message "@) {
            Some(trim_start_matches_seq(written, "message "@))
        } else {
            None
        };
        match after {
            Some(a) => {
                let contact = trim_seq(split_space(a).0);
                if contact.len() == 0 {
                    None
                } else {
                    Some(IntentSpec::SendMessage { contact, message: trim_seq(split_space(a).1) })
                }
            },
            None => None,
        }
    }
}

fn parse_sms(lower: &Vec<char>, written: &Vec<char>) -> (r: Option<Intent>)
    ensures
        opt_view(r) == parse_sms_spec(lower@, written@),
{
    if !starts_with(lower, "text ") && !starts_with(lower, "send ") && !starts_with(
        lower,
        "message ",
    ) {
        return None;
    }
    let after = if starts_with(lower, "send a message to ") {
        trim_start_matches(written, "send a message to ")
    } else if starts_with(lower, "send message to ") {
        trim_start_matches(written, "send message to ")
    } else if starts_with(lower, "text ") {
        trim_start_matches(written, "text ")
    } else if starts_with(lower, "message ") {
        trim_start_matches(written, "message ")
    } else {
        return None;
    };
    let sp: Vec<char> = vec![' '];
    proof {
        assert(sp@ =~= seq![' ']);
    }
    let (first, rest) = match crate::scan::find_chars(&after, &sp) {
        Some(i) => {
            proof {
                lemma_find_from(after@, seq![' '], 0);
            }
            let a = slice_chars(&after, 0, i);
            let b = slice_chars(&after, i + 1, after.len());
            proof {
                assert(a@ =~= after@.take(i as int));
                assert(b@ =~= after@.skip(i + 1));
            }
            (a, b)
        },
        None => (slice_chars(&after, 0, after.len()), Vec::new()),
    };
    proof {
        assert(first@ =~= split_space(after@).0);
        assert(rest@ =~= split_space(after@).1);
    }
    let contact = trim(&first);
    if contact.len() == 0 {
        return None;
    }
    let message = trim(&rest);
    Some(Intent::SendMessage { contact: s(&contact), message: s(&message) })
}

/// "call Sarah".
pub open spec fn parse_call_spec(lower: Seq<char>, written: Seq<char>) -> Option<IntentSpec> {
    let contact = trim_seq(
        trim_start_matches_seq(
            trim_start_matches_seq(
                trim_start_matches_seq(
                    trim_start_matches_seq(trim_seq(written), "call "@),
                    "Call "@,
                ),
                "phone "@,
            ),
            "Phone "@,
        ),
    );
    if has_prefix(lower, "call "@) && contact.len() > 0 {
        Some(IntentSpec::Call { contact })
    } else {
        None
    }
}

fn parse_call(lower: &Vec<char>, written: &Vec<char>) -> (r: Option<Intent>)
    ensures
        opt_view(r) == parse_call_spec(lower@, written@),
{
    if !starts_with(lower, "call ") {
        return None;
    }
    let a = trim_start_matches(&trim(written), "call ");
    let b = trim_start_matches(&a, "Call ");
    let c = trim_start_matches(&b, "phone ");
    let d = trim_start_matches(&c, "Phone ");
    let contact = trim(&d);
    some_if(contact.len() > 0, Intent::Call { contact: s(&contact) })
}

/// `s` without its leading alphabetic characters and spaces.
pub open spec fn trim_alpha_space(s: Seq<char>) -> Seq<char>
    decreases s.len(),
{
    if s.len() > 0 && (alphabetic(s[0]) || s[0] == ' ') {
        trim_alpha_space(s.drop_first())
    } else {
        s
    }
}

fn exec_trim_alpha_space(s: &Vec<char>) -> (r: Vec<char>)
    ensures
        r@ == trim_alpha_space(s@),
{
    let mut i: usize = 0;
    proof {
        assert(s@.skip(0) =~= s@);
    }
    while i < s.len() && (is_alphabetic(s[i]) || s[i] == ' ')
        invariant
            i <= s.len(),
            trim_alpha_space(s@.skip(i as int)) == trim_alpha_space(s@),
        decreases s.len() - i,
    {
        proof {
            assert(s@.skip(i as int).drop_first() =~= s@.skip(i + 1));
        }
        i = i + 1;
    }
    slice_chars(s, i, s.len())
}

/// The text to copy: the text as written after its leading words, "copy", and "to clipboard".
pub open spec fn clipboard_text(written: Seq<char>) -> Seq<char> {
    trim_seq(
        trim_start_matches_seq(
            trim_start_matches_seq(
                trim_start_matches_seq(trim_alpha_space(written), "copy"@),
                "this to clipboard"@,
            ),
            "to clipboard"@,
        ),
    )
}

pub open spec fn is_goodbye(lower: Seq<char>) -> bool {
    lower == "goodbye"@ || lower == "bye"@ || lower == "see you"@ || lower == "see ya"@ || lower
        == "talk later"@ || lower == "exit"@ || lower == "quit"@
}

pub open spec fn is_help(lower: Seq<char>) -> bool {
    lower == "help"@ || lower == "what can you do"@ || lower == "what can you help with"@
}

pub open spec fn is_photo(lower: Seq<char>) -> bool {
    contains_seq(lower, "take a photo"@) || contains_seq(lower, "take a picture"@) || contains_seq(
        lower,
        "snap a photo"@,
    ) || contains_seq(lower, "snap a picture"@) || contains_seq(lower, "take photo"@)
}

pub open spec fn is_battery(lower: Seq<char>) -> bool {
    contains_seq(lower, "battery"@) || contains_seq(lower, "charge"@) || contains_seq(
        lower,
        "power level"@,
    )
}

pub open spec fn is_location(lower: Seq<char>) -> bool {
    contains_seq(lower, "where am i"@) || contains_seq(lower, "my location"@) || contains_seq(
        lower,
        "what's my location"@,
    ) || contains_seq(lower, "get location"@)
}

pub open spec fn is_question(lower: Seq<char>) -> bool {
    has_prefix(lower, "what "@) || has_prefix(lower, "who "@) || has_prefix(lower, "when "@)
        || has_prefix(lower, "where "@) || has_prefix(lower, "why "@) || has_prefix(lower, "how "@)
        || has_prefix(lower, "is "@) || has_prefix(lower, "are "@) || has_prefix(lower, "can "@)
        || has_prefix(lower, "do "@) || has_prefix(lower, "does "@)
}

/// The ecosystem intent of the input, in priority order, if any.
pub open spec fn ecosystem_spec(l: Seq<char>, o: Seq<char>) -> Option<IntentSpec> {
    if parse_convert_spec(l, o) is Some {
        parse_convert_spec(l, o)
    } else if parse_eval_spec(l, o) is Some {
        parse_eval_spec(l, o)
    } else if parse_validate_spec(l, o) is Some {
        parse_validate_spec(l, o)
    } else if parse_score_spec(l, o) is Some {
        parse_score_spec(l, o)
    } else if parse_fix_spec(l, o) is Some {
        parse_fix_spec(l, o)
    } else if parse_solve_spec(l, o) is Some {
        parse_solve_spec(l, o)
    } else if parse_formula_spec(l, o) is Some {
        parse_formula_spec(l, o)
    } else if parse_search_spec(l) is Some {
        parse_search_spec(l)
    } else if parse_chain_spec(l, o) is Some {
        parse_chain_spec(l, o)
    } else if traverse_scan(l, 0) is Some {
        traverse_scan(l, 0)
    } else if parse_classify_spec(l) is Some {
        parse_classify_spec(l)
    } else if parse_wheel_spec(l) is Some {
        parse_wheel_spec(l)
    } else if parse_reason_spec(l, o) is Some {
        parse_reason_spec(l, o)
    } else if parse_shikai_spec(l, o) is Some {
        parse_shikai_spec(l, o)
    } else {
        parse_bankai_spec(l, o)
    }
}

/// The lowercased, trimmed input the classifier matches against.
pub open spec fn lowered(text: Seq<char>) -> Seq<char> {
    trim_seq(lowercase(text))
}

/// Classification reaches the timer parser and a timer number times its unit overflows.
pub open spec fn classify_panics(text: Seq<char>) -> bool {
    let l = lowered(text);
    !is_goodbye(l) && !is_help(l) && ecosystem_spec(l, text) is None && timer_panics(l)
}

/// The intent of `text`.
pub open spec fn classify_spec(text: Seq<char>) -> IntentSpec {
    let l = lowered(text);
    let o = text;
    if is_goodbye(l) {
        IntentSpec::Goodbye
    } else if is_help(l) {
        IntentSpec::Help
    } else if ecosystem_spec(l, o) is Some {
        ecosystem_spec(l, o).unwrap()
    } else if parse_timer_spec(l) is Some {
        parse_timer_spec(l).unwrap()
    } else if parse_alarm_spec(l) is Some {
        parse_alarm_spec(l).unwrap()
    } else if parse_reminder_spec(l) is Some {
        parse_reminder_spec(l).unwrap()
    } else if parse_sms_spec(l, o) is Some {
        parse_sms_spec(l, o).unwrap()
    } else if parse_call_spec(l, o) is Some {
        parse_call_spec(l, o).unwrap()
    } else if is_photo(l) {
        IntentSpec::TakePhoto
    } else if is_battery(l) {
        IntentSpec::BatteryStatus
    } else if is_location(l) {
        IntentSpec::GetLocation
    } else if has_prefix(l, "copy"@) && contains_seq(l, "clipboard"@) {
        IntentSpec::SetClipboard { text: clipboard_text(o) }
    } else if l == "read clipboard"@ || l == "what's on my clipboard"@ || l == "paste"@ {
        IntentSpec::GetClipboard
    } else if is_question(l) {
        IntentSpec::Query { text: o }
    } else if l.len() > 0 {
        IntentSpec::Conversational { text: o }
    } else {
        IntentSpec::Unknown
    }
}

fn ecosystem(l: &Vec<char>, o: &Vec<char>) -> (r: Option<Intent>)
    ensures
        opt_view(r) == ecosystem_spec(l@, o@),
{
    let r = parse_convert(l, o);
    if r.is_some() {
        return r;
    }
    let r = parse_eval(l, o);
    if r.is_some() {
        return r;
    }
    let r = parse_validate(l, o);
    if r.is_some() {
        return r;
    }
    let r = parse_score(l, o);
    if r.is_some() {
        return r;
    }
    let r = parse_fix(l, o);
    if r.is_some() {
        return r;
    }
    let r = parse_solve(l, o);
    if r.is_some() {
        return r;
    }
    let r = parse_formula(l, o);
    if r.is_some() {
        return r;
    }
    let r = parse_search(l);
    if r.is_some() {
        return r;
    }
    let r = parse_chain(l, o);
    if r.is_some() {
        return r;
    }
    let r = parse_traverse(l);
    if r.is_some() {
        return r;
    }
    let r = parse_classify(l);
    if r.is_some() {
        return r;
    }
    let r = parse_wheel(l);
    if r.is_some() {
        return r;
    }
    let r = parse_reason(l, o);
    if r.is_some() {
        return r;
    }
    let r = parse_shikai(l, o);
    if r.is_some() {
        return r;
    }
    parse_bankai(l, o)
}

/// Classify raw user text into an intent.
pub fn classify(text: &str) -> (r: Intent)
    requires
        !classify_panics(text@),
    ensures
        r@ == classify_spec(text@),
        is_ascii_text(text@) ==> lowercase(text@) == ascii_lower_seq(text@),
{
    let o = chars_of(text);
    let l = trim(&to_lowercase(&o));
    if eq_str(&l, "goodbye") || eq_str(&l, "bye") || eq_str(&l, "see you") || eq_str(&l, "see ya")
        || eq_str(&l, "talk later") || eq_str(&l, "exit") || eq_str(&l, "quit") {
        return Intent::Goodbye;
    }
    if eq_str(&l, "help") || eq_str(&l, "what can you do") || eq_str(&l, "what can you help with") {
        return Intent::Help;
    }
    let r = ecosystem(&l, &o);
    if r.is_some() {
        return r.unwrap();
    }
    let r = parse_timer(&l);
    if r.is_some() {
        return r.unwrap();
    }
    let r = parse_alarm(&l);
    if r.is_some() {
        return r.unwrap();
    }
    let r = parse_reminder(&l);
    if r.is_some() {
        return r.unwrap();
    }
    let r = parse_sms(&l, &o);
    if r.is_some() {
        return r.unwrap();
    }
    let r = parse_call(&l, &o);
    if r.is_some() {
        return r.unwrap();
    }
    if contains(&l, "take a photo") || contains(&l, "take a picture") || contains(&l, "snap a photo")
        || contains(&l, "snap a picture") || contains(&l, "take photo") {
        return Intent::TakePhoto;
    }
    if contains(&l, "battery") || contains(&l, "charge") || contains(&l, "power level") {
        return Intent::BatteryStatus;
    }
    if contains(&l, "where am i") || contains(&l, "my location") || contains(
        &l,
        "what's my location",
    ) || contains(&l, "get location") {
        return Intent::GetLocation;
    }
    if starts_with(&l, "copy") && contains(&l, "clipboard") {
        let a = trim_start_matches(&exec_trim_alpha_space(&o), "copy");
        let b = trim_start_matches(&a, "this to clipboard");
        let c = trim_start_matches(&b, "to clipboard");
        let t = trim(&c);
        return Intent::SetClipboard { text: s(&t) };
    }
    if eq_str(&l, "read clipboard") || eq_str(&l, "what's on my clipboard") || eq_str(&l, "paste") {
        return Intent::GetClipboard;
    }
    if starts_with(&l, "what ") || starts_with(&l, "who ") || starts_with(&l, "when ")
        || starts_with(&l, "where ") || starts_with(&l, "why ") || starts_with(&l, "how ")
        || starts_with(&l, "is ") || starts_with(&l, "are ") || starts_with(&l, "can ")
        || starts_with(&l, "do ") || starts_with(&l, "does ") {
        return Intent::Query { text: s(&o) };
    }
    if l.len() > 0 {
        return Intent::Conversational { text: s(&o) };
    }
    Intent::Unknown
}

/// Whether classifying `text` would overflow a timer duration.
pub fn classify_overflows(text: &str) -> (r: bool)
    ensures
        r == classify_panics(text@),
        is_ascii_text(text@) ==> lowercase(text@) == ascii_lower_seq(text@),
{
    let o = chars_of(text);
    let l = trim(&to_lowercase(&o));
    if eq_str(&l, "goodbye") || eq_str(&l, "bye") || eq_str(&l, "see you") || eq_str(&l, "see ya")
        || eq_str(&l, "talk later") || eq_str(&l, "exit") || eq_str(&l, "quit") {
        return false;
    }
    if eq_str(&l, "help") || eq_str(&l, "what can you do") || eq_str(&l, "what can you help with") {
        return false;
    }
    if ecosystem(&l, &o).is_some() {
        return false;
    }
    if !contains(&l, "timer") && !contains(&l, "set a") {
        return false;
    }
    if contains(&l, "cancel") {
        return false;
    }
    let ws = words(&l);
    proof {
        assert(crate::gate::views(ws@) =~= words_seq(l@));
    }
    exec_timer_overflow(&ws)
}

/// `classify`, or `None` when a timer duration in `text` would overflow.
pub fn classify_checked(text: &str) -> (r: Option<Intent>)
    ensures
        classify_panics(text@) ==> r is None,
        !classify_panics(text@) ==> (r matches Some(i) && i@ == classify_spec(text@)),
        is_ascii_text(text@) ==> lowercase(text@) == ascii_lower_seq(text@),
{
    if classify_overflows(text) {
        None
    } else {
        Some(classify(text))
    }
}

} // verus!

verus! {

/// The traversal parser gives only traversals.
proof fn lemma_traverse_scan_kind(l: Seq<char>, k: int)
    ensures
        traverse_scan(l, k) matches Some(x) ==> x is Traverse,
    decreases 4 - k,
{
    if 0 <= k < 4 {
        lemma_traverse_scan_kind(l, k + 1);
    }
}

/// The formula-trigger scan gives only formulas.
proof fn lemma_formula_scan_kind(l: Seq<char>, o: Seq<char>, k: int)
    ensures
        formula_scan(l, o, k) matches Some(Some(x)) ==> x is Formula,
    decreases 5 - k,
{
    if 0 <= k < 5 {
        lemma_formula_scan_kind(l, o, k + 1);
    }
}

/// The unit-conversion scan gives only conversions.
proof fn lemma_convert_scan_kind(ws: Seq<Seq<char>>, i: int)
    ensures
        convert_scan(ws, i) matches Some(x) ==> x is Convert,
    decreases ws.len() - i,
{
    if 0 <= i < ws.len() {
        lemma_convert_scan_kind(ws, i + 1);
    }
}

/// The evaluation-trigger scan gives only evaluations.
proof fn lemma_eval_scan_kind(l: Seq<char>, k: int)
    ensures
        eval_scan(l, k) matches Some(x) ==> x is Eval,
    decreases 7 - k,
{
    if 0 <= k < 7 {
        lemma_eval_scan_kind(l, k + 1);
    }
}

/// The ecosystem parsers never give `Unknown`.
proof fn lemma_ecosystem_known(l: Seq<char>, o: Seq<char>)
    ensures
        ecosystem_spec(l, o) matches Some(x) ==> x !is Unknown,
{
    lemma_traverse_scan_kind(l, 0);
    lemma_formula_scan_kind(l, o, 0);
    lemma_convert_scan_kind(words_seq(l), 0);
    lemma_eval_scan_kind(l, 0);
    assert(parse_convert_spec(l, o) matches Some(x) ==> x !is Unknown);
    assert(parse_eval_spec(l, o) matches Some(x) ==> x !is Unknown);
    assert(parse_validate_spec(l, o) matches Some(x) ==> x !is Unknown);
    assert(parse_score_spec(l, o) matches Some(x) ==> x !is Unknown);
    assert(parse_fix_spec(l, o) matches Some(x) ==> x !is Unknown);
    assert(parse_solve_spec(l, o) matches Some(x) ==> x !is Unknown);
    assert(parse_formula_spec(l, o) matches Some(x) ==> x !is Unknown);
    assert(parse_search_spec(l) matches Some(x) ==> x !is Unknown);
    assert(parse_chain_spec(l, o) matches Some(x) ==> x !is Unknown);
    assert(parse_classify_spec(l) matches Some(x) ==> x !is Unknown);
    assert(parse_wheel_spec(l) matches Some(x) ==> x !is Unknown);
    assert(parse_reason_spec(l, o) matches Some(x) ==> x !is Unknown);
    assert(parse_shikai_spec(l, o) matches Some(x) ==> x !is Unknown);
    assert(parse_bankai_spec(l, o) matches Some(x) ==> x !is Unknown);
}

/// No trigger scan matches empty text.
proof fn lemma_scans_on_empty(o: Seq<char>, k: int)
    ensures
        eval_scan(Seq::<char>::empty(), k) is None,
        formula_scan(Seq::<char>::empty(), o, k) is None,
        traverse_scan(Seq::<char>::empty(), k) is None,
    decreases 7 - k,
{
    reveal_strlit("calculate");
    reveal_strlit("compute");
    reveal_strlit("evaluate");
    reveal_strlit("eval");
    reveal_strlit("solve for");
    reveal_strlit("what is");
    reveal_strlit("what's");
    reveal_strlit("evaluate formula ");
    reveal_strlit("run formula ");
    reveal_strlit("use formula ");
    reveal_strlit("evaluate the formula ");
    reveal_strlit("use the formula ");
    reveal_strlit("traverse ");
    reveal_strlit("explore ");
    reveal_strlit("walk ");
    reveal_strlit("go through ");
    if 0 <= k < 7 {
        lemma_scans_on_empty(o, k + 1);
    }
}

/// Empty lowered text matches no keyword and no parser.
#[verifier::rlimit(100)]
proof fn lemma_empty_lowered_parses_nothing(o: Seq<char>)
    ensures
        ({
            let l = Seq::<char>::empty();
            &&& !is_goodbye(l)
            &&& !is_help(l)
            &&& ecosystem_spec(l, o) is None
            &&& parse_timer_spec(l) is None
            &&& parse_alarm_spec(l) is None
            &&& parse_reminder_spec(l) is None
            &&& parse_sms_spec(l, o) is None
            &&& parse_call_spec(l, o) is None
            &&& !is_photo(l)
            &&& !is_battery(l)
            &&& !is_location(l)
            &&& !is_question(l)
            &&& !has_prefix(l, "copy"@)
            &&& l != "read clipboard"@
            &&& l != "what's on my clipboard"@
            &&& l != "paste"@
        }),
{
    reveal_strlit(" ");
    reveal_strlit(" against ");
    reveal_strlit(" domain");
    reveal_strlit(" for ");
    reveal_strlit(" formula");
    reveal_strlit(" in ");
    reveal_strlit(" into ");
    reveal_strlit(" to ");
    reveal_strlit(" using ");
    reveal_strlit(" with ");
    reveal_strlit("1.0");
    reveal_strlit("Call ");
    reveal_strlit("Phone ");
    reveal_strlit("abs");
    reveal_strlit("alarm");
    reveal_strlit("am");
    reveal_strlit("aquarius");
    reveal_strlit("are ");
    reveal_strlit("aries");
    reveal_strlit("at");
    reveal_strlit("auto-fix ");
    reveal_strlit("autofix ");
    reveal_strlit("bankai ");
    reveal_strlit("battery");
    reveal_strlit("bye");
    reveal_strlit("calculate");
    reveal_strlit("call ");
    reveal_strlit("can ");
    reveal_strlit("cancel");
    reveal_strlit("cancer");
    reveal_strlit("capricorn");
    reveal_strlit("chain formula ");
    reveal_strlit("chain formulas ");
    reveal_strlit("charge");
    reveal_strlit("check if ");
    reveal_strlit("classify ");
    reveal_strlit("clipboard");
    reveal_strlit("compute");
    reveal_strlit("confidence level");
    reveal_strlit("convert ");
    reveal_strlit("convert");
    reveal_strlit("copy");
    reveal_strlit("cos");
    reveal_strlit("derive ");
    reveal_strlit("dhanu");
    reveal_strlit("do ");
    reveal_strlit("does ");
    reveal_strlit("domain ");
    reveal_strlit("eval");
    reveal_strlit("evaluate formula ");
    reveal_strlit("evaluate the ");
    reveal_strlit("evaluate the formula ");
    reveal_strlit("evaluate");
    reveal_strlit("exit");
    reveal_strlit("exp");
    reveal_strlit("explore ");
    reveal_strlit("find formulas about ");
    reveal_strlit("find formulas for ");
    reveal_strlit("fix ");
    reveal_strlit("for ");
    reveal_strlit("for");
    reveal_strlit("full bankai solve ");
    reveal_strlit("gemini");
    reveal_strlit("get location");
    reveal_strlit("go through ");
    reveal_strlit("goodbye");
    reveal_strlit("help");
    reveal_strlit("hour");
    reveal_strlit("hours");
    reveal_strlit("how ");
    reveal_strlit("how confident");
    reveal_strlit("hr");
    reveal_strlit("hrs");
    reveal_strlit("in ");
    reveal_strlit("in");
    reveal_strlit("inf");
    reveal_strlit("infinity");
    reveal_strlit("is ");
    reveal_strlit("kanya");
    reveal_strlit("karka");
    reveal_strlit("kumbha");
    reveal_strlit("later");
    reveal_strlit("leo");
    reveal_strlit("libra");
    reveal_strlit("ln");
    reveal_strlit("log");
    reveal_strlit("look up formula ");
    reveal_strlit("look up formulas ");
    reveal_strlit("makara");
    reveal_strlit("mangala");
    reveal_strlit("meena");
    reveal_strlit("message ");
    reveal_strlit("min");
    reveal_strlit("mins");
    reveal_strlit("minute");
    reveal_strlit("minutes");
    reveal_strlit("mithuna");
    reveal_strlit("my location");
    reveal_strlit("nan");
    reveal_strlit("paste");
    reveal_strlit("phone ");
    reveal_strlit("pisces");
    reveal_strlit("pm");
    reveal_strlit("pow");
    reveal_strlit("power level");
    reveal_strlit("process through shikai ");
    reveal_strlit("prove ");
    reveal_strlit("quit");
    reveal_strlit("rate this");
    reveal_strlit("read clipboard");
    reveal_strlit("reason about ");
    reveal_strlit("reason from ");
    reveal_strlit("reason on ");
    reveal_strlit("reasoning ");
    reveal_strlit("reasoning about ");
    reveal_strlit("remind me to");
    reveal_strlit("remind me");
    reveal_strlit("remind");
    reveal_strlit("reminder to");
    reveal_strlit("reminder");
    reveal_strlit("reminder:");
    reveal_strlit("run formula ");
    reveal_strlit("run the ");
    reveal_strlit("sagittarius");
    reveal_strlit("score ");
    reveal_strlit("score this");
    reveal_strlit("scorpio");
    reveal_strlit("search formulas about ");
    reveal_strlit("search formulas for ");
    reveal_strlit("sec");
    reveal_strlit("second");
    reveal_strlit("seconds");
    reveal_strlit("secs");
    reveal_strlit("see ya");
    reveal_strlit("see you");
    reveal_strlit("send ");
    reveal_strlit("send a message to ");
    reveal_strlit("send message to ");
    reveal_strlit("set a");
    reveal_strlit("shikai ");
    reveal_strlit("show the wheel");
    reveal_strlit("show wheel");
    reveal_strlit("simha");
    reveal_strlit("sin");
    reveal_strlit("snap a photo");
    reveal_strlit("snap a picture");
    reveal_strlit("solve for");
    reveal_strlit("something");
    reveal_strlit("sqrt");
    reveal_strlit("take a photo");
    reveal_strlit("take a picture");
    reveal_strlit("take photo");
    reveal_strlit("talk later");
    reveal_strlit("tan");
    reveal_strlit("taurus");
    reveal_strlit("text ");
    reveal_strlit("the ");
    reveal_strlit("this to clipboard");
    reveal_strlit("timer");
    reveal_strlit("to ");
    reveal_strlit("to clipboard");
    reveal_strlit("to");
    reveal_strlit("traverse ");
    reveal_strlit("tula");
    reveal_strlit("unknown");
    reveal_strlit("use formula ");
    reveal_strlit("use the formula ");
    reveal_strlit("validate ");
    reveal_strlit("verify ");
    reveal_strlit("virgo");
    reveal_strlit("vrishabha");
    reveal_strlit("vrishchika");
    reveal_strlit("walk ");
    reveal_strlit("what ");
    reveal_strlit("what axis is ");
    reveal_strlit("what can you do");
    reveal_strlit("what can you help with");
    reveal_strlit("what is");
    reveal_strlit("what's my location");
    reveal_strlit("what's on my clipboard");
    reveal_strlit("what's on the wheel");
    reveal_strlit("what's");
    reveal_strlit("wheel");
    reveal_strlit("when ");
    reveal_strlit("where ");
    reveal_strlit("where am i");
    reveal_strlit("who ");
    reveal_strlit("why ");
    reveal_strlit("zodiac wheel");
    let l = Seq::<char>::empty();
    lemma_scans_on_empty(o, 0);
    assert(!is_goodbye(l));
    assert(!is_help(l));
    assert(parse_convert_spec(l, o) is None);
    assert(parse_eval_spec(l, o) is None);
    assert(parse_validate_spec(l, o) is None);
    assert(parse_score_spec(l, o) is None);
    assert(parse_fix_spec(l, o) is None);
    assert(parse_solve_spec(l, o) is None);
    assert(parse_formula_spec(l, o) is None);
    assert(parse_search_spec(l) is None);
    assert(parse_chain_spec(l, o) is None);
    assert(traverse_scan(l, 0) is None);
    assert(parse_classify_spec(l) is None);
    assert(parse_wheel_spec(l) is None);
    assert(parse_reason_spec(l, o) is None);
    assert(parse_shikai_spec(l, o) is None);
    assert(parse_bankai_spec(l, o) is None);
    assert(parse_timer_spec(l) is None);
    assert(parse_alarm_spec(l) is None);
    assert(parse_reminder_spec(l) is None);
    assert(parse_sms_spec(l, o) is None);
    assert(parse_call_spec(l, o) is None);
    assert(!is_photo(l));
    assert(!is_battery(l));
    assert(!is_location(l));
    assert(!is_question(l));
}

/// Only blank input is `Unknown`: classification gives `Unknown` exactly when
/// the trimmed, lowercased text is empty, and some other intent otherwise
/// (`Conversational` at worst).
#[verifier::rlimit(100)]
pub proof fn law_unknown_only_for_blank(text: Seq<char>)
    ensures
        (classify_spec(text) is Unknown) <==> lowered(text).len() == 0,
{
    let l = lowered(text);
    let o = text;
    lemma_ecosystem_known(l, o);
    assert(parse_timer_spec(l) matches Some(x) ==> x !is Unknown);
    assert(parse_alarm_spec(l) matches Some(x) ==> x !is Unknown);
    assert(parse_reminder_spec(l) matches Some(x) ==> x !is Unknown);
    assert(parse_sms_spec(l, o) matches Some(x) ==> x !is Unknown);
    assert(parse_call_spec(l, o) matches Some(x) ==> x !is Unknown);
    if l.len() == 0 {
        assert(l =~= Seq::<char>::empty());
        lemma_empty_lowered_parses_nothing(o);
    }
}


/// Timer units in words: "set a N <unit> timer" sets a timer of N seconds for
/// second words ("second", "seconds", "sec", "secs"), N * 60 for minute words
/// and N * 3600 for hour words ("hr", "hrs" included), whenever that fits in a
/// `u64` and N is not zero.
pub proof fn law_timer_unit_words(lower: Seq<char>, d: Seq<char>, u: Seq<char>)
    requires
        crate::scan::numeral(d),
        words_seq(lower) == seq!["set"@, "a"@, d, u, "timer"@],
        contains_seq(lower, "timer"@),
        !contains_seq(lower, "cancel"@),
    ensures
        ({
            let n = parse_u64_spec(d).unwrap();
            let f: int = if u == "second"@ || u == "seconds"@ || u == "sec"@ || u == "secs"@ {
                1
            } else if u == "minute"@ || u == "minutes"@ || u == "min"@ || u == "mins"@ {
                60
            } else if u == "hour"@ || u == "hours"@ || u == "hr"@ || u == "hrs"@ {
                3600
            } else {
                0
            };
            f > 0 && n > 0 && n * f <= u64::MAX ==> (parse_timer_spec(lower) matches Some(
                IntentSpec::SetTimer { duration_secs, .. },
            ) && duration_secs == n * f)
        }),
{
    reveal_strlit("second");
    reveal_strlit("seconds");
    reveal_strlit("sec");
    reveal_strlit("secs");
    reveal_strlit("minute");
    reveal_strlit("minutes");
    reveal_strlit("min");
    reveal_strlit("mins");
    reveal_strlit("hour");
    reveal_strlit("hours");
    reveal_strlit("hr");
    reveal_strlit("hrs");
    reveal_strlit("set");
    reveal_strlit("a");
    reveal_strlit("timer");
    reveal_strlit("cancel");
    assert("minute"@ != "second"@) by { assert("minute"@[0] != "second"@[0]); }
    assert("minutes"@ != "seconds"@) by { assert("minutes"@[0] != "seconds"@[0]); }
    assert("min"@ != "sec"@) by { assert("min"@[0] != "sec"@[0]); }
    assert("mins"@ != "secs"@) by { assert("mins"@[0] != "secs"@[0]); }
    assert("hour"@ != "secs"@) by { assert("hour"@[0] != "secs"@[0]); }
    assert("hour"@ != "mins"@) by { assert("hour"@[0] != "mins"@[0]); }
    assert("hrs"@ != "sec"@) by { assert("hrs"@[0] != "sec"@[0]); }
    assert("hrs"@ != "min"@) by { assert("hrs"@[0] != "min"@[0]); }
    let ws = words_seq(lower);
    let n = parse_u64_spec(d).unwrap();
    assert(ws[2] == d && ws[3] == u && ws[4] == "timer"@);
    assert(!is_digit("timer"@[0]));
    assert(parse_u64_spec("timer"@) is None);
    if u == "second"@ || u == "seconds"@ || u == "sec"@ || u == "secs"@ || u == "minute"@
        || u == "minutes"@ || u == "min"@ || u == "mins"@ || u == "hour"@ || u == "hours"@
        || u == "hr"@ || u == "hrs"@ {
        assert(!is_digit(u[0]));
        assert(parse_u64_spec(u) is None);
        assert(next_word(ws, 2) == u);
        assert(timer_duration(ws, 5) == timer_duration(ws, 4));
        assert(timer_duration(ws, 4) == timer_duration(ws, 3));
        assert(timer_duration(ws, 3) == n * unit_factor(u));
    }
}

} // verus!
