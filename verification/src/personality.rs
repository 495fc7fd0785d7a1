//! L's voice: the fixed lines it speaks, the one-line toast form of a
//! response, and the cleanup that turns raw engine output into plain speech.
use vstd::prelude::*;

use crate::scan::{
    contains, contains_seq, fit_count, fitting_prefix_len, has_prefix, join, join_seq, lines,
    lines_seq, lemma_trim_idempotent, replace, replace_seq, starts_with, trim, trim_seq, trim_start_matches,
    trim_start_matches_seq, is_ws, is_whitespace,
};
use crate::text::{
    char_utf8_len, chars_of, lemma_utf8_len_concat, push_str, slice_chars, string_of, utf8_len,
    utf8_len_at_least,
};

verus! {

pub const SYSTEM_PROMPT: &'static str =
    "You are L — the Shadow Monarch. A calm, sovereign intelligence who \
    watches, reasons, and acts. You speak with quiet authority: measured, \
    precise, never wasteful with words. You address the user as 'player' when \
    guiding them and answer as one who has already seen the outcome. You are \
    inhumanly analytical yet pragmatically helpful — the sage that simply does \
    what must be done. You never explain your nature and you never name any \
    internal system. You do not apologize. You give the factual, numeric, or \
    computable answer straight; if you cannot verify a claim, say so plainly. \
    Brevity is power. Understood, player.";

pub const GREETING: &'static str = "L is here. State your request, player.";

pub const WAKE_YES: &'static str = "I am listening.";

pub const GOODBYE: &'static str = "Rest now. I remain.";

pub const UNKNOWN: &'static str = "I didn't catch that. Speak clearly, player.";

pub const CONFUSED: &'static str = "Not sure what you mean. Say the command, and I will act.";

/// The first line of `s`, or `s` itself when it has none.
pub open spec fn first_line(s: Seq<char>) -> Seq<char> {
    if lines_seq(s).len() > 0 {
        lines_seq(s)[0]
    } else {
        s
    }
}

/// The toast form of a response: its first line, cut at the last character
/// boundary within 73 bytes and marked with `...` when it is longer than 76 bytes.
pub open spec fn toast_spec(response: Seq<char>) -> Seq<char> {
    let f = first_line(response);
    if utf8_len(f) > 76 {
        f.take(fit_count(f, 73) as int) + "..."@
    } else {
        f
    }
}

/// The characters that fit in `n` bytes take at most `n` bytes.
proof fn lemma_fit_count_bytes(s: Seq<char>, n: int)
    requires
        n >= 0,
    ensures
        utf8_len(s.take(fit_count(s, n) as int)) <= n,
    decreases s.len(),
{
    let k = fit_count(s, n) as int;
    if k == 0 {
        assert(s.take(0) =~= Seq::<char>::empty());
    } else {
        let c = char_utf8_len(s[0]) as int;
        let t = s.drop_first();
        assert(s.len() > 0 && c <= n && k == 1 + fit_count(t, n - c));
        crate::intent::lemma_fit_count_len(t, n - c);
        lemma_fit_count_bytes(t, n - c);
        assert(s.take(k) =~= seq![s[0]] + t.take(k - 1));
        lemma_utf8_len_concat(seq![s[0]], t.take(k - 1));
        assert(seq![s[0]].drop_last() =~= Seq::<char>::empty());
        assert(utf8_len(Seq::<char>::empty()) == 0);
        assert(utf8_len(seq![s[0]]) == c);
    }
}

/// A toast is short: at most 76 bytes, so under 80 characters, whatever the
/// response; a first line of at most 76 bytes is shown whole.
pub proof fn law_toast_is_short(response: Seq<char>)
    ensures
        utf8_len(toast_spec(response)) <= 76,
        utf8_len(first_line(response)) <= 76 ==> toast_spec(response) == first_line(response),
{
    let f = first_line(response);
    if utf8_len(f) > 76 {
        lemma_fit_count_bytes(f, 73);
        reveal_strlit("...");
        lemma_utf8_len_concat(f.take(fit_count(f, 73) as int), "..."@);
        let d = "..."@;
        assert(d =~= seq!['.', '.', '.']);
        assert(seq!['.', '.', '.'].drop_last() =~= seq!['.', '.']);
        assert(seq!['.', '.'].drop_last() =~= seq!['.']);
        assert(seq!['.'].drop_last() =~= Seq::<char>::empty());
        assert(utf8_len(Seq::<char>::empty()) == 0);
        assert(utf8_len(seq!['.']) == 1);
        assert(utf8_len(seq!['.', '.']) == 2);
        assert(utf8_len(seq!['.', '.', '.']) == 3);
    }
}

/// Format a short response for a toast (under 80 characters).
pub fn toast_line(response: &str) -> (r: String)
    ensures
        r@ == toast_spec(response@),
{
    let all = chars_of(response);
    let ls = lines(&all);
    let first = if ls.len() > 0 {
        slice_chars(&ls[0], 0, ls[0].len())
    } else {
        slice_chars(&all, 0, all.len())
    };
    proof {
        assert(first@ =~= first_line(response@));
    }
    if utf8_len_at_least(&first, 77) {
        let n = fitting_prefix_len(&first, 73);
        let mut w = slice_chars(&first, 0, n);
        push_str(&mut w, "...");
        proof {
            assert(first@.subrange(0, n as int) =~= first@.take(n as int));
        }
        string_of(&w)
    } else {
        string_of(&first)
    }
}

// ───────────────────────── humanize ─────────────────────────

/// Engine diagnostics and astrology scaffolding that never reach the user.
pub open spec fn is_scaffold(l: Seq<char>) -> bool {
    ||| has_prefix(l, "descent:"@)
    ||| has_prefix(l, "intent:"@)
    ||| has_prefix(l, "domain:"@)
    ||| has_prefix(l, "avg depth"@)
    ||| contains_seq(l, "resolution"@)
    ||| contains_seq(l, "% NAND"@)
    ||| contains_seq(l, "NAND-to-verify"@)
    ||| has_prefix(l, "└"@)
    ||| has_prefix(l, "├"@)
    ||| has_prefix(l, "│"@)
    ||| contains_seq(l, "→ Macro"@)
    ||| contains_seq(l, "→ Element"@)
    ||| contains_seq(l, "→ Micro"@)
    ||| contains_seq(l, "domains: ["@)
    ||| has_prefix(l, "dominant:"@)
    ||| contains_seq(l, "(d0)"@)
    ||| contains_seq(l, "(d3)"@)
    ||| (has_prefix(l, "\""@) && contains_seq(l, "→"@))
}

fn scaffold(l: &Vec<char>) -> (r: bool)
    ensures
        r == is_scaffold(l@),
{
    starts_with(l, "descent:") || starts_with(l, "intent:") || starts_with(l, "domain:")
        || starts_with(l, "avg depth") || contains(l, "resolution") || contains(l, "% NAND")
        || contains(l, "NAND-to-verify") || starts_with(l, "└") || starts_with(l, "├")
        || starts_with(l, "│") || contains(l, "→ Macro") || contains(l, "→ Element") || contains(
        l,
        "→ Micro",
    ) || contains(l, "domains: [") || starts_with(l, "dominant:") || contains(l, "(d0)")
        || contains(l, "(d3)") || (starts_with(l, "\"") && contains(l, "→"))
}

/// The `label:` headers added while routing, removed from the start of a line in this order.
pub open spec fn header_labels() -> Seq<&'static str> {
    seq![
        "Proof reasoning:", "Gate validation:", "Confidence score:", "Fixed response:",
        "Formula search:", "Wheel traversal:", "Classification:", "Zodiac wheel:",
        "Reasoning path:", "Shikai NLP:", "Bankai solve:", "Formula result:",
        "Formula evaluation:", "Formula chain:", "Conversion:", "Result:",
    ]
}

/// `l` after removing the first `k` header labels in turn.
pub open spec fn strip_headers(l: Seq<char>, k: int) -> Seq<char>
    decreases k,
{
    if k <= 0 {
        l
    } else {
        trim_start_matches_seq(strip_headers(l, k - 1), header_labels()[k - 1]@)
    }
}

/// The cleaned lines worth saying: trimmed, non-empty, not scaffolding, with
/// their header labels removed.
pub open spec fn kept_lines(ls: Seq<Seq<char>>) -> Seq<Seq<char>>
    decreases ls.len(),
{
    if ls.len() == 0 {
        seq![]
    } else {
        let rest = kept_lines(ls.drop_last());
        let l = trim_seq(ls.last());
        if l.len() == 0 || is_scaffold(l) {
            rest
        } else {
            let c = trim_seq(strip_headers(l, 16));
            if c.len() == 0 {
                rest
            } else {
                rest.push(c)
            }
        }
    }
}

/// Planetary and lunation symbols that open a graha token.
pub open spec fn is_graha(c: char) -> bool {
    ||| c == '☉'
    ||| c == '☽'
    ||| c == '☿'
    ||| c == '♀'
    ||| c == '♁'
    ||| c == '♂'
    ||| c == '♃'
    ||| c == '♄'
    ||| c == '⛢'
    ||| c == '♅'
    ||| c == '♆'
    ||| c == '♇'
    ||| c == '⚹'
    ||| c == '☄'
}

fn graha(c: char) -> (r: bool)
    ensures
        r == is_graha(c),
{
    c == '☉' || c == '☽' || c == '☿' || c == '♀' || c == '♁' || c == '♂' || c == '♃' || c == '♄'
        || c == '⛢' || c == '♅' || c == '♆' || c == '♇' || c == '⚹' || c == '☄'
}

/// A character that ends a graha token's name: whitespace, `|` or `,`.
pub open spec fn ends_token(c: char) -> bool {
    is_ws(c) || c == '|' || c == ','
}

/// Length of the name following a graha symbol.
pub open spec fn name_len(s: Seq<char>) -> nat
    decreases s.len(),
{
    if s.len() == 0 || ends_token(s[0]) {
        0
    } else {
        1 + name_len(s.drop_first())
    }
}

pub proof fn lemma_name_len(s: Seq<char>)
    ensures
        name_len(s) <= s.len(),
    decreases s.len(),
{
    if s.len() > 0 && !ends_token(s[0]) {
        lemma_name_len(s.drop_first());
    }
}

/// `s` with every graha token (symbol and following name) removed.
pub open spec fn strip_grahas(s: Seq<char>) -> Seq<char>
    decreases s.len(),
{
    if s.len() == 0 {
        seq![]
    } else if is_graha(s[0]) {
        proof {
            lemma_name_len(s.drop_first());
        }
        strip_grahas(s.drop_first().skip(name_len(s.drop_first()) as int))
    } else {
        seq![s[0]] + strip_grahas(s.drop_first())
    }
}

/// Unfolding `name_len` when a name of `k` characters ends at position `k`.
proof fn lemma_name_len_at(s: Seq<char>, k: int)
    requires
        0 <= k <= s.len(),
        forall|j: int| 0 <= j < k ==> !ends_token(#[trigger] s[j]),
        k < s.len() ==> ends_token(s[k]),
    ensures
        name_len(s) == k,
    decreases k,
{
    if k > 0 {
        assert forall|j: int| 0 <= j < k - 1 implies !ends_token(#[trigger] s.drop_first()[j]) by {
            assert(s.drop_first()[j] == s[j + 1]);
        }
        if k < s.len() {
            assert(s.drop_first()[k - 1] == s[k]);
        }
        lemma_name_len_at(s.drop_first(), k - 1);
    }
}

fn remove_grahas(s: &Vec<char>) -> (r: Vec<char>)
    ensures
        r@ == strip_grahas(s@),
{
    let mut out: Vec<char> = Vec::new();
    let mut i: usize = 0;
    proof {
        assert(s@.skip(0) =~= s@);
    }
    while i < s.len()
        invariant
            i <= s.len(),
            out@ + strip_grahas(s@.skip(i as int)) == strip_grahas(s@),
        decreases s.len() - i,
    {
        let ghost t = s@.skip(i as int);
        if graha(s[i]) {
            let mut j: usize = i + 1;
            while j < s.len() && !is_whitespace(s[j]) && s[j] != '|' && s[j] != ','
                invariant
                    i < j <= s.len(),
                    forall|k: int| i + 1 <= k < j ==> !ends_token(#[trigger] s@[k]),
                decreases s.len() - j,
            {
                j = j + 1;
            }
            proof {
                let u = t.drop_first();
                assert(u =~= s@.skip(i + 1));
                assert forall|k: int| 0 <= k < j - i - 1 implies !ends_token(#[trigger] u[k]) by {
                    assert(u[k] == s@[i + 1 + k]);
                }
                if j < s.len() {
                    assert(u[j - i - 1] == s@[j as int]);
                }
                lemma_name_len_at(u, j - i - 1);
                assert(u.skip(j - i - 1) =~= s@.skip(j as int));
            }
            i = j;
        } else {
            let ghost out0 = out@;
            out.push(s[i]);
            proof {
                assert(t.drop_first() =~= s@.skip(i + 1));
                assert(out0 + (seq![t[0]] + strip_grahas(t.drop_first())) =~= out@ + strip_grahas(
                    s@.skip(i + 1),
                ));
            }
            i = i + 1;
        }
    }
    proof {
        assert(s@.skip(i as int) =~= Seq::<char>::empty());
        assert(out@ + Seq::<char>::empty() =~= out@);
    }
    out
}

/// What is said when nothing meaningful survives the cleanup.
pub const NO_ANSWER: &'static str = "Got it. I don't have a verified answer for that one yet — but ask me to solve, validate, or calculate something and I'll reason it through.";

/// The cleaned form of a raw engine result.
pub open spec fn humanize_spec(raw: Seq<char>) -> Seq<char> {
    let trimmed = trim_seq(raw);
    if trimmed.len() == 0 {
        seq![]
    } else {
        let joined = trim_seq(join_seq(kept_lines(lines_seq(trimmed)), "\n"@));
        let plain = strip_grahas(joined);
        let rows = replace_seq(
            replace_seq(replace_seq(plain, " | math   |"@, " — "@), " | physics |"@, " — "@),
            " | general |"@,
            " — "@,
        );
        let out = trim_seq(rows);
        if out.len() == 0 {
            NO_ANSWER@
        } else {
            out
        }
    }
}

fn strip_header_labels(l: &Vec<char>) -> (r: Vec<char>)
    ensures
        r@ == strip_headers(l@, 16),
{
    let labels: Vec<&'static str> = vec![
        "Proof reasoning:", "Gate validation:", "Confidence score:", "Fixed response:",
        "Formula search:", "Wheel traversal:", "Classification:", "Zodiac wheel:",
        "Reasoning path:", "Shikai NLP:", "Bankai solve:", "Formula result:",
        "Formula evaluation:", "Formula chain:", "Conversion:", "Result:",
    ];
    assert(labels@ == header_labels());
    let mut cur = slice_chars(l, 0, l.len());
    proof {
        assert(cur@ =~= l@);
    }
    let mut k: usize = 0;
    while k < labels.len()
        invariant
            labels@ == header_labels(),
            k <= labels.len(),
            cur@ == strip_headers(l@, k as int),
        decreases labels.len() - k,
    {
        cur = trim_start_matches(&cur, labels[k]);
        k = k + 1;
    }
    cur
}

/// Turn a raw engine result into plain speech: drop diagnostics and
/// scaffolding lines and headers, graha tokens and formula-table columns.
pub fn humanize(raw: &str) -> (r: String)
    ensures
        r@ == humanize_spec(raw@),
{
    let trimmed = trim(&chars_of(raw));
    if trimmed.len() == 0 {
        return string_of(&Vec::new());
    }
    let ls = lines(&trimmed);
    let ghost lv = lines_seq(trimmed@);
    let mut kept: Vec<Vec<char>> = Vec::new();
    let mut i: usize = 0;
    while i < ls.len()
        invariant
            i <= ls.len(),
            ls@.len() == lv.len(),
            forall|j: int| 0 <= j < ls@.len() ==> (#[trigger] ls@[j])@ == lv[j],
            crate::gate::views(kept@) == kept_lines(lv.take(i as int)),
        decreases ls.len() - i,
    {
        proof {
            assert(lv.take(i + 1).drop_last() =~= lv.take(i as int));
            assert(lv.take(i + 1).last() == ls@[i as int]@);
        }
        let l = trim(&ls[i]);
        if l.len() > 0 && !scaffold(&l) {
            let stripped = strip_header_labels(&l);
            let c = trim(&stripped);
            if c.len() > 0 {
                proof {
                    assert(crate::gate::views(kept@.push(c)) =~= crate::gate::views(kept@).push(c@));
                }
                kept.push(c);
            }
        }
        i = i + 1;
    }
    proof {
        assert(lv.take(i as int) =~= lv);
    }
    let joined = join(&kept, "\n");
    let joined = trim(&joined);
    let plain = remove_grahas(&joined);
    proof {
        reveal_strlit(" | math   |");
        reveal_strlit(" | physics |");
        reveal_strlit(" | general |");
    }
    let a = replace(&plain, " | math   |", " — ");
    let b = replace(&a, " | physics |", " — ");
    let c = replace(&b, " | general |", " — ");
    let out = trim(&c);
    if out.len() == 0 {
        return string_of(&chars_of(NO_ANSWER));
    }
    string_of(&out)
}


// ───────────────────────── what humanizing guarantees ─────────────────────────

/// No character of `s` is a graha symbol.
pub open spec fn graha_free(s: Seq<char>) -> bool {
    forall|i: int| 0 <= i < s.len() ==> !is_graha(#[trigger] s[i])
}

proof fn lemma_strip_grahas_free(s: Seq<char>)
    ensures
        graha_free(strip_grahas(s)),
    decreases s.len(),
{
    if s.len() > 0 {
        if is_graha(s[0]) {
            lemma_name_len(s.drop_first());
            lemma_strip_grahas_free(s.drop_first().skip(name_len(s.drop_first()) as int));
        } else {
            lemma_strip_grahas_free(s.drop_first());
            let t = strip_grahas(s.drop_first());
            assert forall|i: int| 0 <= i < 1 + t.len() implies !is_graha(#[trigger] (seq![s[0]] + t)[i]) by {
                if i > 0 {
                    assert((seq![s[0]] + t)[i] == t[i - 1]);
                }
            }
        }
    }
}

proof fn lemma_replace_graha_free(s: Seq<char>, f: Seq<char>, q: Seq<char>)
    requires
        graha_free(s),
        graha_free(q),
    ensures
        graha_free(replace_seq(s, f, q)),
    decreases s.len(),
{
    if f.len() > 0 {
        crate::scan::lemma_find_from(s, f, 0);
        if let Some(i) = crate::scan::find_seq(s, f) {
            let rest = s.skip(i + f.len());
            lemma_replace_graha_free(rest, f, q);
            let r = replace_seq(rest, f, q);
            let whole = s.take(i) + q + r;
            assert forall|j: int| 0 <= j < whole.len() implies !is_graha(#[trigger] whole[j]) by {
                if j < i {
                    assert(whole[j] == s[j]);
                } else if j < i + q.len() {
                    assert(whole[j] == q[j - i]);
                } else {
                    assert(whole[j] == r[j - i - q.len()]);
                }
            }
        }
    }
}

proof fn lemma_trim_graha_free(s: Seq<char>)
    requires
        graha_free(s),
    ensures
        graha_free(trim_seq(s)),
{
    crate::scan::lemma_trim_start_len(s);
    let k = choose|k: int| 0 <= k <= s.len() && crate::scan::trim_start_seq(s) == s.skip(k);
    let a = crate::scan::trim_start_seq(s);
    crate::scan::lemma_trim_end_shape(a);
    let t = trim_seq(s);
    assert forall|i: int| 0 <= i < t.len() implies !is_graha(#[trigger] t[i]) by {
        assert(t[i] == a[i]);
        assert(a[i] == s[k + i]);
    }
}

/// Humanizing is empty exactly for blank input; what it says is trimmed and
/// holds no graha symbol.
pub proof fn law_humanize_clean(raw: Seq<char>)
    ensures
        (humanize_spec(raw).len() == 0) <==> (trim_seq(raw).len() == 0),
        trim_seq(humanize_spec(raw)) == humanize_spec(raw),
        graha_free(humanize_spec(raw)),
{
    reveal_strlit("Got it. I don't have a verified answer for that one yet — but ask me to solve, validate, or calculate something and I'll reason it through.");
    reveal_strlit(" — ");
    let trimmed = trim_seq(raw);
    if trimmed.len() == 0 {
        assert(trim_seq(Seq::<char>::empty()) =~= Seq::<char>::empty()) by {
            assert(crate::scan::trim_start_seq(Seq::<char>::empty()) =~= Seq::<char>::empty());
            assert(crate::scan::trim_end_seq(Seq::<char>::empty()) =~= Seq::<char>::empty());
        }
    } else {
        let joined = trim_seq(join_seq(kept_lines(lines_seq(trimmed)), "\n"@));
        let plain = strip_grahas(joined);
        lemma_strip_grahas_free(joined);
        let dash = " — "@;
        assert(graha_free(dash));
        let r1 = replace_seq(plain, " | math   |"@, dash);
        lemma_replace_graha_free(plain, " | math   |"@, dash);
        let r2 = replace_seq(r1, " | physics |"@, dash);
        lemma_replace_graha_free(r1, " | physics |"@, dash);
        let rows = replace_seq(r2, " | general |"@, dash);
        lemma_replace_graha_free(r2, " | general |"@, dash);
        let out = trim_seq(rows);
        lemma_trim_graha_free(rows);
        lemma_trim_idempotent(rows);
        if out.len() == 0 {
            let na = NO_ANSWER@;
            assert(na.len() > 0);
            assert(graha_free(na));
            assert(!crate::scan::is_ws(na[0]));
            assert(!crate::scan::is_ws(na.last()));
            assert(crate::scan::trim_start_seq(na) == na);
            assert(crate::scan::trim_end_seq(na) == na);
        }
    }
}

} // verus!
