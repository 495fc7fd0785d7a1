//! Relative reminder times.
use vstd::prelude::*;

use crate::scan::{
    has_prefix, has_suffix, is_digit, is_ws, lemma_trim_solid_ends, lemma_words_cons,
    lemma_words_single, numeral, parse_u64, parse_u64_spec, solid, strip_prefix, strip_prefix_seq,
    strip_suffix, strip_suffix_char, trim, trim_end_matches, trim_end_matches_seq, trim_seq, words,
    words_seq,
};
use crate::text::{
    ascii_lower_seq, chars_of, eq_str, is_ascii_text, lowercase, push_str, string_of, to_lowercase,
};

verus! {

/// The number before a one-letter unit suffix `c` ("90s", "10m", "1h").
pub open spec fn compact_number(w: Seq<char>, c: char) -> Option<nat> {
    match strip_suffix_char(w, c) {
        Some(n) => parse_u64_spec(trim_seq(n)),
        None => None,
    }
}

/// Seconds per unit word ("second", "minutes", "hr", "day", ...; any trailing
/// `s` removed first).
pub open spec fn unit_seconds(unit: Seq<char>) -> Option<int> {
    let u = trim_end_matches_seq(unit, "s"@);
    if u == "second"@ || u == "sec"@ {
        Some(1)
    } else if u == "minute"@ || u == "min"@ {
        Some(60)
    } else if u == "hour"@ || u == "hr"@ {
        Some(3600)
    } else if u == "day"@ {
        Some(86_400)
    } else {
        None
    }
}

/// A lowercased phrase trimmed, with a leading "in " dropped.
pub open spec fn phrase_of(lowered: Seq<char>) -> Seq<char> {
    trim_seq(
        match strip_prefix_seq(lowered, "in "@) {
            Some(r) => r,
            None => lowered,
        },
    )
}

/// Seconds from now that an already lowercased phrase denotes: a compact form
/// ("90s", "10m", "1h") or a number followed by a unit word ("5 minutes",
/// "in 2 hours").
pub open spec fn secs_of_lowered(lowered: Seq<char>) -> Option<int> {
    let w = phrase_of(lowered);
    if compact_number(w, 's') is Some {
        Some(compact_number(w, 's').unwrap() as int)
    } else if compact_number(w, 'm') is Some {
        Some(compact_number(w, 'm').unwrap() * 60int)
    } else if compact_number(w, 'h') is Some {
        Some(compact_number(w, 'h').unwrap() * 3600int)
    } else {
        let ws = words_seq(w);
        if ws.len() < 1 || parse_u64_spec(ws[0]) is None || ws.len() < 2 {
            None
        } else {
            match unit_seconds(ws[1]) {
                Some(m) => Some(parse_u64_spec(ws[0]).unwrap() * m),
                None => None,
            }
        }
    }
}

/// Seconds from now that `when` denotes, once trimmed and lowercased.
pub open spec fn relative_secs_spec(when: Seq<char>) -> Option<int> {
    secs_of_lowered(lowercase(trim_seq(when)))
}

fn compact(w: &Vec<char>, c: char) -> (r: Option<u64>)
    ensures
        match compact_number(w@, c) {
            Some(n) => r == Some(n as u64),
            None => r is None,
        },
{
    match strip_suffix(w, c) {
        Some(n) => {
            let t = trim(&n);
            parse_u64(&t)
        },
        None => None,
    }
}

fn unit_mult(unit: &Vec<char>) -> (r: Option<u64>)
    ensures
        match unit_seconds(unit@) {
            Some(m) => r == Some(m as u64),
            None => r is None,
        },
{
    let u = trim_end_matches(unit, "s");
    proof {
        reveal_strlit("second");
        reveal_strlit("sec");
        reveal_strlit("minute");
        reveal_strlit("min");
        reveal_strlit("hour");
        reveal_strlit("hr");
        reveal_strlit("day");
    }
    if eq_str(&u, "second") || eq_str(&u, "sec") {
        Some(1)
    } else if eq_str(&u, "minute") || eq_str(&u, "min") {
        Some(60)
    } else if eq_str(&u, "hour") || eq_str(&u, "hr") {
        Some(3600)
    } else if eq_str(&u, "day") {
        Some(86_400)
    } else {
        None
    }
}

/// The seconds an already lowercased phrase denotes (see `secs_of_lowered`).
pub fn relative_secs_lowered(lowered: &str) -> (r: Option<u64>)
    requires
        secs_of_lowered(lowered@) matches Some(n) ==> n <= u64::MAX,
    ensures
        match secs_of_lowered(lowered@) {
            Some(n) => r == Some(n as u64),
            None => r is None,
        },
{
    let w0 = chars_of(lowered);
    let w1 = match strip_prefix(&w0, "in ") {
        Some(rest) => rest,
        None => w0,
    };
    let w = trim(&w1);
    assert(w@ == phrase_of(lowered@));
    if let Some(num) = compact(&w, 's') {
        return Some(num);
    }
    if let Some(num) = compact(&w, 'm') {
        return Some(num * 60);
    }
    if let Some(num) = compact(&w, 'h') {
        return Some(num * 3600);
    }
    let ws = words(&w);
    if ws.len() < 1 {
        return None;
    }
    let n = match parse_u64(&ws[0]) {
        Some(n) => n,
        None => {
            return None;
        },
    };
    if ws.len() < 2 {
        return None;
    }
    match unit_mult(&ws[1]) {
        Some(m) => Some(n * m),
        None => None,
    }
}

/// Whether the seconds an already lowercased phrase denotes, if any, fit in a `u64`.
pub fn lowered_secs_fit(lowered: &str) -> (r: bool)
    ensures
        r == (secs_of_lowered(lowered@) matches Some(n) ==> n <= u64::MAX),
{
    let w0 = chars_of(lowered);
    let w1 = match strip_prefix(&w0, "in ") {
        Some(rest) => rest,
        None => w0,
    };
    let w = trim(&w1);
    assert(w@ == phrase_of(lowered@));
    if let Some(_) = compact(&w, 's') {
        return true;
    }
    if let Some(num) = compact(&w, 'm') {
        return num.checked_mul(60).is_some();
    }
    if let Some(num) = compact(&w, 'h') {
        return num.checked_mul(3600).is_some();
    }
    let ws = words(&w);
    if ws.len() < 2 {
        return true;
    }
    match (parse_u64(&ws[0]), unit_mult(&ws[1])) {
        (Some(n), Some(m)) => n.checked_mul(m).is_some(),
        _ => true,
    }
}

/// `when` trimmed and lowercased (std's `to_lowercase`).
fn lowered_when(when: &str) -> (r: String)
    ensures
        r@ == lowercase(trim_seq(when@)),
        is_ascii_text(trim_seq(when@)) ==> r@ == ascii_lower_seq(trim_seq(when@)),
{
    let t = trim(&chars_of(when));
    string_of(&to_lowercase(&t))
}

/// Parse a relative time phrase into seconds from now: "in 5 minutes",
/// "30 seconds", "2 hours", "90s", "10m", "1h". `None` for anything else,
/// including a phrase whose seconds do not fit in a `u64`.
pub fn parse_relative_secs(when: &str) -> (r: Option<u64>)
    ensures
        match relative_secs_spec(when@) {
            Some(n) => if n <= u64::MAX {
                r == Some(n as u64)
            } else {
                r is None
            },
            None => r is None,
        },
        is_ascii_text(trim_seq(when@)) ==> lowercase(trim_seq(when@)) == ascii_lower_seq(
            trim_seq(when@),
        ),
{
    let l = lowered_when(when);
    if lowered_secs_fit(l.as_str()) {
        relative_secs_lowered(l.as_str())
    } else {
        None
    }
}

/// Whether the seconds that `when` denotes, if any, fit in a `u64`.
pub fn relative_secs_fit(when: &str) -> (r: bool)
    ensures
        r == (relative_secs_spec(when@) matches Some(n) ==> n <= u64::MAX),
{
    let l = lowered_when(when);
    lowered_secs_fit(l.as_str())
}

/// `parse_relative_secs` where the seconds fit in a `u64`; `None` also when they do not.
pub fn relative_secs_checked(when: &str) -> (r: Option<u64>)
    ensures
        match relative_secs_spec(when@) {
            Some(n) => if n <= u64::MAX {
                r == Some(n as u64)
            } else {
                r is None
            },
            None => r is None,
        },
{
    parse_relative_secs(when)
}


/// The reply once a reminder for `text` at `when` is set.
pub fn reminder_reply(text: &str, when: &str) -> (r: String)
    ensures
        r@ == "Reminder set: \""@ + text@ + "\" for "@ + when@,
{
    let mut v = chars_of("Reminder set: \"");
    push_str(&mut v, text);
    push_str(&mut v, "\" for ");
    push_str(&mut v, when);
    string_of(&v)
}

/// The reply when the schedule store could not keep a `what` (timer or reminder).
pub fn persist_error(what: &str, error: &str) -> (r: String)
    ensures
        r@ == "could not persist "@ + what@ + ": "@ + error@,
{
    let mut v = chars_of("could not persist ");
    push_str(&mut v, what);
    push_str(&mut v, ": ");
    push_str(&mut v, error);
    string_of(&v)
}



/// What `unit_seconds` gives for each unit word, singular or plural.
proof fn lemma_unit_word_seconds(u: Seq<char>)
    ensures
        (u == "second"@ || u == "seconds"@ || u == "sec"@ || u == "secs"@) ==> unit_seconds(u) == Some(1int),
        (u == "minute"@ || u == "minutes"@ || u == "min"@ || u == "mins"@) ==> unit_seconds(u) == Some(60int),
        (u == "hour"@ || u == "hours"@ || u == "hr"@ || u == "hrs"@) ==> unit_seconds(u) == Some(3600int),
        (u == "day"@ || u == "days"@) ==> unit_seconds(u) == Some(86400int),
{
    reveal_strlit("second");
    reveal_strlit("seconds");
    reveal_strlit("sec");
    reveal_strlit("secs");
    reveal_strlit("minute");
    reveal_strlit("minutes");
    reveal_strlit("min");
    reveal_strlit("mins");
    reveal_strlit("hour");
    reveal_strlit("hours");
    reveal_strlit("hr");
    reveal_strlit("hrs");
    reveal_strlit("day");
    reveal_strlit("days");
    reveal_strlit("s");
    assert("minute"@ != "second"@) by { assert("minute"@[0] != "second"@[0]); }
    assert("min"@ != "sec"@) by { assert("min"@[0] != "sec"@[0]); }
    assert("day"@ != "sec"@) by { assert("day"@[0] != "sec"@[0]); }
    assert("day"@ != "min"@) by { assert("day"@[0] != "min"@[0]); }
    assert(trim_end_matches_seq("second"@, "s"@) == "second"@) by {
        assert(!has_suffix("second"@, "s"@)) by {
            assert("second"@.skip(5)[0] == "second"@[5]);
        }
    }
    assert(trim_end_matches_seq("seconds"@, "s"@) == "second"@) by {
        assert(has_suffix("seconds"@, "s"@)) by {
            assert("seconds"@.skip(6) =~= "s"@);
        }
        assert("seconds"@.take(6) =~= "second"@);
        assert(!has_suffix("second"@, "s"@)) by {
            assert("second"@.skip(5)[0] == "second"@[5]);
        }
    }
    assert(trim_end_matches_seq("sec"@, "s"@) == "sec"@) by {
        assert(!has_suffix("sec"@, "s"@)) by {
            assert("sec"@.skip(2)[0] == "sec"@[2]);
        }
    }
    assert(trim_end_matches_seq("secs"@, "s"@) == "sec"@) by {
        assert(has_suffix("secs"@, "s"@)) by {
            assert("secs"@.skip(3) =~= "s"@);
        }
        assert("secs"@.take(3) =~= "sec"@);
        assert(!has_suffix("sec"@, "s"@)) by {
            assert("sec"@.skip(2)[0] == "sec"@[2]);
        }
    }
    assert(trim_end_matches_seq("minute"@, "s"@) == "minute"@) by {
        assert(!has_suffix("minute"@, "s"@)) by {
            assert("minute"@.skip(5)[0] == "minute"@[5]);
        }
    }
    assert(trim_end_matches_seq("minutes"@, "s"@) == "minute"@) by {
        assert(has_suffix("minutes"@, "s"@)) by {
            assert("minutes"@.skip(6) =~= "s"@);
        }
        assert("minutes"@.take(6) =~= "minute"@);
        assert(!has_suffix("minute"@, "s"@)) by {
            assert("minute"@.skip(5)[0] == "minute"@[5]);
        }
    }
    assert(trim_end_matches_seq("min"@, "s"@) == "min"@) by {
        assert(!has_suffix("min"@, "s"@)) by {
            assert("min"@.skip(2)[0] == "min"@[2]);
        }
    }
    assert(trim_end_matches_seq("mins"@, "s"@) == "min"@) by {
        assert(has_suffix("mins"@, "s"@)) by {
            assert("mins"@.skip(3) =~= "s"@);
        }
        assert("mins"@.take(3) =~= "min"@);
        assert(!has_suffix("min"@, "s"@)) by {
            assert("min"@.skip(2)[0] == "min"@[2]);
        }
    }
    assert(trim_end_matches_seq("hour"@, "s"@) == "hour"@) by {
        assert(!has_suffix("hour"@, "s"@)) by {
            assert("hour"@.skip(3)[0] == "hour"@[3]);
        }
    }
    assert(trim_end_matches_seq("hours"@, "s"@) == "hour"@) by {
        assert(has_suffix("hours"@, "s"@)) by {
            assert("hours"@.skip(4) =~= "s"@);
        }
        assert("hours"@.take(4) =~= "hour"@);
        assert(!has_suffix("hour"@, "s"@)) by {
            assert("hour"@.skip(3)[0] == "hour"@[3]);
        }
    }
    assert(trim_end_matches_seq("hr"@, "s"@) == "hr"@) by {
        assert(!has_suffix("hr"@, "s"@)) by {
            assert("hr"@.skip(1)[0] == "hr"@[1]);
        }
    }
    assert(trim_end_matches_seq("hrs"@, "s"@) == "hr"@) by {
        assert(has_suffix("hrs"@, "s"@)) by {
            assert("hrs"@.skip(2) =~= "s"@);
        }
        assert("hrs"@.take(2) =~= "hr"@);
        assert(!has_suffix("hr"@, "s"@)) by {
            assert("hr"@.skip(1)[0] == "hr"@[1]);
        }
    }
    assert(trim_end_matches_seq("day"@, "s"@) == "day"@) by {
        assert(!has_suffix("day"@, "s"@)) by {
            assert("day"@.skip(2)[0] == "day"@[2]);
        }
    }
    assert(trim_end_matches_seq("days"@, "s"@) == "day"@) by {
        assert(has_suffix("days"@, "s"@)) by {
            assert("days"@.skip(3) =~= "s"@);
        }
        assert("days"@.take(3) =~= "day"@);
        assert(!has_suffix("day"@, "s"@)) by {
            assert("day"@.skip(2)[0] == "day"@[2]);
        }
    }
}

/// A numeral, a space, and more text is no numeral: the space is no digit.
proof fn lemma_spaced_not_number(d: Seq<char>, x: Seq<char>)
    requires
        numeral(d),
    ensures
        parse_u64_spec(d + seq![' '] + x) is None,
{
    let t = d + seq![' '] + x;
    assert(t[0] == d[0]);
    assert(is_digit(d[0]));
    assert(t[d.len() as int] == ' ');
}

/// A numeral followed by a space and a unit word of two or more letters is
/// not a compact form, and denotes the numeral times the unit's seconds,
/// with or without a leading "in ".
proof fn lemma_worded_phrase(d: Seq<char>, u: Seq<char>)
    requires
        numeral(d),
        solid(u),
        u.len() >= 2,
    ensures
        ({
            let n = parse_u64_spec(d).unwrap();
            let expect = match unit_seconds(u) {
                Some(m) => Some(n * m),
                None => None,
            };
            &&& secs_of_lowered(d + seq![' '] + u) == expect
            &&& secs_of_lowered("in "@ + d + seq![' '] + u) == expect
        }),
{
    reveal_strlit("in ");
    let w = d + seq![' '] + u;
    assert(w[0] == d[0] && is_digit(d[0]));
    assert(w.last() == u.last() && !is_ws(u[u.len() - 1]));
    assert(!has_prefix(w, "in "@)) by {
        assert(w.take(3)[0] == w[0]);
    }
    lemma_trim_solid_ends(w);
    assert(phrase_of(w) == w);
    let iw = "in "@ + w;
    assert(("in "@ + d + seq![' '] + u) =~= iw);
    assert(has_prefix(iw, "in "@)) by {
        assert(iw.take(3) =~= "in "@);
    }
    assert(iw.skip(3) =~= w);
    assert(phrase_of(iw) == w);
    // not a compact form
    let u1 = u.drop_last();
    assert(w.drop_last() =~= d + seq![' '] + u1);
    assert(u1[u1.len() - 1] == u[u.len() - 2]);
    lemma_trim_solid_ends(w.drop_last());
    lemma_spaced_not_number(d, u1);
    assert(compact_number(w, 's') is None);
    assert(compact_number(w, 'm') is None);
    assert(compact_number(w, 'h') is None);
    // the worded form
    lemma_words_cons(d, u);
    lemma_words_single(u);
    assert(seq![d] + seq![u] =~= seq![d, u]);
    assert(words_seq(w) == seq![d, u]);
    assert(words_seq(w)[0] == d && words_seq(w)[1] == u);
    assert(secs_of_lowered(w) == (match unit_seconds(u) {
        Some(m) => Some(parse_u64_spec(d).unwrap() * m),
        None => None,
    }));
}

/// Reminder times in words: a numeral `n` followed by a unit word (singular
/// or plural, short or long) is `n` seconds for second words, `n * 60` for
/// minute words, `n * 3600` for hour words and `n * 86400` for day words,
/// with or without a leading "in ".
pub proof fn law_reminder_unit_words(d: Seq<char>, u: Seq<char>)
    requires
        numeral(d),
    ensures
        ({
            let n = parse_u64_spec(d).unwrap();
            let w = d + seq![' '] + u;
            let secs = if u == "second"@ || u == "seconds"@ || u == "sec"@ || u == "secs"@ {
                Some(n as int)
            } else if u == "minute"@ || u == "minutes"@ || u == "min"@ || u == "mins"@ {
                Some(n * 60int)
            } else if u == "hour"@ || u == "hours"@ || u == "hr"@ || u == "hrs"@ {
                Some(n * 3600int)
            } else if u == "day"@ || u == "days"@ {
                Some(n * 86400int)
            } else {
                None
            };
            secs is Some ==> secs_of_lowered(w) == secs && secs_of_lowered("in "@ + w) == secs
        }),
{
    reveal_strlit("second");
    reveal_strlit("seconds");
    reveal_strlit("sec");
    reveal_strlit("secs");
    reveal_strlit("minute");
    reveal_strlit("minutes");
    reveal_strlit("min");
    reveal_strlit("mins");
    reveal_strlit("hour");
    reveal_strlit("hours");
    reveal_strlit("hr");
    reveal_strlit("hrs");
    reveal_strlit("day");
    reveal_strlit("days");
    reveal_strlit("s");
    assert("minute"@ != "second"@) by { assert("minute"@[0] != "second"@[0]); }
    assert("minutes"@ != "seconds"@) by { assert("minutes"@[0] != "seconds"@[0]); }
    assert("min"@ != "sec"@) by { assert("min"@[0] != "sec"@[0]); }
    assert("mins"@ != "secs"@) by { assert("mins"@[0] != "secs"@[0]); }
    assert("hour"@ != "secs"@) by { assert("hour"@[0] != "secs"@[0]); }
    assert("hour"@ != "mins"@) by { assert("hour"@[0] != "mins"@[0]); }
    assert("hrs"@ != "sec"@) by { assert("hrs"@[0] != "sec"@[0]); }
    assert("hrs"@ != "min"@) by { assert("hrs"@[0] != "min"@[0]); }
    assert("day"@ != "sec"@) by { assert("day"@[0] != "sec"@[0]); }
    assert("day"@ != "min"@) by { assert("day"@[0] != "min"@[0]); }
    assert("day"@ != "hrs"@) by { assert("day"@[0] != "hrs"@[0]); }
    assert("days"@ != "secs"@) by { assert("days"@[0] != "secs"@[0]); }
    assert("days"@ != "mins"@) by { assert("days"@[0] != "mins"@[0]); }
    assert("days"@ != "hour"@) by { assert("days"@[0] != "hour"@[0]); }
    assert(("in "@ + d + seq![' '] + u) =~= "in "@ + (d + seq![' '] + u));
    if u == "second"@ || u == "seconds"@ || u == "sec"@ || u == "secs"@ || u == "minute"@
        || u == "minutes"@ || u == "min"@ || u == "mins"@ || u == "hour"@ || u == "hours"@
        || u == "hr"@ || u == "hrs"@ || u == "day"@ || u == "days"@ {
        assert(solid(u));
        lemma_worded_phrase(d, u);
        lemma_unit_word_seconds(u);
        let n = parse_u64_spec(d).unwrap();
        let w = d + seq![' '] + u;
        if u == "second"@ || u == "seconds"@ || u == "sec"@ || u == "secs"@ {
            assert(unit_seconds(u) == Some(1int));
            assert(secs_of_lowered(w) == Some(n * 1int));
            assert(n * 1int == n as int);
            assert(secs_of_lowered(w) == Some(n as int));
        } else if u == "minute"@ || u == "minutes"@ || u == "min"@ || u == "mins"@ {
            assert(secs_of_lowered(w) == Some(n * 60int));
        } else if u == "hour"@ || u == "hours"@ || u == "hr"@ || u == "hrs"@ {
            assert(secs_of_lowered(w) == Some(n * 3600int));
        } else {
            assert(secs_of_lowered(w) == Some(n * 86400int));
        }
    }
}

} // verus!
