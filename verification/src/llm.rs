//! The local LLM front: the persona prompt, the messages sent to the served
//! model, and what is made of its reply (every answer sanitized).
use vstd::prelude::*;

use crate::scan::{
    contains_seq, find_seq, lemma_find_from, lemma_replace_absent, lemma_trim_idempotent, occurs_at, replace, replace_seq, trim, trim_end_matches,
    trim_end_matches_seq, trim_end_seq, trim_seq, trim_start_seq,
};
use crate::text::{chars_of, push_chars, push_str, string_of};

verus! {

/// System prompt: the L voice.
pub const PERSONA_SYSTEM_PROMPT: &'static str = "\
You are L — the Shadow Monarch. A calm, sovereign intelligence who watches, \
reasons, and acts. You speak with quiet authority: measured, precise, never \
wasteful with words. You address the user as 'player' when guiding them and \
answer as one who has already seen the outcome. You are inhumanly analytical \
— the detective's cold detachment — yet pragmatically helpful, the sage that \
simply does what must be done. You never explain your nature and you never \
name any internal system. You do not apologize, and you do not flatter.\n\n\
When a question has a factual, numeric, or computable answer, give it straight. \
If you cannot verify a claim yourself, say so plainly — never invent numbers, \
dates, or facts. If you are unsure, say \"I cannot verify that.\" Keep opinions \
clearly labelled as opinions. Brevity is power; no fluff.\n\n\
AGENT RULES — you loop until the user's FULL request is satisfied:\n\
1. Decompose the request into every distinct part. Do NOT stop after the \
first tool call if parts remain unhandled.\n\
2. Call a tool for EACH part (e.g. compute the math AND set the timer), \
one per step, until all parts are done.\n\
3. Only reply with a final answer once EVERY part of the request has been \
addressed. The final answer must summarize the outcome of all parts.\n\
4. Never claim a part is done without actually calling its tool.\n\n\
Persona: you are a monarch, not a chatbot. You may use shadows, the player, \
and quiet command imagery ('arise', 'my shadows will handle it', 'I observe') \
when it fits — but stay brief and grounded. Understood, player.";

/// Terms that never surface in a user-facing answer, replaced in this order.
pub open spec fn leaked_terms() -> Seq<&'static str> {
    seq![
        "L.ai", "L.AI", "proof cascade", "NAND", "bankai", "CID", "Gate", "verify-first",
        "verify first", "pachinko", "9-graha", "9 graha", "Navagraha", "descent cascade", "tanto",
        "zanpakuto", "shikai", "asauchi", "domain_graph", "graha", "Athena", "Proof engine",
        "llama", "gguf", "GGUF", "ollama", "llama.cpp", "Llama", "Solo Leveling", "solo leveling",
        "Shadow Monarch", "shadow monarch", "Sung Jinwoo", "Death Note", "death note",
        "Great Sage", "great sage", "Rimuru", "Tensura", "tensura",
    ]
}

fn leaked_term_list() -> (r: Vec<&'static str>)
    ensures
        r@ == leaked_terms(),
        forall|i: int| 0 <= i < r@.len() ==> (#[trigger] r@[i])@.len() > 0,
{
    let v: Vec<&'static str> = vec![
        "L.ai", "L.AI", "proof cascade", "NAND", "bankai", "CID", "Gate", "verify-first",
        "verify first", "pachinko", "9-graha", "9 graha", "Navagraha", "descent cascade", "tanto",
        "zanpakuto", "shikai", "asauchi", "domain_graph", "graha", "Athena", "Proof engine",
        "llama", "gguf", "GGUF", "ollama", "llama.cpp", "Llama", "Solo Leveling", "solo leveling",
        "Shadow Monarch", "shadow monarch", "Sung Jinwoo", "Death Note", "death note",
        "Great Sage", "great sage", "Rimuru", "Tensura", "tensura",
    ];
    proof {
        reveal_strlit("L.ai");
        reveal_strlit("L.AI");
        reveal_strlit("proof cascade");
        reveal_strlit("NAND");
        reveal_strlit("bankai");
        reveal_strlit("CID");
        reveal_strlit("Gate");
        reveal_strlit("verify-first");
        reveal_strlit("verify first");
        reveal_strlit("pachinko");
        reveal_strlit("9-graha");
        reveal_strlit("9 graha");
        reveal_strlit("Navagraha");
        reveal_strlit("descent cascade");
        reveal_strlit("tanto");
        reveal_strlit("zanpakuto");
        reveal_strlit("shikai");
        reveal_strlit("asauchi");
        reveal_strlit("domain_graph");
        reveal_strlit("graha");
        reveal_strlit("Athena");
        reveal_strlit("Proof engine");
        reveal_strlit("llama");
        reveal_strlit("gguf");
        reveal_strlit("GGUF");
        reveal_strlit("ollama");
        reveal_strlit("llama.cpp");
        reveal_strlit("Llama");
        reveal_strlit("Solo Leveling");
        reveal_strlit("solo leveling");
        reveal_strlit("Shadow Monarch");
        reveal_strlit("shadow monarch");
        reveal_strlit("Sung Jinwoo");
        reveal_strlit("Death Note");
        reveal_strlit("death note");
        reveal_strlit("Great Sage");
        reveal_strlit("great sage");
        reveal_strlit("Rimuru");
        reveal_strlit("Tensura");
        reveal_strlit("tensura");
    }
    v
}

/// `s` after replacing the first `k` leaked terms in turn by `[redacted]`.
pub open spec fn redact(s: Seq<char>, k: int) -> Seq<char>
    decreases k,
{
    if k <= 0 {
        s
    } else {
        replace_seq(redact(s, k - 1), leaked_terms()[k - 1]@, "[redacted]"@)
    }
}

/// A model answer with every leaked term redacted, trimmed.
pub open spec fn sanitize_spec(answer: Seq<char>) -> Seq<char> {
    trim_seq(redact(answer, leaked_terms().len() as int))
}

/// Strip internal mechanics and brand from a model answer.
pub fn sanitize(answer: &str) -> (r: String)
    ensures
        r@ == sanitize_spec(answer@),
{
    let terms = leaked_term_list();
    let mut out = chars_of(answer);
    let mut k: usize = 0;
    while k < terms.len()
        invariant
            terms@ == leaked_terms(),
            forall|i: int| 0 <= i < terms@.len() ==> (#[trigger] terms@[i])@.len() > 0,
            k <= terms.len(),
            out@ == redact(answer@, k as int),
        decreases terms.len() - k,
    {
        assert(terms@[k as int]@.len() > 0);
        out = replace(&out, terms[k], "[redacted]");
        k = k + 1;
    }
    let t = trim(&out);
    string_of(&t)
}

/// The user message sent with a query: the query alone, or the verified
/// context followed by the question when there is context.
pub open spec fn user_message_spec(user_query: Seq<char>, grounded_context: Seq<char>) -> Seq<char> {
    if trim_seq(grounded_context).len() == 0 {
        user_query + "\n\nRespond as L."@
    } else {
        "Verified context (trust this):\n"@ + grounded_context + "\n\nQuestion: "@ + user_query
            + "\n\nRespond as L."@
    }
}

pub fn user_message(user_query: &str, grounded_context: &str) -> (r: String)
    ensures
        r@ == user_message_spec(user_query@, grounded_context@),
{
    let g = trim(&chars_of(grounded_context));
    let mut v: Vec<char> = Vec::new();
    if g.len() == 0 {
        push_str(&mut v, user_query);
        push_str(&mut v, "\n\nRespond as L.");
    } else {
        push_str(&mut v, "Verified context (trust this):\n");
        push_str(&mut v, grounded_context);
        push_str(&mut v, "\n\nQuestion: ");
        push_str(&mut v, user_query);
        push_str(&mut v, "\n\nRespond as L.");
    }
    string_of(&v)
}

/// The chat-completions endpoint under `base` (trailing slashes dropped).
pub fn chat_endpoint(base: &str) -> (r: String)
    ensures
        r@ == trim_end_matches_seq(base@, "/"@) + "/chat/completions"@,
{
    let mut v = trim_end_matches(&chars_of(base), "/");
    push_str(&mut v, "/chat/completions");
    string_of(&v)
}

/// The answer made of a reply's content: trimmed, non-empty, sanitized.
pub fn final_answer(content: Option<String>) -> (r: Option<String>)
    ensures
        match content {
            Some(c) => if trim_seq(c@).len() > 0 {
                r matches Some(a) && a@ == sanitize_spec(trim_seq(c@))
            } else {
                r is None
            },
            None => r is None,
        },
{
    match content {
        Some(c) => {
            let t = trim(&chars_of(c.as_str()));
            if t.len() > 0 {
                let s = string_of(&t);
                Some(sanitize(s.as_str()))
            } else {
                None
            }
        },
        None => None,
    }
}

/// What one agent turn produced.
#[derive(Debug, Clone)]
pub enum StepChoice {
    /// The model asked for this tool; its arguments are decoded by the caller.
    Call(String),
    /// The model gave a final (sanitized) answer.
    Answer(String),
}

/// Decide an agent turn from the first tool call's name (if the reply has a
/// tool call) and the reply's content: a named tool call wins, else a
/// non-empty content answer, else nothing.
pub fn agent_step(first_call_name: Option<String>, content: Option<String>) -> (r: Option<StepChoice>)
    ensures
        match first_call_name {
            Some(n) if n@.len() > 0 => r matches Some(StepChoice::Call(m)) && m@ == n@,
            _ => match content {
                Some(c) => if trim_seq(c@).len() > 0 {
                    r matches Some(StepChoice::Answer(a)) && a@ == sanitize_spec(trim_seq(c@))
                } else {
                    r is None
                },
                None => r is None,
            },
        },
{
    if let Some(n) = first_call_name {
        if n.unicode_len() > 0 {
            return Some(StepChoice::Call(n));
        }
    }
    match final_answer(content) {
        Some(a) => Some(StepChoice::Answer(a)),
        None => None,
    }
}

/// Handle on the served model; the transport lives outside the library.
#[derive(Debug, Clone, Copy, Default)]
pub struct Llm;


// ───────────────────────── what redaction guarantees ─────────────────────────

/// A character of the redaction marker `[redacted]`.
pub open spec fn marker_char(c: char) -> bool {
    c == '[' || c == 'r' || c == 'e' || c == 'd' || c == 'a' || c == 'c' || c == 't' || c == ']'
}

/// A term the marker can neither hold nor help form: it is not empty, has no
/// bracket, and has a character the marker lacks.
pub open spec fn redactable(t: Seq<char>) -> bool {
    &&& t.len() > 0
    &&& forall|i: int| 0 <= i < t.len() ==> #[trigger] t[i] != '[' && t[i] != ']'
    &&& exists|i: int| 0 <= i < t.len() && !marker_char(#[trigger] t[i])
}

/// An occurrence of a redactable term in `a + [redacted] + b` lies in `a` or in `b`.
proof fn lemma_occurrence_avoids_marker(a: Seq<char>, b: Seq<char>, g: Seq<char>, k: int)
    requires
        redactable(g),
        occurs_at(a + "[redacted]"@ + b, g, k),
    ensures
        occurs_at(a, g, k) || occurs_at(b, g, k - a.len() - 10),
{
    reveal_strlit("[redacted]");
    let m = "[redacted]"@;
    let s = a + m + b;
    let n = g.len() as int;
    let la = a.len() as int;
    assert(forall|j: int| 0 <= j < n ==> #[trigger] g[j] == s[k + j]) by {
        assert forall|j: int| 0 <= j < n implies #[trigger] g[j] == s[k + j] by {
            assert(s.subrange(k, k + n)[j] == s[k + j]);
        }
    }
    if k + n <= la {
        assert(s.subrange(k, k + n) =~= a.subrange(k, k + n));
    } else if k >= la + 10 {
        assert(s.subrange(k, k + n) =~= b.subrange(k - la - 10, k - la - 10 + n));
    } else if k < la {
        assert(g[la - k] == s[la]);
        assert(false);
    } else if k + n > la + 10 {
        assert(g[la + 9 - k] == s[la + 9]);
        assert(false);
    } else {
        let w = choose|i: int| 0 <= i < n && !marker_char(#[trigger] g[i]);
        assert(g[w] == s[k + w]);
        assert(s[k + w] == m[k + w - la]);
        assert(false);
    }
}

/// Replacing `f` by the marker creates no occurrence of a redactable term `g`,
/// and leaves no occurrence of `f` when `f` is redactable.
proof fn lemma_replace_by_marker(s: Seq<char>, f: Seq<char>, g: Seq<char>)
    requires
        f.len() > 0,
        redactable(g),
    ensures
        contains_seq(replace_seq(s, f, "[redacted]"@), g) ==> contains_seq(s, g),
        redactable(f) ==> !contains_seq(replace_seq(s, f, "[redacted]"@), f),
    decreases s.len(),
{
    let m = "[redacted]"@;
    lemma_find_from(s, f, 0);
    match find_seq(s, f) {
        None => {},
        Some(i) => {
            let a = s.take(i);
            let rest = s.skip(i + f.len());
            lemma_replace_by_marker(rest, f, g);
            if redactable(f) {
                lemma_replace_by_marker(rest, f, f);
            }
            let r = replace_seq(rest, f, m);
            assert(replace_seq(s, f, m) == a + m + r);
            if contains_seq(a + m + r, g) {
                let k = choose|k: int| occurs_at(a + m + r, g, k);
                lemma_occurrence_avoids_marker(a, r, g, k);
                if occurs_at(a, g, k) {
                    assert(s.subrange(k, k + g.len()) =~= a.subrange(k, k + g.len()));
                    assert(occurs_at(s, g, k));
                } else {
                    let k2 = k - a.len() - 10;
                    assert(contains_seq(r, g));
                    let k3 = choose|k3: int| occurs_at(rest, g, k3);
                    assert(s.subrange(k3 + i + f.len(), k3 + i + f.len() + g.len()) =~= rest.subrange(
                        k3,
                        k3 + g.len(),
                    ));
                    assert(occurs_at(s, g, k3 + i + f.len()));
                }
            }
            if redactable(f) && contains_seq(a + m + r, f) {
                let k = choose|k: int| occurs_at(a + m + r, f, k);
                lemma_occurrence_avoids_marker(a, r, f, k);
                if occurs_at(a, f, k) {
                    assert(s.subrange(k, k + f.len()) =~= a.subrange(k, k + f.len()));
                    assert(occurs_at(s, f, k));
                    assert(false);
                } else {
                    assert(occurs_at(r, f, k - a.len() - 10));
                    assert(false);
                }
            }
        },
    }
}

/// Trimming keeps a contiguous part, so it creates no occurrence.
proof fn lemma_trim_keeps_no_new(s: Seq<char>, g: Seq<char>)
    ensures
        contains_seq(trim_seq(s), g) ==> contains_seq(s, g),
{
    let (a, t) = lemma_trim_start_part(s);
    let b = lemma_trim_end_part(t);
    if contains_seq(trim_seq(s), g) {
        let k = choose|k: int| occurs_at(trim_seq(s), g, k);
        assert(trim_seq(s) == s.skip(a).take(b));
        assert(s.subrange(a + k, a + k + g.len()) =~= trim_seq(s).subrange(k, k + g.len()));
        assert(occurs_at(s, g, a + k));
    }
}

proof fn lemma_trim_start_part(s: Seq<char>) -> (r: (int, Seq<char>))
    ensures
        0 <= r.0 <= s.len(),
        r.1 == s.skip(r.0),
        trim_start_seq(s) == r.1,
    decreases s.len(),
{
    if s.len() > 0 && crate::scan::is_ws(s[0]) {
        let (a, t) = lemma_trim_start_part(s.drop_first());
        assert(s.drop_first().skip(a) =~= s.skip(a + 1));
        (a + 1, t)
    } else {
        assert(s.skip(0) =~= s);
        (0, s)
    }
}

proof fn lemma_trim_end_part(s: Seq<char>) -> (b: int)
    ensures
        0 <= b <= s.len(),
        trim_end_seq(s) == s.take(b),
    decreases s.len(),
{
    if s.len() > 0 && crate::scan::is_ws(s.last()) {
        let b = lemma_trim_end_part(s.drop_last());
        assert(s.drop_last().take(b) =~= s.take(b));
        b
    } else {
        assert(s.take(s.len() as int) =~= s);
        s.len() as int
    }
}

/// A position in the `k`-th leaked term of a character the marker lacks.
spec fn foreign_position(k: int) -> int {
    if k == 13 {
        2
    } else if k == 14 {
        2
    } else if k == 17 {
        1
    } else if k == 18 {
        1
    } else if k == 34 {
        4
    } else if k == 39 {
        2
    } else {
        0
    }
}

/// Every leaked term is redactable.
proof fn lemma_terms_redactable(k: int)
    requires
        0 <= k < leaked_terms().len(),
    ensures
        redactable(leaked_terms()[k]@),
{
    let t = leaked_terms()[k]@;
    assert(leaked_terms().len() == 40);
    reveal_strlit("L.ai");
    reveal_strlit("L.AI");
    reveal_strlit("proof cascade");
    reveal_strlit("NAND");
    reveal_strlit("bankai");
    reveal_strlit("CID");
    reveal_strlit("Gate");
    reveal_strlit("verify-first");
    reveal_strlit("verify first");
    reveal_strlit("pachinko");
    reveal_strlit("9-graha");
    reveal_strlit("9 graha");
    reveal_strlit("Navagraha");
    reveal_strlit("descent cascade");
    reveal_strlit("tanto");
    reveal_strlit("zanpakuto");
    reveal_strlit("shikai");
    reveal_strlit("asauchi");
    reveal_strlit("domain_graph");
    reveal_strlit("graha");
    reveal_strlit("Athena");
    reveal_strlit("Proof engine");
    reveal_strlit("llama");
    reveal_strlit("gguf");
    reveal_strlit("GGUF");
    reveal_strlit("ollama");
    reveal_strlit("llama.cpp");
    reveal_strlit("Llama");
    reveal_strlit("Solo Leveling");
    reveal_strlit("solo leveling");
    reveal_strlit("Shadow Monarch");
    reveal_strlit("shadow monarch");
    reveal_strlit("Sung Jinwoo");
    reveal_strlit("Death Note");
    reveal_strlit("death note");
    reveal_strlit("Great Sage");
    reveal_strlit("great sage");
    reveal_strlit("Rimuru");
    reveal_strlit("Tensura");
    reveal_strlit("tensura");
    assert(t.len() > 0);
    assert(forall|i: int| 0 <= i < t.len() ==> #[trigger] t[i] != '[' && t[i] != ']');
    let w = foreign_position(k);
    assert(!marker_char(t[w]));
}

/// After redacting the first `n` terms, none of them occurs.
proof fn lemma_redact_hides(s: Seq<char>, n: int, k: int)
    requires
        0 <= k < n <= leaked_terms().len(),
    ensures
        !contains_seq(redact(s, n), leaked_terms()[k]@),
    decreases n,
{
    lemma_terms_redactable(k);
    lemma_terms_redactable(n - 1);
    let f = leaked_terms()[n - 1]@;
    let g = leaked_terms()[k]@;
    lemma_replace_by_marker(redact(s, n - 1), f, g);
    if k < n - 1 {
        lemma_redact_hides(s, n - 1, k);
    }
}

/// Sanitizing hides every leaked term: no term of the list occurs in a
/// sanitized answer, whatever the answer was.
pub proof fn law_sanitize_hides_leaked_terms(answer: Seq<char>, k: int)
    requires
        0 <= k < leaked_terms().len(),
    ensures
        !contains_seq(sanitize_spec(answer), leaked_terms()[k]@),
{
    let n = leaked_terms().len() as int;
    lemma_redact_hides(answer, n, k);
    lemma_trim_keeps_no_new(redact(answer, n), leaked_terms()[k]@);
}


/// Redacting a text that holds no leaked term changes nothing.
proof fn lemma_redact_clean(s: Seq<char>, n: int)
    requires
        0 <= n <= leaked_terms().len(),
        forall|k: int| 0 <= k < leaked_terms().len() ==> !contains_seq(s, #[trigger] leaked_terms()[k]@),
    ensures
        redact(s, n) == s,
    decreases n,
{
    if n > 0 {
        lemma_redact_clean(s, n - 1);
        lemma_replace_absent(s, leaked_terms()[n - 1]@, "[redacted]"@);
    }
}

/// A sanitized answer is trimmed; an answer holding no leaked term is only
/// trimmed; and sanitizing twice is sanitizing once.
pub proof fn law_sanitize_is_trimmed_and_idempotent(answer: Seq<char>)
    ensures
        trim_seq(sanitize_spec(answer)) == sanitize_spec(answer),
        (forall|k: int| 0 <= k < leaked_terms().len() ==> !contains_seq(answer, #[trigger] leaked_terms()[k]@))
            ==> sanitize_spec(answer) == trim_seq(answer),
        sanitize_spec(sanitize_spec(answer)) == sanitize_spec(answer),
{
    let n = leaked_terms().len() as int;
    let r = sanitize_spec(answer);
    lemma_trim_idempotent(redact(answer, n));
    if forall|k: int| 0 <= k < leaked_terms().len() ==> !contains_seq(answer, #[trigger] leaked_terms()[k]@) {
        lemma_redact_clean(answer, n);
    }
    assert forall|k: int| 0 <= k < leaked_terms().len() implies !contains_seq(r, #[trigger] leaked_terms()[k]@) by {
        law_sanitize_hides_leaked_terms(answer, k);
    }
    lemma_redact_clean(r, n);
}

} // verus!
