//! Gate validation: comparison policies, per-gate outcomes and their
//! aggregate, the stable validation verdict, domain binding of content words,
//! proof recomputation and bracket balance.
use vstd::prelude::*;

use crate::scan::{contains_chars, contains_seq, find_seq, join, join_seq, trim, trim_seq};
use crate::text::{
    alphanumeric, chars_of, decimal, push_decimal, push_six_digits, six_digits, eq_str, is_alphanumeric, lowercase, push_str, string_of, to_lowercase,
    utf8_len, utf8_len_at_least,
};

verus! {

// ───────────────────────── policies ─────────────────────────

/// PCN comparison policy under which a displayed number is verified.
#[derive(Debug, Clone, Copy, PartialEq, Eq, Structural)]
pub enum Policy {
    Exact,
    Rounded,
    Alias,
    Tolerance,
}

impl Policy {
    pub open spec fn text(self) -> Seq<char> {
        match self {
            Policy::Exact => "exact"@,
            Policy::Rounded => "rounded"@,
            Policy::Alias => "alias"@,
            Policy::Tolerance => "tolerance"@,
        }
    }

    /// Stable lowercase string form.
    pub fn as_str(&self) -> (r: &'static str)
        ensures
            r@ == self.text(),
    {
        match self {
            Policy::Exact => "exact",
            Policy::Rounded => "rounded",
            Policy::Alias => "alias",
            Policy::Tolerance => "tolerance",
        }
    }
}

// ───────────────────────── outcomes ─────────────────────────

/// The outcome of running a single gate over a candidate: accepted, refuted,
/// or not judgeable either way.
#[derive(Debug, Clone, Copy, PartialEq, Eq, Structural)]
pub enum GateOutcome {
    Pass,
    Fail,
    Unevaluable,
}

impl GateOutcome {
    pub fn is_pass(&self) -> (r: bool)
        ensures
            r == (*self == GateOutcome::Pass),
    {
        matches!(self, GateOutcome::Pass)
    }

    pub fn is_fail(&self) -> (r: bool)
        ensures
            r == (*self == GateOutcome::Fail),
    {
        matches!(self, GateOutcome::Fail)
    }

    pub fn is_unevaluable(&self) -> (r: bool)
        ensures
            r == (*self == GateOutcome::Unevaluable),
    {
        matches!(self, GateOutcome::Unevaluable)
    }
}

/// The uniform threshold rule every gate's result goes through: a refutation
/// stays a refutation, an acceptance whose score falls below the pin's
/// threshold becomes unproven (`Unevaluable`), and anything else is kept.
pub fn threshold_outcome(outcome: GateOutcome, below_threshold: bool) -> (r: GateOutcome)
    ensures
        r == (if outcome == GateOutcome::Pass && below_threshold {
            GateOutcome::Unevaluable
        } else {
            outcome
        }),
        r == GateOutcome::Pass ==> outcome == GateOutcome::Pass && !below_threshold,
        outcome == GateOutcome::Fail ==> r == GateOutcome::Fail,
{
    if outcome.is_pass() && below_threshold {
        GateOutcome::Unevaluable
    } else {
        outcome
    }
}

/// The aggregate of a candidate's gate outcomes: `Fail` if any gate refuted
/// it, else `Unevaluable` if any gate could not judge it (or none ran), else `Pass`.
pub open spec fn aggregate(outs: Seq<GateOutcome>) -> GateOutcome {
    if outs.len() == 0 {
        GateOutcome::Unevaluable
    } else if exists|i: int| 0 <= i < outs.len() && outs[i] == GateOutcome::Fail {
        GateOutcome::Fail
    } else if exists|i: int| 0 <= i < outs.len() && outs[i] == GateOutcome::Unevaluable {
        GateOutcome::Unevaluable
    } else {
        GateOutcome::Pass
    }
}

/// Aggregate outcome across the recorded gate outcomes of one candidate.
pub fn overall_outcome(outcomes: &Vec<GateOutcome>) -> (r: GateOutcome)
    ensures
        r == aggregate(outcomes@),
{
    if outcomes.len() == 0 {
        return GateOutcome::Unevaluable;
    }
    let mut any_unevaluable = false;
    let mut i: usize = 0;
    while i < outcomes.len()
        invariant
            i <= outcomes.len(),
            forall|j: int| 0 <= j < i ==> outcomes@[j] != GateOutcome::Fail,
            any_unevaluable <==> exists|j: int|
                0 <= j < i && outcomes@[j] == GateOutcome::Unevaluable,
        decreases outcomes.len() - i,
    {
        if outcomes[i].is_fail() {
            return GateOutcome::Fail;
        }
        if outcomes[i].is_unevaluable() {
            any_unevaluable = true;
        }
        i = i + 1;
    }
    if any_unevaluable {
        GateOutcome::Unevaluable
    } else {
        GateOutcome::Pass
    }
}

/// Whether a candidate is accepted: at least one gate ran and every gate passed.
pub fn all_passed(outcomes: &Vec<GateOutcome>) -> (r: bool)
    ensures
        r == (outcomes@.len() > 0 && forall|i: int|
            0 <= i < outcomes@.len() ==> outcomes@[i] == GateOutcome::Pass),
{
    if outcomes.len() == 0 {
        return false;
    }
    let mut i: usize = 0;
    while i < outcomes.len()
        invariant
            i <= outcomes.len(),
            forall|j: int| 0 <= j < i ==> outcomes@[j] == GateOutcome::Pass,
        decreases outcomes.len() - i,
    {
        if !outcomes[i].is_pass() {
            return false;
        }
        i = i + 1;
    }
    true
}

/// A candidate's aggregate outcome is `Pass` exactly when it is accepted:
/// some gate ran and every gate passed. A single `Fail` makes it `Fail`.
pub proof fn law_pass_iff_every_gate_passes(outs: Seq<GateOutcome>)
    ensures
        aggregate(outs) == GateOutcome::Pass <==> (outs.len() > 0 && forall|i: int|
            0 <= i < outs.len() ==> outs[i] == GateOutcome::Pass),
        (exists|i: int| 0 <= i < outs.len() && outs[i] == GateOutcome::Fail) ==> aggregate(outs)
            == GateOutcome::Fail,
{
    if aggregate(outs) == GateOutcome::Pass {
        assert forall|i: int| 0 <= i < outs.len() implies outs[i] == GateOutcome::Pass by {
            if outs[i] == GateOutcome::Fail {
                assert(exists|i: int| 0 <= i < outs.len() && outs[i] == GateOutcome::Fail);
            } else if outs[i] == GateOutcome::Unevaluable {
                assert(exists|i: int| 0 <= i < outs.len() && outs[i] == GateOutcome::Unevaluable);
            }
        }
    }
}

/// What one gate concluded and the reason it gives (present for `Fail` and
/// `Unevaluable`); the numeric score is kept by the caller.
#[derive(Debug, Clone)]
pub struct GateFinding {
    pub outcome: GateOutcome,
    pub reason: Option<String>,
}

/// `r` carries outcome `o` and the reason text `m`.
pub open spec fn finding_is(r: GateFinding, o: GateOutcome, m: Option<Seq<char>>) -> bool {
    &&& r.outcome == o
    &&& match m {
        Some(t) => r.reason matches Some(s) && s@ == t,
        None => r.reason is None,
    }
}

fn finding(outcome: GateOutcome, reason: &str) -> (r: GateFinding)
    ensures
        finding_is(r, outcome, Some(reason@)),
{
    let v = chars_of(reason);
    GateFinding { outcome, reason: Some(string_of(&v)) }
}

// ───────────────────────── verdicts ─────────────────────────

/// Stable, machine-classifiable outcome of a validation.
#[derive(Debug, Clone, Copy, PartialEq, Eq, Structural)]
pub enum ValidationVerdict {
    Okay,
    Corrected,
    Failed,
    Unevaluable,
}

impl ValidationVerdict {
    pub open spec fn text(self) -> Seq<char> {
        match self {
            ValidationVerdict::Okay => "ok"@,
            ValidationVerdict::Corrected => "corrected"@,
            ValidationVerdict::Failed => "failed"@,
            ValidationVerdict::Unevaluable => "unevaluable"@,
        }
    }

    /// Stable lowercase string form.
    pub fn as_str(&self) -> (r: &'static str)
        ensures
            r@ == self.text(),
    {
        match self {
            ValidationVerdict::Okay => "ok",
            ValidationVerdict::Corrected => "corrected",
            ValidationVerdict::Failed => "failed",
            ValidationVerdict::Unevaluable => "unevaluable",
        }
    }
}

/// Renderer-facing tri-state view of a verdict.
#[derive(Debug, Clone, Copy, PartialEq, Eq, Structural)]
pub enum TriState {
    Verified,
    CantCheck,
    Flagged,
}

impl TriState {
    pub open spec fn text(self) -> Seq<char> {
        match self {
            TriState::Verified => "verified"@,
            TriState::CantCheck => "cant_check"@,
            TriState::Flagged => "flagged"@,
        }
    }

    /// Stable lowercase string form.
    pub fn as_str(&self) -> (r: &'static str)
        ensures
            r@ == self.text(),
    {
        match self {
            TriState::Verified => "verified",
            TriState::CantCheck => "cant_check",
            TriState::Flagged => "flagged",
        }
    }
}

/// The tri-state a verdict is shown as.
pub open spec fn tri_of(v: ValidationVerdict) -> TriState {
    match v {
        ValidationVerdict::Okay | ValidationVerdict::Corrected => TriState::Verified,
        ValidationVerdict::Failed => TriState::Flagged,
        ValidationVerdict::Unevaluable => TriState::CantCheck,
    }
}

/// What a validation's verdict is decided from: how many gates reported a
/// score, whether the claim passed, and how many fixes were applied.
#[derive(Debug, Clone, Copy, PartialEq, Eq, Structural)]
pub struct ValidationFacts {
    pub gate_count: usize,
    pub passed: bool,
    pub fix_count: usize,
}

impl ValidationFacts {
    /// `Unevaluable` without gate scores; otherwise `Failed` unless the claim
    /// passed; otherwise `Corrected` if fixes were applied, and `Okay` if none were.
    pub open spec fn verdict_spec(self) -> ValidationVerdict {
        if self.gate_count == 0 {
            ValidationVerdict::Unevaluable
        } else if !self.passed {
            ValidationVerdict::Failed
        } else if self.fix_count > 0 {
            ValidationVerdict::Corrected
        } else {
            ValidationVerdict::Okay
        }
    }

    pub fn verdict(&self) -> (r: ValidationVerdict)
        ensures
            r == self.verdict_spec(),
    {
        if self.gate_count == 0 {
            return ValidationVerdict::Unevaluable;
        }
        if !self.passed {
            return ValidationVerdict::Failed;
        }
        if self.fix_count > 0 {
            return ValidationVerdict::Corrected;
        }
        ValidationVerdict::Okay
    }

    /// Whether any fix was applied.
    pub fn has_fixes(&self) -> (r: bool)
        ensures
            r == (self.fix_count > 0),
    {
        self.fix_count > 0
    }

    pub fn tri_state(&self) -> (r: TriState)
        ensures
            r == tri_of(self.verdict_spec()),
    {
        match self.verdict() {
            ValidationVerdict::Okay | ValidationVerdict::Corrected => TriState::Verified,
            ValidationVerdict::Failed => TriState::Flagged,
            ValidationVerdict::Unevaluable => TriState::CantCheck,
        }
    }
}

/// A claim that passed with fixes applied is never reported `Ok`: it is
/// `Corrected`, and it is shown as verified.
pub proof fn law_corrected_never_ok(f: ValidationFacts)
    requires
        f.gate_count > 0,
        f.passed,
        f.fix_count > 0,
    ensures
        f.verdict_spec() == ValidationVerdict::Corrected,
        tri_of(f.verdict_spec()) == TriState::Verified,
{
}

// ───────────────────────── domain binding ─────────────────────────

/// Content words shorter than this many bytes carry no domain weight.
pub const MIN_WORD_LEN: usize = 3;

/// Words that never need grounding.
pub open spec fn stopwords() -> Seq<&'static str> {
    seq![
        "the", "and", "for", "are", "but", "not", "you", "all", "any", "can", "has", "was",
        "were", "will", "with", "that", "this", "from", "into", "than", "then", "they", "them",
        "his", "her", "its", "our", "your", "their", "there", "here", "what", "when", "where",
        "which", "who", "why", "how", "also", "may", "might", "must", "shall", "should",
        "would", "could", "does", "did", "each", "more", "most", "some", "such", "only",
        "over", "under", "between", "within", "without",
    ]
}

pub open spec fn is_stop(w: Seq<char>) -> bool {
    exists|i: int| 0 <= i < stopwords().len() && (#[trigger] stopwords()[i])@ == w
}

/// Length of the leading run of alphanumeric characters of `s`.
pub open spec fn alnum_run(s: Seq<char>) -> nat
    decreases s.len(),
{
    if s.len() == 0 || !alphanumeric(s[0]) {
        0
    } else {
        1 + alnum_run(s.drop_first())
    }
}

pub proof fn lemma_alnum_run(s: Seq<char>)
    ensures
        alnum_run(s) <= s.len(),
        forall|j: int| 0 <= j < alnum_run(s) ==> alphanumeric(#[trigger] s[j]),
        alnum_run(s) < s.len() ==> !alphanumeric(s[alnum_run(s) as int]),
    decreases s.len(),
{
    if s.len() > 0 && alphanumeric(s[0]) {
        lemma_alnum_run(s.drop_first());
        assert forall|j: int| 0 <= j < alnum_run(s) implies alphanumeric(#[trigger] s[j]) by {
            if j > 0 {
                assert(s[j] == s.drop_first()[j - 1]);
            }
        }
    }
}

/// The pieces of `s` between non-alphanumeric characters, empty ones included
/// (`str::split` with the predicate `!c.is_alphanumeric()`).
pub open spec fn alnum_pieces(s: Seq<char>) -> Seq<Seq<char>>
    decreases s.len(),
{
    proof {
        lemma_alnum_run(s);
    }
    if alnum_run(s) >= s.len() {
        seq![s]
    } else {
        seq![s.take(alnum_run(s) as int)] + alnum_pieces(s.skip(alnum_run(s) + 1 as int))
    }
}

/// The trimmed, lowercased pieces that must be grounded: at least
/// `MIN_WORD_LEN` bytes long and not stopwords.
pub open spec fn keep_content(ws: Seq<Seq<char>>) -> Seq<Seq<char>>
    decreases ws.len(),
{
    if ws.len() == 0 {
        seq![]
    } else {
        let w = lowercase(trim_seq(ws.last()));
        let rest = keep_content(ws.drop_last());
        if utf8_len(w) >= MIN_WORD_LEN && !is_stop(w) {
            rest.push(w)
        } else {
            rest
        }
    }
}

/// The content words of `text`.
pub open spec fn content_words_spec(text: Seq<char>) -> Seq<Seq<char>> {
    keep_content(alnum_pieces(text))
}

/// The words of `ws` that do not occur in `context`.
pub open spec fn unbound(ws: Seq<Seq<char>>, context: Seq<char>) -> Seq<Seq<char>>
    decreases ws.len(),
{
    if ws.len() == 0 {
        seq![]
    } else if contains_seq(context, ws.last()) {
        unbound(ws.drop_last(), context)
    } else {
        unbound(ws.drop_last(), context).push(ws.last())
    }
}

/// `r` is the binding finding for content words `ws` against the lowercased context `ctx`.
pub open spec fn binding_finding(r: GateFinding, ctx: Seq<char>, ws: Seq<Seq<char>>) -> bool {
    if ctx.len() == 0 {
        finding_is(r, GateOutcome::Unevaluable, Some("no verified grounding context supplied"@))
    } else if ws.len() == 0 {
        finding_is(r, GateOutcome::Unevaluable, Some("no content words requiring domain binding"@))
    } else if unbound(ws, ctx).len() == 0 {
        finding_is(r, GateOutcome::Pass, None)
    } else {
        finding_is(
            r,
            GateOutcome::Fail,
            Some("unbound content words (no provenance): "@ + join_seq(unbound(ws, ctx), ", "@)),
        )
    }
}

/// Views of a vector of character vectors.
pub open spec fn views(v: Seq<Vec<char>>) -> Seq<Seq<char>> {
    v.map_values(|w: Vec<char>| w@)
}

/// Refuses a token whose content words are not grounded in the verified context.
#[derive(Debug, Clone, Copy)]
pub struct DomainBindingGate;

impl DomainBindingGate {
    pub fn new() -> Self {
        DomainBindingGate
    }

    fn is_stopword(w: &Vec<char>) -> (r: bool)
        ensures
            r == is_stop(w@),
    {
        let stop: Vec<&'static str> = vec![
            "the", "and", "for", "are", "but", "not", "you", "all", "any", "can", "has", "was",
            "were", "will", "with", "that", "this", "from", "into", "than", "then", "they", "them",
            "his", "her", "its", "our", "your", "their", "there", "here", "what", "when", "where",
            "which", "who", "why", "how", "also", "may", "might", "must", "shall", "should",
            "would", "could", "does", "did", "each", "more", "most", "some", "such", "only",
            "over", "under", "between", "within", "without",
        ];
        assert(stop@ == stopwords());
        let mut i: usize = 0;
        while i < stop.len()
            invariant
                stop@ == stopwords(),
                i <= stop.len(),
                forall|j: int| 0 <= j < i ==> (#[trigger] stopwords()[j])@ != w@,
            decreases stop.len() - i,
        {
            if eq_str(w, stop[i]) {
                return true;
            }
            i = i + 1;
        }
        false
    }

    /// The pieces of `text` between non-alphanumeric characters.
    fn pieces(text: &Vec<char>) -> (r: Vec<Vec<char>>)
        ensures
            views(r@) == alnum_pieces(text@),
    {
        let mut out: Vec<Vec<char>> = Vec::new();
        let mut cur: Vec<char> = Vec::new();
        let mut start: usize = 0;
        let mut i: usize = 0;
        proof {
            assert(text@.skip(0) =~= text@);
            assert(views(out@) + alnum_pieces(text@.skip(0)) =~= alnum_pieces(text@));
        }
        while i < text.len()
            invariant
                start <= i <= text.len(),
                cur@ == text@.subrange(start as int, i as int),
                forall|j: int| start <= j < i ==> alphanumeric(#[trigger] text@[j]),
                views(out@) + alnum_pieces(text@.skip(start as int)) == alnum_pieces(text@),
            decreases text.len() - i,
        {
            let c = text[i];
            if is_alphanumeric(c) {
                cur.push(c);
                i = i + 1;
                proof {
                    assert(cur@ =~= text@.subrange(start as int, i as int));
                }
            } else {
                let ghost rest = text@.skip(start as int);
                proof {
                    lemma_alnum_run_at(rest, (i - start) as int);
                    assert(rest.take(alnum_run(rest) as int) =~= cur@);
                    assert(rest.skip(alnum_run(rest) + 1 as int) =~= text@.skip(i + 1));
                    assert(views(out@.push(cur)) =~= views(out@).push(cur@));
                }
                out.push(cur);
                cur = Vec::new();
                i = i + 1;
                start = i;
                proof {
                    assert(cur@ =~= text@.subrange(start as int, i as int));
                }
            }
        }
        let ghost rest = text@.skip(start as int);
        proof {
            lemma_alnum_run_at(rest, (i - start) as int);
            assert(cur@ =~= rest);
            assert(views(out@.push(cur)) =~= views(out@).push(cur@));
        }
        out.push(cur);
        out
    }

    /// The lowercase content words of `text` that must be grounded.
    pub fn content_words(text: &Vec<char>) -> (r: Vec<Vec<char>>)
        ensures
            views(r@) == content_words_spec(text@),
    {
        let ps = Self::pieces(text);
        let mut out: Vec<Vec<char>> = Vec::new();
        let mut i: usize = 0;
        while i < ps.len()
            invariant
                i <= ps.len(),
                views(ps@) == alnum_pieces(text@),
                views(out@) == keep_content(views(ps@).take(i as int)),
            decreases ps.len() - i,
        {
            let t = trim(&ps[i]);
            let w = to_lowercase(&t);
            proof {
                let tk = views(ps@).take(i + 1);
                assert(tk.drop_last() =~= views(ps@).take(i as int));
                assert(tk.last() == ps@[i as int]@);
            }
            if utf8_len_at_least(&w, MIN_WORD_LEN) && !Self::is_stopword(&w) {
                proof {
                    assert(views(out@.push(w)) =~= views(out@).push(w@));
                }
                out.push(w);
            }
            i = i + 1;
        }
        proof {
            assert(views(ps@).take(i as int) =~= views(ps@));
        }
        out
    }

    /// Whether `word` occurs in the lowercased context.
    pub fn grounded(word: &Vec<char>, context_lower: &Vec<char>) -> (r: bool)
        ensures
            r == contains_seq(context_lower@, word@),
    {
        contains_chars(context_lower, word)
    }

    /// The binding verdict given the lowercased context and the token's
    /// content words: `Unevaluable` without context or without content words,
    /// `Pass` when every word occurs in the context, else `Fail` naming the
    /// unbound words.
    pub fn binding_verdict(context_lower: &Vec<char>, words: &Vec<Vec<char>>) -> (r: GateFinding)
        ensures
            binding_finding(r, context_lower@, views(words@)),
    {
        if context_lower.len() == 0 {
            return finding(GateOutcome::Unevaluable, "no verified grounding context supplied");
        }
        if words.len() == 0 {
            return finding(GateOutcome::Unevaluable, "no content words requiring domain binding");
        }
        let mut ungrounded: Vec<Vec<char>> = Vec::new();
        let mut i: usize = 0;
        while i < words.len()
            invariant
                i <= words.len(),
                views(ungrounded@) == unbound(views(words@).take(i as int), context_lower@),
            decreases words.len() - i,
        {
            proof {
                let tk = views(words@).take(i + 1);
                assert(tk.drop_last() =~= views(words@).take(i as int));
                assert(tk.last() == words@[i as int]@);
            }
            if !Self::grounded(&words[i], context_lower) {
                let w = crate::text::slice_chars(&words[i], 0, words[i].len());
                proof {
                    assert(w@ =~= words@[i as int]@);
                    assert(views(ungrounded@.push(w)) =~= views(ungrounded@).push(w@));
                }
                ungrounded.push(w);
            }
            i = i + 1;
        }
        proof {
            assert(views(words@).take(i as int) =~= views(words@));
        }
        if ungrounded.len() == 0 {
            GateFinding { outcome: GateOutcome::Pass, reason: None }
        } else {
            let mut msg: Vec<char> = Vec::new();
            push_str(&mut msg, "unbound content words (no provenance): ");
            let detail = join(&ungrounded, ", ");
            crate::text::push_chars(&mut msg, &detail);
            GateFinding { outcome: GateOutcome::Fail, reason: Some(string_of(&msg)) }
        }
    }

    /// The binding verdict on `token` against `context`: the context and the
    /// token's content words lowercased (std's `to_lowercase`), then
    /// `binding_verdict`.
    pub fn validate(&self, token: &str, context: &str) -> (r: GateFinding)
        ensures
            binding_finding(r, lowercase(context@), content_words_spec(trim_seq(token@))),
    {
        let tok = trim(&chars_of(token));
        let ctx = to_lowercase(&chars_of(context));
        let words = Self::content_words(&tok);
        Self::binding_verdict(&ctx, &words)
    }
}

/// Unfolding `alnum_run` once a run of `k` alphanumerics ends at position `k`.
proof fn lemma_alnum_run_at(s: Seq<char>, k: int)
    requires
        0 <= k <= s.len(),
        forall|j: int| 0 <= j < k ==> alphanumeric(#[trigger] s[j]),
        k < s.len() ==> !alphanumeric(s[k]),
    ensures
        alnum_run(s) == k,
    decreases k,
{
    if k > 0 {
        assert forall|j: int| 0 <= j < k - 1 implies alphanumeric(#[trigger] s.drop_first()[j]) by {
            assert(s.drop_first()[j] == s[j + 1]);
        }
        if k < s.len() {
            assert(s.drop_first()[k - 1] == s[k]);
        }
        lemma_alnum_run_at(s.drop_first(), k - 1);
    }
}

// ───────────────────────── proof recomputation ─────────────────────────

/// A claim asserting an equation must recompute; anything else has no proof to check.
#[derive(Debug, Clone, Copy)]
pub struct ProofRecomputeGate;

impl ProofRecomputeGate {
    pub fn new() -> Self {
        ProofRecomputeGate
    }

    /// The recomputation verdict on `token`, given the math gate's outcome on it:
    /// `Unevaluable` without an `=`, else the math outcome carried over.
    pub fn validate(&self, token: &str, math: GateOutcome) -> (r: GateFinding)
        ensures
            !token@.contains('=') ==> finding_is(
                r,
                GateOutcome::Unevaluable,
                Some("no recomputable claim to verify"@),
            ),
            token@.contains('=') ==> match math {
                GateOutcome::Pass => finding_is(r, GateOutcome::Pass, None),
                GateOutcome::Fail => finding_is(
                    r,
                    GateOutcome::Fail,
                    Some("claim does not recompute (proof mismatch)"@),
                ),
                GateOutcome::Unevaluable => finding_is(
                    r,
                    GateOutcome::Unevaluable,
                    Some("no recomputable claim to verify"@),
                ),
            },
    {
        let t = chars_of(token);
        if !crate::scan::has_char(&t, '=') {
            return finding(GateOutcome::Unevaluable, "no recomputable claim to verify");
        }
        match math {
            GateOutcome::Pass => GateFinding { outcome: GateOutcome::Pass, reason: None },
            GateOutcome::Fail => finding(GateOutcome::Fail, "claim does not recompute (proof mismatch)"),
            GateOutcome::Unevaluable => finding(
                GateOutcome::Unevaluable,
                "no recomputable claim to verify",
            ),
        }
    }
}

// ───────────────────────── brackets ─────────────────────────

/// Net nesting depth of `open`/`close` over `s`.
pub open spec fn depth(s: Seq<char>, open: char, close: char) -> int
    decreases s.len(),
{
    if s.len() == 0 {
        0
    } else {
        depth(s.drop_last(), open, close) + if s.last() == open {
            1int
        } else if s.last() == close {
            -1int
        } else {
            0int
        }
    }
}

/// Parentheses and brackets of `s` are balanced: no prefix closes more than
/// it opened, and both depths end at zero.
pub open spec fn balanced(s: Seq<char>) -> bool {
    &&& forall|k: int| 0 <= k <= s.len() ==> depth(#[trigger] s.take(k), '(', ')') >= 0
    &&& forall|k: int| 0 <= k <= s.len() ==> depth(#[trigger] s.take(k), '[', ']') >= 0
    &&& depth(s, '(', ')') == 0
    &&& depth(s, '[', ']') == 0
}

/// A first character that makes a token an operator expression.
pub open spec fn starts_operator(c: char) -> bool {
    c == '+' || c == '-' || c == '*' || c == '/' || c == '^' || c == '=' || c == '(' || c == ')' || c
        == '[' || c == ']' || c == '.' || ('0' <= c && c <= '9')
}

/// An ASCII letter or digit, `_` or `.`.
pub open spec fn word_char(c: char) -> bool {
    ('a' <= c && c <= 'z') || ('A' <= c && c <= 'Z') || ('0' <= c && c <= '9') || c == '_' || c == '.'
}

/// `MathGate::operator_valid`'s rule.
pub open spec fn operator_form_ok(t: Seq<char>, evaluable: bool) -> bool {
    if t.len() == 0 {
        false
    } else if exists|i: int| 0 <= i < t.len() && crate::scan::is_ws(#[trigger] t[i]) {
        true
    } else if evaluable {
        true
    } else {
        starts_operator(t[0]) || forall|i: int| 0 <= i < t.len() ==> word_char(#[trigger] t[i])
    }
}

fn operator_start(c: char) -> (r: bool)
    ensures
        r == starts_operator(c),
{
    c == '+' || c == '-' || c == '*' || c == '/' || c == '^' || c == '=' || c == '(' || c == ')' || c
        == '[' || c == ']' || c == '.' || ('0' <= c && c <= '9')
}

fn word_char_exec(c: char) -> (r: bool)
    ensures
        r == word_char(c),
{
    ('a' <= c && c <= 'z') || ('A' <= c && c <= 'Z') || ('0' <= c && c <= '9') || c == '_' || c == '.'
}

/// Validates math claims; its evaluator-free checks live here.
#[derive(Debug, Clone, Copy)]
pub struct MathGate;

impl MathGate {
    pub fn new() -> Self {
        MathGate
    }

    /// Whether the parentheses and brackets of `context` followed by `token` balance.
    pub fn check_balanced_equation(context: &str, token: &str) -> (r: bool)
        requires
            context@.len() + token@.len() <= i64::MAX,
        ensures
            r == balanced(context@ + token@),
    {
        let mut s = chars_of(context);
        crate::text::push_str(&mut s, token);
        let mut paren: i64 = 0;
        let mut bracket: i64 = 0;
        let mut i: usize = 0;
        proof {
            assert(s@.take(0) =~= Seq::<char>::empty());
        }
        while i < s.len()
            invariant
                s@ == context@ + token@,
                s@.len() <= i64::MAX,
                i <= s.len(),
                paren == depth(s@.take(i as int), '(', ')'),
                bracket == depth(s@.take(i as int), '[', ']'),
                -(i as int) <= paren <= i,
                -(i as int) <= bracket <= i,
                forall|k: int| 0 <= k <= i ==> depth(#[trigger] s@.take(k), '(', ')') >= 0,
                forall|k: int| 0 <= k <= i ==> depth(#[trigger] s@.take(k), '[', ']') >= 0,
            decreases s.len() - i,
        {
            let c = s[i];
            if c == '(' {
                paren = paren + 1;
            } else if c == ')' {
                paren = paren - 1;
            } else if c == '[' {
                bracket = bracket + 1;
            } else if c == ']' {
                bracket = bracket - 1;
            }
            proof {
                assert(s@.take(i + 1).drop_last() =~= s@.take(i as int));
            }
            i = i + 1;
            if paren < 0 || bracket < 0 {
                return false;
            }
        }
        proof {
            assert(s@.take(i as int) =~= s@);
        }
        paren == 0 && bracket == 0
    }

    /// The two sides of an equation claim: the trimmed text before and after
    /// its first `=`; `None` when the token holds no `=` (nothing to compare).
    pub fn equation_sides(token: &str) -> (r: Option<(String, String)>)
        ensures
            match find_seq(token@, "="@) {
                Some(k) => r matches Some((l, rr)) && l@ == trim_seq(token@.take(k)) && rr@ == trim_seq(
                    token@.skip(k + 1),
                ),
                None => r is None,
            },
    {
        let t = chars_of(token);
        match crate::scan::find(&t, "=") {
            Some(k) => {
                proof {
                    crate::scan::lemma_find_from(t@, "="@, 0);
                    reveal_strlit("=");
                    assert(crate::scan::occurs_at(t@, "="@, k as int));
                    assert(k < t.len());
                }
                let l = crate::text::slice_chars(&t, 0, k);
                let rr = crate::text::slice_chars(&t, k + 1, t.len());
                proof {
                    assert(l@ =~= t@.take(k as int));
                    assert(rr@ =~= t@.skip(k + 1));
                }
                Some((string_of(&trim(&l)), string_of(&trim(&rr))))
            },
            None => None,
        }
    }

    /// Whether a token has a valid operator form, given whether the evaluator
    /// could evaluate it: never when empty; always for multi-word text (left to
    /// the fact gate) and for evaluable expressions; otherwise when it starts
    /// with an operator, bracket, `.` or digit, or is made of ASCII letters,
    /// digits, `_` and `.` alone.
    pub fn operator_valid(token: &str, evaluable: bool) -> (r: bool)
        ensures
            r == operator_form_ok(token@, evaluable),
    {
        let t = chars_of(token);
        if t.len() == 0 {
            return false;
        }
        let mut i: usize = 0;
        while i < t.len()
            invariant
                i <= t.len(),
                t@ == token@,
                t.len() > 0,
                forall|j: int| 0 <= j < i ==> !crate::scan::is_ws(#[trigger] t@[j]),
            decreases t.len() - i,
        {
            if crate::scan::is_whitespace(t[i]) {
                proof {
                    assert(crate::scan::is_ws(t@[i as int]));
                }
                return true;
            }
            i = i + 1;
        }
        if evaluable {
            return true;
        }
        if operator_start(t[0]) {
            return true;
        }
        let mut j: usize = 0;
        while j < t.len()
            invariant
                j <= t.len(),
                t@ == token@,
                t.len() > 0,
                !evaluable,
                !starts_operator(t@[0]),
                forall|k: int| 0 <= k < t.len() ==> !crate::scan::is_ws(#[trigger] t@[k]),
                forall|k: int| 0 <= k < j ==> word_char(#[trigger] t@[k]),
            decreases t.len() - j,
        {
            if !word_char_exec(t[j]) {
                proof {
                    assert(!word_char(t@[j as int]));
                }
                return false;
            }
            j = j + 1;
        }
        true
    }

    /// The math gate's verdict from its four checks, with the reason of the
    /// first check that failed.
    pub fn finding(balance_ok: bool, correctness_ok: bool, operator_ok: bool, domain_ok: bool) -> (r:
        GateFinding)
        ensures
            balance_ok && correctness_ok && operator_ok && domain_ok ==> finding_is(
                r,
                GateOutcome::Pass,
                None,
            ),
            !balance_ok ==> finding_is(r, GateOutcome::Fail, Some("Unbalanced parentheses or brackets"@)),
            balance_ok && !correctness_ok ==> finding_is(
                r,
                GateOutcome::Fail,
                Some("Equation does not balance (Tanto evaluated both sides)"@),
            ),
            balance_ok && correctness_ok && !operator_ok ==> finding_is(
                r,
                GateOutcome::Fail,
                Some("Invalid token format"@),
            ),
            balance_ok && correctness_ok && operator_ok && !domain_ok ==> finding_is(
                r,
                GateOutcome::Fail,
                Some("Value out of valid domain (inf/nan)"@),
            ),
    {
        if !balance_ok {
            finding(GateOutcome::Fail, "Unbalanced parentheses or brackets")
        } else if !correctness_ok {
            finding(GateOutcome::Fail, "Equation does not balance (Tanto evaluated both sides)")
        } else if !operator_ok {
            finding(GateOutcome::Fail, "Invalid token format")
        } else if !domain_ok {
            finding(GateOutcome::Fail, "Value out of valid domain (inf/nan)")
        } else {
            GateFinding { outcome: GateOutcome::Pass, reason: None }
        }
    }
}


// ───────────────────────── inference errors ─────────────────────────

/// Errors of the inference path. The remaining budget is kept in millionths of
/// a dollar, the precision its message shows.
#[derive(Debug, Clone)]
pub enum CidError {
    BudgetExhausted { remaining_tokens: u64, remaining_micros: u64 },
    RateLimited { retry_after_ms: u64 },
    Timeout { timeout_ms: u64 },
    InvalidInput(String),
    LlmError(String),
    IoError(String),
    ParseError(String),
}

impl CidError {
    pub open spec fn message_spec(&self) -> Seq<char> {
        match self {
            CidError::BudgetExhausted { remaining_tokens, remaining_micros } => "Budget exhausted: "@
                + decimal(*remaining_tokens as nat) + " tokens, $"@ + decimal(
                (*remaining_micros / 1_000_000) as nat,
            ) + "."@ + six_digits((*remaining_micros % 1_000_000) as nat) + " remaining"@,
            CidError::RateLimited { retry_after_ms } => "Rate limited: retry after "@ + decimal(
                *retry_after_ms as nat,
            ) + "ms"@,
            CidError::Timeout { timeout_ms } => "Timeout after "@ + decimal(*timeout_ms as nat) + "ms"@,
            CidError::InvalidInput(m) => "Invalid input: "@ + m@,
            CidError::LlmError(m) => "LLM error: "@ + m@,
            CidError::IoError(m) => "IO error: "@ + m@,
            CidError::ParseError(m) => "Parse error: "@ + m@,
        }
    }

    /// The message this error displays.
    pub fn message(&self) -> (r: String)
        ensures
            r@ == self.message_spec(),
    {
        let mut v: Vec<char>;
        match self {
            CidError::BudgetExhausted { remaining_tokens, remaining_micros } => {
                v = chars_of("Budget exhausted: ");
                push_decimal(&mut v, *remaining_tokens);
                push_str(&mut v, " tokens, $");
                push_decimal(&mut v, *remaining_micros / 1_000_000);
                push_str(&mut v, ".");
                push_six_digits(&mut v, *remaining_micros % 1_000_000);
                push_str(&mut v, " remaining");
            },
            CidError::RateLimited { retry_after_ms } => {
                v = chars_of("Rate limited: retry after ");
                push_decimal(&mut v, *retry_after_ms);
                push_str(&mut v, "ms");
            },
            CidError::Timeout { timeout_ms } => {
                v = chars_of("Timeout after ");
                push_decimal(&mut v, *timeout_ms);
                push_str(&mut v, "ms");
            },
            CidError::InvalidInput(m) => {
                v = chars_of("Invalid input: ");
                push_str(&mut v, m.as_str());
            },
            CidError::LlmError(m) => {
                v = chars_of("LLM error: ");
                push_str(&mut v, m.as_str());
            },
            CidError::IoError(m) => {
                v = chars_of("IO error: ");
                push_str(&mut v, m.as_str());
            },
            CidError::ParseError(m) => {
                v = chars_of("Parse error: ");
                push_str(&mut v, m.as_str());
            },
        }
        string_of(&v)
    }
}


/// Exactly the pieces of at least three UTF-8 bytes (once trimmed and
/// lowercased) that are not stopwords are kept as content words.
proof fn lemma_keep_content_members(ws: Seq<Seq<char>>, w: Seq<char>)
    ensures
        keep_content(ws).contains(w) <==> (exists|i: int|
            0 <= i < ws.len() && #[trigger] lowercase(trim_seq(ws[i])) == w) && utf8_len(w) >= 3
            && !is_stop(w),
    decreases ws.len(),
{
    if ws.len() > 0 {
        let rest = ws.drop_last();
        lemma_keep_content_members(rest, w);
        let l = lowercase(trim_seq(ws.last()));
        let k = keep_content(rest);
        if exists|i: int| 0 <= i < rest.len() && #[trigger] lowercase(trim_seq(rest[i])) == w {
            let i = choose|i: int| 0 <= i < rest.len() && #[trigger] lowercase(trim_seq(rest[i])) == w;
            assert(ws[i] == rest[i]);
        }
        if exists|i: int| 0 <= i < ws.len() && #[trigger] lowercase(trim_seq(ws[i])) == w {
            let i = choose|i: int| 0 <= i < ws.len() && #[trigger] lowercase(trim_seq(ws[i])) == w;
            if i < ws.len() - 1 {
                assert(rest[i] == ws[i]);
            }
        }
        if utf8_len(l) >= 3 && !is_stop(l) {
            assert(keep_content(ws) == k.push(l));
            assert(k.push(l).contains(w) <==> (k.contains(w) || l == w)) by {
                if k.push(l).contains(w) {
                    let j = choose|j: int| 0 <= j < k.push(l).len() && k.push(l)[j] == w;
                    if j < k.len() {
                        assert(k[j] == w);
                    }
                }
                if k.contains(w) {
                    let j = choose|j: int| 0 <= j < k.len() && k[j] == w;
                    assert(k.push(l)[j] == w);
                }
                if l == w {
                    assert(k.push(l)[k.len() as int] == w);
                }
            }
        } else {
            assert(keep_content(ws) == k);
        }
    }
}

/// Content words are every piece of the token of at least three UTF-8 bytes
/// (trimmed and lowercased) that is not a stopword, and nothing else. When
/// the lowercased context is not empty and lacks such a word, the outcome is
/// `Fail` and the word is listed as unbound.
pub proof fn law_content_words_are_bound(token: Seq<char>, ctx: Seq<char>, r: GateFinding, w: Seq<char>)
    requires
        binding_finding(r, ctx, content_words_spec(token)),
    ensures
        content_words_spec(token).contains(w) <==> (exists|i: int|
            0 <= i < alnum_pieces(token).len() && #[trigger] lowercase(trim_seq(alnum_pieces(token)[i]))
                == w) && utf8_len(w) >= 3 && !is_stop(w),
        content_words_spec(token).contains(w) && ctx.len() > 0 && !contains_seq(ctx, w) ==> (r.outcome
            == GateOutcome::Fail && unbound(content_words_spec(token), ctx).contains(w)),
{
    lemma_keep_content_members(alnum_pieces(token), w);
    let ws = content_words_spec(token);
    if ws.contains(w) && ctx.len() > 0 && !contains_seq(ctx, w) {
        lemma_unbound_keeps(ws, ctx, w);
    }
}

/// A word of `ws` missing from the context is among the unbound words.
proof fn lemma_unbound_keeps(ws: Seq<Seq<char>>, ctx: Seq<char>, w: Seq<char>)
    requires
        ws.contains(w),
        !contains_seq(ctx, w),
    ensures
        unbound(ws, ctx).contains(w),
    decreases ws.len(),
{
    let rest = ws.drop_last();
    if ws.last() == w {
        assert(unbound(ws, ctx) == unbound(rest, ctx).push(w));
        assert(unbound(rest, ctx).push(w)[unbound(rest, ctx).len() as int] == w);
    } else {
        let j = choose|j: int| 0 <= j < ws.len() && ws[j] == w;
        assert(rest[j] == w);
        lemma_unbound_keeps(rest, ctx, w);
        let u = unbound(rest, ctx);
        let k = choose|k: int| 0 <= k < u.len() && u[k] == w;
        if !contains_seq(ctx, ws.last()) {
            assert(u.push(ws.last())[k] == w);
        }
    }
}

} // verus!
