//! Strategy-engine vocabulary: the epistemic status of facts, facts and
//! unknowns of the world model, state deltas, and strategy verdicts.
use vstd::prelude::*;

use crate::memory::Facts;
use crate::text::{chars_of, decimal, push_decimal, push_str, string_of};

verus! {

/// Epistemic status of a fact or claim.
#[derive(Debug, Clone, Copy, PartialEq, Eq, Structural)]
pub enum EpistemicStatus {
    Verified,
    Derived,
    Observed,
    CorpusBacked,
    ExternallySourced,
    Inferred,
    Assumed,
    Unknown,
    Contradicted,
    Stale,
}

impl EpistemicStatus {
    pub open spec fn label_text(self) -> Seq<char> {
        match self {
            EpistemicStatus::Verified => "verified"@,
            EpistemicStatus::Derived => "derived"@,
            EpistemicStatus::Observed => "observed"@,
            EpistemicStatus::CorpusBacked => "corpus_backed"@,
            EpistemicStatus::ExternallySourced => "externally_sourced"@,
            EpistemicStatus::Inferred => "inferred"@,
            EpistemicStatus::Assumed => "assumed"@,
            EpistemicStatus::Unknown => "unknown"@,
            EpistemicStatus::Contradicted => "contradicted"@,
            EpistemicStatus::Stale => "stale"@,
        }
    }

    /// Stable, human-readable label.
    pub fn label(&self) -> (r: &'static str)
        ensures
            r@ == self.label_text(),
    {
        match self {
            EpistemicStatus::Verified => "verified",
            EpistemicStatus::Derived => "derived",
            EpistemicStatus::Observed => "observed",
            EpistemicStatus::CorpusBacked => "corpus_backed",
            EpistemicStatus::ExternallySourced => "externally_sourced",
            EpistemicStatus::Inferred => "inferred",
            EpistemicStatus::Assumed => "assumed",
            EpistemicStatus::Unknown => "unknown",
            EpistemicStatus::Contradicted => "contradicted",
            EpistemicStatus::Stale => "stale",
        }
    }
}

/// A single fact in the world model, with its epistemic status and evidence.
#[derive(Debug, Clone)]
pub struct Fact {
    pub id: String,
    pub statement: String,
    pub status: EpistemicStatus,
    pub evidence_refs: Vec<String>,
}

/// An unknown, as an actionable object.
#[derive(Debug, Clone)]
pub struct Unknown {
    pub question: String,
    pub impact: String,
    pub urgency: String,
    pub strategies_affected: usize,
    pub information_gain: String,
}

/// What changed between two world states.
#[derive(Debug, Clone, Default)]
pub struct StateDelta {
    pub added_facts: Vec<String>,
    pub removed_facts: Vec<String>,
    pub modified_constraints: Vec<String>,
    pub new_entities: Vec<String>,
    pub invalidated_assumptions: Vec<String>,
    pub affected_goals: Vec<String>,
}

/// Final status of a strategy after Gate.
#[derive(Debug, Clone, Copy, PartialEq, Eq, Structural)]
pub enum StrategyVerdict {
    Verified,
    ConditionallyVerified,
    Unverified,
    Rejected,
    BlockedByUnknowns,
    BlockedByContradiction,
}

impl StrategyVerdict {
    pub open spec fn label_text(self) -> Seq<char> {
        match self {
            StrategyVerdict::Verified => "verified"@,
            StrategyVerdict::ConditionallyVerified => "conditionally_verified"@,
            StrategyVerdict::Unverified => "unverified"@,
            StrategyVerdict::Rejected => "rejected"@,
            StrategyVerdict::BlockedByUnknowns => "blocked_by_unknowns"@,
            StrategyVerdict::BlockedByContradiction => "blocked_by_contradiction"@,
        }
    }

    /// Stable, human-readable label.
    pub fn label(&self) -> (r: &'static str)
        ensures
            r@ == self.label_text(),
    {
        match self {
            StrategyVerdict::Verified => "verified",
            StrategyVerdict::ConditionallyVerified => "conditionally_verified",
            StrategyVerdict::Unverified => "unverified",
            StrategyVerdict::Rejected => "rejected",
            StrategyVerdict::BlockedByUnknowns => "blocked_by_unknowns",
            StrategyVerdict::BlockedByContradiction => "blocked_by_contradiction",
        }
    }
}


// ───────────────────────── world state ─────────────────────────

/// The texts of a list of strings.
pub open spec fn texts(v: Seq<String>) -> Seq<Seq<char>> {
    v.map_values(|s: String| s@)
}

/// `r` is a copy of the fact `f`.
pub open spec fn same_fact(r: Fact, f: Fact) -> bool {
    &&& r.id@ == f.id@
    &&& r.statement@ == f.statement@
    &&& r.status == f.status
    &&& texts(r.evidence_refs@) == texts(f.evidence_refs@)
}

/// `r` is a copy of the unknown `u`.
pub open spec fn same_unknown(r: Unknown, u: Unknown) -> bool {
    &&& r.question@ == u.question@
    &&& r.impact@ == u.impact@
    &&& r.urgency@ == u.urgency@
    &&& r.strategies_affected == u.strategies_affected
    &&& r.information_gain@ == u.information_gain@
}

/// The persistent model of what L currently believes is true. Resource
/// amounts are kept as the bits of their `f64` values; nothing here computes
/// with them.
#[derive(Debug)]
pub struct WorldState {
    /// Monotonic version, bumped on every state delta.
    pub version: u64,
    /// Resolved entity id -> canonical name.
    pub entities: Facts,
    /// Free-form concepts mentioned but not yet entity-resolved.
    pub concepts: Vec<String>,
    pub facts: Vec<Fact>,
    pub assumptions: Vec<String>,
    pub observations: Vec<String>,
    pub constraints: Vec<String>,
    /// Named resources and the bits of their available amounts.
    pub resources: Vec<(String, u64)>,
    pub goals: Vec<String>,
    pub relationships: Vec<String>,
    pub uncertainties: Vec<Unknown>,
    pub timestamp: Option<String>,
    pub provenance: Vec<String>,
}

fn copy_strings(v: &Vec<String>) -> (r: Vec<String>)
    ensures
        texts(r@) == texts(v@),
{
    let mut r: Vec<String> = Vec::new();
    let mut i: usize = 0;
    while i < v.len()
        invariant
            i <= v@.len(),
            texts(r@) == texts(v@.take(i as int)),
        decreases v@.len() - i,
    {
        let s = string_of(&chars_of(v[i].as_str()));
        proof {
            assert(texts(v@.take(i + 1)) =~= texts(v@.take(i as int)).push(v@[i as int]@));
            assert(texts(r@.push(s)) =~= texts(r@).push(s@));
        }
        r.push(s);
        i = i + 1;
    }
    proof {
        assert(v@.take(i as int) =~= v@);
    }
    r
}

fn copy_fact(f: &Fact) -> (r: Fact)
    ensures
        same_fact(r, *f),
{
    Fact {
        id: string_of(&chars_of(f.id.as_str())),
        statement: string_of(&chars_of(f.statement.as_str())),
        status: f.status,
        evidence_refs: copy_strings(&f.evidence_refs),
    }
}

fn copy_unknown(u: &Unknown) -> (r: Unknown)
    ensures
        same_unknown(r, *u),
{
    Unknown {
        question: string_of(&chars_of(u.question.as_str())),
        impact: string_of(&chars_of(u.impact.as_str())),
        urgency: string_of(&chars_of(u.urgency.as_str())),
        strategies_affected: u.strategies_affected,
        information_gain: string_of(&chars_of(u.information_gain.as_str())),
    }
}

/// The facts `apply` appends for the statements `added` after `n` facts:
/// the `k`-th is `fact_{n + k + 1}`, inferred, with no evidence.
pub open spec fn added_fact(r: Fact, added: Seq<String>, n: int, k: int) -> bool {
    &&& r.id@ == "fact_"@ + decimal((n + k + 1) as nat)
    &&& r.statement@ == added[k]@
    &&& r.status == EpistemicStatus::Inferred
    &&& r.evidence_refs@.len() == 0
}

/// Each new entity named by itself, inserted in order.
pub open spec fn with_entities(m: Map<Seq<char>, Seq<char>>, es: Seq<String>) -> Map<Seq<char>, Seq<char>>
    decreases es.len(),
{
    if es.len() == 0 {
        m
    } else {
        with_entities(m, es.drop_last()).insert(es.last()@, es.last()@)
    }
}

/// `next` is `ws` after the delta `d`.
pub open spec fn applied(ws: WorldState, d: StateDelta, next: WorldState) -> bool {
    let n = ws.facts@.len();
    &&& next.version == ws.version + 1
    &&& next.facts@.len() == n + d.added_facts@.len()
    &&& forall|i: int| 0 <= i < n ==> same_fact(#[trigger] next.facts@[i], ws.facts@[i])
    &&& forall|k: int| 0 <= k < d.added_facts@.len() ==> added_fact(#[trigger] next.facts@[n + k], d.added_facts@, n as int, k)
    &&& texts(next.constraints@) == texts(ws.constraints@) + texts(d.modified_constraints@)
    &&& next.entities@ == with_entities(ws.entities@, d.new_entities@)
    &&& texts(next.assumptions@) == texts(ws.assumptions@).filter(|x: Seq<char>| !texts(d.invalidated_assumptions@).contains(x))
    &&& texts(next.concepts@) == texts(ws.concepts@)
    &&& texts(next.observations@) == texts(ws.observations@)
    &&& texts(next.goals@) == texts(ws.goals@)
    &&& texts(next.relationships@) == texts(ws.relationships@)
    &&& texts(next.provenance@) == texts(ws.provenance@)
    &&& next.resources@.len() == ws.resources@.len()
    &&& forall|i: int| 0 <= i < ws.resources@.len() ==> (#[trigger] next.resources@[i]).0@ == ws.resources@[i].0@ && next.resources@[i].1 == ws.resources@[i].1
    &&& next.uncertainties@.len() == ws.uncertainties@.len()
    &&& forall|i: int| 0 <= i < ws.uncertainties@.len() ==> same_unknown(#[trigger] next.uncertainties@[i], ws.uncertainties@[i])
    &&& match (next.timestamp, ws.timestamp) {
        (Some(a), Some(b)) => a@ == b@,
        (None, None) => true,
        _ => false,
    }
}

impl WorldState {
    /// Empty world state at version 1.
    pub fn new() -> (r: Self)
        ensures
            r.version == 1,
            r.entities@ == Map::<Seq<char>, Seq<char>>::empty(),
            r.concepts@.len() == 0 && r.facts@.len() == 0 && r.assumptions@.len() == 0,
            r.observations@.len() == 0 && r.constraints@.len() == 0 && r.resources@.len() == 0,
            r.goals@.len() == 0 && r.relationships@.len() == 0 && r.uncertainties@.len() == 0,
            r.timestamp is None && r.provenance@.len() == 0,
    {
        WorldState {
            version: 1,
            entities: Facts::new(),
            concepts: Vec::new(),
            facts: Vec::new(),
            assumptions: Vec::new(),
            observations: Vec::new(),
            constraints: Vec::new(),
            resources: Vec::new(),
            goals: Vec::new(),
            relationships: Vec::new(),
            uncertainties: Vec::new(),
            timestamp: None,
            provenance: Vec::new(),
        }
    }

    /// Apply a delta, producing the next version: added facts are appended
    /// as inferred facts numbered after the existing ones, modified
    /// constraints appended, new entities recorded under their own name, and
    /// invalidated assumptions dropped; everything else is kept.
    pub fn apply(&self, delta: &StateDelta) -> (r: WorldState)
        requires
            self.version < u64::MAX,
            self.facts@.len() + delta.added_facts@.len() < usize::MAX,
        ensures
            applied(*self, *delta, r),
    {
        let n = self.facts.len();
        let mut facts: Vec<Fact> = Vec::new();
        let mut i: usize = 0;
        while i < n
            invariant
                n == self.facts@.len(),
                i <= n,
                facts@.len() == i,
                forall|j: int| 0 <= j < i ==> same_fact(#[trigger] facts@[j], self.facts@[j]),
            decreases n - i,
        {
            facts.push(copy_fact(&self.facts[i]));
            i = i + 1;
        }
        let mut k: usize = 0;
        while k < delta.added_facts.len()
            invariant
                n == self.facts@.len(),
                n + delta.added_facts@.len() < usize::MAX,
                k <= delta.added_facts@.len(),
                facts@.len() == n + k,
                forall|j: int| 0 <= j < n ==> same_fact(#[trigger] facts@[j], self.facts@[j]),
                forall|j: int| 0 <= j < k ==> added_fact(#[trigger] facts@[n + j], delta.added_facts@, n as int, j),
            decreases delta.added_facts@.len() - k,
        {
            let mut id = chars_of("fact_");
            push_decimal(&mut id, (facts.len() + 1) as u64);
            let f = Fact {
                id: string_of(&id),
                statement: string_of(&chars_of(delta.added_facts[k].as_str())),
                status: EpistemicStatus::Inferred,
                evidence_refs: Vec::new(),
            };
            facts.push(f);
            k = k + 1;
        }
        let mut constraints = copy_strings(&self.constraints);
        let ghost c0 = constraints@;
        let mut c: usize = 0;
        while c < delta.modified_constraints.len()
            invariant
                c <= delta.modified_constraints@.len(),
                texts(constraints@) == texts(self.constraints@) + texts(delta.modified_constraints@.take(c as int)),
            decreases delta.modified_constraints@.len() - c,
        {
            let s = string_of(&chars_of(delta.modified_constraints[c].as_str()));
            proof {
                assert(texts(delta.modified_constraints@.take(c + 1)) =~= texts(delta.modified_constraints@.take(c as int)).push(s@));
                assert(texts(constraints@.push(s)) =~= texts(constraints@).push(s@));
            }
            constraints.push(s);
            c = c + 1;
        }
        proof {
            assert(delta.modified_constraints@.take(c as int) =~= delta.modified_constraints@);
        }
        let mut entities = self.entities.copy();
        let mut e: usize = 0;
        while e < delta.new_entities.len()
            invariant
                e <= delta.new_entities@.len(),
                entities@ == with_entities(self.entities@, delta.new_entities@.take(e as int)),
            decreases delta.new_entities@.len() - e,
        {
            let name = delta.new_entities[e].as_str();
            entities.insert(string_of(&chars_of(name)), string_of(&chars_of(name)));
            proof {
                assert(delta.new_entities@.take(e + 1).drop_last() =~= delta.new_entities@.take(e as int));
            }
            e = e + 1;
        }
        proof {
            assert(delta.new_entities@.take(e as int) =~= delta.new_entities@);
        }
        let inv = copy_strings(&delta.invalidated_assumptions);
        let mut assumptions: Vec<String> = Vec::new();
        let mut a: usize = 0;
        while a < self.assumptions.len()
            invariant
                a <= self.assumptions@.len(),
                texts(inv@) == texts(delta.invalidated_assumptions@),
                texts(assumptions@) == texts(self.assumptions@.take(a as int)).filter(|x: Seq<char>| !texts(delta.invalidated_assumptions@).contains(x)),
            decreases self.assumptions@.len() - a,
        {
            let x = self.assumptions[a].as_str();
            let dropped = listed(&inv, x);
            proof {
                let inv_t = texts(delta.invalidated_assumptions@);
                let pre = texts(self.assumptions@.take(a as int));
                assert(texts(self.assumptions@.take(a + 1)) =~= pre.push(x@));
                pre.lemma_filter_push(x@, |y: Seq<char>| !inv_t.contains(y));
            }
            if !dropped {
                let s = string_of(&chars_of(x));
                proof {
                    assert(texts(assumptions@.push(s)) =~= texts(assumptions@).push(s@));
                }
                assumptions.push(s);
            }
            a = a + 1;
        }
        proof {
            assert(self.assumptions@.take(a as int) =~= self.assumptions@);
        }
        let mut resources: Vec<(String, u64)> = Vec::new();
        let mut q: usize = 0;
        while q < self.resources.len()
            invariant
                q <= self.resources@.len(),
                resources@.len() == q,
                forall|j: int| 0 <= j < q ==> (#[trigger] resources@[j]).0@ == self.resources@[j].0@ && resources@[j].1 == self.resources@[j].1,
            decreases self.resources@.len() - q,
        {
            resources.push((string_of(&chars_of(self.resources[q].0.as_str())), self.resources[q].1));
            q = q + 1;
        }
        let mut uncertainties: Vec<Unknown> = Vec::new();
        let mut u: usize = 0;
        while u < self.uncertainties.len()
            invariant
                u <= self.uncertainties@.len(),
                uncertainties@.len() == u,
                forall|j: int| 0 <= j < u ==> same_unknown(#[trigger] uncertainties@[j], self.uncertainties@[j]),
            decreases self.uncertainties@.len() - u,
        {
            uncertainties.push(copy_unknown(&self.uncertainties[u]));
            u = u + 1;
        }
        let timestamp = match &self.timestamp {
            Some(t) => Some(string_of(&chars_of(t.as_str()))),
            None => None,
        };
        WorldState {
            version: self.version + 1,
            entities,
            concepts: copy_strings(&self.concepts),
            facts,
            assumptions,
            observations: copy_strings(&self.observations),
            constraints,
            resources,
            goals: copy_strings(&self.goals),
            relationships: copy_strings(&self.relationships),
            uncertainties,
            timestamp,
            provenance: copy_strings(&self.provenance),
        }
    }
}

impl Default for WorldState {
    fn default() -> (r: Self)
        ensures
            r.version == 1,
            r.entities@ == Map::<Seq<char>, Seq<char>>::empty(),
            r.facts@.len() == 0,
    {
        WorldState::new()
    }
}

/// Whether `x` is one of the strings of `v`.
fn listed(v: &Vec<String>, x: &str) -> (r: bool)
    ensures
        r == texts(v@).contains(x@),
{
    let xs = chars_of(x);
    let mut i: usize = 0;
    while i < v.len()
        invariant
            i <= v@.len(),
            xs@ == x@,
            forall|j: int| 0 <= j < i ==> (#[trigger] v@[j])@ != x@,
        decreases v@.len() - i,
    {
        if crate::text::eq_str(&xs, v[i].as_str()) {
            proof {
                assert(texts(v@)[i as int] == x@);
            }
            return true;
        }
        i = i + 1;
    }
    proof {
        if texts(v@).contains(x@) {
            let j = choose|j: int| 0 <= j < texts(v@).len() && texts(v@)[j] == x@;
            assert(v@[j]@ == x@);
        }
    }
    false
}


// ───────────────────────── strategy explanation ─────────────────────────

/// One `    - item` line per item.
pub open spec fn item_lines(items: Seq<String>) -> Seq<char>
    decreases items.len(),
{
    if items.len() == 0 {
        seq![]
    } else {
        item_lines(items.drop_last()) + "    - "@ + items.last()@ + "\n"@
    }
}

/// A titled list, or nothing when the list is empty.
pub open spec fn section(title: Seq<char>, items: Seq<String>) -> Seq<char> {
    if items.len() == 0 {
        seq![]
    } else {
        "  "@ + title + ":\n"@ + item_lines(items)
    }
}

fn push_section(v: &mut Vec<char>, title: &str, items: &Vec<String>)
    ensures
        final(v)@ == old(v)@ + section(title@, items@),
{
    if items.len() == 0 {
        proof {
            assert(old(v)@ + section(title@, items@) =~= old(v)@);
        }
        return;
    }
    push_str(v, "  ");
    push_str(v, title);
    push_str(v, ":\n");
    let ghost head = v@;
    let mut i: usize = 0;
    while i < items.len()
        invariant
            i <= items@.len(),
            v@ == head + item_lines(items@.take(i as int)),
        decreases items@.len() - i,
    {
        push_str(v, "    - ");
        push_str(v, items[i].as_str());
        push_str(v, "\n");
        proof {
            assert(items@.take(i + 1).drop_last() =~= items@.take(i as int));
        }
        i = i + 1;
    }
    proof {
        assert(items@.take(i as int) =~= items@);
        assert(head =~= old(v)@ + "  "@ + title@ + ":\n"@);
    }
}

/// The explanation of a strategy synthesized from its fields: the heading
/// with its objective, its confidence and robustness (each already shown to
/// two decimals), then each non-empty list under its title.
pub fn strategy_explanation(
    id: &str,
    objective: &str,
    confidence: &str,
    robustness: &str,
    assumptions: &Vec<String>,
    constraints: &Vec<String>,
    actions: &Vec<String>,
    expected_outcomes: &Vec<String>,
    risks: &Vec<String>,
    evidence: &Vec<String>,
) -> (r: String)
    ensures
        r@ == "Strategy "@ + id@ + " — objective: "@ + objective@ + "\n"@ + "  confidence "@ + confidence@
            + " | robustness "@ + robustness@ + "\n"@ + section("assumptions"@, assumptions@) + section(
            "hard constraints"@,
            constraints@,
        ) + section("actions"@, actions@) + section("expected outcomes"@, expected_outcomes@) + section(
            "risks"@,
            risks@,
        ) + section("evidence"@, evidence@),
{
    let mut v = chars_of("Strategy ");
    push_str(&mut v, id);
    push_str(&mut v, " — objective: ");
    push_str(&mut v, objective);
    push_str(&mut v, "\n");
    push_str(&mut v, "  confidence ");
    push_str(&mut v, confidence);
    push_str(&mut v, " | robustness ");
    push_str(&mut v, robustness);
    push_str(&mut v, "\n");
    push_section(&mut v, "assumptions", assumptions);
    push_section(&mut v, "hard constraints", constraints);
    push_section(&mut v, "actions", actions);
    push_section(&mut v, "expected outcomes", expected_outcomes);
    push_section(&mut v, "risks", risks);
    push_section(&mut v, "evidence", evidence);
    string_of(&v)
}

} // verus!
