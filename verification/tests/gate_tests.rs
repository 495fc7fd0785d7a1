use laverna::gate::{
    all_passed, threshold_outcome, CidError, overall_outcome, DomainBindingGate, GateOutcome, MathGate, Policy,
    ProofRecomputeGate, TriState, ValidationFacts, ValidationVerdict,
};

fn with_gate(passed: bool, fix_count: usize) -> ValidationFacts {
    ValidationFacts { gate_count: 1, passed, fix_count }
}

#[test]
fn verdict_unevaluable_without_gates() {
    let r = ValidationFacts { gate_count: 0, passed: false, fix_count: 0 };
    assert_eq!(r.verdict(), ValidationVerdict::Unevaluable);
}

#[test]
fn verdict_ok_when_passed_no_fixes() {
    assert_eq!(with_gate(true, 0).verdict(), ValidationVerdict::Okay);
}

#[test]
fn verdict_corrected_when_passed_with_fixes() {
    let r = with_gate(true, 1);
    assert_eq!(r.verdict(), ValidationVerdict::Corrected);
    assert_eq!(r.fix_count, 1);
}

#[test]
fn verdict_failed_when_not_passed() {
    assert_eq!(with_gate(false, 0).verdict(), ValidationVerdict::Failed);
}

#[test]
fn verdict_as_str_is_stable_api() {
    assert_eq!(ValidationVerdict::Okay.as_str(), "ok");
    assert_eq!(ValidationVerdict::Corrected.as_str(), "corrected");
    assert_eq!(ValidationVerdict::Failed.as_str(), "failed");
    assert_eq!(ValidationVerdict::Unevaluable.as_str(), "unevaluable");
}

#[test]
fn tri_state_maps_verdict() {
    let none = ValidationFacts { gate_count: 0, passed: false, fix_count: 0 };
    assert_eq!(none.tri_state(), TriState::CantCheck);
    assert_eq!(with_gate(true, 0).tri_state(), TriState::Verified);
    assert_eq!(with_gate(true, 1).tri_state(), TriState::Verified);
    assert_eq!(with_gate(false, 0).tri_state(), TriState::Flagged);
}

#[test]
fn tri_state_and_policy_strings() {
    assert_eq!(TriState::Verified.as_str(), "verified");
    assert_eq!(TriState::CantCheck.as_str(), "cant_check");
    assert_eq!(TriState::Flagged.as_str(), "flagged");
    assert_eq!(Policy::Exact.as_str(), "exact");
    assert_eq!(Policy::Rounded.as_str(), "rounded");
    assert_eq!(Policy::Alias.as_str(), "alias");
    assert_eq!(Policy::Tolerance.as_str(), "tolerance");
}

#[test]
fn outcome_predicates() {
    assert!(GateOutcome::Pass.is_pass() && !GateOutcome::Pass.is_fail());
    assert!(GateOutcome::Fail.is_fail() && !GateOutcome::Fail.is_unevaluable());
    assert!(GateOutcome::Unevaluable.is_unevaluable() && !GateOutcome::Unevaluable.is_pass());
}

#[test]
fn overall_outcome_fail_beats_unevaluable_beats_pass() {
    let (p, f, u) = (GateOutcome::Pass, GateOutcome::Fail, GateOutcome::Unevaluable);
    assert_eq!(overall_outcome(&vec![]), u);
    assert_eq!(overall_outcome(&vec![p, p]), p);
    assert_eq!(overall_outcome(&vec![p, u, p]), u);
    assert_eq!(overall_outcome(&vec![u, f, p]), f);
    assert!(all_passed(&vec![p, p]));
    assert!(!all_passed(&vec![p, u]));
    assert!(!all_passed(&vec![]));
}

#[test]
fn domain_binding_passes_when_grounded() {
    let r = DomainBindingGate::new().validate("mangala is exalted", "mangala exalted in capricorn");
    assert_eq!(r.outcome, GateOutcome::Pass);
    assert_eq!(r.reason, None);
}

#[test]
fn domain_binding_fails_when_ungrounded() {
    let r = DomainBindingGate::new()
        .validate("zephyr quantum flux unknownword", "mangala exalted in capricorn");
    assert_eq!(r.outcome, GateOutcome::Fail);
    assert_eq!(
        r.reason.as_deref(),
        Some("unbound content words (no provenance): zephyr, quantum, flux, unknownword")
    );
}

#[test]
fn domain_binding_unevaluable_without_context() {
    let r = DomainBindingGate::new().validate("any token at all", "");
    assert_eq!(r.outcome, GateOutcome::Unevaluable);
    assert_eq!(r.reason.as_deref(), Some("no verified grounding context supplied"));
}

#[test]
fn domain_binding_ignores_stopwords_and_short_words() {
    let r = DomainBindingGate::new().validate("it is the and", "context");
    assert_eq!(r.outcome, GateOutcome::Unevaluable);
    assert_eq!(r.reason.as_deref(), Some("no content words requiring domain binding"));
    let r = DomainBindingGate::new().validate("MANGALA, Exalted!", "Mangala is EXALTED");
    assert_eq!(r.outcome, GateOutcome::Pass);
}

#[test]
fn proof_recompute_passes_balanced_equation() {
    let r = ProofRecomputeGate::new().validate("2 + 3 = 5", GateOutcome::Pass);
    assert_eq!(r.outcome, GateOutcome::Pass);
}

#[test]
fn proof_recompute_fails_unbalanced_equation() {
    let r = ProofRecomputeGate::new().validate("2 + 3 = 6", GateOutcome::Fail);
    assert_eq!(r.outcome, GateOutcome::Fail);
    assert_eq!(r.reason.as_deref(), Some("claim does not recompute (proof mismatch)"));
}

#[test]
fn proof_recompute_unevaluable_without_claim() {
    let r = ProofRecomputeGate::new().validate("the earth is round", GateOutcome::Pass);
    assert_eq!(r.outcome, GateOutcome::Unevaluable);
    assert_eq!(r.reason.as_deref(), Some("no recomputable claim to verify"));
}

#[test]
fn balanced_brackets_over_context_and_token() {
    assert!(MathGate::check_balanced_equation("(1 + 2", ") * [3]"));
    assert!(!MathGate::check_balanced_equation(")(", ""));
    assert!(!MathGate::check_balanced_equation("[(]", ""));
    assert!(!MathGate::check_balanced_equation("((", "1"));
    assert!(MathGate::check_balanced_equation("", ""));
}

#[test]
fn math_finding_reports_first_failed_check() {
    let r = MathGate::finding(false, false, true, true);
    assert_eq!(r.outcome, GateOutcome::Fail);
    assert_eq!(r.reason.as_deref(), Some("Unbalanced parentheses or brackets"));
    let r = MathGate::finding(true, true, false, false);
    assert_eq!(r.reason.as_deref(), Some("Invalid token format"));
    let r = MathGate::finding(true, true, true, true);
    assert_eq!(r.outcome, GateOutcome::Pass);
}

#[test]
fn equation_sides_split_at_first_equals() {
    assert_eq!(
        MathGate::equation_sides("2+3 = 5"),
        Some(("2+3".to_string(), "5".to_string()))
    );
    assert_eq!(
        MathGate::equation_sides(" a = b = c "),
        Some(("a".to_string(), "b = c".to_string()))
    );
    assert_eq!(MathGate::equation_sides("2+3"), None);
}

#[test]
fn operator_validity_rules() {
    assert!(!MathGate::operator_valid("", true));
    assert!(MathGate::operator_valid("water is wet", false));
    assert!(MathGate::operator_valid("#x", true));
    assert!(MathGate::operator_valid("(1", false));
    assert!(MathGate::operator_valid("abc_1.x", false));
    assert!(!MathGate::operator_valid("#x", false));
    assert!(!MathGate::operator_valid("é", false));
}

#[test]
fn cid_error_messages() {
    let e = CidError::BudgetExhausted { remaining_tokens: 12, remaining_micros: 1_500_000 };
    assert_eq!(e.message(), "Budget exhausted: 12 tokens, $1.500000 remaining");
    let e = CidError::BudgetExhausted { remaining_tokens: 0, remaining_micros: 42 };
    assert_eq!(e.message(), "Budget exhausted: 0 tokens, $0.000042 remaining");
    assert_eq!(CidError::RateLimited { retry_after_ms: 50 }.message(), "Rate limited: retry after 50ms");
    assert_eq!(CidError::Timeout { timeout_ms: 9 }.message(), "Timeout after 9ms");
    assert_eq!(CidError::InvalidInput("x".into()).message(), "Invalid input: x");
    assert_eq!(CidError::LlmError("x".into()).message(), "LLM error: x");
    assert_eq!(CidError::IoError("x".into()).message(), "IO error: x");
    assert_eq!(CidError::ParseError("x".into()).message(), "Parse error: x");
}

#[test]
fn threshold_rule_downgrades_only_weak_passes() {
    assert_eq!(threshold_outcome(GateOutcome::Pass, true), GateOutcome::Unevaluable);
    assert_eq!(threshold_outcome(GateOutcome::Pass, false), GateOutcome::Pass);
    assert_eq!(threshold_outcome(GateOutcome::Fail, true), GateOutcome::Fail);
    assert_eq!(threshold_outcome(GateOutcome::Unevaluable, false), GateOutcome::Unevaluable);
}

#[test]
fn binding_verdict_on_lowered_inputs() {
    let ctx: Vec<char> = "water is h2o".chars().collect();
    let words: Vec<Vec<char>> = vec!["water".chars().collect(), "mercury".chars().collect()];
    let r = DomainBindingGate::binding_verdict(&ctx, &words);
    assert_eq!(r.outcome, GateOutcome::Fail);
    assert_eq!(r.reason.as_deref(), Some("unbound content words (no provenance): mercury"));
    let ok = DomainBindingGate::binding_verdict(&ctx, &vec!["water".chars().collect()]);
    assert_eq!(ok.outcome, GateOutcome::Pass);
    let none = DomainBindingGate::binding_verdict(&Vec::new(), &words);
    assert_eq!(none.reason.as_deref(), Some("no verified grounding context supplied"));
}

#[test]
fn has_fixes_counts_applied_fixes() {
    assert!(!with_gate(true, 0).has_fixes());
    assert!(with_gate(true, 2).has_fixes());
}
