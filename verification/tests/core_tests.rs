use laverna::error::{
    InferenceError, LaiError, ParserError, ReasoningError, TransportError, ValidationError,
};
use laverna::strategy::{
    strategy_explanation, EpistemicStatus, StateDelta, StrategyVerdict, WorldState,
};

#[test]
fn test_lai_error_display() {
    let err = LaiError::Reasoning(ReasoningError::NoProof { query: "test".into() });
    assert!(err.message().contains("no proof found"));
}

#[test]
fn test_lai_error_from_string() {
    let err: LaiError = LaiError::internal("something broke");
    assert!(err.message().contains("something broke"));
}

#[test]
fn test_string_converts_to_internal() {
    let e: LaiError = "boom".to_string().into();
    assert!(e.message().contains("boom"));
}

#[test]
fn lai_error_shows_wrapped_messages() {
    let e: LaiError = ReasoningError::CircularDependency("a -> a".into()).into();
    assert_eq!(e.message(), "circular dependency detected: a -> a");
    assert_eq!(
        LaiError::Validation(ValidationError::MissingField("mass".into())).message(),
        "missing required field: mass"
    );
    assert_eq!(
        LaiError::Parser(ParserError::UnexpectedEof).message(),
        "unexpected end of input"
    );
    assert_eq!(LaiError::Transport(TransportError::Timeout(250)).message(), "timeout after 250ms");
    assert_eq!(
        LaiError::Inference(InferenceError::ModelNotLoaded("x".into())).message(),
        "model not loaded: x"
    );
    assert_eq!(LaiError::Internal("plain".into()).message(), "plain");
    assert_eq!(ValidationError::InvalidDomain("Pluto".into()).message(), "invalid domain: Pluto");
    assert_eq!(ValidationError::Malformed("{".into()).message(), "malformed input: {");
}

#[test]
fn error_messages() {
    assert_eq!(
        ReasoningError::BudgetExhausted { requested: 10, available: 3 }.message(),
        "budget exhausted: requested 10, available 3"
    );
    assert_eq!(InferenceError::TokenBudgetExceeded.message(), "token budget exceeded during inference");
    assert_eq!(ParserError::UnknownToken("x".into()).message(), "unknown token: x");
    assert_eq!(TransportError::Timeout(250).message(), "timeout after 250ms");
}

#[test]
fn labels_are_stable() {
    assert_eq!(EpistemicStatus::CorpusBacked.label(), "corpus_backed");
    assert_eq!(EpistemicStatus::ExternallySourced.label(), "externally_sourced");
    assert_eq!(StrategyVerdict::BlockedByUnknowns.label(), "blocked_by_unknowns");
    assert_eq!(StrategyVerdict::ConditionallyVerified.label(), "conditionally_verified");
}

#[test]
fn world_state_apply_bumps_version_and_adds_fact() {
    let ws = WorldState::new();
    let delta = StateDelta { added_facts: vec!["new fact".into()], ..Default::default() };
    let next = ws.apply(&delta);
    assert_eq!(next.version, 2);
    assert_eq!(next.facts.len(), 1);
    assert_eq!(next.facts[0].statement, "new fact");
    assert_eq!(next.facts[0].status, EpistemicStatus::Inferred);
}

#[test]
fn world_state_apply_keeps_history_and_drops_invalidated_assumptions() {
    let mut ws = WorldState::default();
    ws.assumptions = vec!["a".into(), "b".into(), "a".into()];
    ws.constraints = vec!["c1".into()];
    ws.resources = vec![("budget".into(), 2.5f64.to_bits())];
    let delta = StateDelta {
        added_facts: vec!["f1".into(), "f2".into()],
        modified_constraints: vec!["c2".into()],
        new_entities: vec!["Mars".into()],
        invalidated_assumptions: vec!["a".into()],
        ..Default::default()
    };
    let next = ws.apply(&delta);
    let next = next.apply(&StateDelta { added_facts: vec!["f3".into()], ..Default::default() });
    assert_eq!(next.version, 3);
    let ids: Vec<&str> = next.facts.iter().map(|f| f.id.as_str()).collect();
    assert_eq!(ids, vec!["fact_1", "fact_2", "fact_3"]);
    assert_eq!(next.constraints, vec!["c1".to_string(), "c2".to_string()]);
    assert_eq!(next.assumptions, vec!["b".to_string()]);
    assert_eq!(next.entities.get("Mars"), Some("Mars".to_string()));
    assert_eq!(f64::from_bits(next.resources[0].1), 2.5);
}

#[test]
fn strategy_explain_contains_id() {
    let none: Vec<String> = vec![];
    let text = strategy_explanation(
        "S01",
        "demo",
        &format!("{:.2}", 0.5f64),
        &format!("{:.2}", 0.5f64),
        &none,
        &none,
        &vec!["x 1".to_string()],
        &none,
        &none,
        &none,
    );
    assert!(text.contains("S01"));
    assert_eq!(
        text,
        "Strategy S01 — objective: demo\n  confidence 0.50 | robustness 0.50\n  actions:\n    - x 1\n"
    );
}
