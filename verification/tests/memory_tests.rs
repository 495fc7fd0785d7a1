use laverna::actions::{remember_args, ArgValue, ToolArgs};
use laverna::intent::Intent;
use laverna::memory::{
    apply_forget, apply_remember, forget_input, recall_text, remember_input, ConversationContext,
    ConversationHistory, Exchange, Facts, Preferences, MAX_HISTORY,
};

fn args(pairs: &[(&str, &str)]) -> ToolArgs {
    ToolArgs {
        fields: pairs
            .iter()
            .map(|(k, v)| (k.to_string(), ArgValue::Str(v.to_string())))
            .collect(),
    }
}

/// `remember` as the tool runs it: check the input, then store it.
fn remember(facts: &mut Facts, key: &str, value: &str) -> String {
    match remember_input(key, value) {
        Ok((k, v)) => apply_remember(facts, k, v),
        Err(e) => e,
    }
}

/// `forget` as the tool runs it: check the key, then remove it.
fn forget(facts: &mut Facts, key: &str) -> String {
    match forget_input(key) {
        Ok(k) => match apply_forget(facts, &k) {
            Ok(m) | Err(m) => m,
        },
        Err(e) => e,
    }
}

#[test]
fn remember_args_schema_shape() {
    let (k, v) = remember_args(&args(&[("key", "city"), ("value", "Berlin")]));
    assert_eq!((k.as_str(), v.as_str()), ("city", "Berlin"));
}

#[test]
fn remember_args_single_pair_recovered() {
    let (k, v) = remember_args(&args(&[("favorite_language", "Rust")]));
    assert_eq!((k.as_str(), v.as_str()), ("favorite_language", "Rust"));
}

#[test]
fn remember_args_single_pair_is_deterministic() {
    let (k, _) = remember_args(&args(&[("zebra", "1"), ("apple", "2")]));
    assert_eq!(k, "apple");
}

#[test]
fn remember_args_empty_stays_empty() {
    let (k, v) = remember_args(&args(&[]));
    assert!(k.is_empty() && v.is_empty());
}

#[test]
fn remember_args_partial_key_only() {
    let (k, v) = remember_args(&args(&[("key", "city")]));
    assert_eq!(k, "city");
    assert!(v.is_empty());
}

#[test]
fn remember_args_ignores_non_string_fields() {
    let a = ToolArgs {
        fields: vec![
            ("count".to_string(), ArgValue::Int(3)),
            ("pet".to_string(), ArgValue::Str("cat".to_string())),
        ],
    };
    let (k, v) = remember_args(&a);
    assert_eq!((k.as_str(), v.as_str()), ("pet", "cat"));
}

#[test]
fn remember_rejects_empty() {
    let mut facts = Facts::new();
    assert!(remember(&mut facts, "", "x").contains("non-empty"));
    assert!(remember(&mut facts, "k", "").contains("non-empty"));
    assert_eq!(facts.len(), 0);
}

#[test]
fn round_trip() {
    let mut facts = Facts::new();
    assert!(remember(&mut facts, "city", "Berlin").contains("Berlin"));
    assert!(recall_text(&facts, "city").contains("Berlin"));
    assert!(forget(&mut facts, "city").contains("Forgot"));
    assert!(recall_text(&facts, "city").contains("Nothing remembered"));
}

#[test]
fn recall_all_is_sorted() {
    let mut facts = Facts::new();
    remember(&mut facts, "zebra", "1");
    remember(&mut facts, "apple", "2");
    let all = recall_text(&facts, "");
    let a = all.find("apple").unwrap();
    let z = all.find("zebra").unwrap();
    assert!(a < z, "expected apple before zebra: {all}");
}

#[test]
fn forget_missing_is_reported() {
    let mut facts = Facts::new();
    assert!(forget(&mut facts, "nope").contains("Nothing remembered"));
}

#[test]
fn remember_trims_and_reports_exactly() {
    let mut facts = Facts::new();
    assert_eq!(remember(&mut facts, "  city ", " Paris  "), "Remembered: city = Paris");
    assert_eq!(recall_text(&facts, " city"), "city: Paris");
    assert_eq!(recall_text(&Facts::new(), ""), "No facts remembered yet.");
    assert_eq!(forget(&mut facts, "   "), "forget needs a key");
    assert_eq!(recall_text(&facts, "town"), "Nothing remembered for 'town'.");
}

#[test]
fn remember_overwrites_the_same_key() {
    let mut facts = Facts::new();
    remember(&mut facts, "city", "Berlin");
    remember(&mut facts, "city", "Rome");
    assert_eq!(facts.len(), 1);
    assert_eq!(facts.get("city"), Some("Rome".to_string()));
}

#[test]
fn recall_all_lists_every_fact_in_key_order() {
    let mut facts = Facts::new();
    remember(&mut facts, "b", "2");
    remember(&mut facts, "a", "1");
    remember(&mut facts, "c", "3");
    assert_eq!(recall_text(&facts, ""), "- a: 1\n- b: 2\n- c: 3");
}

#[test]
fn facts_remove_reports_the_old_value() {
    let mut facts = Facts::new();
    facts.insert("k".to_string(), "v".to_string());
    assert_eq!(facts.remove("k"), Some("v".to_string()));
    assert_eq!(facts.remove("k"), None);
    assert_eq!(facts.len(), 0);
}

#[test]
fn preferences_default_values() {
    let p = Preferences::default();
    assert!(p.user_name.is_none());
    assert_eq!(p.voice.as_deref(), Some("en_US-lessac-medium"));
    assert_eq!(p.language, "en");
    assert_eq!(p.wake_word, "hey lai");
    assert!(p.proactive_enabled);
    assert_eq!(p.memory_block(), "");
}

#[test]
fn memory_block_lists_name_then_sorted_facts() {
    let mut p = Preferences::default();
    p.user_name = Some("Ada".to_string());
    p.facts.insert("zebra".to_string(), "1".to_string());
    p.facts.insert("apple".to_string(), "2".to_string());
    assert_eq!(
        p.memory_block(),
        "Known about the user:\nThe user's name is Ada.\n- apple: 2\n- zebra: 1"
    );
}

fn exchange(i: usize) -> Exchange {
    Exchange {
        user_input: format!("q{i}"),
        intent: Intent::Unknown,
        response: format!("a{i}"),
    }
}

#[test]
fn history_keeps_only_the_latest() {
    let mut h = ConversationHistory::new();
    for i in 0..(MAX_HISTORY + 5) {
        h.push(exchange(i));
    }
    let all = h.recent(usize::MAX);
    assert_eq!(all.len(), MAX_HISTORY);
    assert_eq!(all[0].user_input, "q5");
    assert_eq!(all[MAX_HISTORY - 1].user_input, format!("q{}", MAX_HISTORY + 4));
    let last_two = h.recent(2);
    assert_eq!(last_two.len(), 2);
    assert_eq!(last_two[1].response, format!("a{}", MAX_HISTORY + 4));
}

#[test]
fn recent_summary_names_user_and_quotes_responses() {
    let ctx = ConversationContext {
        recent_exchanges: vec![exchange(1)],
        user_name: Some("Ada".to_string()),
        voice: None,
    };
    assert_eq!(ctx.recent_summary(), "The user's name is Ada.\nUser: q1\nLai: a1");
    let empty = ConversationContext { recent_exchanges: vec![], user_name: None, voice: None };
    assert_eq!(empty.recent_summary(), "");
    let long = ConversationContext {
        recent_exchanges: vec![Exchange {
            user_input: "hi".to_string(),
            intent: Intent::Unknown,
            response: "x".repeat(130),
        }],
        user_name: None,
        voice: None,
    };
    assert_eq!(long.recent_summary(), format!("User: hi\nLai: {}…", "x".repeat(120)));
}

#[test]
fn history_keeps_each_exchange_intent() {
    let mut h = ConversationHistory::new();
    h.push(Exchange {
        user_input: "validate water".to_string(),
        intent: Intent::Validate { text: "water".to_string(), context: String::new() },
        response: "ok".to_string(),
    });
    h.push(exchange(1));
    let all = h.recent(5);
    assert_eq!(all[0].intent, Intent::Validate { text: "water".to_string(), context: String::new() });
    assert_eq!(all[1].intent, Intent::Unknown);
}
