use laverna::intent::{classify, classify_checked, classify_overflows, Intent};

#[test]
fn timer_basic() {
    let intent = classify("set a 5 minute timer");
    match intent {
        Intent::SetTimer { duration_secs, .. } => assert_eq!(duration_secs, 300),
        _ => panic!("expected SetTimer"),
    }
}

#[test]
fn timer_with_label() {
    let intent = classify("set a 10 minute timer for pasta");
    match intent {
        Intent::SetTimer { duration_secs, label } => {
            assert_eq!(duration_secs, 600);
            assert_eq!(label.as_deref(), Some("pasta"));
        }
        _ => panic!("expected SetTimer"),
    }
}

#[test]
fn sms_basic() {
    let intent = classify("text John hello");
    match intent {
        Intent::SendMessage { contact, message } => {
            assert_eq!(contact, "John");
            assert_eq!(message, "hello");
        }
        _ => panic!("expected SendMessage"),
    }
}

#[test]
fn call_basic() {
    let intent = classify("call Sarah");
    assert_eq!(intent, Intent::Call { contact: "Sarah".into() });
}

#[test]
fn battery() {
    assert_eq!(classify("what's my battery"), Intent::BatteryStatus);
}

#[test]
fn goodbye() {
    assert_eq!(classify("goodbye"), Intent::Goodbye);
}

#[test]
fn help() {
    assert_eq!(classify("help"), Intent::Help);
}

#[test]
fn query() {
    match classify("what is the capital of France") {
        Intent::Query { text } => assert!(text.contains("capital")),
        _ => panic!("expected Query"),
    }
}

#[test]
fn convert_basic() {
    match classify("convert 100 miles to kilometers") {
        Intent::Convert { value, from, to } => {
            assert_eq!(value.parse::<f64>().unwrap(), 100.0);
            assert_eq!(from, "miles");
            assert_eq!(to, "kilometers");
        }
        _ => panic!("expected Convert"),
    }
}

#[test]
fn convert_no_number() {
    match classify("convert miles to kilometers") {
        Intent::Convert { value, from, to } => {
            assert_eq!(value.parse::<f64>().unwrap(), 1.0);
            assert_eq!(from, "miles");
            assert_eq!(to, "kilometers");
        }
        _ => panic!("expected Convert"),
    }
}

#[test]
fn eval_basic() {
    match classify("calculate 2+2") {
        Intent::Eval { expression } => assert!(expression.contains("2+2")),
        _ => panic!("expected Eval"),
    }
}

#[test]
fn eval_sqrt() {
    match classify("what's sqrt(144)") {
        Intent::Eval { expression } => assert!(expression.contains("sqrt")),
        _ => panic!("expected Eval"),
    }
}

#[test]
fn validate_basic() {
    match classify("validate this claim: water is H2O") {
        Intent::Validate { text, .. } => assert!(text.contains("water")),
        _ => panic!("expected Validate"),
    }
}

#[test]
fn validate_against() {
    match classify("validate X against Y") {
        Intent::Validate { text, context } => {
            assert_eq!(text, "x");
            assert_eq!(context, "y");
        }
        _ => panic!("expected Validate"),
    }
}

#[test]
fn score_basic() {
    match classify("score this response") {
        Intent::Score { text } => assert!(text.contains("score")),
        _ => panic!("expected Score"),
    }
}

#[test]
fn solve_basic() {
    match classify("prove that 2+2=4") {
        Intent::Solve { query } => assert!(query.contains("2+2=4")),
        _ => panic!("expected Solve"),
    }
}

#[test]
fn formula_basic() {
    match classify("evaluate the circle_area formula with r=5") {
        Intent::Formula { name, .. } => assert_eq!(name, "circle_area"),
        _ => panic!("expected Formula"),
    }
}

#[test]
fn search_formulas_basic() {
    match classify("search formulas for gravity") {
        Intent::SearchFormulas { keyword } => assert_eq!(keyword, "gravity"),
        _ => panic!("expected SearchFormulas"),
    }
}

#[test]
fn traverse_basic() {
    match classify("traverse the mangala domain") {
        Intent::Traverse { domain, .. } => assert_eq!(domain, "mangala"),
        _ => panic!("expected Traverse"),
    }
}

#[test]
fn classify_token() {
    match classify("classify mercury") {
        Intent::Classify { token } => assert_eq!(token, "mercury"),
        _ => panic!("expected Classify"),
    }
}

#[test]
fn wheel_basic() {
    match classify("show the wheel") {
        Intent::Wheel { .. } => {}
        _ => panic!("expected Wheel"),
    }
}

#[test]
fn wheel_with_domain() {
    match classify("show the aries wheel") {
        Intent::Wheel { domain } => assert_eq!(domain.as_deref(), Some("aries")),
        _ => panic!("expected Wheel"),
    }
}

#[test]
fn reason_basic() {
    match classify("reason from acceleration to distance") {
        Intent::Reason { have, want, .. } => {
            assert_eq!(have, "acceleration");
            assert_eq!(want, "distance");
        }
        _ => panic!("expected Reason"),
    }
}

#[test]
fn shikai_basic() {
    match classify("shikai what is gravity") {
        Intent::Shikai { query } => assert!(query.contains("gravity")),
        _ => panic!("expected Shikai"),
    }
}

#[test]
fn bankai_basic() {
    match classify("bankai solve for the meaning of life") {
        Intent::BankaiSolve { query } => assert!(query.contains("meaning of life")),
        _ => panic!("expected BankaiSolve"),
    }
}

#[test]
fn empty_input_is_unknown_and_chatter_is_conversational() {
    assert_eq!(classify("   "), Intent::Unknown);
    assert_eq!(
        classify("nice weather today"),
        Intent::Conversational { text: "nice weather today".into() }
    );
}

#[test]
fn cancel_timer_keeps_label_words() {
    assert_eq!(
        classify("cancel the tea timer"),
        Intent::CancelTimer { label: Some("the tea".into()) }
    );
    assert_eq!(classify("cancel timer"), Intent::CancelTimer { label: None });
}

#[test]
fn timer_units_and_last_number_wins() {
    assert_eq!(
        classify("set a 30 second timer"),
        Intent::SetTimer { duration_secs: 30, label: None }
    );
    assert_eq!(
        classify("set a 2 hour timer"),
        Intent::SetTimer { duration_secs: 7200, label: None }
    );
}

#[test]
fn alarm_and_reminder_times() {
    assert_eq!(classify("set an alarm for 7am"), Intent::SetAlarm { time: "7am".into() });
    assert_eq!(classify("alarm please"), Intent::SetAlarm { time: "unknown".into() });
    assert_eq!(
        classify("remind me to call mom at 3pm"),
        Intent::SetReminder { text: "call mom at 3pm".into(), when: "3pm".into() }
    );
    assert_eq!(
        classify("reminder"),
        Intent::SetReminder { text: "reminder".into(), when: "later".into() }
    );
}

#[test]
fn convert_word_form_and_in_connector() {
    assert_eq!(
        classify("5 kg in pounds"),
        Intent::Convert { value: "5".into(), from: "kg".into(), to: "pounds".into() }
    );
}

#[test]
fn bare_expression_is_eval_of_the_text_as_written() {
    assert_eq!(classify("3*(4+5)"), Intent::Eval { expression: "3*(4+5)".into() });
}

#[test]
fn fix_against_and_chain() {
    assert_eq!(
        classify("fix 2+2=5 against arithmetic"),
        Intent::Fix { text: "2+2=5".into(), context: "arithmetic".into() }
    );
    assert_eq!(
        classify("chain formulas a, b with x=1"),
        Intent::ChainFormulas { formulas: "a, b".into(), args: "x=1".into() }
    );
}

#[test]
fn clipboard_and_device_intents() {
    assert_eq!(classify("take a photo"), Intent::TakePhoto);
    assert_eq!(classify("where am i"), Intent::GetLocation);
    assert_eq!(classify("paste"), Intent::GetClipboard);
    assert_eq!(
        classify("copy hello to clipboard"),
        Intent::SetClipboard { text: "".into() }
    );
}

#[test]
fn overflowing_timer_is_detected() {
    let huge = "set a 18446744073709551615 hour timer";
    assert!(classify_overflows(huge));
    assert_eq!(classify_checked(huge), None);
    assert_eq!(
        classify_checked("set a 1 hour timer"),
        Some(Intent::SetTimer { duration_secs: 3600, label: None })
    );
}

#[test]
fn only_blank_input_is_unknown() {
    assert_eq!(classify(""), Intent::Unknown);
    assert_eq!(classify("   \t "), Intent::Unknown);
    assert_eq!(
        classify("hmm, interesting"),
        Intent::Conversational { text: "hmm, interesting".to_string() }
    );
    assert_eq!(classify("Help"), Intent::Help);
}
