use laverna::actions::device::{
    alarm_reply, first_containing, battery_reply, battery_status_text, call_reply, contacts_unavailable,
    find_contact, get_clipboard_reply, no_contact_reply, photo_reply, set_clipboard_reply,
    sms_reply, Contact,
};
use laverna::actions::timer::{cancel_all_message, cancel_message, set_message, timer_label};
use laverna::actions::{plan_tool, timer_tool_reply, ArgValue, Registry, ToolArgs, ToolPlan};
use laverna::agent::{
    agent_start, agent_transition, call_id, states_claim, cross_check_message, inconclusive, needs_cross_check,
    summary_question, system_prompt, AgentAction, AgentEvent, AgentState, MAX_STEPS,
};
use laverna::intent::Intent;
use laverna::llm::{StepChoice, PERSONA_SYSTEM_PROMPT};
use laverna::personality::{humanize, GREETING};
use laverna::proactive::ProactiveEngine;
use laverna::route::{
    conversation_step, converse_fallback, engine_call, heard, heard_lowered, help_text, plan_reply, EngineCall, Heard, Step, IDENTITY, NO_VERIFIED_ANSWER,
};
use laverna::serve::{
    authorized, http_response, http_route, is_header_end, request_parts, rpc_chat_reply,
    rpc_line_reply, rpc_route, HeaderInfo, HttpRoute, RpcReply, RpcRoute, INTERNAL_ERROR,
    METHOD_NOT_FOUND, PARSE_ERROR,
};

// ───────────── agent loop ─────────────

fn finished(a: &AgentAction) -> Option<Option<String>> {
    match a {
        AgentAction::Finish(r) => Some(r.clone()),
        _ => None,
    }
}

#[test]
fn agent_runs_tools_then_answers() {
    let (s, a) = agent_start();
    assert!(matches!(s, AgentState::Asking { step: 1 }));
    assert!(matches!(a, AgentAction::AskModel));
    let (s, a) =
        agent_transition(s, AgentEvent::Reply(Some(StepChoice::Call("solve".into()))), "goal");
    match &a {
        AgentAction::RunTool { name, call_id } => {
            assert_eq!(name, "solve");
            assert_eq!(call_id, "call_1");
        }
        other => panic!("unexpected {other:?}"),
    }
    let (s, a) = agent_transition(s, AgentEvent::Output("4".into()), "goal");
    assert!(matches!(s, AgentState::Asking { step: 2 }));
    assert!(matches!(a, AgentAction::AskModel));
    let (s, a) = agent_transition(
        s,
        AgentEvent::Reply(Some(StepChoice::Answer("Done.".into()))),
        "goal",
    );
    assert!(matches!(s, AgentState::Done));
    assert_eq!(finished(&a), Some(Some("Done.".to_string())));
}

#[test]
fn agent_cross_checks_claims() {
    let s = AgentState::Asking { step: 3 };
    let (s, a) = agent_transition(
        s,
        AgentEvent::Reply(Some(StepChoice::Answer("2 + 2 is 5".into()))),
        "sum",
    );
    match &a {
        AgentAction::Verify { query } => assert_eq!(query, "2 + 2 is 5"),
        other => panic!("unexpected {other:?}"),
    }
    let (s, a) = agent_transition(s, AgentEvent::Output("4".into()), "sum");
    match &a {
        AgentAction::Reconcile { answer, message } => {
            assert_eq!(answer, "2 + 2 is 5");
            assert_eq!(message, &cross_check_message("4"));
        }
        other => panic!("unexpected {other:?}"),
    }
    let (_, a) = agent_transition(
        s,
        AgentEvent::Reply(Some(StepChoice::Answer("2 + 2 is 4".into()))),
        "sum",
    );
    assert_eq!(finished(&a), Some(Some("2 + 2 is 4".to_string())));
}

#[test]
fn agent_keeps_answer_when_check_is_inconclusive() {
    let s = AgentState::Verifying { answer: "x is 3".into() };
    let (_, a) = agent_transition(s, AgentEvent::Output("error: no parse".into()), "g");
    assert_eq!(finished(&a), Some(Some("x is 3".to_string())));
    let s = AgentState::Reconciling { answer: "x is 3".into() };
    let (_, a) = agent_transition(s, AgentEvent::Reply(None), "g");
    assert_eq!(finished(&a), Some(Some("x is 3".to_string())));
}

#[test]
fn agent_summarizes_when_budget_is_spent() {
    let s = AgentState::Observing { step: MAX_STEPS };
    let (s, a) = agent_transition(s, AgentEvent::Output("obs".into()), "the goal");
    assert!(matches!(s, AgentState::Summarizing));
    match &a {
        AgentAction::Summarize { question } => {
            assert_eq!(question, "Summarize the answer to: the goal")
        }
        other => panic!("unexpected {other:?}"),
    }
    let (_, a) = agent_transition(s, AgentEvent::Summary(Some("short".into())), "the goal");
    assert_eq!(finished(&a), Some(Some("short".to_string())));
}

#[test]
fn agent_without_model_falls_back() {
    let (s, _) = agent_start();
    let (s, a) = agent_transition(s, AgentEvent::Reply(None), "g");
    assert!(matches!(s, AgentState::Done));
    assert_eq!(finished(&a), Some(None));
}

#[test]
fn agent_loop_runs_at_most_max_steps_tools() {
    let (mut s, _) = agent_start();
    let mut tools = 0;
    let mut events = 0;
    loop {
        let e = match &s {
            AgentState::Asking { .. } => AgentEvent::Reply(Some(StepChoice::Call("t".into()))),
            AgentState::Summarizing => AgentEvent::Summary(None),
            _ => AgentEvent::Output("o".into()),
        };
        let (n, a) = agent_transition(s, e, "g");
        events += 1;
        if matches!(a, AgentAction::RunTool { .. }) {
            tools += 1;
        }
        s = n;
        if matches!(s, AgentState::Done) {
            break;
        }
    }
    assert_eq!(tools, MAX_STEPS);
    assert_eq!(events, 2 * MAX_STEPS + 1);
}

#[test]
fn agent_helpers() {
    assert_eq!(system_prompt("  "), PERSONA_SYSTEM_PROMPT);
    assert_eq!(system_prompt("facts"), format!("{PERSONA_SYSTEM_PROMPT}\n\nfacts"));
    assert!(needs_cross_check("The answer is 42"));
    assert!(needs_cross_check("3 APPLES ARE red"));
    assert!(!needs_cross_check("The answer is forty-two"));
    assert!(!needs_cross_check("42"));
    assert!(inconclusive("   "));
    assert!(inconclusive("error: bad"));
    assert!(!inconclusive("4"));
    assert_eq!(call_id(3), "call_3");
    assert_eq!(summary_question("x"), "Summarize the answer to: x");
}

// ───────────── tools, timers and device replies ─────────────

fn targs(pairs: Vec<(&str, ArgValue)>) -> ToolArgs {
    ToolArgs { fields: pairs.into_iter().map(|(k, v)| (k.to_string(), v)).collect() }
}

#[test]
fn plan_tool_decodes_calls() {
    match plan_tool("set_timer", &targs(vec![("seconds", ArgValue::Int(90))])) {
        ToolPlan::SetTimer { seconds, label } => {
            assert_eq!(seconds, 90);
            assert!(label.is_none());
        }
        other => panic!("unexpected {other:?}"),
    }
    match plan_tool("set_timer", &targs(vec![("seconds", ArgValue::Int(0))])) {
        ToolPlan::Reply(m) => assert_eq!(m, "timer needs a positive duration (seconds)"),
        other => panic!("unexpected {other:?}"),
    }
    match plan_tool("http_request", &targs(vec![("url", ArgValue::Str("https://a".into()))])) {
        ToolPlan::HttpRequest { method, url, body } => {
            assert_eq!(method, "GET");
            assert_eq!(url, "https://a");
            assert!(body.is_none());
        }
        other => panic!("unexpected {other:?}"),
    }
    match plan_tool("fly", &targs(vec![])) {
        ToolPlan::Reply(m) => assert_eq!(m, "tool 'fly' is not available in-process"),
        other => panic!("unexpected {other:?}"),
    }
    assert!(matches!(plan_tool("battery_status", &targs(vec![])), ToolPlan::BatteryStatus));
}

#[test]
fn timer_messages() {
    assert_eq!(timer_label(None), "timer");
    assert_eq!(timer_label(Some("tea")), "tea");
    assert_eq!(set_message("tea", 90), "Timer set for tea: 1 minutes 30 seconds");
    assert_eq!(set_message("tea", 120), "Timer set for tea: 2 minutes");
    assert_eq!(set_message("tea", 45), "Timer set for tea: 45 seconds");
    assert_eq!(cancel_message("tea", true), "Cancelled timer: tea");
    assert_eq!(cancel_message("tea", false), "No timer named 'tea' found");
    assert_eq!(cancel_all_message(2), "Cancelled 2 timer(s)");
    assert_eq!(timer_tool_reply(90), "Timer set for 90 seconds");
}

#[test]
fn device_replies() {
    assert_eq!(alarm_reply("7am", ""), "Alarm set for 7am (notification scheduled)");
    assert_eq!(alarm_reply("7am", "ok"), "Alarm set for 7am");
    assert_eq!(battery_reply("failed: x", None), "Failed to get battery status.");
    assert_eq!(battery_reply("raw", None), "Battery info: raw");
    assert_eq!(
        battery_reply("{}", Some((Some(80), Some("CHARGING".into()), None))),
        "Battery: 80% (CHARGING), Health: unknown"
    );
    assert_eq!(
        battery_status_text("{\"percentage\": 55, \"status\": \"FULL\", \"health\": \"GOOD\"}"),
        "Battery: 55% (FULL), Health: GOOD"
    );
    assert_eq!(battery_status_text("not json"), "Battery info: not json");
    assert_eq!(battery_status_text(""), "Failed to get battery status.");
    assert_eq!(call_reply("Sam", ""), "Calling Sam...");
    assert_eq!(call_reply("Sam", "failed: busy"), "Failed to call Sam: failed: busy");
    assert_eq!(
        no_contact_reply("Zed"),
        "I couldn't find a contact named 'Zed' in your contacts."
    );
    assert_eq!(photo_reply("", Some("ok")), "Photo saved to /tmp/lai-photo.jpg");
    assert_eq!(photo_reply("ok", None), "Photo saved to /sdcard/Download/lai-photo.jpg");
    assert_eq!(
        photo_reply("failed", Some("")),
        "Failed to take photo. Make sure camera permission is granted."
    );
    assert_eq!(set_clipboard_reply(""), "Copied to clipboard");
    assert_eq!(get_clipboard_reply("hi"), "Clipboard: hi");
    assert_eq!(get_clipboard_reply(""), "Clipboard is empty");
    assert_eq!(sms_reply("Sam", "yo", ""), "Message sent to Sam: \"yo\"");
    assert!(contacts_unavailable("command failed: x"));
    assert!(!contacts_unavailable("[]"));
}

#[test]
fn find_contact_matches_case_insensitively() {
    let contacts = vec![
        Contact { name: "Alice Smith".into(), number: "1".into() },
        Contact { name: "Bob".into(), number: "2".into() },
    ];
    assert_eq!(find_contact(&contacts, "SMITH"), Some(0));
    assert_eq!(find_contact(&contacts, "bob"), Some(1));
    assert_eq!(find_contact(&contacts, "carol"), None);
}

// ───────────── proactive suggestions ─────────────

#[test]
fn proactive_offers_once_per_cooldown() {
    let mut e = ProactiveEngine::new();
    let t0 = 1_700_000_000;
    assert!(e.check(t0, 7).unwrap().starts_with("Good morning"));
    assert!(e.check(t0 + 29 * 60, 12).is_none());
    assert!(e.check(t0 + 30 * 60, 12).unwrap().contains("lunchtime"));
    assert!(e.check(t0 + 120 * 60, 3).is_none());
}

#[test]
fn proactive_quiet_hours_do_not_start_a_cooldown() {
    let mut e = ProactiveEngine::new();
    assert!(e.check(0, 2).is_none());
    assert!(e.last_suggestion.is_none());
    assert!(e.check(60, 22).unwrap().contains("getting late"));
    assert!(e.check(61, 18).is_none());
}

// ───────────── HTTP and JSON-RPC front doors ─────────────

#[test]
fn token_keeps_its_case_and_passes_when_presented_exactly() {
    let mut h = HeaderInfo::new();
    h.absorb("x-LAI-token: S3cr3T-Key\r\n");
    assert_eq!(h.token.as_deref(), Some("S3cr3T-Key"));
    assert!(authorized(Some("S3cr3T-Key"), h.token.as_deref()));
    assert!(!authorized(Some("s3cr3t-key"), h.token.as_deref()));
}

#[test]
fn http_request_handling() {
    assert_eq!(request_parts("POST /chat HTTP/1.1"), ("POST".to_string(), "/chat".to_string()));
    assert_eq!(request_parts(""), (String::new(), "/".to_string()));
    assert!(is_header_end("\r\n"));
    assert!(!is_header_end("Host: x"));
    let mut h = HeaderInfo::new();
    h.absorb("Content-Length: 12");
    h.absorb("X-Lai-Token:  secret ");
    h.absorb("Accept: */*");
    assert_eq!(h.content_length, 12);
    assert_eq!(h.token.as_deref(), Some("secret"));
    h.absorb("content-length: nope");
    assert_eq!(h.content_length, 0);
    assert!(authorized(None, None));
    assert!(authorized(Some("k"), Some("k")));
    assert!(!authorized(Some("k"), Some("j")));
    assert!(!authorized(Some("k"), None));
    assert_eq!(http_route("POST", "/chat"), HttpRoute::Chat);
    assert_eq!(http_route("GET", "/health"), HttpRoute::Health);
    assert_eq!(http_route("GET", "/chat"), HttpRoute::NotFound);
    assert_eq!(
        http_response("200 OK", "{}"),
        "HTTP/1.1 200 OK\r\nContent-Type: application/json\r\nContent-Length: 2\r\nConnection: close\r\n\r\n{}"
    );
    assert!(http_response("200 OK", "é").contains("Content-Length: 2\r\n"));
}

#[test]
fn rpc_routing() {
    assert!(matches!(rpc_route("initialize", ""), RpcRoute::Initialize));
    assert!(matches!(rpc_route("notifications/initialized", ""), RpcRoute::Initialized));
    assert!(matches!(rpc_route("tools/list", ""), RpcRoute::ToolsList));
    assert!(matches!(rpc_route("tools/call", "chat"), RpcRoute::Chat));
    assert!(matches!(rpc_route("tools/call", "other"), RpcRoute::UnknownTool(_)));
    assert!(matches!(rpc_route("bogus", ""), RpcRoute::MethodNotFound(_)));
}

// ───────────── replies ─────────────

#[test]
fn plan_reply_routes_intents() {
    assert!(matches!(plan_reply(&Intent::TakePhoto), Step::Act));
    match plan_reply(&Intent::Solve { query: "2+2".into() }) {
        Step::Engine(h) => assert_eq!(h, "Proof reasoning:\n"),
        other => panic!("unexpected {other:?}"),
    }
    match plan_reply(&Intent::Query { text: "Who are you?".into() }) {
        Step::Final(t) => assert_eq!(t, IDENTITY),
        other => panic!("unexpected {other:?}"),
    }
    assert!(matches!(
        plan_reply(&Intent::Conversational { text: "tell me a story".into() }),
        Step::Converse { conversational: true }
    ));
    assert!(matches!(plan_reply(&Intent::Help), Step::Help));
}

#[test]
fn converse_fallback_points_to_examples_when_empty() {
    assert_eq!(converse_fallback(true, "   "), humanize(NO_VERIFIED_ANSWER));
    assert_eq!(converse_fallback(true, " 4 "), humanize("4"));
}

#[test]
fn help_lists_registered_actions() {
    let reg = Registry::new();
    assert_eq!(reg.list().len(), 11);
    assert_eq!(reg.list()[0].0, "timer");
    let h = help_text(&reg);
    assert!(h.starts_with("Here's what I can do:"));
    assert!(h.contains("web"));
}

#[test]
fn wake_word_handling() {
    assert!(matches!(heard("   ", "lai", true), Heard::Ignore));
    assert!(matches!(heard("Hello there", "lai", false), Heard::Command(c) if c == "Hello there"));
    assert!(matches!(heard("Lai, Set a timer", "lai", true), Heard::Command(c) if c == "set a timer"));
    assert!(matches!(heard("LAI", "lai", true), Heard::Acknowledge));
    assert!(matches!(heard("lai :,  ", "lai", true), Heard::Acknowledge));
    assert!(matches!(heard("hey you", "lai", true), Heard::Ignore));
}

#[test]
fn decisions_on_lowered_text() {
    assert!(states_claim("The Answer IS 4", "the answer is 4"));
    assert!(!states_claim("The Answer IS 4", "The Answer IS 4"));
    let names = vec!["alice smith".to_string(), "bob".to_string()];
    assert_eq!(first_containing(&names, "smith"), Some(0));
    assert_eq!(first_containing(&names, "SMITH"), None);
    assert!(matches!(conversation_step(true, "  hello "), Step::Final(t) if t == GREETING));
    assert!(matches!(conversation_step(false, "what is your name"), Step::Final(t) if t == IDENTITY));
    assert!(matches!(conversation_step(false, "what time is it"), Step::Converse { conversational: false }));
    assert!(matches!(heard_lowered("LAI, Go", "lai, go", "lai", true), Heard::Command(c) if c == "go"));
    assert!(matches!(heard_lowered("LAI, Go", "LAI, Go", "lai", true), Heard::Ignore));
}

#[test]
fn json_rpc_replies() {
    match rpc_line_reply("not json {") {
        RpcReply::Error { id, code, message } => {
            assert_eq!((id.as_str(), code, message.as_str()), ("null", PARSE_ERROR, "Parse error"));
        }
        other => panic!("unexpected {other:?}"),
    }
    assert!(matches!(
        rpc_line_reply(r#"{"jsonrpc":"2.0","method":"notifications/initialized"}"#),
        RpcReply::NoReply
    ));
    match rpc_line_reply(r#"{"jsonrpc":"2.0","id":7,"method":"ping"}"#) {
        RpcReply::Error { id, code, message } => {
            assert_eq!((id.as_str(), code, message.as_str()), ("7", METHOD_NOT_FOUND, "method not found: ping"));
        }
        other => panic!("unexpected {other:?}"),
    }
    match rpc_line_reply(r#"{"id":"a","method":"tools/call","params":{"name":"calc"}}"#) {
        RpcReply::Error { id, code, message } => {
            assert_eq!((id.as_str(), code, message.as_str()), ("\"a\"", METHOD_NOT_FOUND, "unknown tool: calc"));
        }
        other => panic!("unexpected {other:?}"),
    }
    match rpc_line_reply(r#"{"id":3,"method":"tools/call","params":{"name":"chat","arguments":{"text":"hi"}}}"#) {
        RpcReply::Chat { id, text } => assert_eq!((id.as_str(), text.as_str()), ("3", "hi")),
        other => panic!("unexpected {other:?}"),
    }
    assert!(matches!(rpc_line_reply(r#"{"id":1,"method":"initialize"}"#), RpcReply::Initialize { id } if id == "1"));
    assert!(matches!(rpc_line_reply(r#"{"id":2,"method":"tools/list"}"#), RpcReply::ToolsList { id } if id == "2"));
    match rpc_chat_reply("3", Err("boom".to_string())) {
        RpcReply::Error { id, code, message } => assert_eq!((id.as_str(), code, message.as_str()), ("3", INTERNAL_ERROR, "boom")),
        other => panic!("unexpected {other:?}"),
    }
    assert!(matches!(rpc_chat_reply("3", Ok("{}".to_string())), RpcReply::ChatResult { id, response } if id == "3" && response == "{}"));
}

#[test]
fn engine_calls_carry_the_intent_fields_in_order() {
    let v = Intent::Validate { text: "water".to_string(), context: "chem".to_string() };
    assert!(matches!(engine_call(&v), Some(EngineCall::Validate(t, c)) if t == "water" && c == "chem"));
    let r = Intent::Reason { have: "a,b".to_string(), want: "c".to_string(), max_depth: 4 };
    assert!(matches!(engine_call(&r), Some(EngineCall::Reason(h, w, 4)) if h == "a,b" && w == "c"));
    assert!(engine_call(&Intent::Help).is_none());
    assert!(engine_call(&Intent::BatteryStatus).is_none());
}
