use laverna::actions::reminder::{
    lowered_secs_fit, parse_relative_secs, relative_secs_checked, relative_secs_lowered,
};
use laverna::actions::web::{
    http_method, http_method_checked, http_request_target, http_response_text, http_url, search_answer_text, search_query, search_url, truncate,
    MAX_BODY_BYTES,
};
use laverna::llm::{agent_step, chat_endpoint, final_answer, sanitize, user_message, StepChoice};
use laverna::personality::{humanize, toast_line, NO_ANSWER};

#[test]
fn worded_forms() {
    assert_eq!(parse_relative_secs("in 5 minutes"), Some(300));
    assert_eq!(parse_relative_secs("30 seconds"), Some(30));
    assert_eq!(parse_relative_secs("2 hours"), Some(7200));
    assert_eq!(parse_relative_secs("in 1 hour"), Some(3600));
    assert_eq!(parse_relative_secs("1 day"), Some(86_400));
}

#[test]
fn compact_forms() {
    assert_eq!(parse_relative_secs("90s"), Some(90));
    assert_eq!(parse_relative_secs("10m"), Some(600));
    assert_eq!(parse_relative_secs("1h"), Some(3600));
}

#[test]
fn unparseable_returns_none() {
    assert_eq!(parse_relative_secs("tomorrow at noon"), None);
    assert_eq!(parse_relative_secs("next week"), None);
    assert_eq!(parse_relative_secs(""), None);
}

#[test]
fn relative_secs_edge_cases() {
    assert_eq!(parse_relative_secs("  IN 3 Mins "), Some(180));
    assert_eq!(parse_relative_secs("+7s"), Some(7));
    assert_eq!(parse_relative_secs("5 fortnights"), None);
    assert_eq!(relative_secs_checked("18446744073709551615h"), None);
    assert_eq!(relative_secs_checked("2 hr"), Some(7200));
}

#[test]
fn truncate_caps_oversized_body() {
    let big = "a".repeat(MAX_BODY_BYTES + 100);
    let out = truncate(big);
    assert!(out.ends_with("…[truncated]"));
    assert!(out.len() <= MAX_BODY_BYTES + 32);
}

#[test]
fn truncate_keeps_short_bodies_and_char_boundaries() {
    assert_eq!(truncate("short".to_string()), "short");
    let body = format!("{}é{}", "a".repeat(MAX_BODY_BYTES - 1), "b".repeat(10));
    let out = truncate(body);
    assert_eq!(out, format!("{}\n…[truncated]", "a".repeat(MAX_BODY_BYTES - 1)));
}

#[test]
fn search_rejects_empty_query() {
    assert!(search_query("   ").unwrap_err().contains("non-empty"));
    assert_eq!(search_query("  rust ").unwrap(), "rust");
}

#[test]
fn fetch_rejects_non_http_scheme() {
    assert!(http_url("web_fetch", "ftp://example.com").unwrap_err().contains("http://"));
    assert_eq!(http_url("web_fetch", " https://a.b ").unwrap(), "https://a.b");
}

#[test]
fn http_request_rejects_bad_scheme() {
    assert!(http_url("http_request", "file:///etc/passwd").unwrap_err().contains("http://"));
    assert!(http_request_target("GET", "file:///etc/passwd").unwrap_err().contains("http://"));
}

#[test]
fn http_request_rejects_unsupported_method() {
    assert!(http_request_target("PATCH", "https://example.com")
        .unwrap_err()
        .contains("unsupported method"));
}

#[test]
fn http_method_is_trimmed_and_upper_cased() {
    assert_eq!(http_method(" get ").unwrap(), "GET");
    assert_eq!(http_method("Delete").unwrap(), "DELETE");
    assert_eq!(http_method("patch").unwrap_err(), "http_request: unsupported method 'PATCH'");
    let upper: Vec<char> = "POST".chars().collect();
    assert_eq!(http_method_checked(&upper).unwrap(), "POST");
    let other: Vec<char> = "post".chars().collect();
    assert!(http_method_checked(&other).is_err());
    assert_eq!(
        http_request_target("put", "  https://x.org/a ").unwrap(),
        ("PUT".to_string(), "https://x.org/a".to_string())
    );
    assert_eq!(
        http_request_target("PATCH", "ftp://x").unwrap_err(),
        "http_request needs an http:// or https:// URL"
    );
}

#[test]
fn search_url_percent_encodes_the_query() {
    assert_eq!(
        search_url("a b&é"),
        "https://api.duckduckgo.com/?q=a%20b%26%C3%A9&format=json&no_html=1&no_redirect=1"
    );
}

#[test]
fn search_answer_assembly() {
    let out = search_answer_text(
        "rust",
        Some("Rust is a language.".into()),
        vec![Some("One".into()), None, Some("".into()), Some("Two".into())],
    );
    assert_eq!(out, "Rust is a language.\n• One\n• Two");
    let none = search_answer_text("zzz", Some("".into()), vec![]);
    assert_eq!(none, "web_search: no results for 'zzz'");
    let six: Vec<Option<String>> = (1..=6).map(|i| Some(format!("t{i}"))).collect();
    let out = search_answer_text("q", None, six);
    assert_eq!(out, "• t1\n• t2\n• t3\n• t4\n• t5");
}

#[test]
fn http_response_text_formats_status() {
    assert_eq!(http_response_text("200 OK", "ok"), "HTTP 200 OK\nok");
}

#[test]
fn toast_line_cuts_long_first_line() {
    assert_eq!(toast_line("hello\nworld"), "hello");
    let long = "x".repeat(80);
    assert_eq!(toast_line(&long), format!("{}...", "x".repeat(73)));
    let exact = "y".repeat(76);
    assert_eq!(toast_line(&exact), exact);
}

#[test]
fn humanize_strips_scaffolding() {
    let raw = "Proof reasoning: the answer is 4\ndescent: 40%\n├ tree\nResult: ok ♀Shukra rises";
    assert_eq!(humanize(raw), "the answer is 4\nok  rises");
    assert_eq!(humanize("   "), "");
    assert_eq!(humanize("domain: x\nintent: y"), NO_ANSWER);
    assert_eq!(humanize("circle_area | math   | area"), "circle_area —  area");
}

#[test]
fn sanitize_redacts_leaked_terms() {
    assert_eq!(sanitize("  I am the Shadow Monarch of L.ai  "), "I am the [redacted] of [redacted]");
    assert_eq!(sanitize("plain"), "plain");
}

#[test]
fn user_message_and_endpoint() {
    assert_eq!(user_message("hi", "  "), "hi\n\nRespond as L.");
    assert_eq!(
        user_message("q", "ctx"),
        "Verified context (trust this):\nctx\n\nQuestion: q\n\nRespond as L."
    );
    assert_eq!(chat_endpoint("http://x/v1//"), "http://x/v1/chat/completions");
}

#[test]
fn agent_step_prefers_named_tool_calls() {
    assert!(matches!(
        agent_step(Some("set_timer".into()), Some("text".into())),
        Some(StepChoice::Call(n)) if n == "set_timer"
    ));
    assert!(matches!(
        agent_step(Some("".into()), Some("  answer  ".into())),
        Some(StepChoice::Answer(a)) if a == "answer"
    ));
    assert!(agent_step(None, Some("   ".into())).is_none());
    assert_eq!(final_answer(Some(" ollama says hi ".into())).as_deref(), Some("o[redacted] says hi"));
}

#[test]
fn relative_secs_on_lowered_phrases() {
    assert_eq!(relative_secs_lowered("in 5 minutes"), Some(300));
    assert_eq!(relative_secs_lowered("90s"), Some(90));
    assert_eq!(relative_secs_lowered("IN 5 MINUTES"), None);
    assert!(!lowered_secs_fit("18446744073709551615h"));
    assert!(lowered_secs_fit("tomorrow"));
}

#[test]
fn sanitize_hides_every_leaked_term() {
    let terms = [
        "L.ai", "L.AI", "proof cascade", "NAND", "bankai", "CID", "Gate", "verify-first",
        "verify first", "pachinko", "9-graha", "9 graha", "Navagraha", "descent cascade", "tanto",
        "zanpakuto", "shikai", "asauchi", "domain_graph", "graha", "Athena", "Proof engine",
        "llama", "gguf", "GGUF", "ollama", "llama.cpp", "Llama", "Solo Leveling", "solo leveling",
        "Shadow Monarch", "shadow monarch", "Sung Jinwoo", "Death Note", "death note",
        "Great Sage", "great sage", "Rimuru", "Tensura", "tensura",
    ];
    let all = terms.join(" ");
    let clean = sanitize(&all);
    for t in terms {
        assert!(!clean.contains(t), "{t} survived in {clean}");
        assert!(!sanitize(&format!("a{t}b")).contains(t));
    }
}

#[test]
fn relative_time_too_large_for_u64_is_not_understood() {
    assert_eq!(parse_relative_secs("18446744073709551615h"), None);
    assert_eq!(parse_relative_secs("in 18446744073709551615 hours"), None);
    assert_eq!(parse_relative_secs("18446744073709551615s"), Some(u64::MAX));
}

#[test]
fn toast_cuts_at_a_character_boundary() {
    let wide = "é".repeat(50);
    let t = toast_line(&wide);
    assert_eq!(t, format!("{}...", "é".repeat(36)));
    assert!(t.len() <= 76);
    let mixed = format!("a{}", "é".repeat(40));
    assert_eq!(toast_line(&mixed), format!("a{}...", "é".repeat(36)));
}

#[test]
fn humanize_is_blank_only_for_blank_input_and_hides_grahas() {
    assert_eq!(humanize("   \n "), "");
    assert_eq!(humanize("Result: 4"), "4");
    assert_eq!(humanize("♂Mangala rules"), "rules");
    let h = humanize("  ☉Surya ☽Chandra shine together  ");
    assert_eq!(h, h.trim());
    assert!(!h.chars().any(|c| "☉☽☿♀♁♂♃♄⛢♅♆♇⚹☄".contains(c)));
}

#[test]
fn sanitize_twice_is_sanitize_once() {
    let once = sanitize("  Built on llama.cpp with NAND gates  ");
    assert_eq!(sanitize(&once), once);
    assert_eq!(once, once.trim());
    assert_eq!(sanitize("  plain answer \n"), "plain answer");
}
