use abuse_scraping_classifier::double::Double;
use abuse_scraping_classifier::jev::{
    begin_evaluation, budget_state, build_chat_body, build_typesafe_body, chat_body,
    chat_content, check_status, classifier_signals, finish_evaluation, mock_signals, parse_chat_signals,
    parse_typesafe_signals, typesafe_signals, Evaluation, JevError, JevSettings, Provider,
    CLASSIFIER_SYSTEM,
};
use serde_json::Value;

fn parsed(text: &str) -> Value {
    serde_json::from_str(text).unwrap()
}

fn float(d: Double) -> f64 {
    f64::from_bits(d.bits)
}

fn enum_state() -> Value {
    parsed(
        r#"{
            "api_purpose": "Customer self-service API for viewing own orders.",
            "recent_requests": ["GET orders/{id} (id=1001) 200", "GET orders/{id} (id=1002) 403"],
            "request_rate": "very high",
            "sequential_ids": true,
            "error_rate": "high",
            "distinct_endpoints": "few"
        }"#,
    )
}

fn settings(provider: Provider) -> JevSettings {
    JevSettings {
        provider,
        model: "m".into(),
        path: String::new(),
        api_key: "k".into(),
        custom_auth_header: "x-key".into(),
        timeout_ms: 600,
        max_state_tokens: 24000,
        cloudflare_account_id: None,
    }
}

#[test]
fn budget_truncates_and_leaves_short() {
    let text = "a".repeat(1000);
    let (out, truncated) = budget_state(&text, 100);
    assert!(truncated);
    assert!(out.contains("[… truncated by gateway …]"));
    let (short, t2) = budget_state("short", 100);
    assert!(!t2);
    assert_eq!(short, "short");
}

#[test]
fn budget_keeps_head_and_tail() {
    // 8 characters: 5 at the head, 3 at the tail.
    assert_eq!(
        budget_state("0123456789é", 2),
        ("01234\n[… truncated by gateway …]\n89é".to_string(), true)
    );
    assert_eq!(budget_state("01234567", 2), ("01234567".to_string(), false));
    assert_eq!(budget_state("abc", 0), ("abc".to_string(), false));
    assert_eq!(budget_state("abc", usize::MAX), ("abc".to_string(), false));
}

#[test]
fn parses_openai_classifier_content() {
    let body = br#"{"choices":[{"message":{"content":"{\"behaviour\":\"enumeration\",\"confidence\":0.88}"}}]}"#;
    let sig = parse_chat_signals(body).unwrap();
    let (b, c) = sig.behaviour.unwrap();
    assert_eq!(b, "enumeration");
    assert!((float(c) - 0.88).abs() < 1e-9);
}

#[test]
fn parses_typesafe_choice_confidence() {
    let body = br#"{"answers":{"behaviour":{"type":"choice","choice":"auth_probing","confidence":0.74}}}"#;
    let sig = parse_typesafe_signals(body).unwrap();
    let (b, c) = sig.behaviour.unwrap();
    assert_eq!(b, "auth_probing");
    assert!((float(c) - 0.74).abs() < 1e-9);
}

#[test]
fn parses_typesafe_choice_probabilities_fallback() {
    // Some hosts omit `confidence` and report per-choice probability mass; the
    // parser must fall back to the winning choice's probability.
    let body = br#"{"answers":{"behaviour":{"type":"choice","choice":"enumeration","probabilities":{"normal_use":0.1,"enumeration":0.82}}}}"#;
    let sig = parse_typesafe_signals(body).unwrap();
    let (b, c) = sig.behaviour.unwrap();
    assert_eq!(b, "enumeration");
    assert!((float(c) - 0.82).abs() < 1e-9);
}

#[test]
fn mock_classifies_enumeration_and_normal() {
    let bad = mock_signals(&enum_state());
    assert_eq!(bad.behaviour.as_ref().unwrap().0, "enumeration");
    let good = mock_signals(&parsed(
        r#"{"request_rate": "low", "sequential_ids": false, "error_rate": "low", "distinct_endpoints": "few"}"#,
    ));
    assert_eq!(good.behaviour.as_ref().unwrap().0, "normal_use");
}

#[test]
fn mock_classifies_auth_probing_and_scraping() {
    let probe = mock_signals(&parsed(
        r#"{"request_rate": "low", "sequential_ids": false, "error_rate": "high", "distinct_endpoints": "few"}"#,
    ));
    assert_eq!(probe.behaviour.as_ref().unwrap().0, "auth_probing");
    let scrape = mock_signals(&parsed(
        r#"{"request_rate": "very high", "sequential_ids": false, "error_rate": "low", "distinct_endpoints": "many"}"#,
    ));
    assert_eq!(scrape.behaviour.as_ref().unwrap().0, "bulk_scraping");
}

#[test]
fn mock_confidences_and_missing_flags() {
    let told = |text: &str| {
        let (choice, confidence) = mock_signals(&parsed(text)).behaviour.unwrap();
        (choice, float(confidence))
    };
    assert_eq!(told(r#"{"sequential_ids": true, "request_rate": "high"}"#), ("enumeration".to_string(), 0.9));
    assert_eq!(told(r#"{"error_rate": "high"}"#), ("auth_probing".to_string(), 0.85));
    assert_eq!(
        told(r#"{"request_rate": "high", "distinct_endpoints": "some"}"#),
        ("bulk_scraping".to_string(), 0.8)
    );
    assert_eq!(told(r#"{"request_rate": "high"}"#), ("normal_use".to_string(), 0.95));
    assert_eq!(told(r#"{"sequential_ids": true}"#), ("normal_use".to_string(), 0.95));
    assert_eq!(told(r#"{"sequential_ids": "true", "error_rate": 7}"#), ("normal_use".to_string(), 0.95));
    assert_eq!(told("[]"), ("normal_use".to_string(), 0.95));
}

#[test]
fn cloudflare_path_includes_account_and_model() {
    let s = JevSettings {
        provider: Provider::Cloudflare,
        model: "@cf/m".into(),
        path: String::new(),
        api_key: "k".into(),
        custom_auth_header: "Authorization".into(),
        timeout_ms: 600,
        max_state_tokens: 24000,
        cloudflare_account_id: Some("acc123".into()),
    };
    assert_eq!(s.resolved_path(), "/client/v4/accounts/acc123/ai/run/@cf/m");
}

#[test]
fn paths_of_the_providers() {
    assert_eq!(settings(Provider::TypeSafe).resolved_path(), "/api/alpha/decisions");
    assert_eq!(settings(Provider::OpenAi).resolved_path(), "/v1/chat/completions");
    assert_eq!(settings(Provider::OpenRouter).resolved_path(), "/api/v1/chat/completions");
    assert_eq!(settings(Provider::LiteLlm).resolved_path(), "/v1/chat/completions");
    assert_eq!(settings(Provider::Custom).resolved_path(), "/v1/chat/completions");
    assert_eq!(settings(Provider::Mock).resolved_path(), "");
    assert_eq!(settings(Provider::Cloudflare).resolved_path(), "/client/v4/accounts//ai/run/m");
    assert_eq!(Provider::Cloudflare.default_path(), "/client/v4/accounts");
    let mut s = settings(Provider::Cloudflare);
    s.path = "/mine".into();
    assert_eq!(s.resolved_path(), "/mine");
}

#[test]
fn providers_by_name() {
    assert_eq!(Provider::parse("mock"), Provider::Mock);
    assert_eq!(Provider::parse("openai"), Provider::OpenAi);
    assert_eq!(Provider::parse("openrouter"), Provider::OpenRouter);
    assert_eq!(Provider::parse("litellm"), Provider::LiteLlm);
    assert_eq!(Provider::parse("cloudflare"), Provider::Cloudflare);
    assert_eq!(Provider::parse("custom"), Provider::Custom);
    assert_eq!(Provider::parse("typesafe"), Provider::TypeSafe);
    assert_eq!(Provider::parse("Mock"), Provider::TypeSafe);
    assert!(Provider::LiteLlm.is_openai_compat());
    assert!(!Provider::Cloudflare.is_openai_compat());
}

#[test]
fn typesafe_body_carries_state_and_single_question() {
    let body = build_typesafe_body("~typesafe/jev-latest", &enum_state());
    assert_eq!(body["state"]["sequential_ids"], Value::Bool(true));
    assert!(body["questions"]["behaviour"]["criteria"]["enumeration"].is_string());
    // exactly one question
    assert_eq!(body["questions"].as_object().unwrap().len(), 1);
}

#[test]
fn typesafe_body_in_full() {
    let body = build_typesafe_body("j", &parsed(r#"{"a": [1, null, 2.5]}"#));
    let expected = parsed(
        r#"{
            "model": "j",
            "state": {"a": [1, null, 2.5]},
            "questions": {"behaviour": {
                "type": "choice",
                "instructions": "Which option best describes the client's behaviour in `recent_requests`, given `api_purpose`? The rate, sequential-id, error-rate, and distinct-endpoint fields are already computed — use them; do not recount.",
                "criteria": {
                    "normal_use": "Looks like an ordinary user or integration using the API as intended.",
                    "enumeration": "Walks through many identifiers to discover which records exist or are accessible.",
                    "bulk_scraping": "Systematically downloads large amounts of data.",
                    "auth_probing": "Repeatedly tries credentials, tokens, or access to forbidden resources.",
                    "vulnerability_probing": "Sends unusual paths or parameters that look like attack attempts."
                }
            }}
        }"#,
    );
    assert_eq!(body, expected);
}

#[test]
fn chat_body_in_full() {
    let body = build_chat_body("j", &parsed(r#"{"b": true, "a": "x"}"#));
    assert_eq!(
        body.to_string(),
        format!(
            "{{\"messages\":[{{\"content\":{},\"role\":\"system\"}},{{\"content\":\"Client request summary (JSON):\\n{{\\\"a\\\":\\\"x\\\",\\\"b\\\":true}}\",\"role\":\"user\"}}],\"model\":\"j\",\"response_format\":{{\"type\":\"json_object\"}},\"temperature\":0}}",
            Value::String(CLASSIFIER_SYSTEM.to_string())
        )
    );
    assert_eq!(body, chat_body("j", r#"{"a":"x","b":true}"#));
    assert!(CLASSIFIER_SYSTEM.starts_with("You are a traffic-abuse classifier for an API gateway. You are given a"));
    assert!(CLASSIFIER_SYSTEM.ends_with("look like attack attempts), \"confidence\": number 0..1."));
}

#[test]
fn chat_replies_that_cannot_be_read() {
    let reason = |body: &[u8]| match parse_chat_signals(body) {
        Err(JevError::Decode(reason)) => reason,
        _ => panic!("read"),
    };
    assert_eq!(reason(b"{}"), "no choices[0].message.content");
    assert_eq!(reason(br#"{"choices":[{"message":{"content":7}}]}"#), "no choices[0].message.content");
    assert_eq!(
        reason(br#"{"choices":[{"message":{"content":"prose"}}]}"#),
        "content not JSON: expected value at line 1 column 1"
    );
    assert_eq!(reason(b"{"), "EOF while parsing an object at line 1 column 1");
}

#[test]
fn typesafe_replies_that_cannot_be_read() {
    assert!(matches!(
        parse_typesafe_signals(b"no"),
        Err(JevError::Decode(reason)) if reason == "expected ident at line 1 column 2"
    ));
    assert!(parse_typesafe_signals(b"{}").unwrap().behaviour.is_none());
    assert!(parse_typesafe_signals(br#"{"behaviour":{"choice":1}}"#).unwrap().behaviour.is_none());
}

#[test]
fn content_is_that_of_the_first_choice() {
    let reply = parsed(r#"{"choices":[{"message":{"content":"one"}},{"message":{"content":"two"}}]}"#);
    assert_eq!(chat_content(&reply).unwrap(), "one");
}

#[test]
fn confidences_are_moved_into_the_range() {
    let read = |text: &str| float(classifier_signals(&parsed(text)).behaviour.unwrap().1);
    assert_eq!(read(r#"{"behaviour":"x","confidence":7.5}"#), 1.0);
    assert_eq!(read(r#"{"behaviour":"x","confidence":-0.5}"#), 0.0);
    assert_eq!(read(r#"{"behaviour":"x","confidence":1}"#), 1.0);
    assert_eq!(read(r#"{"behaviour":"x","confidence":2}"#), 1.0);
    assert_eq!(read(r#"{"behaviour":"x","confidence":0}"#), 0.0);
    assert_eq!(read(r#"{"behaviour":"x","confidence":-3}"#), 0.0);
    assert_eq!(read(r#"{"behaviour":"x","confidence":"0.9"}"#), 0.0);
    assert_eq!(read(r#"{"behaviour":"x"}"#), 0.0);
    assert_eq!(read(r#"{"behaviour":"x","confidence":0.25}"#), 0.25);
    assert!(classifier_signals(&parsed(r#"{"confidence":0.25}"#)).behaviour.is_none());
}

#[test]
fn envelopes_are_read_alike() {
    let inner = r#"{"behaviour":{"choice":"enumeration","confidence":0.5}}"#;
    let top = typesafe_signals(&parsed(inner)).behaviour.unwrap();
    let nested = typesafe_signals(&parsed(&format!("{{\"answers\":{}}}", inner))).behaviour.unwrap();
    assert_eq!(top, nested);
    assert_eq!(top.0, "enumeration");
    assert_eq!(float(top.1), 0.5);
}

#[test]
fn probability_is_that_of_the_choice() {
    let read = |text: &str| float(typesafe_signals(&parsed(text)).behaviour.unwrap().1);
    // A told confidence goes first; one that is no number does not count.
    assert_eq!(read(r#"{"behaviour":{"choice":"a","confidence":0.25,"probabilities":{"a":0.5}}}"#), 0.25);
    assert_eq!(read(r#"{"behaviour":{"choice":"a","confidence":"no","probabilities":{"a":0.5}}}"#), 0.5);
    // The choice is a key as it stands, whatever characters it holds.
    assert_eq!(read(r#"{"behaviour":{"choice":"a/b","probabilities":{"a/b":1}}}"#), 1.0);
    assert_eq!(read(r#"{"behaviour":{"choice":"a/b","probabilities":{"a":{"b":0.5}}}}"#), 0.0);
    assert_eq!(read(r#"{"behaviour":{"choice":"a~1b","probabilities":{"a/b":0.25,"a~1b":0.5}}}"#), 0.5);
    assert_eq!(read(r#"{"behaviour":{"choice":"~01","probabilities":{"~01":0.5}}}"#), 0.5);
    assert_eq!(read(r#"{"behaviour":{"choice":"","probabilities":{"":0.5}}}"#), 0.5);
    // In a list it is a place.
    assert_eq!(read(r#"{"behaviour":{"choice":"0","probabilities":[1]}}"#), 1.0);
    assert_eq!(read(r#"{"behaviour":{"choice":"1","probabilities":[0.25,0.5]}}"#), 0.5);
    // Without a number for it there is no confidence.
    assert_eq!(read(r#"{"behaviour":{"choice":"a","probabilities":{"b":0.5}}}"#), 0.0);
    assert_eq!(read(r#"{"behaviour":{"choice":"a","probabilities":{"a":"0.5"}}}"#), 0.0);
    assert_eq!(read(r#"{"behaviour":{"choice":"2","probabilities":[0.25,0.5]}}"#), 0.0);
    assert_eq!(read(r#"{"behaviour":{"choice":"01","probabilities":[0.25,0.5]}}"#), 0.0);
    assert_eq!(read(r#"{"behaviour":{"choice":"a"}}"#), 0.0);
}

#[test]
fn mock_answers_without_a_call() {
    let mut s = settings(Provider::Mock);
    s.api_key = String::new();
    match begin_evaluation(&s, &enum_state()) {
        Evaluation::Answered(res) => {
            assert_eq!(res.model, "mock");
            assert_eq!(res.signals, mock_signals(&enum_state()));
        }
        _ => panic!("no answer"),
    }
}

#[test]
fn blank_key_is_refused() {
    let mut s = settings(Provider::TypeSafe);
    for key in ["", " ", "\t\n", "\u{3000}\u{a0}"] {
        s.api_key = key.into();
        assert!(matches!(begin_evaluation(&s, &enum_state()), Evaluation::Failed(JevError::Auth)));
    }
}

#[test]
fn calls_carry_the_request() {
    let call = |s: &JevSettings| match begin_evaluation(s, &enum_state()) {
        Evaluation::Call(call) => call,
        _ => panic!("no call"),
    };
    let c = call(&settings(Provider::TypeSafe));
    assert_eq!(c.path, "/api/alpha/decisions");
    assert_eq!(c.auth_header, "Authorization");
    assert_eq!(c.auth_value, "Bearer k");
    assert_eq!(c.timeout_ms, 600);
    let sent: Value = serde_json::from_slice(&c.payload).unwrap();
    assert_eq!(sent, build_typesafe_body("m", &enum_state()));

    let c = call(&settings(Provider::OpenRouter));
    let sent: Value = serde_json::from_slice(&c.payload).unwrap();
    assert_eq!(sent, build_chat_body("m", &enum_state()));

    let mut s = settings(Provider::Custom);
    let c = call(&s);
    assert_eq!((c.auth_header.as_str(), c.auth_value.as_str()), ("x-key", "k"));
    s.custom_auth_header = "AUTHORIZATION".into();
    let c = call(&s);
    assert_eq!((c.auth_header.as_str(), c.auth_value.as_str()), ("AUTHORIZATION", "Bearer k"));
}

#[test]
fn statuses_tell_what_went_wrong() {
    assert!(check_status(200).is_none());
    assert!(check_status(299).is_none());
    assert!(matches!(check_status(401), Some(JevError::Auth)));
    assert!(matches!(check_status(403), Some(JevError::Auth)));
    assert!(matches!(check_status(429), Some(JevError::RateLimited)));
    assert!(matches!(check_status(529), Some(JevError::Overloaded)));
    assert!(matches!(check_status(500), Some(JevError::Upstream(500))));
    assert!(matches!(check_status(199), Some(JevError::Upstream(199))));
    assert!(matches!(check_status(300), Some(JevError::Upstream(300))));
}

#[test]
fn replies_are_read_in_the_format_of_the_provider() {
    let decisions = br#"{"behaviour":{"choice":"enumeration","confidence":0.5}}"#;
    let chat = br#"{"choices":[{"message":{"content":"{\"behaviour\":\"auth_probing\",\"confidence\":0.5}"}}]}"#;
    let res = finish_evaluation(&settings(Provider::TypeSafe), 200, decisions).ok().unwrap();
    assert_eq!(res.model, "m");
    assert_eq!(res.signals.behaviour.unwrap().0, "enumeration");
    let res = finish_evaluation(&settings(Provider::LiteLlm), 200, chat).ok().unwrap();
    assert_eq!(res.signals.behaviour.unwrap().0, "auth_probing");
    assert!(matches!(
        finish_evaluation(&settings(Provider::LiteLlm), 200, decisions),
        Err(JevError::Decode(_))
    ));
    assert!(matches!(
        finish_evaluation(&settings(Provider::TypeSafe), 429, decisions),
        Err(JevError::RateLimited)
    ));
}
