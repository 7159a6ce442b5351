use abuse_scraping_classifier::common::Mode;
use abuse_scraping_classifier::config::Config;
use abuse_scraping_classifier::double::Double;
use abuse_scraping_classifier::jev::{begin_evaluation, Evaluation, JevError, JevResult, Provider};
use abuse_scraping_classifier::policy::{
    act, client_key_expression, headers_to_strip, jev_settings, key_header, max_tracked_clients,
    mode, open_request, pass_untouched, record_rejection, record_response, refuses_mock, rejection,
    resolve_client_key, take_answer, window_size, Ctx, Plan,
};
use abuse_scraping_classifier::screen::{ClientWindow, RequestRecord, Signals};
use serde_json::Value;

fn empty() -> Config {
    Config {
        allow_mock: None,
        api_purpose: None,
        block_verdicts: None,
        client_key_expression: None,
        cloudflare_account_id: None,
        custom_auth_header: None,
        fail_mode: None,
        jev_api_key: None,
        jev_model: None,
        jev_path: None,
        jev_provider: None,
        jev_timeout_ms: None,
        log_state_sample: None,
        max_state_tokens: None,
        max_tracked_clients: None,
        min_confidence: None,
        mode: None,
        rate_buckets: None,
        reevaluate_seconds: None,
        sample_rate: None,
        strip_client_jev_headers: None,
        window_size: None,
    }
}

/// The configuration of the demo.
fn demo() -> Config {
    Config {
        allow_mock: Some(true),
        api_purpose: Some("Customer self-service orders API".into()),
        block_verdicts: Some(vec!["enumeration".into()]),
        jev_provider: Some("mock".into()),
        mode: Some("enforce".into()),
        rate_buckets: Some(vec![10, 20, 40]),
        reevaluate_seconds: Some(30),
        ..empty()
    }
}

fn errors(n: u64) -> ClientWindow {
    let records = (0..n)
        .map(|i| RequestRecord {
            method: "GET".into(),
            path_template: "/orders/{id}".into(),
            id: Some(1001 + i as i64),
            status: 403,
            ts_ms: 1_000 + i,
        })
        .collect();
    ClientWindow { records, last_eval_ms: 0, verdict: None, last_call_ms: None }
}

fn answer(choice: &str, confidence: f64) -> Result<JevResult, JevError> {
    Ok(JevResult {
        signals: Signals { behaviour: Some((choice.into(), Double { bits: confidence.to_bits() })) },
        model: "m".into(),
    })
}

fn classified(verdict: &str) -> Ctx {
    Ctx { enabled: true, classified: true, verdict: verdict.into(), ..Ctx::default() }
}

#[test]
fn settings_have_defaults() {
    let s = jev_settings(&empty());
    assert_eq!(s.provider, Provider::TypeSafe);
    assert_eq!(s.model, "~typesafe/jev-latest");
    assert_eq!(s.path, "");
    assert_eq!(s.api_key, "");
    assert_eq!(s.custom_auth_header, "Authorization");
    assert_eq!(s.timeout_ms, 600);
    assert_eq!(s.max_state_tokens, 24000);
    assert_eq!(s.cloudflare_account_id, None);
    assert_eq!(window_size(&empty()), 30);
    assert_eq!(max_tracked_clients(&empty()), 10_000);
    assert_eq!(mode(&empty()), Mode::Shadow);
    assert_eq!(client_key_expression(&empty()), "header:x-api-key");
}

#[test]
fn settings_have_floors() {
    let cfg = Config {
        jev_timeout_ms: Some(-5),
        max_state_tokens: Some(3),
        window_size: Some(0),
        max_tracked_clients: Some(-1),
        cloudflare_account_id: Some("acc".into()),
        jev_model: Some("x".into()),
        mode: Some("off".into()),
        ..empty()
    };
    let s = jev_settings(&cfg);
    assert_eq!(s.timeout_ms, 1);
    assert_eq!(s.max_state_tokens, 256);
    assert_eq!(s.cloudflare_account_id, Some("acc".to_string()));
    assert_eq!(s.model, "x");
    assert_eq!(window_size(&cfg), 1);
    assert_eq!(max_tracked_clients(&cfg), 1);
    assert_eq!(mode(&cfg), Mode::Off);
    assert_eq!(Mode::parse("enforce"), Mode::Enforce);
    assert!(Mode::Enforce.mutates());
    assert!(!Mode::Shadow.mutates());
}

#[test]
fn reserved_headers_are_stripped() {
    let names: Vec<String> =
        ["x-jev-abuse", "accept", "X-JEV-tier", "x-jev", "my-x-jev-abuse"].iter().map(|s| s.to_string()).collect();
    assert_eq!(headers_to_strip(&empty(), &names), vec!["x-jev-abuse".to_string(), "X-JEV-tier".to_string()]);
    let keep = Config { strip_client_jev_headers: Some(false), ..empty() };
    assert!(headers_to_strip(&keep, &names).is_empty());
}

#[test]
fn client_keys() {
    let some = |s: &str| Some(s.to_string());
    assert_eq!(key_header("ip"), "x-forwarded-for");
    assert_eq!(key_header("header:x-api-key"), "x-api-key");
    assert_eq!(key_header("claim:sub"), "sub");
    assert_eq!(key_header("header:claim:x"), "claim:x");
    assert_eq!(key_header("x-client"), "x-client");
    assert_eq!(key_header(""), "x-api-key");
    assert_eq!(key_header("header:"), "");

    assert_eq!(resolve_client_key("ip", some(" 1.2.3.4 , 5.6.7.8"), some("9.9.9.9")), "1.2.3.4");
    assert_eq!(resolve_client_key("ip", some("\u{2003}1.2.3.4\u{85}"), None), "1.2.3.4");
    assert_eq!(resolve_client_key("ip", None, some("9.9.9.9")), "9.9.9.9");
    assert_eq!(resolve_client_key("ip", some(""), some("9.9.9.9")), "9.9.9.9");
    assert_eq!(resolve_client_key("ip", some(" ,5.6.7.8"), some("9.9.9.9")), "anonymous");
    assert_eq!(resolve_client_key("ip", None, None), "anonymous");
    assert_eq!(resolve_client_key("header:x", some(" k "), None), " k ");
    assert_eq!(resolve_client_key("header:x", some("a,b"), some("9.9.9.9")), "a,b");
    assert_eq!(resolve_client_key("header:x", some("  "), some("9.9.9.9")), "anonymous");
    assert_eq!(resolve_client_key("", None, None), "anonymous");
}

#[test]
fn quiet_client_is_settled_at_once() {
    let opened = open_request(&demo(), "get", "/orders/1001?x=1", "c".into(), &ClientWindow::default(), 5_000);
    assert!(matches!(opened.plan, Plan::Settled));
    assert_eq!(opened.ctx.verdict, "normal_use");
    assert!(opened.ctx.enabled);
    assert!(!opened.ctx.judged);
    assert_eq!(opened.ctx.client_key, "c");
    assert_eq!(opened.ctx.method, "GET");
    assert_eq!(opened.ctx.path_template, "/orders/{id}");
    assert_eq!(opened.ctx.id, Some(1001));
    assert_eq!(opened.ctx.ts_ms, 5_000);
    // It passes cleanly: the header is not set, nor is the request rejected.
    assert!(!opened.ctx.classified);
    let a = act(&demo(), Mode::Enforce, &opened.ctx);
    assert!(a.header.is_none());
    assert!(a.rejection.is_none());
}

#[test]
fn judge_is_given_the_summary() {
    let opened = open_request(&demo(), "GET", "/orders/1", "c".into(), &errors(2), 2_000);
    assert!(opened.ctx.classified);
    let state = match opened.plan {
        Plan::Ask(state) => state,
        Plan::Settled => panic!("settled"),
    };
    let expected: Value = serde_json::from_str(
        r#"{
            "api_purpose": "Customer self-service orders API",
            "recent_requests": ["GET /orders/{id} (id=1001) 403", "GET /orders/{id} (id=1002) 403"],
            "request_rate": "low",
            "sequential_ids": false,
            "error_rate": "high",
            "distinct_endpoints": "few"
        }"#,
    )
    .unwrap();
    assert_eq!(state, expected);
    assert_eq!(opened.ctx.verdict, "normal_use");
}

#[test]
fn summary_shows_the_newest_of_the_window() {
    let cfg = Config { window_size: Some(1), api_purpose: None, ..demo() };
    let opened = open_request(&cfg, "GET", "/", "c".into(), &errors(3), 2_000);
    match opened.plan {
        Plan::Ask(state) => {
            assert_eq!(state["recent_requests"].as_array().unwrap().len(), 1);
            assert_eq!(state["recent_requests"][0], Value::String("GET /orders/{id} (id=1003) 403".into()));
            assert_eq!(state["api_purpose"], Value::String(String::new()));
        }
        Plan::Settled => panic!("settled"),
    }
}

#[test]
fn mock_that_is_not_allowed_is_not_asked() {
    for allow in [None, Some(false)] {
        let cfg = Config { allow_mock: allow, ..demo() };
        let opened = open_request(&cfg, "GET", "/", "c".into(), &errors(9), 2_000);
        assert!(matches!(opened.plan, Plan::Settled));
        assert_eq!(opened.ctx.verdict, "normal_use");
        assert!(refuses_mock(&cfg, &errors(9), &opened.buckets, 2_000));
        // Nothing is refused where the judge would not have been asked.
        let mut w = errors(9);
        w.last_call_ms = Some(1_999);
        assert!(!refuses_mock(&cfg, &w, &opened.buckets, 2_000));
        w = errors(9);
        w.verdict = Some("enumeration".into());
        assert!(!refuses_mock(&cfg, &w, &opened.buckets, 2_000));
        assert!(!refuses_mock(&demo(), &errors(9), &opened.buckets, 2_000));
    }
}

#[test]
fn fresh_verdict_is_used_again() {
    let mut w = errors(9);
    w.verdict = Some("enumeration".into());
    w.last_eval_ms = 10_000;
    for now in [0, 10_000, 39_999] {
        let opened = open_request(&demo(), "GET", "/", "c".into(), &w, now);
        assert!(matches!(opened.plan, Plan::Settled));
        assert_eq!(opened.ctx.verdict, "enumeration");
        assert!(!opened.ctx.judged);
    }
    let opened = open_request(&demo(), "GET", "/", "c".into(), &w, 40_000);
    assert!(matches!(opened.plan, Plan::Ask(_)));
    // Quiet traffic does not drop it.
    w.records.clear();
    let opened = open_request(&demo(), "GET", "/", "c".into(), &w, 39_999);
    assert!(matches!(opened.plan, Plan::Settled));
    assert_eq!((opened.ctx.verdict.as_str(), opened.ctx.judged), ("enumeration", false));
    assert_eq!(act(&demo(), Mode::Enforce, &opened.ctx).header, Some("enumeration".to_string()));
    let opened = open_request(&demo(), "GET", "/", "c".into(), &w, 40_000);
    assert!(matches!(opened.plan, Plan::Settled));
    assert_eq!(opened.ctx.verdict, "normal_use");
    let long = Config { reevaluate_seconds: Some(i64::MAX), ..demo() };
    assert!(matches!(open_request(&long, "GET", "/", "c".into(), &w, u64::MAX).plan, Plan::Settled));
}

#[test]
fn answers_are_taken() {
    let mut ctx = Ctx::default();
    take_answer(&empty(), &mut ctx, &answer("enumeration", 0.6));
    assert_eq!((ctx.verdict.as_str(), ctx.judged), ("enumeration", true));
    take_answer(&empty(), &mut ctx, &answer("enumeration", 0.59));
    assert_eq!((ctx.verdict.as_str(), ctx.judged), ("normal_use", true));
    let strict = Config { min_confidence: Some(Double { bits: 0.95f64.to_bits() }), ..empty() };
    take_answer(&strict, &mut ctx, &answer("enumeration", 0.9));
    assert_eq!((ctx.verdict.as_str(), ctx.judged), ("normal_use", true));
}

#[test]
fn failing_judge_leaves_the_client_in_order() {
    let mut ctx = Ctx { verdict: "enumeration".into(), judged: true, ..Ctx::default() };
    take_answer(&demo(), &mut ctx, &Err(JevError::Timeout));
    assert_eq!((ctx.verdict.as_str(), ctx.judged), ("normal_use", false));
    assert!(ctx.asked);
    assert!(act(&demo(), Mode::Enforce, &ctx).rejection.is_none());
}

#[test]
fn listed_verdict_is_rejected() {
    let a = act(&demo(), Mode::Enforce, &classified("enumeration"));
    assert_eq!(a.header, Some("enumeration".to_string()));
    let r = a.rejection.unwrap();
    assert_eq!(r.status, 429);
    assert_eq!(
        r.headers,
        vec![
            ("retry-after".to_string(), "30".to_string()),
            ("content-type".to_string(), "application/json".to_string()),
            ("x-jev-abuse".to_string(), "enumeration".to_string()),
        ]
    );
    assert_eq!(
        r.body,
        r#"{"behaviour":"enumeration","error":"abuse_detected","policy":"abuse-scraping-classifier"}"#
    );
}

#[test]
fn rejection_carries_what_it_is_given() {
    let r = rejection("auth_probing", 60, "told".into());
    assert_eq!(r.status, 429);
    assert_eq!(r.headers[0], ("retry-after".to_string(), "60".to_string()));
    assert_eq!(r.headers[2], ("x-jev-abuse".to_string(), "auth_probing".to_string()));
    assert_eq!(r.headers.len(), 3);
    assert_eq!(r.body, "told");
}

#[test]
fn window_stays_within_its_size() {
    let cfg = Config { window_size: Some(4), ..demo() };
    let mut w = ClientWindow::default();
    for i in 0..20u64 {
        let opened = open_request(&cfg, "GET", "/a", "c".into(), &w, i);
        if i % 3 == 0 {
            let judged = Ctx { judged: true, ..opened.ctx };
            record_rejection(&cfg, &mut w, &judged);
        } else {
            record_response(&cfg, &mut w, &opened.ctx, 200);
        }
        assert!(w.records.len() <= 4);
    }
    assert_eq!(w.records.last().unwrap().ts_ms, 19);
}

#[test]
fn other_verdicts_pass_with_a_header() {
    let a = act(&demo(), Mode::Enforce, &classified("bulk_scraping"));
    assert_eq!(a.header, Some("bulk_scraping".to_string()));
    assert!(a.rejection.is_none());
    let none = Config { block_verdicts: None, ..demo() };
    assert!(act(&none, Mode::Enforce, &classified("enumeration")).rejection.is_none());
    let all = Config { block_verdicts: Some(vec!["normal_use".into()]), ..demo() };
    let a = act(&all, Mode::Enforce, &classified("normal_use"));
    assert_eq!(a.header, Some("normal_use".to_string()));
    assert!(a.rejection.is_none());
}

#[test]
fn shadow_touches_nothing() {
    for m in [Mode::Shadow, Mode::Off] {
        let a = act(&demo(), m, &classified("enumeration"));
        assert!(a.header.is_none());
        assert!(a.rejection.is_none());
    }
}

#[test]
fn outcomes_are_recorded() {
    let cfg = Config { window_size: Some(2), ..demo() };
    let mut w = errors(2);
    w.verdict = Some("auth_probing".into());
    w.last_eval_ms = 7;
    let mut ctx = Ctx {
        enabled: true,
        client_key: "c".into(),
        method: "POST".into(),
        path_template: "/x".into(),
        id: None,
        ts_ms: 9_000,
        classified: true,
        asked: false,
        judged: false,
        verdict: "enumeration".into(),
    };
    record_response(&cfg, &mut w, &ctx, 201);
    assert_eq!(w.records.len(), 2);
    assert_eq!(w.records[0].id, Some(1002));
    assert_eq!(
        w.records[1],
        RequestRecord { method: "POST".into(), path_template: "/x".into(), id: None, status: 201, ts_ms: 9_000 }
    );
    assert_eq!((w.verdict.as_deref(), w.last_eval_ms), (Some("auth_probing"), 7));

    assert_eq!(w.last_call_ms, None);

    // A call that failed is noted, and a later one stays where an earlier one is noted after it.
    ctx.asked = true;
    record_response(&cfg, &mut w, &ctx, 200);
    assert_eq!((w.verdict.as_deref(), w.last_eval_ms), (Some("auth_probing"), 7));
    assert_eq!(w.last_call_ms, Some(9_000));
    let early = Ctx { ts_ms: 8_000, ..ctx.clone() };
    record_response(&cfg, &mut w, &early, 200);
    assert_eq!(w.last_call_ms, Some(9_000));

    ctx.judged = true;
    record_response(&cfg, &mut w, &ctx, 200);
    assert_eq!((w.verdict.as_deref(), w.last_eval_ms), (Some("enumeration"), 9_000));

    ctx.enabled = false;
    let before = w.records.clone();
    record_response(&cfg, &mut w, &ctx, 500);
    assert_eq!(w.records, before);

    // A rejection on a verdict used again leaves the window as it is.
    ctx.asked = false;
    ctx.judged = false;
    ctx.verdict = "bulk_scraping".into();
    ctx.ts_ms = 10_000;
    record_rejection(&cfg, &mut w, &ctx);
    assert_eq!(w.records, before);
    assert_eq!((w.verdict.as_deref(), w.last_eval_ms), (Some("enumeration"), 9_000));
    assert_eq!(w.last_call_ms, Some(9_000));

    ctx.asked = true;
    ctx.judged = true;
    record_rejection(&cfg, &mut w, &ctx);
    assert_eq!(w.records[1].status, 429);
    assert_eq!((w.verdict.as_deref(), w.last_eval_ms), (Some("bulk_scraping"), 10_000));
    assert_eq!(w.last_call_ms, Some(10_000));
}

/// A scraper walks the orders. The judge is asked once in a period; once it has seen the
/// walk, the scraper is rejected.
#[test]
fn scraper_is_rejected_and_judged_once() {
    let cfg = demo();
    let mut w = ClientWindow::default();
    let mut asked = 0;
    let mut rejected = 0;
    for i in 0..30u64 {
        let path = format!("/orders/{}", 1001 + i);
        let mut opened = open_request(&cfg, "GET", &path, "scraper".into(), &w, 1_000_000 + i * 100);
        if let Plan::Ask(state) = &opened.plan {
            asked += 1;
            match begin_evaluation(&jev_settings(&cfg), state) {
                Evaluation::Answered(res) => take_answer(&cfg, &mut opened.ctx, &Ok(res)),
                _ => panic!("the mock judge answers at once"),
            }
        }
        match act(&cfg, mode(&cfg), &opened.ctx).rejection {
            Some(_) => {
                rejected += 1;
                record_rejection(&cfg, &mut w, &opened.ctx);
            }
            None => {
                let status = if i == 0 { 200 } else { 403 };
                record_response(&cfg, &mut w, &opened.ctx, status);
            }
        }
    }
    // The first unusual window (one 200, one 403) shows no walk yet: probing, not listed.
    assert_eq!(w.verdict.as_deref(), Some("auth_probing"));
    assert_eq!(asked, 1);
    assert_eq!(rejected, 0);

    // When the period is over the judge is asked anew, and sees the walk.
    let mut opened = open_request(&cfg, "GET", "/orders/1031", "scraper".into(), &w, 1_031_000);
    match &opened.plan {
        Plan::Ask(state) => match begin_evaluation(&jev_settings(&cfg), state) {
            Evaluation::Answered(res) => take_answer(&cfg, &mut opened.ctx, &Ok(res)),
            _ => panic!("the mock judge answers at once"),
        },
        Plan::Settled => panic!("settled"),
    }
    assert_eq!(opened.ctx.verdict, "enumeration");
    assert!(act(&cfg, mode(&cfg), &opened.ctx).rejection.is_some());
    record_rejection(&cfg, &mut w, &opened.ctx);
    for now in [1_031_001, 1_045_000, 1_060_999] {
        let opened = open_request(&cfg, "GET", "/orders/1", "scraper".into(), &w, now);
        assert!(matches!(opened.plan, Plan::Settled));
        assert!(act(&cfg, mode(&cfg), &opened.ctx).rejection.is_some());
        record_rejection(&cfg, &mut w, &opened.ctx);
    }
    // The rejections do not prolong it, and it expires a period after its call.
    assert_eq!(w.last_eval_ms, 1_031_000);
    let opened = open_request(&cfg, "GET", "/orders/1", "scraper".into(), &w, 1_061_000);
    assert!(matches!(opened.plan, Plan::Ask(_)));
}

/// A judge that fails is not asked again before the period is over.
#[test]
fn failing_judge_is_asked_once_per_period() {
    let cfg = demo();
    let mut w = errors(9);
    let mut opened = open_request(&cfg, "GET", "/", "c".into(), &w, 50_000);
    assert!(matches!(opened.plan, Plan::Ask(_)));
    take_answer(&cfg, &mut opened.ctx, &Err(JevError::Timeout));
    record_response(&cfg, &mut w, &opened.ctx, 403);
    for now in [50_000, 50_001, 79_999] {
        let opened = open_request(&cfg, "GET", "/", "c".into(), &w, now);
        assert!(matches!(opened.plan, Plan::Settled));
        assert_eq!(opened.ctx.verdict, "normal_use");
    }
    assert!(matches!(open_request(&cfg, "GET", "/", "c".into(), &w, 80_000).plan, Plan::Ask(_)));
}

#[test]
fn off_passes_untouched() {
    let off = Config { mode: Some("off".into()), ..demo() };
    let ctx = pass_untouched(&off).unwrap();
    assert!(!ctx.enabled && !ctx.classified && !ctx.asked && !ctx.judged);
    let mut w = ClientWindow::default();
    record_response(&off, &mut w, &ctx, 200);
    assert!(w.records.is_empty());
    assert!(pass_untouched(&demo()).is_none());
    assert!(pass_untouched(&empty()).is_none());
}
