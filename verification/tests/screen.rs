use abuse_scraping_classifier::double::Double;
use abuse_scraping_classifier::screen::{
    compute_buckets, is_numeric, is_uuid, push_bounded, rate_bucket, recent_request_lines,
    should_trigger, template_path, verdict_from_signals, DistinctBucket, ErrorBucket, RateBucket,
    RateThresholds, Ratio, RequestRecord, Signals,
};

fn rec(method: &str, path: &str, id: Option<i64>, status: u16, ts_ms: u64) -> RequestRecord {
    RequestRecord { method: method.into(), path_template: path.into(), id, status, ts_ms }
}

fn double(x: f64) -> Double {
    Double { bits: x.to_bits() }
}

fn value(r: Ratio) -> f64 {
    if r.whole == 0 {
        0.0
    } else {
        r.part as f64 / r.whole as f64
    }
}

#[test]
fn templates_numeric_and_uuid_segments() {
    let (t, id) = template_path("/orders/1002");
    assert_eq!(t, "/orders/{id}");
    assert_eq!(id, Some(1002));

    let (t2, id2) = template_path("/v1/customers/9f8e7d6c-1234-4abc-8def-0123456789ab/orders");
    assert_eq!(t2, "/v1/customers/{id}/orders");
    assert_eq!(id2, None); // no numeric segment

    let (t3, _) = template_path("/orders/1002?expand=items");
    assert_eq!(t3, "/orders/{id}"); // query stripped
}

#[test]
fn template_keeps_non_id_paths() {
    let (t, id) = template_path("/health");
    assert_eq!(t, "/health");
    assert_eq!(id, None);
}

#[test]
fn template_edges() {
    assert_eq!(template_path(""), ("/".to_string(), None));
    assert_eq!(template_path("/"), ("/".to_string(), None));
    assert_eq!(template_path("?a=1"), ("/".to_string(), None));
    assert_eq!(template_path("//7//"), ("//{id}//".to_string(), Some(7)));
    assert_eq!(template_path("a/007/8"), ("a/{id}/{id}".to_string(), Some(7)));
    assert_eq!(template_path("/é/1?x?y"), ("/é/{id}".to_string(), Some(1)));
}

#[test]
fn id_is_that_of_the_first_number_or_none() {
    assert_eq!(template_path("/99999999999999999999/7"), ("/{id}/{id}".to_string(), None));
    let (t, id) = template_path("/9223372036854775808/9223372036854775807");
    assert_eq!(t, "/{id}/{id}");
    assert_eq!(id, None);
    assert_eq!(template_path("/a/9223372036854775807/7").1, Some(i64::MAX));
    assert_eq!(template_path("/v1/5/99999999999999999999").1, Some(5));
    assert_eq!(template_path("/99999999999999999999999").1, None);
}

#[test]
fn template_of_a_template_is_itself() {
    for path in ["/orders/1002/items/3?q=1", "", "/", "a//b/", "/x/9f8e7d6c-1234-4abc-8def-0123456789ab"] {
        let (t, _) = template_path(path);
        assert_eq!(template_path(&t), (t.clone(), None));
    }
    assert_eq!(template_path("/orders/1/a").0, template_path("/orders/9f8e7d6c-1234-4abc-8def-0123456789ab/a").0);
}

#[test]
fn numeric_and_uuid_shapes() {
    assert!(is_numeric("0"));
    assert!(!is_numeric(""));
    assert!(!is_numeric("-1"));
    assert!(!is_numeric("1a"));
    assert!(!is_numeric("\u{0663}")); // a digit, but not one of 0 to 9
    assert!(is_uuid("9F8e7d6c-1234-4abc-8def-0123456789aB"));
    assert!(!is_uuid("9f8e7d6c-1234-4abc-8def-0123456789a"));
    assert!(!is_uuid("9f8e7d6c-1234-4abc-8def-0123456789ag"));
    assert!(!is_uuid("9f8e7d6c012344abc08def00123456789abc"));
}

#[test]
fn rate_bucket_ladder() {
    let rt = RateThresholds::default(); // 20/40/80
    assert_eq!(rate_bucket(5, &rt), RateBucket::Low);
    assert_eq!(rate_bucket(20, &rt), RateBucket::Medium);
    assert_eq!(rate_bucket(41, &rt), RateBucket::High);
    assert_eq!(rate_bucket(200, &rt), RateBucket::VeryHigh);
}

#[test]
fn rate_bucket_edges() {
    let rt = RateThresholds::default();
    assert_eq!(rate_bucket(19, &rt), RateBucket::Low);
    assert_eq!(rate_bucket(39, &rt), RateBucket::Medium);
    assert_eq!(rate_bucket(40, &rt), RateBucket::High);
    assert_eq!(rate_bucket(79, &rt), RateBucket::High);
    assert_eq!(rate_bucket(80, &rt), RateBucket::VeryHigh);
    let mut last = RateBucket::Low;
    for rpm in 0..100 {
        let now = rate_bucket(rpm, &rt);
        assert!(now >= last);
        last = now;
    }
}

#[test]
fn rate_thresholds_from_slice_sorts() {
    let rt = RateThresholds::from_slice(&[80, 20, 40]);
    assert_eq!(rt.medium, 20);
    assert_eq!(rt.high, 40);
    assert_eq!(rt.very_high, 80);
    // short slice falls back to default
    let d = RateThresholds::from_slice(&[10]);
    assert_eq!(d.medium, 20);
}

#[test]
fn every_order_of_thresholds_rises() {
    for v in [[1, 2, 3], [1, 3, 2], [2, 1, 3], [2, 3, 1], [3, 1, 2], [3, 2, 1]] {
        let rt = RateThresholds::from_slice(&v);
        assert_eq!((rt.medium, rt.high, rt.very_high), (1, 2, 3));
    }
    let rt = RateThresholds::from_slice(&[9, 9, 5, 1]);
    assert_eq!((rt.medium, rt.high, rt.very_high), (5, 9, 9));
}

#[test]
fn detects_sequential_enumeration() {
    // 10 sequential GET /orders/{id} at 403 within the same minute.
    let recs: Vec<RequestRecord> = (0..10)
        .map(|i| rec("GET", "orders/{id}", Some(1000 + i), 403, 1_000 + i as u64 * 50))
        .collect();
    let b = compute_buckets(&recs, 1_600, &RateThresholds::from_slice(&[3, 6, 9]));
    assert!(b.sequential_ids);
    assert_eq!(b.distinct, DistinctBucket::Few);
    assert!(value(b.error_ratio) > 0.9);
    assert_eq!(b.error, ErrorBucket::High);
    assert!(b.rate >= RateBucket::VeryHigh);
    assert!(should_trigger(&b));
}

#[test]
fn normal_low_traffic_does_not_trigger() {
    let recs = vec![
        rec("GET", "orders/{id}", Some(1001), 200, 1_000),
        rec("GET", "orders/{id}", Some(1001), 200, 20_000),
        rec("GET", "profile", None, 200, 40_000),
    ];
    let b = compute_buckets(&recs, 41_000, &RateThresholds::default());
    assert!(!b.sequential_ids);
    assert_eq!(b.error, ErrorBucket::Low);
    assert!(b.rate < RateBucket::Medium);
    assert!(!should_trigger(&b));
}

#[test]
fn error_ratio_alone_triggers() {
    // Low rate but a high 4xx share (auth probing) must trigger.
    let recs = vec![
        rec("GET", "admin", None, 403, 0),
        rec("GET", "admin", None, 403, 10_000),
        rec("GET", "admin", None, 200, 20_000),
        rec("GET", "admin", None, 403, 30_000),
    ];
    let b = compute_buckets(&recs, 200_000, &RateThresholds::default()); // rate window empty → Low
    assert_eq!(b.rate, RateBucket::Low);
    assert!(b.error >= ErrorBucket::High);
    assert!(should_trigger(&b));
}

#[test]
fn rate_only_counts_trailing_minute() {
    let mut recs: Vec<RequestRecord> = Vec::new();
    // 5 old (outside the minute) + 25 recent
    for i in 0..5 {
        recs.push(rec("GET", "orders/{id}", Some(i), 200, i as u64 * 10));
    }
    for i in 0..25 {
        recs.push(rec("GET", "orders/{id}", Some(100 + i), 200, 100_000 + i as u64 * 100));
    }
    let b = compute_buckets(&recs, 105_000, &RateThresholds::default());
    assert_eq!(b.rate_per_min, 25); // old ones excluded
}

#[test]
fn minute_is_half_open_and_the_future_counts() {
    let recs = vec![
        rec("GET", "a", None, 200, 40_000), // exactly a minute ago
        rec("GET", "a", None, 200, 40_001),
        rec("GET", "a", None, 200, 200_000), // ahead of the clock
    ];
    assert_eq!(compute_buckets(&recs, 100_000, &RateThresholds::default()).rate_per_min, 2);
}

#[test]
fn empty_window_is_quiet() {
    let b = compute_buckets(&[], 5, &RateThresholds::default());
    assert_eq!(b.rate_per_min, 0);
    assert_eq!(b.rate, RateBucket::Low);
    assert!(!b.sequential_ids);
    assert_eq!(b.error_ratio, Ratio { part: 0, whole: 0 });
    assert_eq!(b.error, ErrorBucket::Low);
    assert_eq!(b.distinct_paths, 0);
    assert_eq!(b.distinct, DistinctBucket::Few);
    assert!(!should_trigger(&b));
}

#[test]
fn shares_agree_with_floating_point() {
    for total in 1..60usize {
        for errors in 0..=total {
            let recs: Vec<RequestRecord> =
                (0..total).map(|i| rec("GET", "a", None, if i < errors { 404 } else { 500 }, 0)).collect();
            let b = compute_buckets(&recs, 1_000_000, &RateThresholds::default());
            let ratio = errors as f64 / total as f64;
            let expected = if ratio >= 0.30 {
                ErrorBucket::High
            } else if ratio >= 0.10 {
                ErrorBucket::Medium
            } else {
                ErrorBucket::Low
            };
            assert_eq!(b.error, expected);
            assert_eq!(value(b.error_ratio), ratio);
        }
    }
}

#[test]
fn only_4xx_counts_as_error() {
    let recs: Vec<RequestRecord> =
        [399, 400, 499, 500].iter().map(|s| rec("GET", "a", None, *s, 0)).collect();
    assert_eq!(compute_buckets(&recs, 0, &RateThresholds::default()).error_ratio, Ratio { part: 2, whole: 4 });
}

#[test]
fn walk_needs_three_pairs_and_seventy_percent() {
    let walk = |ids: &[i64]| {
        let recs: Vec<RequestRecord> = ids.iter().map(|i| rec("GET", "a", Some(*i), 200, 0)).collect();
        compute_buckets(&recs, 0, &RateThresholds::default()).sequential_ids
    };
    assert!(!walk(&[1, 2, 3])); // two pairs
    assert!(walk(&[1, 2, 3, 4]));
    assert!(walk(&[4, 3, 2, 1])); // downwards
    assert!(walk(&[1, 2, 1, 2])); // to and fro
    assert!(!walk(&[1, 2, 3, 9])); // 2 of 3
    assert!(walk(&[1, 2, 3, 4, 5, 6, 7, 8, 20, 30, 40])); // 7 of 10
    assert!(!walk(&[1, 2, 3, 4, 5, 6, 7, 17, 27, 37, 47])); // 6 of 10
    assert!(!walk(&[i64::MAX, i64::MIN, i64::MAX, i64::MIN]));
    assert!(!walk(&[7, 7, 7, 7]));
}

#[test]
fn records_without_id_do_not_break_a_walk() {
    let recs = vec![
        rec("GET", "a", Some(1), 200, 0),
        rec("GET", "b", None, 200, 0),
        rec("GET", "a", Some(2), 200, 0),
        rec("GET", "a", Some(3), 200, 0),
        rec("GET", "a", Some(4), 200, 0),
    ];
    assert!(compute_buckets(&recs, 0, &RateThresholds::default()).sequential_ids);
}

#[test]
fn distinct_endpoints_are_counted_once() {
    let count = |paths: &[&str]| {
        let recs: Vec<RequestRecord> = paths.iter().map(|p| rec("GET", p, None, 200, 0)).collect();
        let b = compute_buckets(&recs, 0, &RateThresholds::default());
        (b.distinct_paths, b.distinct)
    };
    assert_eq!(count(&["a", "b", "a", "b", "a"]), (2, DistinctBucket::Few));
    assert_eq!(count(&["a", "b", "c"]), (3, DistinctBucket::Several));
    assert_eq!(count(&["a", "b", "c", "d", "e", "a"]), (5, DistinctBucket::Several));
    assert_eq!(count(&["a", "b", "c", "d", "e", "f"]), (6, DistinctBucket::Many));
}

#[test]
fn words() {
    assert_eq!(RateBucket::Low.word(), "low");
    assert_eq!(RateBucket::Medium.word(), "medium");
    assert_eq!(RateBucket::High.word(), "high");
    assert_eq!(RateBucket::VeryHigh.word(), "very high");
    assert_eq!(ErrorBucket::Low.word(), "low");
    assert_eq!(ErrorBucket::Medium.word(), "medium");
    assert_eq!(ErrorBucket::High.word(), "high");
    assert_eq!(DistinctBucket::Few.word(), "few");
    assert_eq!(DistinctBucket::Several.word(), "some");
    assert_eq!(DistinctBucket::Many.word(), "many");
}

#[test]
fn recent_lines_format_and_cap() {
    let recs = vec![
        rec("GET", "orders/{id}", Some(1001), 200, 0),
        rec("GET", "orders/{id}", Some(1002), 403, 1),
        rec("GET", "profile", None, 200, 2),
    ];
    let lines = recent_request_lines(&recs, 2);
    assert_eq!(lines.len(), 2);
    assert_eq!(lines[0], "GET orders/{id} (id=1002) 403");
    assert_eq!(lines[1], "GET profile 200");
}

#[test]
fn lines_write_numbers_in_full() {
    let recs = vec![
        rec("GET", "a", Some(i64::MIN), 0, 0),
        rec("GET", "a", Some(i64::MAX), 65535, 0),
        rec("GET", "a", Some(0), 10, 0),
    ];
    let lines = recent_request_lines(&recs, 100);
    assert_eq!(lines[0], "GET a (id=-9223372036854775808) 0");
    assert_eq!(lines[1], "GET a (id=9223372036854775807) 65535");
    assert_eq!(lines[2], "GET a (id=0) 10");
    assert!(recent_request_lines(&recs, 0).is_empty());
}

#[test]
fn verdict_honours_min_confidence() {
    let sig = Signals { behaviour: Some(("enumeration".into(), double(0.9))) };
    assert_eq!(verdict_from_signals(&sig, double(0.6)), "enumeration");
    // below threshold → treated as normal
    let weak = Signals { behaviour: Some(("enumeration".into(), double(0.4))) };
    assert_eq!(verdict_from_signals(&weak, double(0.6)), "normal_use");
    // explicit normal_use choice
    let norm = Signals { behaviour: Some(("normal_use".into(), double(0.95))) };
    assert_eq!(verdict_from_signals(&norm, double(0.6)), "normal_use");
    // no signal → normal
    assert_eq!(verdict_from_signals(&Signals::default(), double(0.6)), "normal_use");
}

#[test]
fn comparing_doubles_agrees_with_floating_point() {
    let xs = [
        0.0, -0.0, 0.6, 0.59, 1.0, -1.0, 5e-324, -5e-324, 1e300, -1e300, f64::INFINITY,
        f64::NEG_INFINITY, f64::NAN,
    ];
    for a in xs {
        for b in xs {
            assert_eq!(double(a).at_least(double(b)), a >= b);
        }
        let clamped = f64::from_bits(double(a).clamp_unit().bits);
        if a.is_nan() {
            assert!(clamped.is_nan());
        } else {
            assert_eq!(clamped.to_bits(), a.clamp(0.0, 1.0).to_bits());
        }
    }
}

#[test]
fn push_bounded_keeps_newest() {
    let mut recs: Vec<RequestRecord> = Vec::new();
    for i in 0..5 {
        push_bounded(&mut recs, rec("GET", "orders/{id}", Some(i), 200, i as u64), 3);
    }
    assert_eq!(recs.len(), 3);
    assert_eq!(recs[0].id, Some(2)); // oldest two dropped
    assert_eq!(recs[2].id, Some(4));
}

#[test]
fn window_of_no_size_keeps_one() {
    let mut recs: Vec<RequestRecord> = Vec::new();
    for i in 0..3 {
        push_bounded(&mut recs, rec("GET", "a", Some(i), 200, 0), 0);
    }
    assert_eq!(recs, vec![rec("GET", "a", Some(2), 200, 0)]);
}

#[test]
fn window_that_shrinks_drops_all_that_is_too_much() {
    let mut recs: Vec<RequestRecord> = (0..10).map(|i| rec("GET", "a", Some(i), 200, 0)).collect();
    push_bounded(&mut recs, rec("GET", "a", Some(10), 200, 0), 2);
    assert_eq!(recs.iter().map(|r| r.id).collect::<Vec<_>>(), vec![Some(9), Some(10)]);
}
