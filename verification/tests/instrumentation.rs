use callmetrics::handlers::get_index;
use callmetrics::handlers::get_metrics;
use callmetrics::handlers::is_success;
use callmetrics::handlers::post_random_error;
use callmetrics::handlers::post_slow_result;
use callmetrics::handlers::post_slow_seconds;
use callmetrics::handlers::random_error_result;
use callmetrics::handlers::route_that_returns_into_response;
use callmetrics::handlers::Reply;
use callmetrics::instrument::instrument;
use callmetrics::instrument::instrument_ok_if;
use callmetrics::instrument::instrument_plain;
use callmetrics::outcome::classify_result;
use callmetrics::outcome::classify_verdict;
use callmetrics::outcome::Outcome;
use callmetrics::registry::Registry;
use callmetrics::render::u64_to_dec;

#[test]
fn classify_result_maps_variants() {
    assert_eq!(classify_result(&Ok::<u32, u32>(1)), Outcome::Success);
    assert_eq!(classify_result(&Err::<u32, u32>(2)), Outcome::Error);
    assert_eq!(classify_result(&Ok::<(), ()>(())), Outcome::Success);
}

#[test]
fn classify_verdict_maps_bools() {
    assert_eq!(classify_verdict(true), Outcome::Success);
    assert_eq!(classify_verdict(false), Outcome::Error);
}

#[test]
fn index_returns_greeting() {
    assert_eq!(get_index(), "Hello, World!");
}

#[test]
fn slow_delay_is_in_range() {
    for _ in 0..50 {
        let s = post_slow_seconds();
        assert!((3..10).contains(&s));
    }
    assert_eq!(post_slow_result(), Ok(()));
}

#[test]
fn random_error_threshold_is_exact() {
    assert_eq!(random_error_result(0), Ok(()));
    assert_eq!(random_error_result(172), Ok(()));
    assert_eq!(random_error_result(173), Err(()));
    assert_eq!(random_error_result(255), Err(()));
}

#[test]
fn random_error_route_returns_a_verdict() {
    for _ in 0..20 {
        let r = post_random_error();
        assert!(r == Ok(()) || r == Err(()));
    }
}

#[test]
fn response_route_and_predicate() {
    let r = route_that_returns_into_response();
    assert_eq!(r.status, 200);
    assert_eq!(r.body, "Hello, World!");
    assert!(is_success(&r));
    assert!(is_success(&Reply { status: 204, body: "" }));
    assert!(!is_success(&Reply { status: 500, body: "boom" }));
    assert!(!is_success(&Reply { status: 301, body: "moved" }));
}

#[test]
fn record_keeps_keys_apart() {
    let mut reg = Registry::new();
    assert_eq!(reg.count_of("h", Outcome::Success), 0);
    reg.record("h", Outcome::Success, 5);
    assert_eq!(reg.count_of("h", Outcome::Success), 1);
    assert_eq!(reg.count_of("h", Outcome::Error), 0);
    reg.record("h", Outcome::Success, 7);
    reg.record("h", Outcome::Error, 20000);
    assert_eq!(reg.count_of("h", Outcome::Success), 2);
    assert_eq!(reg.count_of("h", Outcome::Error), 1);
    assert_eq!(reg.count_of("other", Outcome::Success), 0);
    assert_eq!(reg.len(), 2);
}

#[test]
fn hundred_calls_count_hundred() {
    let mut reg = Registry::new();
    for _ in 0..100 {
        let r = instrument(&mut reg, "ok_handler", || Ok::<(), ()>(()));
        assert_eq!(r, Ok(()));
    }
    assert_eq!(reg.count_of("ok_handler", Outcome::Success), 100);
    assert_eq!(reg.count_of("ok_handler", Outcome::Error), 0);
}

#[test]
fn instrument_is_transparent() {
    let mut reg = Registry::new();
    let r = instrument(&mut reg, "h", || Ok::<u32, u32>(7));
    assert_eq!(r, Ok(7));
    let r = instrument(&mut reg, "h", || Err::<u32, u32>(3));
    assert_eq!(r, Err(3));
    assert_eq!(reg.count_of("h", Outcome::Success), 1);
    assert_eq!(reg.count_of("h", Outcome::Error), 1);
}

#[test]
fn instrument_plain_counts_success() {
    let mut reg = Registry::new();
    let r = instrument_plain(&mut reg, "get_index", get_index);
    assert_eq!(r, "Hello, World!");
    assert_eq!(reg.count_of("get_index", Outcome::Success), 1);
    assert_eq!(reg.count_of("get_index", Outcome::Error), 0);
}

#[test]
fn instrument_ok_if_follows_predicate() {
    let mut reg = Registry::new();
    let r = instrument_ok_if(
        &mut reg,
        "route",
        route_that_returns_into_response,
        |reply: &Reply| reply.status >= 200 && reply.status < 300,
    );
    assert_eq!(r.status, 200);
    assert_eq!(reg.count_of("route", Outcome::Success), 1);
    let r = instrument_ok_if(
        &mut reg,
        "route",
        || Reply { status: 500, body: "boom" },
        |reply: &Reply| reply.status >= 200 && reply.status < 300,
    );
    assert_eq!(r.status, 500);
    assert_eq!(reg.count_of("route", Outcome::Error), 1);
    assert_eq!(reg.count_of("route", Outcome::Success), 1);
}

#[test]
fn decimal_rendering_is_exact() {
    assert_eq!(u64_to_dec(0), "0");
    assert_eq!(u64_to_dec(9), "9");
    assert_eq!(u64_to_dec(10), "10");
    assert_eq!(u64_to_dec(1234567890), "1234567890");
    assert_eq!(u64_to_dec(u64::MAX), "18446744073709551615");
}

#[test]
fn render_empty_registry_is_empty() {
    let reg = Registry::new();
    assert_eq!(reg.render(), "");
}

#[test]
fn render_is_idempotent() {
    let mut reg = Registry::new();
    reg.record("alpha", Outcome::Success, 3);
    reg.record("alpha", Outcome::Error, 150);
    reg.record("beta", Outcome::Success, 99999);
    let first = reg.render();
    let second = reg.render();
    assert_eq!(first, second);
    assert!(!first.is_empty());
}

#[test]
fn render_shows_exact_lines() {
    let mut reg = Registry::new();
    reg.record("h", Outcome::Success, 5);
    let text = reg.render();
    let expected = "calls_total{function=\"h\",outcome=\"success\"} 1\n\
        duration_ms_sum{function=\"h\",outcome=\"success\"} 5\n\
        duration_ms_bucket{function=\"h\",outcome=\"success\",le=\"10\"} 1\n\
        duration_ms_bucket{function=\"h\",outcome=\"success\",le=\"100\"} 0\n\
        duration_ms_bucket{function=\"h\",outcome=\"success\",le=\"1000\"} 0\n\
        duration_ms_bucket{function=\"h\",outcome=\"success\",le=\"10000\"} 0\n\
        duration_ms_bucket{function=\"h\",outcome=\"success\",le=\"inf\"} 0\n";
    assert_eq!(text, expected);
}

#[test]
fn buckets_follow_duration() {
    let mut reg = Registry::new();
    reg.record("h", Outcome::Success, 10);
    reg.record("h", Outcome::Success, 11);
    reg.record("h", Outcome::Success, 1000);
    reg.record("h", Outcome::Success, 10001);
    let text = reg.render();
    assert!(text.contains("duration_ms_bucket{function=\"h\",outcome=\"success\",le=\"10\"} 1\n"));
    assert!(text.contains("duration_ms_bucket{function=\"h\",outcome=\"success\",le=\"100\"} 1\n"));
    assert!(text.contains("duration_ms_bucket{function=\"h\",outcome=\"success\",le=\"1000\"} 1\n"));
    assert!(text.contains("duration_ms_bucket{function=\"h\",outcome=\"success\",le=\"10000\"} 0\n"));
    assert!(text.contains("duration_ms_bucket{function=\"h\",outcome=\"success\",le=\"inf\"} 1\n"));
    assert!(text.contains("duration_ms_sum{function=\"h\",outcome=\"success\"} 11022\n"));
    assert!(text.contains("calls_total{function=\"h\",outcome=\"success\"} 4\n"));
}

#[test]
fn saturating_counters_never_wrap() {
    let mut reg = Registry::new();
    reg.record("h", Outcome::Success, u64::MAX);
    reg.record("h", Outcome::Success, u64::MAX);
    let text = reg.render();
    assert!(text.contains("calls_total{function=\"h\",outcome=\"success\"} 2\n"));
    assert!(text.contains("duration_ms_sum{function=\"h\",outcome=\"success\"} 18446744073709551615\n"));
}

#[test]
fn metrics_endpoint_reports_snapshot() {
    let mut reg = Registry::new();
    reg.record("get_index", Outcome::Success, 1);
    let (status, body) = get_metrics(&reg);
    assert_eq!(status, 200);
    assert_eq!(body, reg.render());
    assert!(body.contains("calls_total{function=\"get_index\",outcome=\"success\"} 1\n"));
}
