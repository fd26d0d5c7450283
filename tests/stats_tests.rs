use url_checker::outcome::{outcome_from_failure, outcome_from_response, CheckOutcome};
use url_checker::stats::{summarize, RunStatistics};

fn resp(url: &str, code: u16, ms: u64, len: Option<u64>) -> CheckOutcome {
    outcome_from_response(url.to_string(), code, String::new(), ms, len, "t".to_string())
}

fn fail(url: &str, ms: u64) -> CheckOutcome {
    outcome_from_failure(url.to_string(), "connection refused".to_string(), ms, "t".to_string())
}

#[test]
fn empty_run_has_zero_statistics() {
    let st = summarize(&Vec::new());
    assert_eq!(
        st,
        RunStatistics {
            total: 0,
            up: 0,
            down: 0,
            avg_time_ms: 0,
            min_time_ms: None,
            max_time_ms: None,
            total_size_bytes: 0,
        }
    );
}

#[test]
fn mixed_run_statistics() {
    let v = vec![
        resp("a", 200, 100, Some(1024)),
        resp("b", 404, 5, Some(50)),
        resp("c", 302, 40, None),
        fail("d", 900),
        resp("e", 200, 61, Some(10)),
    ];
    let st = summarize(&v);
    assert_eq!(st.total, 5);
    assert_eq!(st.up, 3);
    assert_eq!(st.down, 2);
    assert_eq!(st.up + st.down, st.total);
    assert_eq!(st.min_time_ms, Some(40));
    assert_eq!(st.max_time_ms, Some(100));
    assert_eq!(st.avg_time_ms, 67);
    assert_eq!(st.total_size_bytes, 1084);
}

#[test]
fn not_found_counts_down_and_adds_size_only() {
    let base = vec![resp("a", 200, 100, Some(1000))];
    let mut with = vec![resp("a", 200, 100, Some(1000))];
    with.push(resp("b", 404, 3, Some(24)));
    let a = summarize(&base);
    let b = summarize(&with);
    assert_eq!(b.down, a.down + 1);
    assert_eq!(b.up, a.up);
    assert_eq!(b.total_size_bytes, a.total_size_bytes + 24);
    assert_eq!(b.min_time_ms, Some(100));
    assert_eq!(b.max_time_ms, Some(100));
    assert_eq!(b.avg_time_ms, 100);
}

#[test]
fn all_transport_failures_report_no_times() {
    let v = vec![fail("a", 10), fail("b", 20), fail("c", 30)];
    let st = summarize(&v);
    assert_eq!(st.total, 3);
    assert_eq!(st.up, 0);
    assert_eq!(st.down, 3);
    assert_eq!(st.min_time_ms, None);
    assert_eq!(st.max_time_ms, None);
    assert_eq!(st.avg_time_ms, 0);
    assert_eq!(st.total_size_bytes, 0);
}

#[test]
fn zero_millisecond_success_is_distinct_from_none() {
    let st = summarize(&vec![resp("a", 200, 0, None)]);
    assert_eq!(st.min_time_ms, Some(0));
    assert_eq!(st.max_time_ms, Some(0));
}

#[test]
fn statistics_do_not_depend_on_order() {
    let a = vec![resp("a", 200, 7, Some(1)), fail("b", 3), resp("c", 500, 9, Some(2)), resp("d", 201, 2, Some(3))];
    let b = vec![resp("d", 201, 2, Some(3)), resp("c", 500, 9, Some(2)), resp("a", 200, 7, Some(1)), fail("b", 3)];
    assert_eq!(summarize(&a), summarize(&b));
}

#[test]
fn counts_ignore_timing() {
    let a = vec![resp("a", 200, 7, Some(1)), fail("b", 3), resp("c", 404, 9, Some(2))];
    let b = vec![resp("a", 200, 70, Some(1)), fail("b", 30), resp("c", 404, 90, Some(2))];
    let (x, y) = (summarize(&a), summarize(&b));
    assert_eq!((x.total, x.up, x.down, x.total_size_bytes), (y.total, y.up, y.down, y.total_size_bytes));
    assert_ne!(x.avg_time_ms, y.avg_time_ms);
}

#[test]
fn largest_sizes_and_times_do_not_overflow() {
    let v = vec![resp("a", 200, u64::MAX, Some(u64::MAX)), resp("b", 200, u64::MAX, Some(u64::MAX))];
    let st = summarize(&v);
    assert_eq!(st.avg_time_ms, u64::MAX);
    assert_eq!(st.total_size_bytes, 2 * (u64::MAX as u128));
}
