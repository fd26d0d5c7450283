use url_checker::dispatch::{DispatchAction, Dispatcher, RunReport};
use url_checker::outcome::{outcome_from_failure, record_response, CheckOutcome};

fn targets(n: usize) -> Vec<String> {
    (0..n).map(|i| format!("http://host{}.example/", i)).collect()
}

/// A deterministic stand-in for the network: every third target fails to
/// connect, every fifth answers 404, the rest answer 200 with a body.
fn mock_check(index: usize, url: String) -> CheckOutcome {
    let ms = (index as u64 * 7) % 23;
    if index % 3 == 2 {
        outcome_from_failure(url, "connection refused".to_string(), ms, "t".to_string())
    } else if index % 5 == 4 {
        record_response(url, 404, ms, Some(10), "t".to_string())
    } else {
        record_response(url, 200, ms, Some(100 + index as u64), "t".to_string())
    }
}

/// Drives a run to its end. Checks complete newest first when `lifo`, oldest
/// first otherwise. Returns the report and the most checks ever in flight.
fn drive(urls: Vec<String>, limit: usize, lifo: bool) -> (RunReport, usize) {
    let mut d = Dispatcher::new(urls, limit);
    let mut flying: Vec<(usize, String)> = Vec::new();
    let mut most = 0;
    loop {
        match d.next_action() {
            DispatchAction::Start { index, url } => {
                flying.push((index, url));
                assert!(d.in_flight() <= limit);
                assert_eq!(d.in_flight(), flying.len());
                most = most.max(flying.len());
            }
            DispatchAction::Wait => {
                assert!(!flying.is_empty());
                let (index, url) = if lifo { flying.pop().unwrap() } else { flying.remove(0) };
                assert!(d.complete(index, mock_check(index, url)));
            }
            DispatchAction::Finished => break,
        }
    }
    assert!(flying.is_empty());
    assert!(d.is_finished());
    (d.into_report(), most)
}

#[test]
fn every_target_yields_one_outcome() {
    for &(n, c) in &[(1usize, 1usize), (7, 1), (7, 3), (10, 20), (25, 4)] {
        let urls = targets(n);
        let (report, _) = drive(urls.clone(), c, false);
        assert_eq!(report.outcomes.len(), n);
        for (i, o) in report.outcomes.iter().enumerate() {
            assert_eq!(o.url, urls[i]);
        }
        assert_eq!(report.stats.total, n);
        assert_eq!(report.stats.up + report.stats.down, report.stats.total);
    }
}

#[test]
fn in_flight_never_exceeds_the_limit() {
    for c in 1..6 {
        let (_, most) = drive(targets(17), c, true);
        assert!(most <= c);
        assert_eq!(most, c);
    }
    let (_, most) = drive(targets(3), 10, false);
    assert_eq!(most, 3);
}

#[test]
fn empty_input_finishes_at_once() {
    let mut d = Dispatcher::new(Vec::new(), 4);
    assert_eq!(d.next_action(), DispatchAction::Finished);
    let report = d.into_report();
    assert!(report.outcomes.is_empty());
    assert_eq!(report.stats.total, 0);
    assert_eq!(report.stats.up, 0);
    assert_eq!(report.stats.min_time_ms, None);
}

#[test]
fn rerun_on_fixed_mock_gives_same_counts() {
    let (a, _) = drive(targets(30), 4, false);
    let (b, _) = drive(targets(30), 7, true);
    assert_eq!(a.stats.total, b.stats.total);
    assert_eq!(a.stats.up, b.stats.up);
    assert_eq!(a.stats.down, b.stats.down);
    assert_eq!(a.stats.total_size_bytes, b.stats.total_size_bytes);
    assert_eq!(a.outcomes, b.outcomes);
}

#[test]
fn slots_are_freed_only_by_completion() {
    let mut d = Dispatcher::new(targets(3), 2);
    let first = d.next_action();
    let second = d.next_action();
    assert!(matches!(first, DispatchAction::Start { index: 0, .. }));
    assert!(matches!(second, DispatchAction::Start { index: 1, .. }));
    assert_eq!(d.next_action(), DispatchAction::Wait);
    assert_eq!(d.in_flight(), 2);
    let url1 = "http://host1.example/".to_string();
    assert!(d.complete(1, mock_check(1, url1.clone())));
    assert_eq!(d.in_flight(), 1);
    match d.next_action() {
        DispatchAction::Start { index, url } => {
            assert_eq!(index, 2);
            assert_eq!(url, "http://host2.example/");
        }
        other => panic!("expected a start, got {:?}", other),
    }
    assert_eq!(d.next_action(), DispatchAction::Wait);
    assert!(!d.is_finished());
}

#[test]
fn stray_completions_are_refused() {
    let mut d = Dispatcher::new(targets(2), 1);
    assert!(matches!(d.next_action(), DispatchAction::Start { index: 0, .. }));
    // not started yet
    assert!(!d.complete(1, mock_check(1, "http://host1.example/".to_string())));
    // out of range
    assert!(!d.complete(9, mock_check(9, "http://host0.example/".to_string())));
    // wrong target
    assert!(!d.complete(0, mock_check(0, "http://elsewhere.example/".to_string())));
    assert_eq!(d.in_flight(), 1);
    assert!(d.complete(0, mock_check(0, "http://host0.example/".to_string())));
    // already completed
    assert!(!d.complete(0, mock_check(0, "http://host0.example/".to_string())));
    assert_eq!(d.in_flight(), 0);
    assert_eq!(d.limit(), 1);
    assert_eq!(d.len(), 2);
}
