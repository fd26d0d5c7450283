use url_checker::outcome::{outcome_from_failure, outcome_from_response, record_response};
use url_checker::status::{is_up_status, status_text};

fn s(t: &str) -> String {
    t.to_string()
}

#[test]
fn status_text_is_decimal() {
    assert_eq!(status_text(404), "404");
    assert_eq!(status_text(200), "200");
    assert_eq!(status_text(0), "0");
    assert_eq!(status_text(7), "7");
    assert_eq!(status_text(65535), "65535");
}

#[test]
fn up_status_is_200_to_399() {
    assert!(!is_up_status(199));
    assert!(is_up_status(200));
    assert!(is_up_status(301));
    assert!(is_up_status(399));
    assert!(!is_up_status(400));
    assert!(!is_up_status(404));
    assert!(!is_up_status(500));
}

#[test]
fn ok_with_content_length_1024() {
    let o = record_response(s("http://a.example"), 200, 35, Some(1024), s("2024-01-01 00:00:00 UTC"));
    assert_eq!(o.url, "http://a.example");
    assert_eq!(o.status, "200");
    assert_eq!(o.reason, "OK");
    assert!(o.success);
    assert_eq!(o.size_bytes, 1024);
    assert_eq!(o.time_ms, 35);
    assert_eq!(o.timestamp, "2024-01-01 00:00:00 UTC");
}

#[test]
fn not_found_is_down_with_its_reason() {
    let o = record_response(s("http://b.example/x"), 404, 12, Some(300), s("t"));
    assert_eq!(o.status, "404");
    assert_eq!(o.reason, "Not Found");
    assert!(!o.success);
    assert_eq!(o.size_bytes, 300);
    assert_eq!(o.time_ms, 12);
}

#[test]
fn redirect_counts_as_up() {
    let o = record_response(s("http://c.example"), 301, 5, None, s("t"));
    assert_eq!(o.status, "301");
    assert_eq!(o.reason, "Moved Permanently");
    assert!(o.success);
    assert_eq!(o.size_bytes, 0);
}

#[test]
fn nonstandard_code_has_empty_reason() {
    let o = record_response(s("http://d.example"), 599, 5, None, s("t"));
    assert_eq!(o.status, "599");
    assert_eq!(o.reason, "");
    assert!(!o.success);
    let p = record_response(s("http://d.example"), 42, 5, None, s("t"));
    assert_eq!(p.status, "42");
    assert_eq!(p.reason, "");
}

#[test]
fn missing_content_length_is_zero() {
    let o = outcome_from_response(s("u"), 204, s("No Content"), 3, None, s("t"));
    assert_eq!(o.size_bytes, 0);
    assert_eq!(o.reason, "No Content");
    assert!(o.success);
}

#[test]
fn timeout_is_error_and_keeps_elapsed_time() {
    let o = outcome_from_failure(s("http://slow.example"), s("operation timed out"), 10_002, s("t"));
    assert_eq!(o.status, "ERROR");
    assert_eq!(o.reason, "operation timed out");
    assert!(!o.success);
    assert_eq!(o.size_bytes, 0);
    assert_eq!(o.time_ms, 10_002);
    assert_eq!(o.url, "http://slow.example");
}
