use lifebot::calendar::Date;
use lifebot::validate::{
    validate_date, validate_date_range, validate_length, validate_sentinel_action, validate_url,
};

#[test]
fn date_parses() {
    assert_eq!(validate_date("2026-03-30", "start date").unwrap(), Date { year: 2026, month: 3, day: 30 });
    assert_eq!(
        validate_date("2026-13-01", "start date").unwrap_err(),
        "start date must be a valid date in YYYY-MM-DD format, got: 2026-13-01"
    );
}

#[test]
fn date_range_ordering() {
    assert!(validate_date_range("2026-03-01", "2026-03-31").is_ok());
    assert!(validate_date_range("2026-03-01", "2026-03-01").is_ok());
    assert_eq!(
        validate_date_range("2026-04-01", "2026-03-31").unwrap_err(),
        "Start date (2026-04-01) must be before or equal to end date (2026-03-31)"
    );
    assert_eq!(
        validate_date_range("soon", "2026-03-31").unwrap_err(),
        "start date must be a valid date in YYYY-MM-DD format, got: soon"
    );
    assert_eq!(
        validate_date_range("2026-03-01", "later").unwrap_err(),
        "end date must be a valid date in YYYY-MM-DD format, got: later"
    );
}

#[test]
fn length_limits() {
    assert!(validate_length("Main Pool Camera", "name", 100).is_ok());
    assert_eq!(
        validate_length("abcdef", "name", 5).unwrap_err(),
        "name is too long (6 chars, max 5)"
    );
    assert_eq!(validate_length("   \t", "name", 5).unwrap_err(), "name cannot be empty");
    assert_eq!(validate_length("", "notes", 5).unwrap_err(), "notes cannot be empty");
    // Length is counted in bytes: each of these characters takes two.
    assert_eq!(validate_length("ééé", "name", 5).unwrap_err(), "name is too long (6 chars, max 5)");
}

#[test]
fn url_protocols_and_addresses() {
    assert!(validate_url("https://cams.example.org/stream", "stream_url").is_ok());
    assert!(validate_url("RTSP://Cams.Example.org/1", "stream_url").is_ok());
    assert!(validate_url("mock://local/stream", "stream_url").is_ok());
    assert_eq!(
        validate_url("ftp://cams.example.org", "stream_url").unwrap_err(),
        "stream_url must use http, https, rtsp, rtsps, or mock protocol"
    );
    assert_eq!(
        validate_url("http://192.168.1.20/stream", "stream_url").unwrap_err(),
        "stream_url cannot reference internal network addresses"
    );
    assert_eq!(
        validate_url("HTTP://LOCALHOST:5050", "cv_endpoint").unwrap_err(),
        "cv_endpoint cannot reference internal network addresses"
    );
    assert_eq!(validate_url(" ", "cv_endpoint").unwrap_err(), "cv_endpoint cannot be empty");
    let internal = "stream_url cannot reference internal network addresses";
    for url in [
        "http://172.20.0.1/x",
        "http://172.31.255.255",
        "http://u@127.0.0.1",
        "http://user:pw@10.1.2.3:8080/a",
        "https://169.254.169.254/latest",
        "rtsp://0.0.0.0:554/live",
        "http://[::1]:5050/health",
        "http://localhost?x=1",
        "mock://127.1.1.1#frag",
        "http://127.1",
        "http://10.1",
        "http://localhost.",
        "http://127.0.0.1.",
        "http://LocalHost.:8080/x",
        "http://192.168.258",
        "http://169.254.1",
        "http://2130706433",
        "http://0.0.0.0.",
    ] {
        assert_eq!(validate_url(url, "stream_url").unwrap_err(), internal, "{url}");
    }
    for url in [
        "http://172.32.0.1/x",
        "http://172.15.0.1",
        "http://10.example.com/x",
        "http://example.com/?next=http://10.0.0.1",
        "http://192.169.1.1",
        "http://1.2.3.256",
        "http://localhost.example.org",
        "https://127@example.org",
        "http://1.2",
        "http://8.8.8.8.",
        "http://172.32",
        "http://4294967296",
        "http://localhost..",
    ] {
        assert!(validate_url(url, "stream_url").is_ok(), "{url}");
    }
    let long = format!("https://example.org/{}", "a".repeat(2100));
    assert!(validate_url(&long, "cv_endpoint").unwrap_err().contains("is too long"));
}

#[test]
fn sentinel_actions() {
    for action in ["acknowledged", "dismissed", "false_positive", "escalated", "resolved"] {
        assert!(validate_sentinel_action(action).is_ok());
    }
    assert_eq!(
        validate_sentinel_action("ignored").unwrap_err(),
        "Invalid sentinel action: ignored. Must be one of: acknowledged, dismissed, false_positive, escalated, resolved"
    );
}
