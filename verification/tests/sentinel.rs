use lifebot::sentinel::{
    alert_recipients, alert_transition, plan_detection_requests, rate_limit_error,
    should_notify_supervisors, worker_url, Camera, MockDetectionProvider, PoolZone,
};

#[test]
fn test_acknowledge_dismiss_flow() {
    let ack = alert_transition("acknowledged");
    assert_eq!(ack.new_status, "acknowledged");
    assert!(!ack.resolved);

    let resolved = alert_transition("resolved");
    assert_eq!(resolved.new_status, "resolved");
    assert!(resolved.resolved);
    assert_eq!(resolved.outcome.as_deref(), Some("resolved_safe"));
}

#[test]
fn test_false_positive_creates_outcome() {
    let t = alert_transition("false_positive");
    assert_eq!(t.new_status, "false_positive");
    assert!(t.resolved);
    assert_eq!(t.outcome.as_deref(), Some("false_alarm"));
    let dismissed = alert_transition("dismissed");
    assert_eq!(dismissed.new_status, "false_positive");
    assert_eq!(dismissed.outcome.as_deref(), Some("false_alarm"));
}

#[test]
fn test_escalation_increments_count() {
    let t = alert_transition("escalated");
    assert_eq!(t.new_status, "escalated");
    assert!(t.escalate);
    assert!(!t.resolved);
    assert!(t.outcome.is_none());
}

#[test]
fn unknown_action_counts_as_acknowledged() {
    let t = alert_transition("looked");
    assert_eq!(t.new_status, "acknowledged");
    assert!(!t.escalate && !t.resolved && t.outcome.is_none());
}

#[test]
fn notification_by_severity() {
    assert!(!should_notify_supervisors("low"));
    assert!(should_notify_supervisors("medium"));
    assert!(should_notify_supervisors("high"));
    let supervisors = vec![
        ("guard-1".to_string(), "Ava".to_string()),
        ("guard-2".to_string(), "Ben".to_string()),
    ];
    assert!(alert_recipients(&supervisors, "low").is_empty());
    let r = alert_recipients(&supervisors, "high");
    assert_eq!(r.len(), 2);
    assert_eq!(r[1].guard_id, "guard-2");
    assert_eq!(r[1].guard_name, "Ben");
    assert_eq!(r[0].role, "supervisor");
    assert_eq!(r[0].channel, "in_app");
}

#[test]
fn rate_limit() {
    assert!(rate_limit_error(0).is_none());
    assert_eq!(
        rate_limit_error(2).unwrap(),
        "Rate limited: please wait before simulating another event for this zone"
    );
}

fn camera(id: &str, active: bool) -> Camera {
    Camera {
        id: id.into(),
        site_id: "site-main".into(),
        name: format!("{id} name"),
        location: "Overhead".into(),
        stream_url: format!("rtsp://cams.example.org/{id}"),
        active,
    }
}

fn zone(id: &str, camera_id: Option<&str>, active: bool) -> PoolZone {
    PoolZone {
        id: id.into(),
        pool_id: "pool-1".into(),
        camera_id: camera_id.map(str::to_string),
        name: format!("Zone {id}"),
        zone_type: "deep_end".into(),
        immobility_threshold_secs: 12,
        active,
    }
}

#[test]
fn detection_pass_plan() {
    let cameras = vec![camera("cam-a", true), camera("cam-b", false), camera("cam-c", true), camera("cam-d", true)];
    let zones = vec![
        zone("z1", Some("cam-a"), true),
        zone("z2", Some("cam-b"), true),
        zone("z3", Some("cam-a"), false),
        zone("z4", Some("cam-c"), true),
        zone("z5", None, true),
        zone("z6", Some("cam-a"), true),
    ];
    let plan = plan_detection_requests(&cameras, &zones);
    assert_eq!(plan.len(), 2);
    assert_eq!(plan[0].camera_id, "cam-a");
    assert_eq!(plan[0].stream_url, "rtsp://cams.example.org/cam-a");
    assert_eq!(plan[0].zones.iter().map(|z| z.zone_id.as_str()).collect::<Vec<_>>(), vec!["z1", "z6"]);
    assert_eq!(plan[1].camera_id, "cam-c");
    assert_eq!(plan[1].zones.len(), 1);
    assert_eq!(plan[1].zones[0].immobility_threshold_secs, 12);
}

#[test]
fn worker_urls() {
    assert_eq!(worker_url("http://cv.example.org:5050", "/health"), "http://cv.example.org:5050/health");
    assert_eq!(worker_url("http://cv.example.org:5050///", "/analyze"), "http://cv.example.org:5050/analyze");
    assert_eq!(worker_url("", "/health"), "/health");
}

#[test]
fn mock_provider_name() {
    assert_eq!(MockDetectionProvider.provider_name(), "mock");
}
