use lifebot::calendar::Date;
use lifebot::sentinel::{Camera, PoolZone};
use lifebot::service::{
    trace_to_explain,
    open_shifts, queue_for_template, shifts_with_template, DecisionTraceSummary, LifebotDb,
    LifebotService, ShiftAssignmentView, ShiftQueueEntry,
};
use lifebot::sling::{session_org_id, SlingGroup, SlingShift, SlingShiftRef, SlingShiftUser, SlingUser};

fn service() -> LifebotService {
    LifebotService::from_env_values(None, "/data/lifebot-demo.db", None, None)
}

#[test]
fn db_path() {
    let db = LifebotDb::new("/tmp/lifebot.db");
    assert_eq!(db.path(), "/tmp/lifebot.db");
}

#[test]
fn environment_settings() {
    let svc = service();
    assert_eq!(svc.db().path(), "/data/lifebot-demo.db");
    let d = svc.dashboard(0, 0, 0, 0, "draft".into(), vec![]);
    assert!(d.demo_mode);
    assert!(!d.admin_mode);
    let svc = LifebotService::from_env_values(
        Some("/var/lb.db".into()),
        "/data/lifebot-demo.db",
        Some("false".into()),
        Some("true".into()),
    );
    assert_eq!(svc.db().path(), "/var/lb.db");
    let d = svc.dashboard(0, 0, 0, 0, "draft".into(), vec![]);
    assert!(!d.demo_mode);
    assert!(d.admin_mode);
}

#[test]
fn init_seeds_only_in_demo_mode() {
    let svc = service();
    assert!(svc.init(None));
    assert!(svc.init(Some("demo".into())));
    assert!(!svc.init(Some("live".into())));
}

fn trace(i: usize) -> DecisionTraceSummary {
    DecisionTraceSummary {
        id: format!("trace-{i}"),
        shift_id: format!("shift-{i}"),
        summary: format!("Shift {i} -> Guard"),
        decision_type: "assignment_decision".into(),
        decided_at: format!("2026-03-2{i} 10:00:00"),
    }
}

#[test]
fn dashboard_keeps_five_recent_decisions() {
    let svc = service();
    let d = svc.dashboard(12, 3, 4, 2, "draft_ready".into(), (0..8).map(trace).collect());
    assert_eq!(d.current_cycle_name, "Current Cycle");
    assert_eq!(d.next_cycle_name, "Next Cycle");
    assert_eq!(d.active_guards, 12);
    assert_eq!(d.open_shift_count, 3);
    assert_eq!(d.pending_request_count, 4);
    assert_eq!(d.expiring_cert_count, 2);
    assert_eq!(d.draft_status, "draft_ready");
    assert_eq!(d.recent_decisions.len(), 5);
    assert_eq!(d.recent_decisions[4].id, "trace-4");
    let d = svc.dashboard(0, 0, 0, 0, "draft".into(), (0..2).map(trace).collect());
    assert_eq!(d.recent_decisions.len(), 2);
}

fn entry(id: &str, template: &str, reason: Option<&str>) -> ShiftQueueEntry {
    ShiftQueueEntry {
        request_id: id.into(),
        shift_id: format!("shift-{id}"),
        template_name: template.into(),
        requester_name: format!("Guard {id}"),
        requested_at: "2026-03-20 09:00:00".into(),
        status: if reason.is_some() { "skipped".into() } else { "queued".into() },
        reason: reason.map(str::to_string),
    }
}

#[test]
fn violations_are_queue_entries_with_reasons() {
    let svc = service();
    let v = svc.policy_violations(vec![
        entry("a", "Saturday 8am Open", Some("expired")),
        entry("b", "Saturday 8am Open", None),
        entry("c", "Tuesday Close", Some("too young")),
    ]);
    assert_eq!(v.len(), 2);
    assert_eq!(v[0].shift_id, "shift-a");
    assert_eq!(v[0].guard_name, "Guard a");
    assert_eq!(v[0].violation, "Eligibility rule");
    assert_eq!(v[1].reason, "too young");
    assert_eq!(v[1].template_name, "Tuesday Close");
}

#[test]
fn queue_filter_by_template() {
    let q = queue_for_template(
        vec![entry("a", "Saturday 8am Open", None), entry("b", "Tuesday Close", None), entry("c", "Saturday 8am Open", None)],
        "Saturday 8am",
    );
    assert_eq!(q.iter().map(|e| e.request_id.as_str()).collect::<Vec<_>>(), vec!["a", "c"]);
}

fn view(id: &str, template: &str, guard: Option<&str>) -> ShiftAssignmentView {
    ShiftAssignmentView {
        shift_id: id.into(),
        template_name: template.into(),
        cycle_name: "Next Cycle".into(),
        site_name: "Downtown YMCA".into(),
        pool_name: "Main Pool".into(),
        role_name: "Lifeguard".into(),
        day_name: "Tuesday".into(),
        start_time: "16:00".into(),
        end_time: "21:00".into(),
        assigned_guard_name: guard.map(str::to_string),
        assignment_status: if guard.is_some() { "draft".into() } else { "open".into() },
        incumbent_guard_name: None,
        rollover_deadline: "2026-03-28 17:00:00".into(),
    }
}

#[test]
fn schedule_filters() {
    let schedule = vec![
        view("s1", "Tuesday Close Main", Some("Olivia Chen")),
        view("s2", "Saturday 8am Open", None),
        view("s3", "Tuesday Close Rec", None),
    ];
    let open = open_shifts(schedule.clone());
    assert_eq!(open.iter().map(|v| v.shift_id.as_str()).collect::<Vec<_>>(), vec!["s2", "s3"]);
    let tue = shifts_with_template(schedule, "Tuesday Close");
    assert_eq!(tue.iter().map(|v| v.shift_id.as_str()).collect::<Vec<_>>(), vec!["s1", "s3"]);
}

#[test]
fn examples_offered() {
    let ex = service().assistant_examples();
    assert_eq!(ex.len(), 10);
    assert_eq!(ex[0], "Who usually works Tuesday close at the main pool?");
    assert_eq!(ex[9], "Show Sentinel event history.");
}

#[test]
fn integration_keys() {
    assert!(LifebotService::is_credential_key("sling_api_key"));
    assert!(LifebotService::is_credential_key("session_token"));
    assert!(!LifebotService::is_credential_key("cv_endpoint"));
    assert!(LifebotService::check_integration_key("cv_endpoint").is_ok());
    assert_eq!(
        LifebotService::check_integration_key("smtp_host").unwrap_err(),
        "Unknown integration key: smtp_host"
    );
    let catalog = LifebotService::integration_catalog();
    assert_eq!(catalog.len(), 4);
    assert_eq!(catalog[1].1, "OpenClaw Agent");
    let s = LifebotService::integration_status("cv_endpoint", "CV Worker", "desc", String::new());
    assert!(!s.connected);
    let s = LifebotService::integration_status("cv_endpoint", "CV Worker", "desc", "https://cv.example.org".into());
    assert!(s.connected);
    assert_eq!(s.value, "https://cv.example.org");
}

#[test]
fn setup_status_defaults_mode() {
    let svc = service();
    let s = svc.setup_status(None, None, false, 0, 0, 0);
    assert_eq!(s.app_mode, "uninitialized");
    let s = svc.setup_status(Some("live".into()), Some("2026-03-01 10:00:00".into()), true, 5, 2, 7);
    assert_eq!(s.app_mode, "live");
    assert!(s.sling_connected);
    assert_eq!(s.guard_count, 5);
    assert_eq!(s.template_count, 7);
}

#[test]
fn import_plan_maps_records() {
    let users = vec![SlingUser {
        id: 9,
        name: "Jane".into(),
        lastname: Some("Doe".into()),
        email: None,
        phone: None,
        birthday_date: Some("1999-01-02".into()),
        deleted: false,
        hidden_on_schedule: false,
    }];
    let groups = vec![
        SlingGroup { id: 1, name: "Downtown".into(), group_type: "location".into(), timezone: None, color: None, address: None },
        SlingGroup { id: 2, name: "Lifeguard".into(), group_type: "position".into(), timezone: None, color: None, address: None },
    ];
    let shifts = vec![
        SlingShift {
            id: "s1".into(),
            summary: None,
            dtstart: "2024-07-04T08:00:00Z".into(),
            dtend: "2024-07-04T16:00:00Z".into(),
            user: Some(SlingShiftUser { id: 9 }),
            location: Some(SlingShiftRef { id: 1 }),
            position: Some(SlingShiftRef { id: 2 }),
            status: None,
            break_duration: None,
        },
        SlingShift {
            id: "s2".into(),
            summary: None,
            dtstart: "garbage".into(),
            dtend: "2024-07-04T16:00:00Z".into(),
            user: None,
            location: None,
            position: None,
            status: None,
            break_duration: None,
        },
    ];
    let plan = service().run_import(&users, &groups, &shifts);
    assert_eq!(plan.guards.len(), 1);
    assert_eq!(plan.guards[0].name, "Jane Doe");
    assert_eq!(plan.locations, vec![(1, "Downtown".to_string())]);
    assert_eq!(plan.positions, vec![(2, "Lifeguard".to_string())]);
    assert_eq!(plan.shifts.len(), 1);
    assert_eq!(plan.shifts[0].sling_shift_id, "s1");
    let r = LifebotService::import_run_result(1, 0, 1, 1, 1);
    assert_eq!(r.guards_imported, 1);
    assert!(r.errors.is_empty());
}

#[test]
fn acknowledgment_plan() {
    let p = service().sentinel_acknowledge("salt-1", "guard-1", "dismissed", "Shadow on water");
    assert_eq!(p.alert_id, "salt-1");
    assert_eq!(p.notes, "Shadow on water");
    assert_eq!(p.transition.new_status, "false_positive");
    assert!(p.transition.resolved);
}

#[test]
fn detection_pass_needs_endpoint() {
    let cameras = vec![Camera {
        id: "cam-1".into(),
        site_id: "site-main".into(),
        name: "Main Pool Camera".into(),
        location: "Overhead".into(),
        stream_url: "mock://local/stream".into(),
        active: true,
    }];
    let zones = vec![PoolZone {
        id: "zone-1".into(),
        pool_id: "pool-1".into(),
        camera_id: Some("cam-1".into()),
        name: "Main Pool \u{2014} Deep End".into(),
        zone_type: "deep_end".into(),
        immobility_threshold_secs: 12,
        active: true,
    }];
    let svc = service();
    let err = svc.sentinel_run_detection_pass("", &cameras, &zones).unwrap_err();
    assert!(err.starts_with("No CV endpoint configured."));
    let plan = svc.sentinel_run_detection_pass("https://cv.example.org", &cameras, &zones).unwrap();
    assert_eq!(plan.len(), 1);
    assert_eq!(plan[0].zones[0].zone_id, "zone-1");
}

#[test]
fn cycle_and_export() {
    assert_eq!(LifebotService::cycle_id_for("2026-04-06"), "cycle-2026-04-06");
    let e = LifebotService::sling_export_entry("2026-04-07", "16:00", "21:00", "Tuesday Close".into(), Some(11), None, Some(4));
    assert_eq!(e.dtstart, "2026-04-07T16:00:00Z");
    assert_eq!(e.dtend, "2026-04-07T21:00:00Z");
    assert_eq!(e.user.map(|u| u.id), Some(11));
    assert!(e.location.is_none());
    assert_eq!(e.position.map(|p| p.id), Some(4));
    assert_eq!(e.summary.as_deref(), Some("Tuesday Close"));
}

#[test]
fn certification_status_by_date() {
    let today = Date { year: 2026, month: 3, day: 20 };
    let s = LifebotService::certification_status("CPR/AED".into(), "2026-03-20".into(), &today);
    assert_eq!(s.status, "Expired");
    let s = LifebotService::certification_status("CPR/AED".into(), "2026-03-21".into(), &today);
    assert_eq!(s.status, "Valid");
    let s = LifebotService::certification_status("Lifeguard".into(), "2025-12-31".into(), &today);
    assert_eq!(s.status, "Expired");
    assert_eq!(s.certification, "Lifeguard");
}

fn summary_trace(id: &str, summary: &str) -> DecisionTraceSummary {
    DecisionTraceSummary {
        id: id.into(),
        shift_id: format!("shift-{id}"),
        summary: summary.into(),
        decision_type: "assignment_decision".into(),
        decided_at: "2026-03-20 10:00:00".into(),
    }
}

#[test]
fn explained_trace_is_first_saturday_8am() {
    let traces = vec![
        summary_trace("a", "Tuesday Close - Main Pool -> Olivia Chen"),
        summary_trace("b", "Saturday 8am - Main Pool -> Ben Torres"),
        summary_trace("c", "Saturday 8am - Rec Pool remains open"),
    ];
    assert_eq!(trace_to_explain(&traces), Some(1));
    assert_eq!(trace_to_explain(&traces[..1].to_vec()), None);
    assert_eq!(trace_to_explain(&Vec::new()), None);
}

#[test]
fn session_org_id_fallbacks() {
    assert_eq!(session_org_id(Some(7), Some(8), Some(9)), Some(7));
    assert_eq!(session_org_id(None, Some(8), Some(9)), Some(8));
    assert_eq!(session_org_id(None, None, Some(9)), Some(9));
    assert_eq!(session_org_id(None, None, None), None);
}
