use lifebot::calendar::{Date, DateTime};
use lifebot::policies::{GuardContext, PolicyConfig, PolicyInput, ShiftContext};
use lifebot::scheduling::{
    decide_from_queue, decide_rollover, decision_summary, draft_shift_id, next_date_for_day,
    parse_draft_cycle, require_draft_cycle, CandidateRequest, QueueCandidate, StepKind,
    TemplateContext,
};

fn d(year: i32, month: u32, day: u32) -> Date {
    Date { year, month, day }
}

fn at(date: Date, h: u32, m: u32) -> DateTime {
    DateTime { date, secs: h * 3600 + m * 60, frac: 0 }
}

fn template(incumbent: Option<(&str, &str)>) -> TemplateContext {
    TemplateContext {
        template_id: "template-sat-open-main".into(),
        template_name: "Saturday 8am Open".into(),
        site_id: "site-main".into(),
        site_name: "Downtown YMCA".into(),
        pool_id: "pool-main".into(),
        pool_name: "Main Pool".into(),
        role_id: "role-lifeguard".into(),
        role_name: "Lifeguard".into(),
        day_of_week: "Saturday".into(),
        start_time: "08:00".into(),
        end_time: "12:00".into(),
        required_certifications: vec!["cert-waterfront".into()],
        current_shift_id: Some("shift-current".into()),
        current_incumbent_guard_id: incumbent.map(|(id, _)| id.to_string()),
        current_incumbent_name: incumbent.map(|(_, name)| name.to_string()),
    }
}

fn input(name: &str, waterfront_expires: Date) -> PolicyInput {
    PolicyInput {
        guard: GuardContext {
            guard_id: format!("guard-{name}"),
            name: name.into(),
            date_of_birth: d(1995, 5, 5),
            certifications: vec![("Waterfront".into(), waterfront_expires)],
        },
        shift: ShiftContext {
            shift_id: "shift-next-template-sat-open-main".into(),
            site_id: "site-main".into(),
            role_id: "role-lifeguard".into(),
            shift_date: d(2026, 4, 4),
            start_time: "08:00".into(),
            end_time: "12:00".into(),
            required_certifications: vec!["cert-waterfront".into()],
        },
        existing_assignments: vec![],
        policies: PolicyConfig {
            minor_max_age: 17,
            minor_allowed_end_time: "20:00".into(),
            max_daily_hours: 8,
            max_weekly_hours: 24,
            min_gap_hours: 10,
        },
    }
}

fn candidate(name: &str, minute: u32, inp: Result<PolicyInput, String>) -> QueueCandidate {
    QueueCandidate {
        request: CandidateRequest {
            request_id: format!("request-{name}"),
            guard_id: format!("guard-{name}"),
            guard_name: name.into(),
            requested_at: at(d(2026, 3, 20), 9, minute),
        },
        input: inp,
    }
}

fn today() -> Date {
    d(2026, 3, 25)
}

#[test]
fn draft_fails_without_draft_cycle() {
    let result = require_draft_cycle(None);
    assert!(result.is_err(), "expected an error when no draft cycle exists, got Ok");
    let err_msg = result.unwrap_err();
    assert!(
        err_msg.contains("No draft scheduling cycle found"),
        "expected informative error message, got: {err_msg}"
    );
}

#[test]
fn draft_cycle_row_is_kept_and_parsed() {
    let row = ("cycle-draft".to_string(), "2026-03-30".to_string(), "2026-03-28 17:00:00".to_string());
    let (id, starts, deadline) = require_draft_cycle(Some(row)).unwrap();
    let cycle = parse_draft_cycle(id, &starts, &deadline).unwrap();
    assert_eq!(cycle.cycle_id, "cycle-draft");
    assert_eq!(cycle.starts_on, d(2026, 3, 30));
    assert_eq!(cycle.rollover_deadline, at(d(2026, 3, 28), 17, 0));
    assert_eq!(
        parse_draft_cycle("c".into(), "30/03/2026", "2026-03-28 17:00:00").unwrap_err(),
        "Failed to parse draft cycle starts_on date"
    );
    assert_eq!(
        parse_draft_cycle("c".into(), "2026-03-30", "2026-03-28").unwrap_err(),
        "Failed to parse draft cycle rollover_deadline"
    );
}

#[test]
fn template_dates_fall_in_first_week() {
    let monday = d(2026, 3, 30);
    assert_eq!(next_date_for_day(&monday, "Monday").unwrap(), monday);
    assert_eq!(next_date_for_day(&monday, "Tuesday").unwrap(), d(2026, 3, 31));
    assert_eq!(next_date_for_day(&monday, "Saturday").unwrap(), d(2026, 4, 4));
    assert_eq!(next_date_for_day(&monday, "Sunday").unwrap(), d(2026, 4, 5));
    let thursday = d(2024, 2, 29);
    assert_eq!(next_date_for_day(&thursday, "Wednesday").unwrap(), d(2024, 3, 6));
    assert_eq!(next_date_for_day(&monday, "Funday").unwrap_err(), "unknown day of week");
}

#[test]
fn incumbent_on_time_and_eligible_keeps_shift() {
    let t = template(Some(("guard-olivia", "Olivia Chen")));
    let deadline = at(d(2026, 3, 28), 17, 0);
    let inc = Ok(input("Olivia Chen", d(2027, 1, 1)));
    let decision = decide_rollover(&t, Some("2026-03-27 09:00:00"), &deadline, &inc, &today()).unwrap();
    assert_eq!(decision.winner.as_deref(), Some("guard-olivia"));
    assert_eq!(
        decision.winner_reason,
        "Olivia Chen kept priority by requesting rollover before the deadline."
    );
    assert_eq!(decision.steps.len(), 1);
    assert_eq!(decision.steps[0].kind, StepKind::RolloverAwarded);
    assert_eq!(decision.steps[0].requested_at.as_deref(), Some("2026-03-27 09:00:00"));
}

#[test]
fn incumbent_at_deadline_still_keeps_shift() {
    let t = template(Some(("guard-olivia", "Olivia Chen")));
    let deadline = at(d(2026, 3, 28), 17, 0);
    let inc = Ok(input("Olivia Chen", d(2027, 1, 1)));
    let decision = decide_rollover(&t, Some("2026-03-28 17:00:00"), &deadline, &inc, &today()).unwrap();
    assert_eq!(decision.winner.as_deref(), Some("guard-olivia"));
}

#[test]
fn late_incumbent_loses_priority() {
    let t = template(Some(("guard-marcus", "Marcus Reed")));
    let deadline = at(d(2026, 3, 28), 17, 0);
    let inc = Ok(input("Marcus Reed", d(2027, 1, 1)));
    let decision = decide_rollover(&t, Some("2026-03-28 17:00:01"), &deadline, &inc, &today()).unwrap();
    assert!(decision.winner.is_none());
    assert_eq!(decision.steps[0].kind, StepKind::RolloverMissedOrIneligible);
    assert_eq!(
        decision.steps[0].reason,
        "The incumbent did not keep priority because the request was late or failed an eligibility check."
    );
}

#[test]
fn ineligible_incumbent_loses_priority() {
    let t = template(Some(("guard-marcus", "Marcus Reed")));
    let deadline = at(d(2026, 3, 28), 17, 0);
    let inc = Ok(input("Marcus Reed", d(2025, 1, 1)));
    let decision = decide_rollover(&t, Some("2026-03-27 09:00:00"), &deadline, &inc, &today()).unwrap();
    assert!(decision.winner.is_none());
    assert_eq!(decision.steps[0].kind, StepKind::RolloverMissedOrIneligible);
}

#[test]
fn incumbent_without_request_opens_shift() {
    let t = template(Some(("guard-marcus", "Marcus Reed")));
    let deadline = at(d(2026, 3, 28), 17, 0);
    let inc = Err("not loaded".to_string());
    let decision = decide_rollover(&t, None, &deadline, &inc, &today()).unwrap();
    assert!(decision.winner.is_none());
    assert_eq!(decision.steps[0].kind, StepKind::RolloverAbsent);
    assert_eq!(decision.steps[0].guard.as_deref(), Some("Marcus Reed"));
    assert!(decision.steps[0].requested_at.is_none());
}

#[test]
fn malformed_rollover_time_fails_the_draft() {
    let t = template(Some(("guard-marcus", "Marcus Reed")));
    let deadline = at(d(2026, 3, 28), 17, 0);
    let inc = Ok(input("Marcus Reed", d(2027, 1, 1)));
    assert!(decide_rollover(&t, Some("yesterday"), &deadline, &inc, &today()).is_err());
}

#[test]
fn template_without_incumbent_records_nothing() {
    let t = template(None);
    let deadline = at(d(2026, 3, 28), 17, 0);
    let inc = Err("none".to_string());
    let decision = decide_rollover(&t, Some("2026-03-27 09:00:00"), &deadline, &inc, &today()).unwrap();
    assert!(decision.winner.is_none());
    assert!(decision.steps.is_empty());
}

#[test]
fn draft_with_no_requests_creates_unassigned_shift() {
    let decision = decide_from_queue(Vec::new(), &Vec::new(), &today());
    assert!(decision.winner.is_none());
    assert_eq!(decision.steps.len(), 1);
    assert_eq!(decision.steps[0].kind, StepKind::NoRequests);
    assert_eq!(decision.steps[0].reason, "No requests received for this shift");
    assert!(decision.request_updates.is_empty());
}

#[test]
fn queue_skips_ineligible_and_awards_first_eligible() {
    let cands = vec![
        candidate("Noah Park", 0, Ok(input("Noah Park", d(2025, 6, 1)))),
        candidate("Ben Torres", 5, Ok(input("Ben Torres", d(2027, 6, 1)))),
        candidate("Ava Stone", 9, Ok(input("Ava Stone", d(2027, 6, 1)))),
    ];
    let decision = decide_from_queue(Vec::new(), &cands, &today());
    assert_eq!(decision.winner.as_deref(), Some("guard-Ben Torres"));
    assert_eq!(decision.winner_reason, "Ben Torres was the first eligible requester in line.");
    assert_eq!(decision.request_updates.len(), 2);
    assert!(!decision.request_updates[0].accepted);
    assert!(decision.request_updates[0].reason.contains("certification"));
    assert!(decision.request_updates[1].accepted);
    assert_eq!(decision.steps.len(), 2);
    assert_eq!(decision.steps[0].kind, StepKind::RequestSkipped);
    assert_eq!(decision.steps[1].kind, StepKind::RequestAwarded);
    assert_eq!(decision.steps[1].requested_at.as_deref(), Some("2026-03-20T09:05:00+00:00"));
}

#[test]
fn queue_with_no_eligible_requester_stays_open() {
    let mut prior = Vec::new();
    let t = template(Some(("guard-marcus", "Marcus Reed")));
    let deadline = at(d(2026, 3, 28), 17, 0);
    let rollover = decide_rollover(&t, None, &deadline, &Err("x".to_string()), &today()).unwrap();
    prior.extend(rollover.steps);
    let cands = vec![
        candidate("Noah Park", 0, Ok(input("Noah Park", d(2025, 6, 1)))),
        candidate("Zed", 1, Err("guard record missing".to_string())),
    ];
    let decision = decide_from_queue(prior, &cands, &today());
    assert!(decision.winner.is_none());
    assert_eq!(decision.steps.len(), 3);
    assert_eq!(decision.steps[0].kind, StepKind::RolloverAbsent);
    assert_eq!(decision.request_updates.len(), 2);
    assert_eq!(decision.request_updates[1].reason, "guard record missing");
}

#[test]
fn summaries_and_ids() {
    assert_eq!(decision_summary("Saturday 8am Open", Some("Ben Torres")), "Saturday 8am Open -> Ben Torres");
    assert_eq!(decision_summary("Tuesday Close", None), "Tuesday Close remains open");
    assert_eq!(draft_shift_id("template-1"), "shift-next-template-1");
}

fn seeded_input(guard_id: &str, name: &str, dob: Date, certs: &[&str], shift_date: Date, start: &str, end: &str, required: &[&str]) -> PolicyInput {
    PolicyInput {
        guard: GuardContext {
            guard_id: guard_id.into(),
            name: name.into(),
            date_of_birth: dob,
            certifications: certs.iter().map(|c| (c.to_string(), d(2026, 9, 16))).collect(),
        },
        shift: ShiftContext {
            shift_id: "shift-next".into(),
            site_id: "site-main".into(),
            role_id: "role-lifeguard".into(),
            shift_date,
            start_time: start.into(),
            end_time: end.into(),
            required_certifications: required.iter().map(|c| c.to_string()).collect(),
        },
        existing_assignments: vec![],
        policies: PolicyConfig {
            minor_max_age: 17,
            minor_allowed_end_time: "20:00".into(),
            max_daily_hours: 8,
            max_weekly_hours: 24,
            min_gap_hours: 10,
        },
    }
}

fn seeded_template(id: &str, name: &str, day: &str, start: &str, end: &str, incumbent: (&str, &str)) -> TemplateContext {
    TemplateContext {
        template_id: id.into(),
        template_name: name.into(),
        site_id: "site-main".into(),
        site_name: "Downtown YMCA".into(),
        pool_id: "pool-main-competition".into(),
        pool_name: "Main Pool".into(),
        role_id: "role-lifeguard".into(),
        role_name: "Lifeguard".into(),
        day_of_week: day.into(),
        start_time: start.into(),
        end_time: end.into(),
        required_certifications: vec!["cert-lifeguard".into(), "cert-cpr".into(), "cert-waterfront".into()],
        current_shift_id: Some(format!("shift-current-{id}")),
        current_incumbent_guard_id: Some(incumbent.0.into()),
        current_incumbent_name: Some(incumbent.1.into()),
    }
}

#[test]
fn draft_generation_assigns_expected_examples() {
    let required = ["cert-lifeguard", "cert-cpr", "cert-waterfront"];
    let today = d(2026, 3, 20);
    let (id, starts, deadline) = require_draft_cycle(Some((
        "cycle-next".to_string(),
        "2026-03-23".to_string(),
        "2026-03-22 17:00:00".to_string(),
    )))
    .unwrap();
    let cycle = parse_draft_cycle(id, &starts, &deadline).unwrap();

    // Saturday 8am: Marcus did not ask for rollover; Noah asked first but has
    // no waterfront certification; Ben is next in line.
    let sat = seeded_template("template-sat-open-main", "Saturday 8am - Main Pool", "Saturday", "08:00", "12:00", ("guard-marcus", "Marcus Hill"));
    let sat_date = next_date_for_day(&cycle.starts_on, "Saturday").unwrap();
    let rollover = decide_rollover(&sat, None, &cycle.rollover_deadline, &Err(String::new()), &today).unwrap();
    let noah = QueueCandidate {
        request: CandidateRequest {
            request_id: "request-noah-sat-open".into(),
            guard_id: "guard-noah".into(),
            guard_name: "Noah Patel".into(),
            requested_at: at(d(2026, 3, 19), 8, 30),
        },
        input: Ok(seeded_input("guard-noah", "Noah Patel", d(1999, 2, 1), &["Lifeguard", "CPR/AED"], sat_date, "08:00", "12:00", &required)),
    };
    let ben = QueueCandidate {
        request: CandidateRequest {
            request_id: "request-ben-sat-open".into(),
            guard_id: "guard-ben".into(),
            guard_name: "Ben Torres".into(),
            requested_at: at(d(2026, 3, 19), 9, 0),
        },
        input: Ok(seeded_input("guard-ben", "Ben Torres", d(1998, 10, 10), &["Lifeguard", "CPR/AED", "Waterfront"], sat_date, "08:00", "12:00", &required)),
    };
    let queue = vec![noah, ben];
    let sat_decision = decide_from_queue(rollover.steps, &queue, &today);
    let sat_open_guard = queue
        .iter()
        .find(|c| Some(&c.request.guard_id) == sat_decision.winner.as_ref())
        .map(|c| c.request.guard_name.clone())
        .unwrap();
    assert_eq!(sat_open_guard, "Ben Torres");

    // Tuesday close: Olivia asked for rollover before the deadline.
    let tue = seeded_template("template-tue-close-main", "Tuesday Close - Main Pool", "Tuesday", "18:00", "22:00", ("guard-olivia", "Olivia Chen"));
    let tue_date = next_date_for_day(&cycle.starts_on, "Tuesday").unwrap();
    let olivia = seeded_input("guard-olivia", "Olivia Chen", d(2001, 5, 14), &["Lifeguard", "CPR/AED", "Waterfront"], tue_date, "18:00", "22:00", &required);
    let tue_decision =
        decide_rollover(&tue, Some("2026-03-18 09:15:00"), &cycle.rollover_deadline, &Ok(olivia), &today).unwrap();
    assert_eq!(tue_decision.winner.as_deref(), Some("guard-olivia"));
    let tue_close_guard = tue.current_incumbent_name.clone().unwrap();
    assert_eq!(tue_close_guard, "Olivia Chen");

    let noah_update = sat_decision
        .request_updates
        .iter()
        .find(|u| u.request_id == "request-noah-sat-open")
        .unwrap();
    let noah_status = format!("{}:{}", if noah_update.accepted { "accepted" } else { "skipped" }, noah_update.reason);
    assert!(noah_status.contains("skipped"));
    assert!(noah_status.contains("certification"));
}
