use lifebot::calendar::Date;
use lifebot::policies::{
    cert_id_to_name, evaluate_candidate, evaluate_candidate_on, ExistingAssignment, GuardContext,
    PolicyConfig, PolicyInput, PolicyRuleFields, ShiftContext,
};

fn d(year: i32, month: u32, day: u32) -> Date {
    Date { year, month, day }
}

/// A date before the base input's certifications expire.
fn spring_2026() -> Date {
    d(2026, 3, 20)
}

fn base_input() -> PolicyInput {
    PolicyInput {
        guard: GuardContext {
            guard_id: "guard-1".into(),
            name: "Jada".into(),
            date_of_birth: d(2009, 7, 11),
            certifications: vec![
                ("Lifeguard".into(), d(2026, 10, 1)),
                ("CPR/AED".into(), d(2026, 10, 1)),
            ],
        },
        shift: ShiftContext {
            shift_id: "shift-1".into(),
            site_id: "site-main".into(),
            role_id: "role-lifeguard".into(),
            shift_date: d(2026, 3, 24),
            start_time: "18:00".into(),
            end_time: "22:00".into(),
            required_certifications: vec!["cert-lifeguard".into(), "cert-cpr".into()],
        },
        existing_assignments: vec![],
        policies: PolicyConfig {
            minor_max_age: 17,
            minor_allowed_end_time: "20:00".into(),
            max_daily_hours: 8,
            max_weekly_hours: 24,
            min_gap_hours: 10,
        },
    }
}

fn adult(mut input: PolicyInput) -> PolicyInput {
    input.guard.date_of_birth = d(2000, 1, 1);
    input
}

fn assignment(id: &str, date: Date, start: &str, end: &str) -> ExistingAssignment {
    ExistingAssignment {
        shift_id: id.into(),
        shift_date: date,
        start_time: start.into(),
        end_time: end.into(),
    }
}

#[test]
fn blocks_minor_late_shift() {
    let input = base_input();
    let error = evaluate_candidate_on(&input, &spring_2026()).unwrap_err();
    assert!(error.reason.contains("minor cutoff"));
}

#[test]
fn blocks_expired_certification() {
    let mut input = base_input();
    input.guard.date_of_birth = d(2000, 1, 1);
    input.guard.certifications = vec![
        ("Lifeguard".into(), d(2026, 10, 1)),
        ("CPR/AED".into(), d(2020, 10, 1)),
    ];
    let error = evaluate_candidate_on(&input, &spring_2026()).unwrap_err();
    assert!(error.reason.contains("missing or expired"));
}

#[test]
fn blocks_overlap() {
    let mut input = base_input();
    input.guard.date_of_birth = d(2000, 1, 1);
    input.shift.end_time = "18:30".into();
    input.existing_assignments = vec![assignment("other", d(2026, 3, 24), "17:00", "19:00")];
    let error = evaluate_candidate_on(&input, &spring_2026()).unwrap_err();
    assert!(error.reason.contains("overlaps"));
}

#[test]
fn minor_reason_text_is_exact() {
    let input = base_input();
    let error = evaluate_candidate_on(&input, &spring_2026()).unwrap_err();
    assert_eq!(
        error.reason,
        "Skipped because Jada is 16 and the shift ends after the allowed minor cutoff of 20:00."
    );
}

#[test]
fn missing_certification_reason_names_it() {
    let mut input = adult(base_input());
    input.shift.required_certifications.push("cert-waterfront".into());
    let error = evaluate_candidate_on(&input, &spring_2026()).unwrap_err();
    assert_eq!(
        error.reason,
        "Skipped because the required certification `Waterfront` is missing or expired."
    );
}

#[test]
fn certification_valid_through_expiry_day() {
    let input = adult(base_input());
    assert!(evaluate_candidate_on(&input, &d(2026, 10, 1)).is_ok());
    assert!(evaluate_candidate_on(&input, &d(2026, 10, 2)).is_err());
}

#[test]
fn adult_evening_shift_is_eligible() {
    let input = adult(base_input());
    assert!(evaluate_candidate_on(&input, &spring_2026()).is_ok());
}

#[test]
fn minor_shift_ending_at_cutoff_is_allowed() {
    let mut input = base_input();
    input.shift.start_time = "16:00".into();
    input.shift.end_time = "20:00".into();
    assert!(evaluate_candidate_on(&input, &spring_2026()).is_ok());
}

#[test]
fn daily_limit_exceeded() {
    let mut input = adult(base_input());
    input.existing_assignments = vec![assignment("a", d(2026, 3, 24), "06:00", "11:00")];
    let error = evaluate_candidate_on(&input, &spring_2026()).unwrap_err();
    assert_eq!(error.reason, "Skipped because it would exceed the daily limit of 8 hours.");
}

#[test]
fn daily_limit_reached_exactly_is_allowed() {
    let mut input = adult(base_input());
    input.existing_assignments = vec![assignment("a", d(2026, 3, 24), "06:00", "10:00")];
    assert!(evaluate_candidate_on(&input, &spring_2026()).is_ok());
}

#[test]
fn weekly_limit_exceeded() {
    let mut input = adult(base_input());
    input.policies.min_gap_hours = 0;
    input.existing_assignments = vec![
        assignment("a", d(2026, 3, 16), "06:00", "14:00"),
        assignment("b", d(2026, 3, 18), "06:00", "14:00"),
        assignment("c", d(2026, 3, 20), "06:00", "11:00"),
    ];
    let error = evaluate_candidate_on(&input, &spring_2026()).unwrap_err();
    assert_eq!(error.reason, "Skipped because it would exceed the cycle limit of 24 hours.");
}

#[test]
fn rest_gap_not_met_across_days() {
    let mut input = adult(base_input());
    input.existing_assignments = vec![assignment("a", d(2026, 3, 25), "06:00", "10:00")];
    let error = evaluate_candidate_on(&input, &spring_2026()).unwrap_err();
    assert_eq!(
        error.reason,
        "Skipped because the required 10 hour gap between shifts is not met."
    );
}

#[test]
fn rest_gap_met_across_days() {
    let mut input = adult(base_input());
    input.existing_assignments = vec![assignment("a", d(2026, 3, 25), "08:00", "12:00")];
    assert!(evaluate_candidate_on(&input, &spring_2026()).is_ok());
}

#[test]
fn invalid_shift_time_is_reported() {
    let mut input = adult(base_input());
    input.shift.start_time = "late".into();
    let error = evaluate_candidate_on(&input, &spring_2026()).unwrap_err();
    assert_eq!(error.reason, "Invalid time value `late`");
}

#[test]
fn single_digit_hour_parses() {
    let mut input = adult(base_input());
    input.shift.start_time = "9:00".into();
    input.shift.end_time = "13:00".into();
    assert!(evaluate_candidate_on(&input, &spring_2026()).is_ok());
}

#[test]
fn clock_based_evaluation_with_long_valid_certifications() {
    let mut input = base_input();
    input.guard.certifications = vec![
        ("Lifeguard".into(), d(2999, 1, 1)),
        ("CPR/AED".into(), d(2999, 1, 1)),
    ];
    let error = evaluate_candidate(&input).unwrap_err();
    assert!(error.reason.contains("minor cutoff"));
}

#[test]
fn cert_names() {
    assert_eq!(cert_id_to_name("cert-lifeguard"), "Lifeguard");
    assert_eq!(cert_id_to_name("cert-cpr"), "CPR/AED");
    assert_eq!(cert_id_to_name("cert-waterfront"), "Waterfront");
    assert_eq!(cert_id_to_name("cert-instructor"), "Swim Instruction");
    assert_eq!(cert_id_to_name("CPR"), "CPR");
}

#[test]
fn policy_config_defaults_and_rules() {
    let mut config = PolicyConfig::default();
    assert_eq!(config.minor_max_age, 0);
    assert_eq!(config.minor_allowed_end_time, "");
    let empty = PolicyRuleFields {
        max_age: None,
        allowed_end_time: None,
        max_daily_hours: None,
        max_weekly_hours: None,
        min_gap_hours: None,
    };
    config.apply_rule("minor_time_window", &empty);
    config.apply_rule("max_daily_hours", &empty);
    config.apply_rule("max_weekly_hours", &empty);
    config.apply_rule("min_gap_hours", &empty);
    assert_eq!(config.minor_max_age, 17);
    assert_eq!(config.minor_allowed_end_time, "20:00");
    assert_eq!(config.max_daily_hours, 8);
    assert_eq!(config.max_weekly_hours, 24);
    assert_eq!(config.min_gap_hours, 10);

    let fields = PolicyRuleFields {
        max_age: Some(15),
        allowed_end_time: Some("19:30".into()),
        max_daily_hours: Some(300),
        max_weekly_hours: Some(40),
        min_gap_hours: Some(12),
    };
    config.apply_rule("minor_time_window", &fields);
    config.apply_rule("max_daily_hours", &fields);
    config.apply_rule("unknown_rule", &fields);
    assert_eq!(config.minor_max_age, 15);
    assert_eq!(config.minor_allowed_end_time, "19:30");
    assert_eq!(config.max_daily_hours, 44);
    assert_eq!(config.max_weekly_hours, 24);
}
