use lifebot::calendar::{age_on, Date, DateTime};
use lifebot::scheduling::{next_date_for_day, parse_draft_cycle, request_time};
use lifebot::service::LifebotService;
use lifebot::sling::SlingShift;
use lifebot::text::{push_decimal, push_four_digits, push_signed_decimal, push_two_digits, str_contains};
use lifebot::validate::validate_date;

fn d(year: i32, month: u32, day: u32) -> Date {
    Date { year, month, day }
}

fn at(date: Date, h: u32, m: u32, s: u32) -> DateTime {
    DateTime { date, secs: h * 3600 + m * 60 + s, frac: 0 }
}

fn shift(dtstart: &str) -> SlingShift {
    SlingShift {
        id: "s".into(),
        summary: None,
        dtstart: dtstart.into(),
        dtend: dtstart.into(),
        user: None,
        location: None,
        position: None,
        status: None,
        break_duration: None,
    }
}

#[test]
fn ages() {
    assert_eq!(age_on(&d(2009, 7, 11), &d(2026, 3, 24)), 16);
    assert_eq!(age_on(&d(2009, 7, 11), &d(2026, 7, 11)), 17);
    assert_eq!(age_on(&d(2009, 7, 11), &d(2026, 7, 10)), 16);
    assert_eq!(age_on(&d(2000, 2, 29), &d(2001, 2, 28)), 0);
    assert_eq!(age_on(&d(2000, 2, 29), &d(2001, 3, 1)), 1);
}

#[test]
fn days_until_expiry() {
    let days = |expires: &str, today: Date| {
        LifebotService::certification_expiry("Emma".into(), "CPR/AED".into(), expires.into(), &today)
            .map(|v| v.days_remaining)
    };
    assert_eq!(days("2026-03-01", d(2026, 2, 1)), Some(28));
    assert_eq!(days("2024-03-01", d(2024, 2, 1)), Some(29));
    assert_eq!(days("2026-01-01", d(2026, 12, 31)), Some(-364));
    assert_eq!(days("2026-04-03", d(2026, 3, 20)), Some(14));
    assert_eq!(days("2026-02-30", d(2026, 3, 20)), None);
    let v = LifebotService::certification_expiry("Emma".into(), "CPR/AED".into(), "2026-04-03".into(), &d(2026, 3, 20))
        .unwrap();
    assert_eq!(v.guard_name, "Emma");
    assert_eq!(v.certification, "CPR/AED");
    assert_eq!(v.expires_on, "2026-04-03");
}

#[test]
fn weekdays_and_day_steps() {
    assert_eq!(next_date_for_day(&d(1, 1, 1), "Monday").unwrap(), d(1, 1, 1));
    assert_eq!(next_date_for_day(&d(2024, 7, 7), "Sunday").unwrap(), d(2024, 7, 7));
    assert_eq!(next_date_for_day(&d(2026, 12, 29), "Sunday").unwrap(), d(2027, 1, 3));
}

#[test]
fn date_texts() {
    assert_eq!(d(2026, 3, 5).iso_string(), "2026-03-05");
    assert_eq!(d(987, 12, 31).iso_string(), "0987-12-31");
    assert_eq!(d(5, 1, 9).iso_string(), "0005-01-09");
    assert_eq!(d(-44, 3, 15).iso_string(), "-0044-03-15");
    assert_eq!(d(12345, 6, 7).iso_string(), "+12345-06-07");
}

#[test]
fn parsing() {
    assert_eq!(validate_date("2026-02-28", "date").unwrap(), d(2026, 2, 28));
    assert!(validate_date("2026-02-29", "date").is_err());
    let cycle = parse_draft_cycle("c".into(), "2026-03-23", "2026-03-28 17:00:00").unwrap();
    assert_eq!(cycle.rollover_deadline, at(d(2026, 3, 28), 17, 0, 0));
    assert!(parse_draft_cycle("c".into(), "2026-03-23", "2026-03-28T17:00:00").is_err());
    assert_eq!(shift("2024-07-04T08:00:00Z").start_datetime(), Some(at(d(2024, 7, 4), 8, 0, 0)));
}

#[test]
fn stored_request_times() {
    assert_eq!(request_time("2026-03-19 09:00:00"), Some(at(d(2026, 3, 19), 9, 0, 0)));
    assert_eq!(request_time("2026-03-19 23:59:30"), Some(at(d(2026, 3, 19), 23, 59, 30)));
    assert_eq!(request_time("2026-03-19"), None);
    assert_eq!(request_time("yesterday"), None);
}

#[test]
fn number_texts() {
    let mut s = String::new();
    push_decimal(&mut s, 0);
    push_decimal(&mut s, 1234567890);
    assert_eq!(s, "01234567890");
    let mut s = String::new();
    push_signed_decimal(&mut s, -42);
    push_signed_decimal(&mut s, i64::MIN);
    assert_eq!(s, "-42-9223372036854775808");
    let mut s = String::new();
    push_two_digits(&mut s, 7);
    push_two_digits(&mut s, 45);
    push_two_digits(&mut s, 123);
    assert_eq!(s, "0745123");
    let mut s = String::new();
    push_four_digits(&mut s, 7);
    push_four_digits(&mut s, 45);
    push_four_digits(&mut s, 987);
    push_four_digits(&mut s, 2026);
    push_four_digits(&mut s, 262142);
    assert_eq!(s, "0007004509872026262142");
    assert!(str_contains("Saturday 8am Open", "8am"));
    assert!(!str_contains("8a", "8am"));
    assert!(str_contains("anything", ""));
}
