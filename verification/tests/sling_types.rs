use lifebot::calendar::{Date, DateTime};

/// The instant printed by chrono, as `DateTime<Utc>::to_rfc3339` does.
fn to_rfc3339(t: &DateTime) -> String {
    let date = chrono::NaiveDate::from_ymd_opt(t.date.year, t.date.month, t.date.day).unwrap();
    let time = chrono::NaiveTime::from_num_seconds_from_midnight_opt(t.secs, t.frac).unwrap();
    chrono::DateTime::<chrono::Utc>::from_naive_utc_and_offset(chrono::NaiveDateTime::new(date, time), chrono::Utc)
        .to_rfc3339()
}
use lifebot::sling::{SlingGroup, SlingShift, SlingUser};

fn make_user(name: &str, lastname: Option<&str>, birthday: Option<&str>) -> SlingUser {
    SlingUser {
        id: 1,
        name: name.to_string(),
        lastname: lastname.map(str::to_string),
        email: None,
        phone: None,
        birthday_date: birthday.map(str::to_string),
        deleted: false,
        hidden_on_schedule: false,
    }
}

#[test]
fn full_name_with_last() {
    let u = make_user("Jane", Some("Doe"), None);
    assert_eq!(u.full_name(), "Jane Doe");
}

#[test]
fn full_name_without_last() {
    let u = make_user("Jane", None, None);
    assert_eq!(u.full_name(), "Jane");
}

#[test]
fn full_name_empty_last() {
    let u = make_user("Jane", Some(""), None);
    assert_eq!(u.full_name(), "Jane");
}

#[test]
fn date_of_birth_valid() {
    let u = make_user("Jane", None, Some("1990-06-15"));
    let dob = u.date_of_birth().expect("should parse");
    assert_eq!(dob, Date { year: 1990, month: 6, day: 15 });
}

#[test]
fn date_of_birth_none() {
    let u = make_user("Jane", None, None);
    assert!(u.date_of_birth().is_none());
}

#[test]
fn date_of_birth_invalid() {
    let u = make_user("Jane", None, Some("not-a-date"));
    assert!(u.date_of_birth().is_none());
}

#[test]
fn date_of_birth_impossible_day() {
    let u = make_user("Jane", None, Some("2023-02-29"));
    assert!(u.date_of_birth().is_none());
}

fn make_group(group_type: &str) -> SlingGroup {
    SlingGroup {
        id: 1,
        name: "Test Group".to_string(),
        group_type: group_type.to_string(),
        timezone: None,
        color: None,
        address: None,
    }
}

#[test]
fn is_location_true() {
    assert!(make_group("location").is_location());
}

#[test]
fn is_location_false() {
    assert!(!make_group("position").is_location());
}

#[test]
fn is_position_true() {
    assert!(make_group("position").is_position());
}

#[test]
fn is_position_false() {
    assert!(!make_group("location").is_position());
}

#[test]
fn group_of_other_type_is_neither() {
    let g = make_group("department");
    assert!(!g.is_location());
    assert!(!g.is_position());
}

fn make_shift(dtstart: &str, dtend: &str) -> SlingShift {
    SlingShift {
        id: "shift-1".to_string(),
        summary: None,
        dtstart: dtstart.to_string(),
        dtend: dtend.to_string(),
        user: None,
        location: None,
        position: None,
        status: None,
        break_duration: None,
    }
}

#[test]
fn start_datetime_valid() {
    let s = make_shift("2024-07-04T08:00:00Z", "2024-07-04T16:00:00Z");
    let dt = s.start_datetime().expect("should parse");
    assert_eq!(to_rfc3339(&dt), "2024-07-04T08:00:00+00:00");
}

#[test]
fn end_datetime_valid() {
    let s = make_shift("2024-07-04T08:00:00Z", "2024-07-04T16:00:00Z");
    let dt = s.end_datetime().expect("should parse");
    assert_eq!(to_rfc3339(&dt), "2024-07-04T16:00:00+00:00");
}

#[test]
fn start_datetime_invalid() {
    let s = make_shift("not-a-datetime", "2024-07-04T16:00:00Z");
    assert!(s.start_datetime().is_none());
}

#[test]
fn end_datetime_invalid() {
    let s = make_shift("2024-07-04T08:00:00Z", "bad");
    assert!(s.end_datetime().is_none());
}

#[test]
fn start_datetime_converts_offset_to_utc() {
    let s = make_shift("2024-07-04T08:00:00+02:00", "2024-07-04T16:00:00Z");
    let dt = s.start_datetime().expect("should parse");
    assert_eq!(dt.date, Date { year: 2024, month: 7, day: 4 });
    assert_eq!(dt.secs, 6 * 3600);
}
