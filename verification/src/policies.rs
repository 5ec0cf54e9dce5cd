//! Eligibility rules for awarding a shift to a guard: certifications,
//! minor working hours, overlaps, daily and per-cycle hour limits, and the
//! rest gap between shifts on different days.

use vstd::prelude::*;

use crate::calendar::{
    age_between, chrono_parse_hm, days_between, opt_minutes, parse_hm, today_utc, age_on, Date,
};
use crate::text::{decimal, owned, push_decimal, push_signed_decimal, signed_decimal, str_eq};

verus! {

/// Tunable limits of the eligibility rules.
#[derive(Debug, Clone)]
pub struct PolicyConfig {
    pub minor_max_age: u8,
    pub minor_allowed_end_time: String,
    pub max_daily_hours: u8,
    pub max_weekly_hours: u8,
    pub min_gap_hours: u8,
}

impl Default for PolicyConfig {
    /// All limits zero and an empty minor cutoff.
    fn default() -> (r: Self)
        ensures
            r.minor_max_age == 0,
            r.minor_allowed_end_time@ == Seq::<char>::empty(),
            r.max_daily_hours == 0,
            r.max_weekly_hours == 0,
            r.min_gap_hours == 0,
    {
        PolicyConfig {
            minor_max_age: 0,
            minor_allowed_end_time: String::new(),
            max_daily_hours: 0,
            max_weekly_hours: 0,
            min_gap_hours: 0,
        }
    }
}

/// The settings of one stored policy rule, as read from its JSON
/// configuration (absent or non-numeric fields are `None`).
#[derive(Debug, Clone)]
pub struct PolicyRuleFields {
    pub max_age: Option<i64>,
    pub allowed_end_time: Option<String>,
    pub max_daily_hours: Option<i64>,
    pub max_weekly_hours: Option<i64>,
    pub min_gap_hours: Option<i64>,
}

pub open spec fn int_or(o: Option<i64>, d: i64) -> i64 {
    match o {
        Some(v) => v,
        None => d,
    }
}

impl PolicyConfig {
    /// Applies one active policy rule to the configuration. Numbers are
    /// narrowed to a byte as Rust's `as u8` does; missing settings take the
    /// defaults 17 years, `20:00`, 8, 24 and 10 hours. Unknown rule types
    /// change nothing.
    pub fn apply_rule(&mut self, rule_type: &str, fields: &PolicyRuleFields)
        ensures
            rule_type@ == "minor_time_window"@ ==> final(self).minor_max_age == int_or(fields.max_age, 17) as u8
                && final(self).minor_allowed_end_time@ == (match fields.allowed_end_time {
                    Some(t) => t@,
                    None => "20:00"@,
                }) && final(self).max_daily_hours == old(self).max_daily_hours
                && final(self).max_weekly_hours == old(self).max_weekly_hours
                && final(self).min_gap_hours == old(self).min_gap_hours,
            rule_type@ == "max_daily_hours"@ ==> final(self).max_daily_hours == int_or(fields.max_daily_hours, 8) as u8
                && final(self).minor_allowed_end_time == old(self).minor_allowed_end_time
                && final(self).minor_max_age == old(self).minor_max_age
                && final(self).max_weekly_hours == old(self).max_weekly_hours
                && final(self).min_gap_hours == old(self).min_gap_hours,
            rule_type@ == "max_weekly_hours"@ ==> final(self).max_weekly_hours == int_or(fields.max_weekly_hours, 24) as u8
                && final(self).minor_allowed_end_time == old(self).minor_allowed_end_time
                && final(self).minor_max_age == old(self).minor_max_age
                && final(self).max_daily_hours == old(self).max_daily_hours
                && final(self).min_gap_hours == old(self).min_gap_hours,
            rule_type@ == "min_gap_hours"@ ==> final(self).min_gap_hours == int_or(fields.min_gap_hours, 10) as u8
                && final(self).minor_allowed_end_time == old(self).minor_allowed_end_time
                && final(self).minor_max_age == old(self).minor_max_age
                && final(self).max_daily_hours == old(self).max_daily_hours
                && final(self).max_weekly_hours == old(self).max_weekly_hours,
            rule_type@ != "minor_time_window"@ && rule_type@ != "max_daily_hours"@ && rule_type@
                != "max_weekly_hours"@ && rule_type@ != "min_gap_hours"@ ==> *final(self) == *old(self),
    {
        proof {
            reveal_strlit("minor_time_window");
            reveal_strlit("max_daily_hours");
            reveal_strlit("max_weekly_hours");
            reveal_strlit("min_gap_hours");
            assert("minor_time_window"@.len() == 17);
            assert("max_daily_hours"@.len() == 15);
            assert("max_weekly_hours"@.len() == 16);
            assert("min_gap_hours"@.len() == 13);
        }
        if str_eq(rule_type, "minor_time_window") {
            let age = match fields.max_age {
                Some(v) => v,
                None => 17,
            };
            self.minor_max_age = #[verifier::truncate] (age as u8);
            self.minor_allowed_end_time = match &fields.allowed_end_time {
                Some(t) => t.clone(),
                None => owned("20:00"),
            };
        } else if str_eq(rule_type, "max_daily_hours") {
            let v = match fields.max_daily_hours {
                Some(v) => v,
                None => 8,
            };
            self.max_daily_hours = #[verifier::truncate] (v as u8);
        } else if str_eq(rule_type, "max_weekly_hours") {
            let v = match fields.max_weekly_hours {
                Some(v) => v,
                None => 24,
            };
            self.max_weekly_hours = #[verifier::truncate] (v as u8);
        } else if str_eq(rule_type, "min_gap_hours") {
            let v = match fields.min_gap_hours {
                Some(v) => v,
                None => 10,
            };
            self.min_gap_hours = #[verifier::truncate] (v as u8);
        }
    }
}

/// The guard being considered, with certification names and expiry dates.
#[derive(Debug, Clone)]
pub struct GuardContext {
    pub guard_id: String,
    pub name: String,
    pub date_of_birth: Date,
    pub certifications: Vec<(String, Date)>,
}

/// The shift being filled. Times are `HH:MM` texts; certifications are ids.
#[derive(Debug, Clone)]
pub struct ShiftContext {
    pub shift_id: String,
    pub site_id: String,
    pub role_id: String,
    pub shift_date: Date,
    pub start_time: String,
    pub end_time: String,
    pub required_certifications: Vec<String>,
}

/// A shift the guard already holds.
#[derive(Debug, Clone)]
pub struct ExistingAssignment {
    pub shift_id: String,
    pub shift_date: Date,
    pub start_time: String,
    pub end_time: String,
}

/// Everything the eligibility rules look at.
#[derive(Debug, Clone)]
pub struct PolicyInput {
    pub guard: GuardContext,
    pub shift: ShiftContext,
    pub existing_assignments: Vec<ExistingAssignment>,
    pub policies: PolicyConfig,
}

/// Why a guard cannot take a shift.
#[derive(Debug, Clone)]
pub struct EligibilityError {
    pub reason: String,
}

// ---------------------------------------------------------------------------
// The rules, stated over the input
// ---------------------------------------------------------------------------

pub type Verdict = Result<(), Seq<char>>;

/// A `HH:MM` text as minutes after midnight, when it parses.
pub open spec fn time_minutes(s: Seq<char>) -> Option<u32> {
    opt_minutes(chrono_parse_hm(s))
}

/// The display name of a certification id; unknown ids stand for themselves.
pub open spec fn cert_name_of(id: Seq<char>) -> Seq<char> {
    if id == "cert-lifeguard"@ {
        "Lifeguard"@
    } else if id == "cert-cpr"@ {
        "CPR/AED"@
    } else if id == "cert-waterfront"@ {
        "Waterfront"@
    } else if id == "cert-instructor"@ {
        "Swim Instruction"@
    } else {
        id
    }
}

pub open spec fn invalid_time_reason(value: Seq<char>) -> Seq<char> {
    "Invalid time value `"@ + value + "`"@
}

pub open spec fn missing_cert_reason(name: Seq<char>) -> Seq<char> {
    "Skipped because the required certification `"@ + name + "` is missing or expired."@
}

pub open spec fn minor_reason(guard: Seq<char>, age: int, cutoff: Seq<char>) -> Seq<char> {
    "Skipped because "@ + guard + " is "@ + signed_decimal(age)
        + " and the shift ends after the allowed minor cutoff of "@ + cutoff + "."@
}

pub open spec fn overlap_reason() -> Seq<char> {
    "Skipped because this shift overlaps an existing assignment."@
}

pub open spec fn daily_reason(max: nat) -> Seq<char> {
    "Skipped because it would exceed the daily limit of "@ + decimal(max) + " hours."@
}

pub open spec fn weekly_reason(max: nat) -> Seq<char> {
    "Skipped because it would exceed the cycle limit of "@ + decimal(max) + " hours."@
}

pub open spec fn gap_reason(min: nat) -> Seq<char> {
    "Skipped because the required "@ + decimal(min) + " hour gap between shifts is not met."@
}

/// The guard holds a certification named `name` that has not expired by
/// `today`.
pub open spec fn holds_valid_cert(certs: Seq<(String, Date)>, name: Seq<char>, today: Date) -> bool {
    exists|k: int| 0 <= k < certs.len() && (#[trigger] certs[k]).0@ == name && today.spec_le(certs[k].1)
}

/// Checks the first `n` required certifications in order.
pub open spec fn cert_scan(input: PolicyInput, today: Date, n: int) -> Verdict
    decreases n,
{
    if n <= 0 {
        Ok(())
    } else {
        match cert_scan(input, today, n - 1) {
            Err(e) => Err(e),
            Ok(_) => {
                let name = cert_name_of(input.shift.required_certifications@[n - 1]@);
                if holds_valid_cert(input.guard.certifications@, name, today) {
                    Ok(())
                } else {
                    Err(missing_cert_reason(name))
                }
            },
        }
    }
}

/// Every required certification is held and unexpired on `today`.
pub open spec fn certification_rule(input: PolicyInput, today: Date) -> Verdict {
    cert_scan(input, today, input.shift.required_certifications@.len() as int)
}

/// Guards aged at most `minor_max_age` on the shift date may not work past
/// the minor cutoff time.
pub open spec fn minor_rule(input: PolicyInput) -> Verdict {
    let age = age_between(input.guard.date_of_birth, input.shift.shift_date);
    if age <= input.policies.minor_max_age {
        match time_minutes(input.policies.minor_allowed_end_time@) {
            None => Err(invalid_time_reason(input.policies.minor_allowed_end_time@)),
            Some(cutoff) => match time_minutes(input.shift.end_time@) {
                None => Err(invalid_time_reason(input.shift.end_time@)),
                Some(end) => if end > cutoff {
                    Err(
                        minor_reason(
                            input.guard.name@,
                            age,
                            input.policies.minor_allowed_end_time@,
                        ),
                    )
                } else {
                    Ok(())
                },
            },
        }
    } else {
        Ok(())
    }
}

/// The overlap rule for one existing assignment, given the shift's start and
/// end minutes.
pub open spec fn overlap_step(input: PolicyInput, a: ExistingAssignment, start: int, end: int) -> Verdict {
    if a.shift_date == input.shift.shift_date {
        match time_minutes(a.start_time@) {
            None => Err(invalid_time_reason(a.start_time@)),
            Some(os) => match time_minutes(a.end_time@) {
                None => Err(invalid_time_reason(a.end_time@)),
                Some(oe) => if start < oe && os < end {
                    Err(overlap_reason())
                } else {
                    Ok(())
                },
            },
        }
    } else {
        Ok(())
    }
}

pub open spec fn overlap_scan(input: PolicyInput, start: int, end: int, n: int) -> Verdict
    decreases n,
{
    if n <= 0 {
        Ok(())
    } else {
        match overlap_scan(input, start, end, n - 1) {
            Err(e) => Err(e),
            Ok(_) => overlap_step(input, input.existing_assignments@[n - 1], start, end),
        }
    }
}

/// No assignment on the same day overlaps the shift.
pub open spec fn overlap_rule(input: PolicyInput) -> Verdict {
    match time_minutes(input.shift.start_time@) {
        None => Err(invalid_time_reason(input.shift.start_time@)),
        Some(start) => match time_minutes(input.shift.end_time@) {
            None => Err(invalid_time_reason(input.shift.end_time@)),
            Some(end) => overlap_scan(
                input,
                start as int,
                end as int,
                input.existing_assignments@.len() as int,
            ),
        },
    }
}

/// Length in minutes of a `start`-`end` pair of times, or 0 when either does
/// not parse.
pub open spec fn minutes_or_zero(start: Seq<char>, end: Seq<char>) -> int {
    match (time_minutes(start), time_minutes(end)) {
        (Some(s), Some(e)) => e - s,
        _ => 0,
    }
}

/// Minutes of the first `n` assignments that fall on `date`.
pub open spec fn same_day_minutes(asg: Seq<ExistingAssignment>, date: Date, n: int) -> int
    decreases n,
{
    if n <= 0 {
        0
    } else {
        same_day_minutes(asg, date, n - 1) + if asg[n - 1].shift_date == date {
            minutes_or_zero(asg[n - 1].start_time@, asg[n - 1].end_time@)
        } else {
            0
        }
    }
}

/// Minutes of the first `n` assignments.
pub open spec fn total_minutes(asg: Seq<ExistingAssignment>, n: int) -> int
    decreases n,
{
    if n <= 0 {
        0
    } else {
        total_minutes(asg, n - 1) + minutes_or_zero(asg[n - 1].start_time@, asg[n - 1].end_time@)
    }
}

/// The shift's own length in minutes, or the parse failure.
pub open spec fn requested_minutes(input: PolicyInput) -> Result<int, Seq<char>> {
    match time_minutes(input.shift.start_time@) {
        None => Err(invalid_time_reason(input.shift.start_time@)),
        Some(s) => match time_minutes(input.shift.end_time@) {
            None => Err(invalid_time_reason(input.shift.end_time@)),
            Some(e) => Ok(e - s),
        },
    }
}

/// Same-day hours, the shift included, stay within `max_daily_hours`.
pub open spec fn daily_rule(input: PolicyInput) -> Verdict {
    match requested_minutes(input) {
        Err(e) => Err(e),
        Ok(req) => {
            let existing = same_day_minutes(
                input.existing_assignments@,
                input.shift.shift_date,
                input.existing_assignments@.len() as int,
            );
            if existing + req > input.policies.max_daily_hours * 60 {
                Err(daily_reason(input.policies.max_daily_hours as nat))
            } else {
                Ok(())
            }
        },
    }
}

/// Hours of all assignments, the shift included, stay within
/// `max_weekly_hours`.
pub open spec fn weekly_rule(input: PolicyInput) -> Verdict {
    match requested_minutes(input) {
        Err(e) => Err(e),
        Ok(req) => {
            let existing = total_minutes(
                input.existing_assignments@,
                input.existing_assignments@.len() as int,
            );
            if existing + req > input.policies.max_weekly_hours * 60 {
                Err(weekly_reason(input.policies.max_weekly_hours as nat))
            } else {
                Ok(())
            }
        },
    }
}

/// Whole hours between two instants given as (date, minute of day), as
/// chrono's `num_hours` counts them (truncated towards zero), made
/// non-negative.
pub open spec fn hours_apart(d1: Date, m1: int, d2: Date, m2: int) -> int {
    let diff = (d1.day_number() - d2.day_number()) * 1440 + m1 - m2;
    if diff >= 0 {
        diff / 60
    } else {
        (-diff) / 60
    }
}

/// The rest-gap rule for one existing assignment.
pub open spec fn gap_step(input: PolicyInput, a: ExistingAssignment, start: int, end: int) -> Verdict {
    match time_minutes(a.start_time@) {
        None => Err(invalid_time_reason(a.start_time@)),
        Some(os) => match time_minutes(a.end_time@) {
            None => Err(invalid_time_reason(a.end_time@)),
            Some(oe) => {
                let before = hours_apart(input.shift.shift_date, start, a.shift_date, oe as int);
                let after = hours_apart(a.shift_date, os as int, input.shift.shift_date, end);
                if (before < input.policies.min_gap_hours || after < input.policies.min_gap_hours)
                    && a.shift_date != input.shift.shift_date {
                    Err(gap_reason(input.policies.min_gap_hours as nat))
                } else {
                    Ok(())
                }
            },
        },
    }
}

pub open spec fn gap_scan(input: PolicyInput, start: int, end: int, n: int) -> Verdict
    decreases n,
{
    if n <= 0 {
        Ok(())
    } else {
        match gap_scan(input, start, end, n - 1) {
            Err(e) => Err(e),
            Ok(_) => gap_step(input, input.existing_assignments@[n - 1], start, end),
        }
    }
}

/// Shifts on other days leave at least `min_gap_hours` of rest on both
/// sides.
pub open spec fn gap_rule(input: PolicyInput) -> Verdict {
    match time_minutes(input.shift.start_time@) {
        None => Err(invalid_time_reason(input.shift.start_time@)),
        Some(start) => match time_minutes(input.shift.end_time@) {
            None => Err(invalid_time_reason(input.shift.end_time@)),
            Some(end) => gap_scan(
                input,
                start as int,
                end as int,
                input.existing_assignments@.len() as int,
            ),
        },
    }
}

/// The verdict of all rules, checked in order: certifications, minor
/// cutoff, overlaps, daily hours, cycle hours, rest gap. The first failing
/// rule gives the reason.
pub open spec fn eligibility(input: PolicyInput, today: Date) -> Verdict {
    let c = certification_rule(input, today);
    if c is Err {
        c
    } else if minor_rule(input) is Err {
        minor_rule(input)
    } else if overlap_rule(input) is Err {
        overlap_rule(input)
    } else if daily_rule(input) is Err {
        daily_rule(input)
    } else if weekly_rule(input) is Err {
        weekly_rule(input)
    } else {
        gap_rule(input)
    }
}

/// The dates the rules compute with exist in the calendar.
pub open spec fn dates_valid(input: PolicyInput) -> bool {
    &&& input.shift.shift_date.valid()
    &&& forall|i: int|
        0 <= i < input.existing_assignments@.len() ==> (#[trigger] input.existing_assignments@[i]).shift_date.valid()
}

/// An exec verdict read as a spec verdict.
pub open spec fn verdict_of(r: Result<(), EligibilityError>) -> Verdict {
    match r {
        Ok(_) => Ok(()),
        Err(e) => Err(e.reason@),
    }
}

// ---------------------------------------------------------------------------
// Executable rules
// ---------------------------------------------------------------------------

fn fail(reason: String) -> (r: Result<(), EligibilityError>)
    ensures
        verdict_of(r) == Err::<(), Seq<char>>(reason@),
{
    Err(EligibilityError { reason })
}

/// The display name of a certification id.
pub fn cert_id_to_name<'a>(id: &'a str) -> (r: &'a str)
    ensures
        r@ == cert_name_of(id@),
{
    if str_eq(id, "cert-lifeguard") {
        "Lifeguard"
    } else if str_eq(id, "cert-cpr") {
        "CPR/AED"
    } else if str_eq(id, "cert-waterfront") {
        "Waterfront"
    } else if str_eq(id, "cert-instructor") {
        "Swim Instruction"
    } else {
        id
    }
}

fn parse_time(value: &str) -> (r: Result<u32, EligibilityError>)
    ensures
        match r {
            Ok(m) => time_minutes(value@) == Some(m) && m < 1440,
            Err(e) => time_minutes(value@) is None && e.reason@ == invalid_time_reason(value@),
        },
{
    match parse_hm(value) {
        Some((hour, minute)) => Ok(hour * 60 + minute),
        None => {
            let mut reason = owned("Invalid time value `");
            reason.append(value);
            reason.append("`");
            Err(EligibilityError { reason })
        },
    }
}

proof fn lemma_cert_scan_sticks(input: PolicyInput, today: Date, k: int, n: int)
    requires
        k <= n,
        cert_scan(input, today, k) is Err,
    ensures
        cert_scan(input, today, n) == cert_scan(input, today, k),
    decreases n - k,
{
    if k < n {
        lemma_cert_scan_sticks(input, today, k, n - 1);
    }
}

fn has_valid_cert(certs: &Vec<(String, Date)>, name: &str, today: &Date) -> (r: bool)
    ensures
        r == holds_valid_cert(certs@, name@, *today),
{
    let mut k: usize = 0;
    while k < certs.len()
        invariant
            k <= certs@.len(),
            forall|j: int| 0 <= j < k ==> !((#[trigger] certs@[j]).0@ == name@ && today.spec_le(certs@[j].1)),
        decreases certs@.len() - k,
    {
        let c = &certs[k];
        if str_eq(c.0.as_str(), name) && today.le(&c.1) {
            assert(certs@[k as int].0@ == name@ && today.spec_le(certs@[k as int].1));
            return true;
        }
        k = k + 1;
    }
    false
}

fn check_certifications(input: &PolicyInput, today: &Date) -> (r: Result<(), EligibilityError>)
    ensures
        verdict_of(r) == certification_rule(*input, *today),
{
    let reqs = &input.shift.required_certifications;
    let n = reqs.len();
    let mut i: usize = 0;
    while i < n
        invariant
            n == reqs@.len(),
            reqs == &input.shift.required_certifications,
            i <= n,
            cert_scan(*input, *today, i as int) == Ok::<(), Seq<char>>(()),
        decreases n - i,
    {
        let cert_name = cert_id_to_name(reqs[i].as_str());
        if !has_valid_cert(&input.guard.certifications, cert_name, today) {
            let mut reason = owned("Skipped because the required certification `");
            reason.append(cert_name);
            reason.append("` is missing or expired.");
            proof {
                assert(reason@ =~= missing_cert_reason(cert_name@));
                lemma_cert_scan_sticks(*input, *today, i + 1, n as int);
            }
            return fail(reason);
        }
        i = i + 1;
    }
    Ok(())
}

fn check_minor_time_window(input: &PolicyInput) -> (r: Result<(), EligibilityError>)
    ensures
        verdict_of(r) == minor_rule(*input),
{
    let age = age_on(&input.guard.date_of_birth, &input.shift.shift_date);
    if age <= input.policies.minor_max_age as i64 {
        let allowed_end = match parse_time(input.policies.minor_allowed_end_time.as_str()) {
            Ok(m) => m,
            Err(e) => return Err(e),
        };
        let shift_end = match parse_time(input.shift.end_time.as_str()) {
            Ok(m) => m,
            Err(e) => return Err(e),
        };
        if shift_end > allowed_end {
            let mut reason = owned("Skipped because ");
            reason.append(input.guard.name.as_str());
            reason.append(" is ");
            push_signed_decimal(&mut reason, age);
            reason.append(" and the shift ends after the allowed minor cutoff of ");
            reason.append(input.policies.minor_allowed_end_time.as_str());
            reason.append(".");
            proof {
                assert(reason@ =~= minor_reason(
                    input.guard.name@,
                    age as int,
                    input.policies.minor_allowed_end_time@,
                ));
            }
            return fail(reason);
        }
    }
    Ok(())
}

proof fn lemma_overlap_scan_sticks(input: PolicyInput, start: int, end: int, k: int, n: int)
    requires
        k <= n,
        overlap_scan(input, start, end, k) is Err,
    ensures
        overlap_scan(input, start, end, n) == overlap_scan(input, start, end, k),
    decreases n - k,
{
    if k < n {
        lemma_overlap_scan_sticks(input, start, end, k, n - 1);
    }
}

fn check_overlaps(input: &PolicyInput) -> (r: Result<(), EligibilityError>)
    ensures
        verdict_of(r) == overlap_rule(*input),
{
    let start = match parse_time(input.shift.start_time.as_str()) {
        Ok(m) => m,
        Err(e) => return Err(e),
    };
    let end = match parse_time(input.shift.end_time.as_str()) {
        Ok(m) => m,
        Err(e) => return Err(e),
    };
    let asg = &input.existing_assignments;
    let n = asg.len();
    let mut i: usize = 0;
    while i < n
        invariant
            n == asg@.len(),
            asg == &input.existing_assignments,
            i <= n,
            time_minutes(input.shift.start_time@) == Some(start),
            time_minutes(input.shift.end_time@) == Some(end),
            overlap_scan(*input, start as int, end as int, i as int) == Ok::<(), Seq<char>>(()),
        decreases n - i,
    {
        let a = &asg[i];
        if a.shift_date == input.shift.shift_date {
            let other_start = match parse_time(a.start_time.as_str()) {
                Ok(m) => m,
                Err(e) => {
                    proof { lemma_overlap_scan_sticks(*input, start as int, end as int, i + 1, n as int); }
                    return Err(e);
                },
            };
            let other_end = match parse_time(a.end_time.as_str()) {
                Ok(m) => m,
                Err(e) => {
                    proof { lemma_overlap_scan_sticks(*input, start as int, end as int, i + 1, n as int); }
                    return Err(e);
                },
            };
            if start < other_end && other_start < end {
                proof { lemma_overlap_scan_sticks(*input, start as int, end as int, i + 1, n as int); }
                return fail(owned("Skipped because this shift overlaps an existing assignment."));
            }
        }
        i = i + 1;
    }
    Ok(())
}

fn duration_minutes(start: &str, end: &str) -> (r: Result<i64, EligibilityError>)
    ensures
        match r {
            Ok(m) => time_minutes(start@) is Some && time_minutes(end@) is Some
                && m == time_minutes(end@)->0 - time_minutes(start@)->0 && -1440 < m < 1440,
            Err(e) => e.reason@ == (if time_minutes(start@) is None {
                invalid_time_reason(start@)
            } else {
                invalid_time_reason(end@)
            }) && (time_minutes(start@) is None || time_minutes(end@) is None),
        },
{
    let s = match parse_time(start) {
        Ok(m) => m,
        Err(e) => return Err(e),
    };
    let e = match parse_time(end) {
        Ok(m) => m,
        Err(err) => return Err(err),
    };
    Ok(e as i64 - s as i64)
}

fn minutes_or_zero_exec(start: &str, end: &str) -> (r: i64)
    ensures
        r == minutes_or_zero(start@, end@),
        -1440 < r < 1440,
{
    match duration_minutes(start, end) {
        Ok(m) => m,
        Err(_) => 0,
    }
}

fn check_daily_hours(input: &PolicyInput) -> (r: Result<(), EligibilityError>)
    ensures
        verdict_of(r) == daily_rule(*input),
{
    let requested = match duration_minutes(input.shift.start_time.as_str(), input.shift.end_time.as_str()) {
        Ok(m) => m,
        Err(e) => return Err(e),
    };
    let asg = &input.existing_assignments;
    let n = asg.len();
    let mut existing: i128 = 0;
    let mut i: usize = 0;
    while i < n
        invariant
            n == asg@.len(),
            asg == &input.existing_assignments,
            i <= n,
            existing == same_day_minutes(asg@, input.shift.shift_date, i as int),
            -1440 * i <= existing <= 1440 * i,
        decreases n - i,
    {
        let a = &asg[i];
        if a.shift_date == input.shift.shift_date {
            existing = existing + minutes_or_zero_exec(a.start_time.as_str(), a.end_time.as_str()) as i128;
        }
        i = i + 1;
    }
    if existing + requested as i128 > input.policies.max_daily_hours as i128 * 60 {
        let mut reason = owned("Skipped because it would exceed the daily limit of ");
        push_decimal(&mut reason, input.policies.max_daily_hours as u64);
        reason.append(" hours.");
        proof { assert(reason@ =~= daily_reason(input.policies.max_daily_hours as nat)); }
        return fail(reason);
    }
    Ok(())
}

fn check_weekly_hours(input: &PolicyInput) -> (r: Result<(), EligibilityError>)
    ensures
        verdict_of(r) == weekly_rule(*input),
{
    let requested = match duration_minutes(input.shift.start_time.as_str(), input.shift.end_time.as_str()) {
        Ok(m) => m,
        Err(e) => return Err(e),
    };
    let asg = &input.existing_assignments;
    let n = asg.len();
    let mut existing: i128 = 0;
    let mut i: usize = 0;
    while i < n
        invariant
            n == asg@.len(),
            asg == &input.existing_assignments,
            i <= n,
            existing == total_minutes(asg@, i as int),
            -1440 * i <= existing <= 1440 * i,
        decreases n - i,
    {
        let a = &asg[i];
        existing = existing + minutes_or_zero_exec(a.start_time.as_str(), a.end_time.as_str()) as i128;
        i = i + 1;
    }
    if existing + requested as i128 > input.policies.max_weekly_hours as i128 * 60 {
        let mut reason = owned("Skipped because it would exceed the cycle limit of ");
        push_decimal(&mut reason, input.policies.max_weekly_hours as u64);
        reason.append(" hours.");
        proof { assert(reason@ =~= weekly_reason(input.policies.max_weekly_hours as nat)); }
        return fail(reason);
    }
    Ok(())
}

/// Whole hours between (d1, m1) and (d2, m2), made non-negative.
fn hours_apart_exec(d1: &Date, m1: u32, d2: &Date, m2: u32) -> (r: i64)
    requires
        d1.valid(),
        d2.valid(),
        m1 < 1440,
        m2 < 1440,
    ensures
        r == hours_apart(*d1, m1 as int, *d2, m2 as int),
{
    let days = days_between(d1, d2);
    proof { lemma_day_number_bounds(*d1); lemma_day_number_bounds(*d2); }
    let diff: i64 = days * 1440 + m1 as i64 - m2 as i64;
    if diff >= 0 {
        diff / 60
    } else {
        (-diff) / 60
    }
}

/// Day numbers of valid dates stay within a small range.
pub proof fn lemma_day_number_bounds(d: Date)
    requires
        d.valid(),
    ensures
        -100_000_000 <= d.day_number() <= 100_000_000,
{
    lemma_days_before_month_bounds(d.year as int, d.month as int);
    let y = d.year - 1;
    assert(-100_000_000 <= 365 * y + y / 4 - y / 100 + y / 400 <= 100_000_000) by (nonlinear_arith)
        requires
            -262144 <= y <= 262141,
    ;
}

proof fn lemma_days_before_month_bounds(y: int, m: int)
    requires
        m <= 12,
    ensures
        0 <= crate::calendar::days_before_month(y, m) <= 366,
    decreases m,
{
    if m > 1 {
        lemma_days_before_month_bounds(y, m - 1);
        assert(crate::calendar::days_before_month(y, m - 1) <= 31 * (m - 2)) by {
            lemma_days_before_month_linear(y, m - 1);
        }
    }
}

proof fn lemma_days_before_month_linear(y: int, m: int)
    ensures
        m >= 1 ==> crate::calendar::days_before_month(y, m) <= 31 * (m - 1),
    decreases m,
{
    if m > 1 {
        lemma_days_before_month_linear(y, m - 1);
    }
}

proof fn lemma_gap_scan_sticks(input: PolicyInput, start: int, end: int, k: int, n: int)
    requires
        k <= n,
        gap_scan(input, start, end, k) is Err,
    ensures
        gap_scan(input, start, end, n) == gap_scan(input, start, end, k),
    decreases n - k,
{
    if k < n {
        lemma_gap_scan_sticks(input, start, end, k, n - 1);
    }
}

fn check_min_gap(input: &PolicyInput) -> (r: Result<(), EligibilityError>)
    requires
        dates_valid(*input),
    ensures
        verdict_of(r) == gap_rule(*input),
{
    let start = match parse_time(input.shift.start_time.as_str()) {
        Ok(m) => m,
        Err(e) => return Err(e),
    };
    let end = match parse_time(input.shift.end_time.as_str()) {
        Ok(m) => m,
        Err(e) => return Err(e),
    };
    let min_gap = input.policies.min_gap_hours as i64;
    let asg = &input.existing_assignments;
    let n = asg.len();
    let mut i: usize = 0;
    while i < n
        invariant
            n == asg@.len(),
            asg == &input.existing_assignments,
            i <= n,
            dates_valid(*input),
            min_gap == input.policies.min_gap_hours,
            start < 1440,
            end < 1440,
            time_minutes(input.shift.start_time@) == Some(start),
            time_minutes(input.shift.end_time@) == Some(end),
            gap_scan(*input, start as int, end as int, i as int) == Ok::<(), Seq<char>>(()),
        decreases n - i,
    {
        let a = &asg[i];
        assert(a.shift_date.valid());
        let other_start = match parse_time(a.start_time.as_str()) {
            Ok(m) => m,
            Err(e) => {
                proof { lemma_gap_scan_sticks(*input, start as int, end as int, i + 1, n as int); }
                return Err(e);
            },
        };
        let other_end = match parse_time(a.end_time.as_str()) {
            Ok(m) => m,
            Err(e) => {
                proof { lemma_gap_scan_sticks(*input, start as int, end as int, i + 1, n as int); }
                return Err(e);
            },
        };
        let gap_before = hours_apart_exec(&input.shift.shift_date, start, &a.shift_date, other_end);
        let gap_after = hours_apart_exec(&a.shift_date, other_start, &input.shift.shift_date, end);
        if (gap_before < min_gap || gap_after < min_gap) && a.shift_date != input.shift.shift_date {
            let mut reason = owned("Skipped because the required ");
            push_decimal(&mut reason, input.policies.min_gap_hours as u64);
            reason.append(" hour gap between shifts is not met.");
            proof {
                assert(reason@ =~= gap_reason(input.policies.min_gap_hours as nat));
                lemma_gap_scan_sticks(*input, start as int, end as int, i + 1, n as int);
            }
            return fail(reason);
        }
        i = i + 1;
    }
    Ok(())
}

/// Decides whether the guard may take the shift, with `today` as the date
/// against which certification expiry is judged.
pub fn evaluate_candidate_on(input: &PolicyInput, today: &Date) -> (r: Result<(), EligibilityError>)
    requires
        dates_valid(*input),
    ensures
        verdict_of(r) == eligibility(*input, *today),
{
    let c = check_certifications(input, today);
    if c.is_err() {
        return c;
    }
    let m = check_minor_time_window(input);
    if m.is_err() {
        return m;
    }
    let o = check_overlaps(input);
    if o.is_err() {
        return o;
    }
    let d = check_daily_hours(input);
    if d.is_err() {
        return d;
    }
    let w = check_weekly_hours(input);
    if w.is_err() {
        return w;
    }
    check_min_gap(input)
}

/// Decides whether the guard may take the shift, judging certification
/// expiry against today's date (UTC). The verdict is that of the rules on
/// some valid date, the one the clock gave.
pub fn evaluate_candidate(input: &PolicyInput) -> (r: Result<(), EligibilityError>)
    requires
        dates_valid(*input),
    ensures
        exists|today: Date| today.valid() && verdict_of(r) == #[trigger] eligibility(*input, today),
{
    let today = today_utc();
    let r = evaluate_candidate_on(input, &today);
    assert(today.valid() && verdict_of(r) == eligibility(*input, today));
    r
}


// ---------------------------------------------------------------------------
// Laws
// ---------------------------------------------------------------------------

proof fn lemma_date_le_trans(a: Date, b: Date, c: Date)
    requires
        a.spec_le(b),
        b.spec_le(c),
    ensures
        a.spec_le(c),
{
}

proof fn lemma_cert_scan_earlier(input: PolicyInput, t1: Date, t2: Date, n: int)
    requires
        t1.spec_le(t2),
        cert_scan(input, t2, n) is Ok,
    ensures
        cert_scan(input, t1, n) is Ok,
    decreases n,
{
    if n > 0 {
        lemma_cert_scan_earlier(input, t1, t2, n - 1);
        let name = cert_name_of(input.shift.required_certifications@[n - 1]@);
        let certs = input.guard.certifications@;
        assert(holds_valid_cert(certs, name, t2));
        let k = choose|k: int| 0 <= k < certs.len() && (#[trigger] certs[k]).0@ == name && t2.spec_le(certs[k].1);
        lemma_date_le_trans(t1, t2, certs[k].1);
        assert(holds_valid_cert(certs, name, t1));
    }
}

/// Certification expiry only ever removes eligibility as time passes: a
/// guard whose certifications pass the rules on one date also passes them
/// on every earlier date.
pub proof fn law_certifications_hold_on_earlier_dates(input: PolicyInput, earlier: Date, later: Date)
    requires
        earlier.spec_le(later),
        certification_rule(input, later) is Ok,
    ensures
        certification_rule(input, earlier) is Ok,
{
    lemma_cert_scan_earlier(input, earlier, later, input.shift.required_certifications@.len() as int);
}

proof fn lemma_cert_scan_no_requirements(input: PolicyInput, t: Date, n: int)
    requires
        n <= 0,
    ensures
        cert_scan(input, t, n) is Ok,
{
}

/// The date only matters through certification expiry: for a shift that
/// requires no certification, the verdict is the same whatever today is.
pub proof fn law_verdict_independent_of_date_without_certifications(input: PolicyInput, t1: Date, t2: Date)
    requires
        input.shift.required_certifications@.len() == 0,
    ensures
        eligibility(input, t1) == eligibility(input, t2),
{
    lemma_cert_scan_no_requirements(input, t1, 0);
    lemma_cert_scan_no_requirements(input, t2, 0);
}

proof fn lemma_overlap_scan_other_days(input: PolicyInput, start: int, end: int, n: int)
    requires
        n <= input.existing_assignments@.len(),
        forall|i: int| 0 <= i < n ==> (#[trigger] input.existing_assignments@[i]).shift_date != input.shift.shift_date,
    ensures
        overlap_scan(input, start, end, n) is Ok,
    decreases n,
{
    if n > 0 {
        lemma_overlap_scan_other_days(input, start, end, n - 1);
    }
}

/// Shifts on other days never count as overlapping: when the guard holds no
/// assignment on the shift's date and the shift's times parse, the overlap
/// rule passes.
pub proof fn law_overlap_only_same_day(input: PolicyInput)
    requires
        time_minutes(input.shift.start_time@) is Some,
        time_minutes(input.shift.end_time@) is Some,
        forall|i: int| 0 <= i < input.existing_assignments@.len() ==>
            (#[trigger] input.existing_assignments@[i]).shift_date != input.shift.shift_date,
    ensures
        overlap_rule(input) is Ok,
{
    lemma_overlap_scan_other_days(
        input,
        time_minutes(input.shift.start_time@)->0 as int,
        time_minutes(input.shift.end_time@)->0 as int,
        input.existing_assignments@.len() as int,
    );
}

/// Only guards aged at most `minor_max_age` on the shift date are held to
/// the minor cutoff.
pub proof fn law_minor_cutoff_only_for_minors(input: PolicyInput)
    requires
        age_between(input.guard.date_of_birth, input.shift.shift_date) > input.policies.minor_max_age,
    ensures
        minor_rule(input) is Ok,
{
}


/// Every `HH:MM` time of the shift and of the existing assignments parses.
pub open spec fn times_parse(input: PolicyInput) -> bool {
    &&& time_minutes(input.shift.start_time@) is Some
    &&& time_minutes(input.shift.end_time@) is Some
    &&& forall|i: int|
        0 <= i < input.existing_assignments@.len() ==> {
            &&& time_minutes((#[trigger] input.existing_assignments@[i]).start_time@) is Some
            &&& time_minutes(input.existing_assignments@[i].end_time@) is Some
        }
}

/// Whole hours of rest from a shift ending at minute `end_min` of `end_day`
/// to one starting at minute `start_min` of `start_day`, truncated and taken
/// without sign.
pub open spec fn rest_hours(end_day: Date, end_min: int, start_day: Date, start_min: int) -> int {
    let minutes = (start_day.day_number() - end_day.day_number()) * 1440 + start_min - end_min;
    if minutes < 0 {
        (0 - minutes) / 60
    } else {
        minutes / 60
    }
}

/// The assignment lies on another day and leaves less than the minimum rest
/// on one side of the shift: between its end and the shift's start, or
/// between the shift's end and its start.
pub open spec fn short_rest(input: PolicyInput, a: ExistingAssignment) -> bool {
    let start = time_minutes(input.shift.start_time@)->0 as int;
    let end = time_minutes(input.shift.end_time@)->0 as int;
    let a_start = time_minutes(a.start_time@)->0 as int;
    let a_end = time_minutes(a.end_time@)->0 as int;
    let min = input.policies.min_gap_hours as int;
    &&& a.shift_date != input.shift.shift_date
    &&& (rest_hours(a.shift_date, a_end, input.shift.shift_date, start) < min
        || rest_hours(input.shift.shift_date, end, a.shift_date, a_start) < min)
}

proof fn lemma_gap_scan_short(input: PolicyInput, n: int)
    requires
        times_parse(input),
        0 <= n <= input.existing_assignments@.len(),
    ensures
        ({
            let start = time_minutes(input.shift.start_time@)->0 as int;
            let end = time_minutes(input.shift.end_time@)->0 as int;
            &&& gap_scan(input, start, end, n) is Err <==> exists|i: int|
                0 <= i < n && short_rest(input, #[trigger] input.existing_assignments@[i])
            &&& gap_scan(input, start, end, n) is Err ==> gap_scan(input, start, end, n)
                == Err::<(), Seq<char>>(gap_reason(input.policies.min_gap_hours as nat))
        }),
    decreases n,
{
    let start = time_minutes(input.shift.start_time@)->0 as int;
    let end = time_minutes(input.shift.end_time@)->0 as int;
    if n > 0 {
        lemma_gap_scan_short(input, n - 1);
        let a = input.existing_assignments@[n - 1];
        assert(time_minutes(a.start_time@) is Some && time_minutes(a.end_time@) is Some);
        if short_rest(input, a) {
            assert(short_rest(input, input.existing_assignments@[n - 1]));
        }
        if gap_scan(input, start, end, n) is Ok {
            assert forall|i: int| 0 <= i < n implies !short_rest(input, #[trigger] input.existing_assignments@[i]) by {
                if i < n - 1 {
                    assert(!(exists|j: int| 0 <= j < n - 1 && short_rest(input, #[trigger] input.existing_assignments@[j])));
                }
            }
        }
    }
}

/// The rest-gap rule: when every time parses, a guard fails it exactly when
/// an assignment on another day leaves less than `min_gap_hours` whole hours
/// of rest before or after the shift, whichever of the two comes first, and
/// the reason then names the minimum. Such a guard is never eligible.
pub proof fn law_rest_gap(input: PolicyInput, today: Date)
    requires
        times_parse(input),
    ensures
        gap_rule(input) is Err <==> exists|i: int|
            0 <= i < input.existing_assignments@.len() && short_rest(input, #[trigger] input.existing_assignments@[i]),
        gap_rule(input) is Err ==> gap_rule(input) == Err::<(), Seq<char>>(gap_reason(input.policies.min_gap_hours as nat)),
        (exists|i: int|
            0 <= i < input.existing_assignments@.len() && short_rest(input, #[trigger] input.existing_assignments@[i]))
            ==> eligibility(input, today) is Err,
{
    lemma_gap_scan_short(input, input.existing_assignments@.len() as int);
}

} // verus!
