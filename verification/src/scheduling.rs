//! Next-cycle draft decisions: the date a recurring template falls on, the
//! incumbent's rollover priority, and the first-come-first-serve request
//! queue, each decision recorded as explainable trace steps.

use vstd::prelude::*;

use crate::calendar::{
    add_days, chrono_parse_rfc3339, chrono_rfc3339, chrono_ymd_hms_error, last_date, opt_datetime,
    parse_rfc3339, parse_ymd, parse_ymd_hms, rfc3339,
    weekday_from_monday, Date, DateTime,
};
use crate::policies::{
    dates_valid, eligibility, evaluate_candidate_on, PolicyInput, Verdict,
};
use crate::sling::weekday_name;
use crate::text::{owned, str_eq};

verus! {

/// An active recurring shift template, with the guard who holds it in the
/// current cycle, if any.
#[derive(Debug, Clone)]
pub struct TemplateContext {
    pub template_id: String,
    pub template_name: String,
    pub site_id: String,
    pub site_name: String,
    pub pool_id: String,
    pub pool_name: String,
    pub role_id: String,
    pub role_name: String,
    pub day_of_week: String,
    pub start_time: String,
    pub end_time: String,
    pub required_certifications: Vec<String>,
    pub current_shift_id: Option<String>,
    pub current_incumbent_guard_id: Option<String>,
    pub current_incumbent_name: Option<String>,
}

/// A guard's request for a shift in the draft cycle.
#[derive(Debug, Clone)]
pub struct CandidateRequest {
    pub request_id: String,
    pub guard_id: String,
    pub guard_name: String,
    pub requested_at: DateTime,
}

/// A queued request together with the eligibility input loaded for its guard
/// (or the message of the failure to load it).
#[derive(Debug)]
pub struct QueueCandidate {
    pub request: CandidateRequest,
    pub input: Result<PolicyInput, String>,
}

/// The draft cycle being generated.
#[derive(Debug, Clone)]
pub struct DraftCycle {
    pub cycle_id: String,
    pub starts_on: Date,
    pub rollover_deadline: DateTime,
}

#[derive(Debug, Clone, Copy, PartialEq, Eq, Structural)]
pub enum StepKind {
    RolloverAwarded,
    RolloverMissedOrIneligible,
    RolloverAbsent,
    NoRequests,
    RequestAwarded,
    RequestSkipped,
}

/// One step of a decision trace.
#[derive(Debug, Clone)]
pub struct TraceStep {
    pub kind: StepKind,
    pub guard: Option<String>,
    pub requested_at: Option<String>,
    pub reason: String,
}

/// The new status of a queued request.
#[derive(Debug, Clone)]
pub struct RequestUpdate {
    pub request_id: String,
    pub accepted: bool,
    pub reason: String,
}

/// The outcome of deciding one shift.
#[derive(Debug, Clone)]
pub struct ShiftDecision {
    pub winner: Option<String>,
    pub winner_reason: String,
    pub steps: Vec<TraceStep>,
    pub request_updates: Vec<RequestUpdate>,
}

// ---------------------------------------------------------------------------
// Specifications
// ---------------------------------------------------------------------------

/// Monday-based index of an English day name.
pub open spec fn day_index(name: Seq<char>) -> Option<int> {
    if name == "Monday"@ {
        Some(0)
    } else if name == "Tuesday"@ {
        Some(1)
    } else if name == "Wednesday"@ {
        Some(2)
    } else if name == "Thursday"@ {
        Some(3)
    } else if name == "Friday"@ {
        Some(4)
    } else if name == "Saturday"@ {
        Some(5)
    } else if name == "Sunday"@ {
        Some(6)
    } else {
        None
    }
}

/// Days from a date with weekday `start_wd` to the next date (itself
/// included) with weekday `target`.
pub open spec fn days_until(start_wd: int, target: int) -> int {
    (target + 7 - start_wd) % 7
}

pub open spec fn no_draft_cycle_message() -> Seq<char> {
    "No draft scheduling cycle found. Create a scheduling cycle with status = 'draft' before generating a draft."@
}

pub open spec fn rollover_award_reason(name: Seq<char>) -> Seq<char> {
    name + " kept priority by requesting rollover before the deadline."@
}

pub open spec fn rollover_missed_reason() -> Seq<char> {
    "The incumbent did not keep priority because the request was late or failed an eligibility check."@
}

pub open spec fn rollover_absent_reason() -> Seq<char> {
    "The incumbent did not request rollover before the deadline, so the shift opened."@
}

pub open spec fn no_requests_reason() -> Seq<char> {
    "No requests received for this shift"@
}

pub open spec fn queue_award_reason(name: Seq<char>) -> Seq<char> {
    name + " was the first eligible requester in line."@
}

/// The eligibility verdict of a candidate whose input may have failed to
/// load: a load failure counts as a failed check with its message.
pub open spec fn candidate_verdict(c: Result<PolicyInput, String>, today: Date) -> Verdict {
    match c {
        Ok(input) => eligibility(input, today),
        Err(m) => Err(m@),
    }
}

/// The first of the first `n` candidates whose verdict is eligible.
pub open spec fn first_eligible(cands: Seq<QueueCandidate>, today: Date, n: int) -> Option<int>
    decreases n,
{
    if n <= 0 {
        None
    } else {
        match first_eligible(cands, today, n - 1) {
            Some(i) => Some(i),
            None => if candidate_verdict(cands[n - 1].input, today) is Ok {
                Some(n - 1)
            } else {
                None
            },
        }
    }
}

/// The reason text of a failed verdict.
pub open spec fn failure_text(v: Verdict) -> Seq<char> {
    match v {
        Err(e) => e,
        Ok(_) => Seq::empty(),
    }
}

pub open spec fn opt_text(o: Option<String>) -> Option<Seq<char>> {
    match o {
        Some(s) => Some(s@),
        None => None,
    }
}

/// `step` records the queue outcome for `c`.
pub open spec fn queue_step(step: TraceStep, c: QueueCandidate, awarded: bool, reason: Seq<char>) -> bool {
    let t = c.request.requested_at;
    &&& step.kind == (if awarded { StepKind::RequestAwarded } else { StepKind::RequestSkipped })
    &&& opt_text(step.guard) == Some(c.request.guard_name@)
    &&& opt_text(step.requested_at) == Some(
        chrono_rfc3339(t.date.year, t.date.month, t.date.day, t.secs, t.frac),
    )
    &&& step.reason@ == reason
}

/// The candidates are usable: loaded inputs have valid dates and request
/// times are valid instants.
pub open spec fn candidates_ok(cands: Seq<QueueCandidate>) -> bool {
    forall|i: int|
        0 <= i < cands.len() ==> {
            &&& (#[trigger] cands[i]).request.requested_at.valid()
            &&& (cands[i].input matches Ok(inp) ==> dates_valid(inp))
        }
}

/// The number of queue entries the decision walks: up to and including the
/// winner, or all of them.
pub open spec fn walked(cands: Seq<QueueCandidate>, today: Date) -> int {
    match first_eligible(cands, today, cands.len() as int) {
        Some(w) => w + 1,
        None => cands.len() as int,
    }
}

// ---------------------------------------------------------------------------
// Executable decisions
// ---------------------------------------------------------------------------

/// The date in the cycle starting at `cycle_start` that falls on
/// `day_of_week` (the start itself when it already does).
pub fn next_date_for_day(cycle_start: &Date, day_of_week: &str) -> (r: Result<Date, String>)
    requires
        cycle_start.valid(),
        cycle_start.day_number() + 6 <= last_date().day_number(),
    ensures
        match r {
            Ok(d) => day_index(day_of_week@) matches Some(t) && d.valid() && d.day_number()
                == cycle_start.day_number() + days_until(cycle_start.weekday(), t),
            Err(e) => day_index(day_of_week@) is None && e@ == "unknown day of week"@,
        },
        r matches Ok(d) ==> 0 <= d.day_number() - cycle_start.day_number() < 7,
        day_of_week@ == "Monday"@ ==> (r matches Ok(d) && d.weekday() == 0),
        day_of_week@ == "Tuesday"@ ==> (r matches Ok(d) && d.weekday() == 1),
        day_of_week@ == "Wednesday"@ ==> (r matches Ok(d) && d.weekday() == 2),
        day_of_week@ == "Thursday"@ ==> (r matches Ok(d) && d.weekday() == 3),
        day_of_week@ == "Friday"@ ==> (r matches Ok(d) && d.weekday() == 4),
        day_of_week@ == "Saturday"@ ==> (r matches Ok(d) && d.weekday() == 5),
        day_of_week@ == "Sunday"@ ==> (r matches Ok(d) && d.weekday() == 6),
{
    proof { lemma_day_names_distinct(); }
    let target: u32 = if str_eq(day_of_week, "Monday") {
        0
    } else if str_eq(day_of_week, "Tuesday") {
        1
    } else if str_eq(day_of_week, "Wednesday") {
        2
    } else if str_eq(day_of_week, "Thursday") {
        3
    } else if str_eq(day_of_week, "Friday") {
        4
    } else if str_eq(day_of_week, "Saturday") {
        5
    } else if str_eq(day_of_week, "Sunday") {
        6
    } else {
        return Err(owned("unknown day of week"));
    };
    let start_idx = weekday_from_monday(cycle_start);
    assert(0 <= start_idx < 7);
    let offset = (target + 7 - start_idx) % 7;
    let d = add_days(cycle_start, offset as i64);
    proof { law_template_date_on_its_weekday(*cycle_start, target as int, d); }
    Ok(d)
}

/// The day names used for templates and the names given to imported shifts
/// agree: the name of weekday `i` (0 for Monday up to 6 for Sunday) is read
/// back as weekday `i`, and the names are the English ones in order.
pub proof fn law_weekday_names_round_trip(i: int)
    requires
        0 <= i < 7,
    ensures
        day_index(weekday_name(i)) == Some(i),
        weekday_name(0) == "Monday"@ && weekday_name(1) == "Tuesday"@ && weekday_name(2) == "Wednesday"@
            && weekday_name(3) == "Thursday"@ && weekday_name(4) == "Friday"@ && weekday_name(5)
            == "Saturday"@ && weekday_name(6) == "Sunday"@,
{
    lemma_day_names_distinct();
}

proof fn lemma_day_names_distinct()
    ensures
        "Monday"@ != "Tuesday"@, "Monday"@ != "Wednesday"@, "Monday"@ != "Thursday"@,
        "Monday"@ != "Friday"@, "Monday"@ != "Saturday"@, "Monday"@ != "Sunday"@,
        "Tuesday"@ != "Wednesday"@, "Tuesday"@ != "Thursday"@, "Tuesday"@ != "Friday"@,
        "Tuesday"@ != "Saturday"@, "Tuesday"@ != "Sunday"@,
        "Wednesday"@ != "Thursday"@, "Wednesday"@ != "Friday"@, "Wednesday"@ != "Saturday"@,
        "Wednesday"@ != "Sunday"@,
        "Thursday"@ != "Friday"@, "Thursday"@ != "Saturday"@, "Thursday"@ != "Sunday"@,
        "Friday"@ != "Saturday"@, "Friday"@ != "Sunday"@,
        "Saturday"@ != "Sunday"@,
{
    reveal_strlit("Monday");
    reveal_strlit("Tuesday");
    reveal_strlit("Wednesday");
    reveal_strlit("Thursday");
    reveal_strlit("Friday");
    reveal_strlit("Saturday");
    reveal_strlit("Sunday");
    assert("Monday"@[0] == 'M' && "Friday"@[0] == 'F' && "Sunday"@[0] == 'S');
    assert("Thursday"@[0] == 'T' && "Saturday"@[0] == 'S' && "Tuesday"@[0] == 'T');
    assert("Wednesday"@[0] == 'W');
    assert("Tuesday"@[1] == 'u' && "Thursday"@[1] == 'h');
    assert("Saturday"@[1] == 'a' && "Sunday"@[1] == 'u');
}

/// The draft cycle row, or the error that no draft cycle exists.
pub fn require_draft_cycle(row: Option<(String, String, String)>) -> (r: Result<(String, String, String), String>)
    ensures
        match row {
            Some(t) => r == Ok::<(String, String, String), String>(t),
            None => r matches Err(e) && e@ == no_draft_cycle_message(),
        },
{
    match row {
        Some(t) => Ok(t),
        None => Err(owned(
            "No draft scheduling cycle found. Create a scheduling cycle with status = 'draft' before generating a draft.",
        )),
    }
}

/// Parses the draft cycle's start date and rollover deadline.
pub fn parse_draft_cycle(cycle_id: String, starts_on: &str, rollover_deadline: &str) -> (r: Result<DraftCycle, String>)
    ensures
        match r {
            Ok(c) => c.cycle_id == cycle_id && parse_ymd_spec(starts_on@) == Some(c.starts_on)
                && crate::calendar::opt_datetime(crate::calendar::chrono_parse_ymd_hms(rollover_deadline@))
                == Some(c.rollover_deadline) && c.starts_on.valid() && c.rollover_deadline.valid(),
            Err(e) => if parse_ymd_spec(starts_on@) is None {
                e@ == "Failed to parse draft cycle starts_on date"@
            } else {
                crate::calendar::chrono_parse_ymd_hms(rollover_deadline@) is None
                    && e@ == "Failed to parse draft cycle rollover_deadline"@
            },
        },
{
    let starts = match parse_ymd(starts_on) {
        Some(d) => d,
        None => return Err(owned("Failed to parse draft cycle starts_on date")),
    };
    let deadline = match parse_ymd_hms(rollover_deadline) {
        Ok(d) => d,
        Err(_) => return Err(owned("Failed to parse draft cycle rollover_deadline")),
    };
    Ok(DraftCycle { cycle_id, starts_on: starts, rollover_deadline: deadline })
}

pub open spec fn parse_ymd_spec(s: Seq<char>) -> Option<Date> {
    crate::calendar::opt_date(crate::calendar::chrono_parse_ymd(s))
}

/// A stored request time (`YYYY-MM-DD HH:MM:SS`, UTC) written as an
/// RFC 3339 stamp: every space becomes `T`, and `Z` is appended.
pub open spec fn utc_stamp(stored: Seq<char>) -> Seq<char> {
    stored.map_values(|c: char| if c == ' ' { 'T' } else { c }) + seq!['Z']
}

/// The instant a request was made, read from its stored time.
pub fn request_time(stored: &str) -> (r: Option<DateTime>)
    ensures
        r == opt_datetime(chrono_parse_rfc3339(utc_stamp(stored@))),
        r matches Some(t) ==> t.valid(),
{
    let n = stored.unicode_len();
    let mut stamp = String::new();
    let mut i: usize = 0;
    while i < n
        invariant
            n == stored@.len(),
            i <= n,
            stamp@ == stored@.take(i as int).map_values(|c: char| if c == ' ' { 'T' } else { c }),
        decreases n - i,
    {
        let ghost before = stamp@;
        let c = stored.get_char(i);
        if c == ' ' {
            proof { reveal_strlit("T"); }
            stamp.append("T");
            assert(stamp@ =~= before.push('T'));
        } else {
            let piece = stored.substring_char(i, i + 1);
            stamp.append(piece);
            assert(piece@ =~= seq![c]);
            assert(stamp@ =~= before.push(c));
        }
        assert(stored@.take(i + 1) =~= stored@.take(i as int).push(c));
        i = i + 1;
        assert(stamp@ =~= stored@.take(i as int).map_values(|c: char| if c == ' ' { 'T' } else { c }));
    }
    assert(stored@.take(n as int) =~= stored@);
    proof { reveal_strlit("Z"); }
    stamp.append("Z");
    assert(stamp@ =~= utc_stamp(stored@));
    parse_rfc3339(stamp.as_str())
}

/// The id of the draft shift made from a template.
pub fn draft_shift_id(template_id: &str) -> (r: String)
    ensures
        r@ == "shift-next-"@ + template_id@,
{
    let mut s = owned("shift-next-");
    s.append(template_id);
    s
}

/// The one-line summary of a decision: who got the shift, or that it stays
/// open.
pub fn decision_summary(template_name: &str, winner_name: Option<&str>) -> (r: String)
    ensures
        r@ == match winner_name {
            Some(n) => template_name@ + " -> "@ + n@,
            None => template_name@ + " remains open"@,
        },
{
    let mut s = owned(template_name);
    match winner_name {
        Some(n) => {
            s.append(" -> ");
            s.append(n);
        },
        None => {
            s.append(" remains open");
        },
    }
    s
}

fn verdict_of_candidate(c: &Result<PolicyInput, String>, today: &Date) -> (r: Result<(), String>)
    requires
        *c matches Ok(inp) ==> dates_valid(inp),
    ensures
        match r {
            Ok(_) => candidate_verdict(*c, *today) is Ok,
            Err(e) => candidate_verdict(*c, *today) == Err::<(), Seq<char>>(e@),
        },
{
    match c {
        Ok(input) => match evaluate_candidate_on(input, today) {
            Ok(()) => Ok(()),
            Err(e) => Err(e.reason),
        },
        Err(m) => Err(m.clone()),
    }
}

/// Decides whether the incumbent of a template keeps the shift: only when
/// the rollover request (`claim`, the stored request time) is no later than
/// the deadline and the incumbent passes the eligibility rules. A request
/// time that does not parse fails the whole decision with chrono's message.
pub fn decide_rollover(
    template: &TemplateContext,
    claim: Option<&str>,
    deadline: &DateTime,
    incumbent: &Result<PolicyInput, String>,
    today: &Date,
) -> (r: Result<ShiftDecision, String>)
    requires
        deadline.valid(),
        *incumbent matches Ok(inp) ==> dates_valid(inp),
    ensures
        match (template.current_incumbent_guard_id, template.current_incumbent_name) {
            (Some(id), Some(name)) => match claim {
                None => r matches Ok(d) && d.winner is None && d.request_updates@.len() == 0
                    && d.steps@.len() == 1 && d.steps@[0].kind == StepKind::RolloverAbsent
                    && opt_text(d.steps@[0].guard) == Some(name@) && d.steps@[0].requested_at is None
                    && d.steps@[0].reason@ == rollover_absent_reason(),
                Some(text) => match crate::calendar::chrono_parse_ymd_hms(text@) {
                    None => r matches Err(e) && e@ == chrono_ymd_hms_error(text@),
                    Some(t) => {
                        let on_time = crate::calendar::datetime_of(t).spec_le(*deadline);
                        let keeps = on_time && candidate_verdict(*incumbent, *today) is Ok;
                        r matches Ok(d) && d.request_updates@.len() == 0 && d.steps@.len() == 1
                            && opt_text(d.steps@[0].guard) == Some(name@)
                            && opt_text(d.steps@[0].requested_at) == Some(text@) && if keeps {
                            opt_text(d.winner) == Some(id@) && d.winner_reason@
                                == rollover_award_reason(name@) && d.steps@[0].kind
                                == StepKind::RolloverAwarded && d.steps@[0].reason@
                                == rollover_award_reason(name@)
                        } else {
                            d.winner is None && d.winner_reason@ == Seq::<char>::empty()
                                && d.steps@[0].kind == StepKind::RolloverMissedOrIneligible
                                && d.steps@[0].reason@ == rollover_missed_reason()
                        }
                    },
                },
            },
            _ => r matches Ok(d) && d.winner is None && d.winner_reason@ == Seq::<char>::empty()
                && d.steps@.len() == 0 && d.request_updates@.len() == 0,
        },
{
    let mut steps: Vec<TraceStep> = Vec::new();
    let empty = String::new();
    match (&template.current_incumbent_guard_id, &template.current_incumbent_name) {
        (Some(incumbent_id), Some(incumbent_name)) => {
            match claim {
                Some(requested_at) => {
                    let requested = match parse_ymd_hms(requested_at) {
                        Ok(t) => t,
                        Err(e) => return Err(e),
                    };
                    let on_time = requested.le(deadline);
                    let eligible = if on_time {
                        verdict_of_candidate(incumbent, today).is_ok()
                    } else {
                        false
                    };
                    if on_time && eligible {
                        let mut reason = incumbent_name.clone();
                        reason.append(" kept priority by requesting rollover before the deadline.");
                        steps.push(TraceStep {
                            kind: StepKind::RolloverAwarded,
                            guard: Some(incumbent_name.clone()),
                            requested_at: Some(owned(requested_at)),
                            reason: reason.clone(),
                        });
                        Ok(ShiftDecision {
                            winner: Some(incumbent_id.clone()),
                            winner_reason: reason,
                            steps,
                            request_updates: Vec::new(),
                        })
                    } else {
                        steps.push(TraceStep {
                            kind: StepKind::RolloverMissedOrIneligible,
                            guard: Some(incumbent_name.clone()),
                            requested_at: Some(owned(requested_at)),
                            reason: owned(
                                "The incumbent did not keep priority because the request was late or failed an eligibility check.",
                            ),
                        });
                        Ok(ShiftDecision {
                            winner: None,
                            winner_reason: empty,
                            steps,
                            request_updates: Vec::new(),
                        })
                    }
                },
                None => {
                    steps.push(TraceStep {
                        kind: StepKind::RolloverAbsent,
                        guard: Some(incumbent_name.clone()),
                        requested_at: None,
                        reason: owned(
                            "The incumbent did not request rollover before the deadline, so the shift opened.",
                        ),
                    });
                    Ok(ShiftDecision {
                        winner: None,
                        winner_reason: empty,
                        steps,
                        request_updates: Vec::new(),
                    })
                },
            }
        },
        _ => Ok(ShiftDecision { winner: None, winner_reason: empty, steps, request_updates: Vec::new() }),
    }
}

proof fn lemma_first_eligible_sticks(cands: Seq<QueueCandidate>, today: Date, k: int, n: int)
    requires
        k <= n,
        first_eligible(cands, today, k) is Some,
    ensures
        first_eligible(cands, today, n) == first_eligible(cands, today, k),
    decreases n - k,
{
    if k < n {
        lemma_first_eligible_sticks(cands, today, k, n - 1);
    }
}

proof fn lemma_first_eligible_bounds(cands: Seq<QueueCandidate>, today: Date, n: int)
    ensures
        first_eligible(cands, today, n) matches Some(w) ==> 0 <= w < n && candidate_verdict(
            cands[w].input,
            today,
        ) is Ok && first_eligible(cands, today, w) is None,
        first_eligible(cands, today, n) is None ==> forall|j: int|
            0 <= j < n ==> candidate_verdict(#[trigger] cands[j].input, today) is Err,
    decreases n,
{
    if n > 0 {
        lemma_first_eligible_bounds(cands, today, n - 1);
    }
}

/// Walks the request queue in order: every requester who fails the
/// eligibility rules is skipped with the reason, and the first eligible one
/// is awarded the shift; later requests are left untouched. `prior` holds
/// the steps already recorded for the shift (the rollover outcome).
pub fn decide_from_queue(prior: Vec<TraceStep>, cands: &Vec<QueueCandidate>, today: &Date) -> (r: ShiftDecision)
    requires
        candidates_ok(cands@),
    ensures
        ({
            let n = cands@.len() as int;
            let fe = first_eligible(cands@, *today, n);
            let k = walked(cands@, *today);
            let base = prior@.len() + (if n == 0 { 1int } else { 0int });
            &&& r.steps@.take(prior@.len() as int) == prior@
            &&& n == 0 ==> r.steps@.len() == prior@.len() + 1 && r.steps@[prior@.len() as int].kind
                == StepKind::NoRequests && r.steps@[prior@.len() as int].guard is None
                && r.steps@[prior@.len() as int].requested_at is None
                && r.steps@[prior@.len() as int].reason@ == no_requests_reason()
            &&& r.steps@.len() == base + k
            &&& r.request_updates@.len() == k
            &&& match fe {
                Some(w) => opt_text(r.winner) == Some(cands@[w].request.guard_id@) && r.winner_reason@
                    == queue_award_reason(cands@[w].request.guard_name@),
                None => r.winner is None && r.winner_reason@ == Seq::<char>::empty(),
            }
            &&& forall|j: int|
                0 <= j < k ==> {
                    let awarded = fe == Some(j);
                    let reason = if awarded {
                        queue_award_reason(cands@[j].request.guard_name@)
                    } else {
                        failure_text(candidate_verdict(cands@[j].input, *today))
                    };
                    &&& (#[trigger] r.request_updates@[j]).request_id@ == cands@[j].request.request_id@
                    &&& r.request_updates@[j].accepted == awarded
                    &&& r.request_updates@[j].reason@ == reason
                    &&& queue_step(r.steps@[base + j], cands@[j], awarded, reason)
                }
        }),
{
    let ghost n = cands@.len() as int;
    let ghost prior_view = prior@;
    let mut steps = prior;
    let ghost p = steps@.len() as int;
    if cands.len() == 0 {
        steps.push(TraceStep {
            kind: StepKind::NoRequests,
            guard: None,
            requested_at: None,
            reason: owned("No requests received for this shift"),
        });
    }
    let ghost base = steps@.len() as int;
    let ghost prior_steps = steps@.take(p);
    assert(prior_steps =~= prior_view);
    let mut updates: Vec<RequestUpdate> = Vec::new();
    let mut i: usize = 0;
    while i < cands.len()
        invariant
            n == cands@.len(),
            candidates_ok(cands@),
            i <= n,
            first_eligible(cands@, *today, i as int) is None,
            0 <= p,
            p == prior@.len(),
            prior_steps == prior@,
            base == p + (if n == 0 { 1int } else { 0int }),
            steps@.len() == base + i,
            updates@.len() == i,
            steps@.take(p) == prior_steps,
            n == 0 ==> steps@[p].kind == StepKind::NoRequests && steps@[p].guard is None
                && steps@[p].requested_at is None && steps@[p].reason@ == no_requests_reason(),
            forall|j: int|
                0 <= j < i ==> {
                    let reason = failure_text(candidate_verdict(cands@[j].input, *today));
                    &&& (#[trigger] updates@[j]).request_id@ == cands@[j].request.request_id@
                    &&& !updates@[j].accepted
                    &&& updates@[j].reason@ == reason
                    &&& candidate_verdict(cands@[j].input, *today) is Err
                    &&& queue_step(steps@[base + j], cands@[j], false, reason)
                },
        decreases n - i,
    {
        let c = &cands[i];
        let ghost old_steps = steps@;
        let ghost old_updates = updates@;
        assert(c.request.requested_at.valid());
        let stamp = rfc3339(&c.request.requested_at);
        match verdict_of_candidate(&c.input, today) {
            Ok(()) => {
                let mut reason = c.request.guard_name.clone();
                reason.append(" was the first eligible requester in line.");
                updates.push(RequestUpdate {
                    request_id: c.request.request_id.clone(),
                    accepted: true,
                    reason: reason.clone(),
                });
                steps.push(TraceStep {
                    kind: StepKind::RequestAwarded,
                    guard: Some(c.request.guard_name.clone()),
                    requested_at: Some(stamp),
                    reason: reason.clone(),
                });
                proof {
                    assert(first_eligible(cands@, *today, i + 1) == Some(i as int));
                    lemma_first_eligible_sticks(cands@, *today, i + 1, n);
                    assert(steps@.take(p) =~= old_steps.take(p));
                    assert forall|j: int| 0 <= j < i implies steps@[base + j] == old_steps[base + j]
                        && updates@[j] == old_updates[j] by {}
                    assert(reason@ == queue_award_reason(cands@[i as int].request.guard_name@));
                    assert(walked(cands@, *today) == i + 1);
                    assert(updates@[i as int].accepted);
                    assert(queue_step(steps@[base + i], cands@[i as int], true, reason@));
                    assert forall|j: int| 0 <= j < i + 1 implies {
                        let awarded = Some(i as int) == Some(j);
                        let rs = if awarded {
                            queue_award_reason(cands@[j].request.guard_name@)
                        } else {
                            failure_text(candidate_verdict(cands@[j].input, *today))
                        };
                        &&& (#[trigger] updates@[j]).request_id@ == cands@[j].request.request_id@
                        &&& updates@[j].accepted == awarded
                        &&& updates@[j].reason@ == rs
                        &&& queue_step(steps@[base + j], cands@[j], awarded, rs)
                    } by {
                        if j < i {
                            assert(old_updates[j] == updates@[j]);
                        }
                    }
                }
                return ShiftDecision {
                    winner: Some(c.request.guard_id.clone()),
                    winner_reason: reason,
                    steps,
                    request_updates: updates,
                };
            },
            Err(reason) => {
                updates.push(RequestUpdate {
                    request_id: c.request.request_id.clone(),
                    accepted: false,
                    reason: reason.clone(),
                });
                steps.push(TraceStep {
                    kind: StepKind::RequestSkipped,
                    guard: Some(c.request.guard_name.clone()),
                    requested_at: Some(stamp),
                    reason,
                });
                proof {
                    assert(steps@.take(p) =~= old_steps.take(p));
                    assert(first_eligible(cands@, *today, i + 1) is None);
                    assert forall|j: int| 0 <= j < i implies steps@[base + j] == old_steps[base + j]
                        && updates@[j] == old_updates[j] by {}
                    assert(steps@[base + i] == steps@[steps@.len() - 1]);
                }
            },
        }
        i = i + 1;
    }
    proof {
        lemma_first_eligible_bounds(cands@, *today, n);
    }
    ShiftDecision { winner: None, winner_reason: String::new(), steps, request_updates: updates }
}


// ---------------------------------------------------------------------------
// Laws
// ---------------------------------------------------------------------------

/// The queue winner is eligible, and everyone ahead of the winner in the
/// queue is not: the shift goes to the first eligible requester in line.
pub proof fn law_queue_awards_first_eligible(cands: Seq<QueueCandidate>, today: Date)
    ensures
        first_eligible(cands, today, cands.len() as int) matches Some(w) ==> {
            &&& 0 <= w < cands.len()
            &&& candidate_verdict(cands[w].input, today) is Ok
            &&& forall|j: int| 0 <= j < w ==> candidate_verdict(#[trigger] cands[j].input, today) is Err
        },
        first_eligible(cands, today, cands.len() as int) is None ==> forall|j: int|
            0 <= j < cands.len() ==> candidate_verdict(#[trigger] cands[j].input, today) is Err,
{
    lemma_first_eligible_bounds(cands, today, cands.len() as int);
    if let Some(w) = first_eligible(cands, today, cands.len() as int) {
        lemma_first_eligible_bounds(cands, today, w);
    }
}

/// First come, first served: when the queue is in order of request time,
/// no eligible requester asked earlier than the one who gets the shift.
pub proof fn law_queue_first_come_first_served(cands: Seq<QueueCandidate>, today: Date)
    requires
        forall|i: int, j: int|
            0 <= i <= j < cands.len() ==> (#[trigger] cands[i]).request.requested_at.spec_le(
                (#[trigger] cands[j]).request.requested_at,
            ),
    ensures
        first_eligible(cands, today, cands.len() as int) matches Some(w) ==> forall|j: int|
            0 <= j < cands.len() && candidate_verdict(#[trigger] cands[j].input, today) is Ok
                ==> w <= j && cands[w].request.requested_at.spec_le(cands[j].request.requested_at),
{
    law_queue_awards_first_eligible(cands, today);
    if let Some(w) = first_eligible(cands, today, cands.len() as int) {
        assert forall|j: int|
            0 <= j < cands.len() && candidate_verdict(#[trigger] cands[j].input, today) is Ok
            implies w <= j && cands[w].request.requested_at.spec_le(cands[j].request.requested_at) by {
            if j < w {
                assert(candidate_verdict(cands[j].input, today) is Err);
            }
        }
    }
}

/// The date chosen for a template lies in the first week of the cycle and
/// falls on the template's day of the week.
pub proof fn law_template_date_on_its_weekday(start: Date, target: int, result: Date)
    requires
        0 <= target < 7,
        result.day_number() == start.day_number() + days_until(start.weekday(), target),
    ensures
        0 <= result.day_number() - start.day_number() < 7,
        result.weekday() == target,
{
    let a = start.day_number() - 1;
    let ws = a % 7;
    let off = (target + 7 - ws) % 7;
    let q = a / 7;
    assert(a == 7 * q + ws && 0 <= ws < 7) by (nonlinear_arith)
        requires
            ws == a % 7,
            q == a / 7,
    ;
    if target >= ws {
        assert(off == target - ws);
        assert((a + off) % 7 == target) by (nonlinear_arith)
            requires
                a + off == 7 * q + target,
                0 <= target < 7,
        ;
    } else {
        assert(off == target - ws + 7);
        assert((a + off) % 7 == target) by (nonlinear_arith)
            requires
                a + off == 7 * (q + 1) + target,
                0 <= target < 7,
        ;
    }
}

} // verus!
