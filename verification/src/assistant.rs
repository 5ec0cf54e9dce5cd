//! The plain-language assistant: which tool a question is routed to, and
//! the titles and explanations of the answers.

use vstd::prelude::*;

use crate::text::{
    chars_of, contains, decimal, has_infix, lowercase_chars, owned, push_decimal, to_lowercase,
};

verus! {

/// The tool an assistant question is answered with.
#[derive(Debug, Clone, Copy, PartialEq, Eq, Structural)]
pub enum AssistantIntent {
    ShiftHistory,
    GenerateDraft,
    ExplainAssignment,
    OpenShifts,
    ShiftQueue,
    CertExpirations,
    ActiveAlerts,
    SentinelHistory,
    SimulateEvent,
    Supervisors,
    Help,
}

/// The routing rules, tried in order on the lower-cased question. The
/// simulation rule applies only when there is a zone to simulate in, and the
/// supervisor rule only when there is a pool to look up.
pub open spec fn intent_for(lower: Seq<char>, zones_available: bool, pool_available: bool) -> AssistantIntent {
    if has_infix(lower, "tuesday close"@) {
        AssistantIntent::ShiftHistory
    } else if has_infix(lower, "generate next cycle draft"@) {
        AssistantIntent::GenerateDraft
    } else if has_infix(lower, "why"@) && has_infix(lower, "marcus"@) {
        AssistantIntent::ExplainAssignment
    } else if has_infix(lower, "open shifts"@) {
        AssistantIntent::OpenShifts
    } else if has_infix(lower, "first in line"@) || has_infix(lower, "queue"@) {
        AssistantIntent::ShiftQueue
    } else if has_infix(lower, "expiring certification"@) || has_infix(lower, "expiring certifications"@) {
        AssistantIntent::CertExpirations
    } else if has_infix(lower, "sentinel alert"@) || has_infix(lower, "active alert"@) {
        AssistantIntent::ActiveAlerts
    } else if has_infix(lower, "sentinel"@) && has_infix(lower, "history"@) {
        AssistantIntent::SentinelHistory
    } else if has_infix(lower, "simulate"@) && (has_infix(lower, "sentinel"@) || has_infix(lower, "swimmer"@)
        || has_infix(lower, "immobility"@)) && zones_available {
        AssistantIntent::SimulateEvent
    } else if has_infix(lower, "supervisor"@) && has_infix(lower, "pool"@) && pool_available {
        AssistantIntent::Supervisors
    } else {
        AssistantIntent::Help
    }
}

fn has(lower: &Vec<char>, p: &str) -> (r: bool)
    ensures
        r == has_infix(lower@, p@),
{
    let pv = chars_of(p);
    contains(lower, &pv)
}

/// Routes a question to the tool that answers it.
pub fn route_assistant_query(query: &str, zones_available: bool, pool_available: bool) -> (r: AssistantIntent)
    ensures
        r == intent_for(lowercase_chars(query@), zones_available, pool_available),
{
    let lower_text = to_lowercase(query);
    let lower = chars_of(lower_text.as_str());
    if has(&lower, "tuesday close") {
        AssistantIntent::ShiftHistory
    } else if has(&lower, "generate next cycle draft") {
        AssistantIntent::GenerateDraft
    } else if has(&lower, "why") && has(&lower, "marcus") {
        AssistantIntent::ExplainAssignment
    } else if has(&lower, "open shifts") {
        AssistantIntent::OpenShifts
    } else if has(&lower, "first in line") || has(&lower, "queue") {
        AssistantIntent::ShiftQueue
    } else if has(&lower, "expiring certification") || has(&lower, "expiring certifications") {
        AssistantIntent::CertExpirations
    } else if has(&lower, "sentinel alert") || has(&lower, "active alert") {
        AssistantIntent::ActiveAlerts
    } else if has(&lower, "sentinel") && has(&lower, "history") {
        AssistantIntent::SentinelHistory
    } else if has(&lower, "simulate") && (has(&lower, "sentinel") || has(&lower, "swimmer") || has(
        &lower,
        "immobility",
    )) && zones_available {
        AssistantIntent::SimulateEvent
    } else if has(&lower, "supervisor") && has(&lower, "pool") && pool_available {
        AssistantIntent::Supervisors
    } else {
        AssistantIntent::Help
    }
}

/// Whether a question asks the assistant to approve a schedule, which the
/// assistant must never do on its own.
pub fn asks_to_approve(query: &str) -> (r: bool)
    ensures
        r == has_infix(lowercase_chars(query@), "approve"@),
{
    let lower_text = to_lowercase(query);
    let lower = chars_of(lower_text.as_str());
    has(&lower, "approve")
}

/// The name of the tool behind an intent.
pub fn intent_tool(intent: AssistantIntent) -> (r: &'static str)
    ensures
        r@ == match intent {
            AssistantIntent::ShiftHistory => "get_shift_history"@,
            AssistantIntent::GenerateDraft => "generate_next_cycle_draft"@,
            AssistantIntent::ExplainAssignment => "explain_assignment"@,
            AssistantIntent::OpenShifts => "list_open_shifts"@,
            AssistantIntent::ShiftQueue => "get_shift_queue"@,
            AssistantIntent::CertExpirations => "list_cert_expirations"@,
            AssistantIntent::ActiveAlerts => "list_active_sentinel_alerts"@,
            AssistantIntent::SentinelHistory => "list_sentinel_event_history"@,
            AssistantIntent::SimulateEvent => "simulate_sentinel_event"@,
            AssistantIntent::Supervisors => "get_current_supervisors_for_pool"@,
            AssistantIntent::Help => "help"@,
        },
{
    match intent {
        AssistantIntent::ShiftHistory => "get_shift_history",
        AssistantIntent::GenerateDraft => "generate_next_cycle_draft",
        AssistantIntent::ExplainAssignment => "explain_assignment",
        AssistantIntent::OpenShifts => "list_open_shifts",
        AssistantIntent::ShiftQueue => "get_shift_queue",
        AssistantIntent::CertExpirations => "list_cert_expirations",
        AssistantIntent::ActiveAlerts => "list_active_sentinel_alerts",
        AssistantIntent::SentinelHistory => "list_sentinel_event_history",
        AssistantIntent::SimulateEvent => "simulate_sentinel_event",
        AssistantIntent::Supervisors => "get_current_supervisors_for_pool",
        AssistantIntent::Help => "help",
    }
}

/// The title of the answer for an intent.
pub fn intent_title(intent: AssistantIntent) -> (r: &'static str)
    ensures
        r@ == match intent {
            AssistantIntent::ShiftHistory => "Tuesday close coverage"@,
            AssistantIntent::GenerateDraft => "Draft generated"@,
            AssistantIntent::ExplainAssignment => "Why Marcus did not receive the shift"@,
            AssistantIntent::OpenShifts => "Open shifts"@,
            AssistantIntent::ShiftQueue => "Saturday 8am request line"@,
            AssistantIntent::CertExpirations => "Expiring certifications"@,
            AssistantIntent::ActiveAlerts => "Active Sentinel alerts"@,
            AssistantIntent::SentinelHistory => "Sentinel event history"@,
            AssistantIntent::SimulateEvent => "Simulated Sentinel event"@,
            AssistantIntent::Supervisors => "Current deck supervisors"@,
            AssistantIntent::Help => "Try one of these"@,
        },
{
    match intent {
        AssistantIntent::ShiftHistory => "Tuesday close coverage",
        AssistantIntent::GenerateDraft => "Draft generated",
        AssistantIntent::ExplainAssignment => "Why Marcus did not receive the shift",
        AssistantIntent::OpenShifts => "Open shifts",
        AssistantIntent::ShiftQueue => "Saturday 8am request line",
        AssistantIntent::CertExpirations => "Expiring certifications",
        AssistantIntent::ActiveAlerts => "Active Sentinel alerts",
        AssistantIntent::SentinelHistory => "Sentinel event history",
        AssistantIntent::SimulateEvent => "Simulated Sentinel event",
        AssistantIntent::Supervisors => "Current deck supervisors",
        AssistantIntent::Help => "Try one of these",
    }
}

/// The fixed explanation of an intent, for the intents whose explanation
/// does not depend on the data found.
pub fn intent_explanation(intent: AssistantIntent) -> (r: Option<&'static str>)
    ensures
        match intent {
            AssistantIntent::ShiftHistory => r matches Some(e) && e@
                == "Olivia is the current recurring holder for Tuesday close at the Main Pool."@,
            AssistantIntent::GenerateDraft => r matches Some(e) && e@
                == "I created a reviewable next-cycle draft and logged the reasons for each assignment decision."@,
            AssistantIntent::ExplainAssignment => r matches Some(e) && e@
                == "Marcus lost priority because he did not submit a rollover request before the deadline. Noah requested earlier but was skipped for an expired waterfront certification, so Ben received the shift as the first eligible requester."@,
            AssistantIntent::OpenShifts => r matches Some(e) && e@
                == "These draft shifts still need coverage or review."@,
            AssistantIntent::ShiftQueue => r matches Some(e) && e@
                == "Noah requested first, but Ben is the first eligible requester because Noah's waterfront certification is expired."@,
            AssistantIntent::CertExpirations => r matches Some(e) && e@
                == "These staff records need renewal attention soon."@,
            AssistantIntent::Help => r matches Some(e) && e@
                == "I can help with schedule drafts, queue order, open shifts, guard profiles, certification renewals, and Sentinel alerts."@,
            _ => r is None,
        },
{
    match intent {
        AssistantIntent::ShiftHistory => Some(
            "Olivia is the current recurring holder for Tuesday close at the Main Pool.",
        ),
        AssistantIntent::GenerateDraft => Some(
            "I created a reviewable next-cycle draft and logged the reasons for each assignment decision.",
        ),
        AssistantIntent::ExplainAssignment => Some(
            "Marcus lost priority because he did not submit a rollover request before the deadline. Noah requested earlier but was skipped for an expired waterfront certification, so Ben received the shift as the first eligible requester.",
        ),
        AssistantIntent::OpenShifts => Some("These draft shifts still need coverage or review."),
        AssistantIntent::ShiftQueue => Some(
            "Noah requested first, but Ben is the first eligible requester because Noah's waterfront certification is expired.",
        ),
        AssistantIntent::CertExpirations => Some("These staff records need renewal attention soon."),
        AssistantIntent::Help => Some(
            "I can help with schedule drafts, queue order, open shifts, guard profiles, certification renewals, and Sentinel alerts.",
        ),
        _ => None,
    }
}

/// The explanation of the active-alert answer.
pub fn active_alerts_explanation(count: usize) -> (r: String)
    ensures
        r@ == if count == 0 {
            "No active Sentinel alerts. The pool is clear."@
        } else {
            decimal(count as nat) + " active alert(s) requiring attention."@
        },
{
    if count == 0 {
        owned("No active Sentinel alerts. The pool is clear.")
    } else {
        let mut s = String::new();
        push_decimal(&mut s, count as u64);
        s.append(" active alert(s) requiring attention.");
        assert(s@ =~= decimal(count as nat) + " active alert(s) requiring attention."@);
        s
    }
}

/// The explanation of the event-history answer.
pub fn sentinel_history_explanation(count: usize) -> (r: String)
    ensures
        r@ == "Showing the last "@ + decimal(count as nat) + " Sentinel detection events."@,
{
    let mut s = owned("Showing the last ");
    push_decimal(&mut s, count as u64);
    s.append(" Sentinel detection events.");
    assert(s@ =~= "Showing the last "@ + decimal(count as nat) + " Sentinel detection events."@);
    s
}

/// The explanation of the supervisor answer.
pub fn supervisors_explanation(count: usize) -> (r: String)
    ensures
        r@ == if count == 0 {
            "No supervisors currently on shift."@
        } else {
            decimal(count as nat) + " supervisor(s) on duty."@
        },
{
    if count == 0 {
        owned("No supervisors currently on shift.")
    } else {
        let mut s = String::new();
        push_decimal(&mut s, count as u64);
        s.append(" supervisor(s) on duty.");
        assert(s@ =~= decimal(count as nat) + " supervisor(s) on duty."@);
        s
    }
}

/// Questions are routed by keywords of their lower-cased text, the first
/// matching rule winning: `tuesday close` asks for the shift history;
/// `generate next cycle draft` for a draft; `why` with `marcus` for the
/// explanation of an assignment; `open shifts` for the open shifts; `first
/// in line` or `queue` for the request queue; `expiring certification` for
/// the renewals (also written `expiring certifications`); `sentinel alert` or `active alert` for the active alerts;
/// `sentinel` with `history` for the event history; `simulate` with
/// `sentinel`, `swimmer` or `immobility` for a simulated event when a zone
/// exists; `supervisor` with `pool` for the supervisors when a pool exists.
/// Any other question gets the help answer.
pub proof fn law_question_routing(query: Seq<char>, zones_available: bool, pool_available: bool)
    ensures
        ({
            let l = lowercase_chars(query);
            let r = intent_for(l, zones_available, pool_available);
            let history = has_infix(l, "tuesday close"@);
            let draft = has_infix(l, "generate next cycle draft"@);
            let explain = has_infix(l, "why"@) && has_infix(l, "marcus"@);
            let open = has_infix(l, "open shifts"@);
            let queue = has_infix(l, "first in line"@) || has_infix(l, "queue"@);
            let certs = has_infix(l, "expiring certification"@) || has_infix(l, "expiring certifications"@);
            let alerts = has_infix(l, "sentinel alert"@) || has_infix(l, "active alert"@);
            let events = has_infix(l, "sentinel"@) && has_infix(l, "history"@);
            let simulate = has_infix(l, "simulate"@) && (has_infix(l, "sentinel"@) || has_infix(l, "swimmer"@)
                || has_infix(l, "immobility"@)) && zones_available;
            let supervisors = has_infix(l, "supervisor"@) && has_infix(l, "pool"@) && pool_available;
            &&& history ==> r == AssistantIntent::ShiftHistory
            &&& !history && draft ==> r == AssistantIntent::GenerateDraft
            &&& !history && !draft && explain ==> r == AssistantIntent::ExplainAssignment
            &&& !history && !draft && !explain && open ==> r == AssistantIntent::OpenShifts
            &&& !history && !draft && !explain && !open && queue ==> r == AssistantIntent::ShiftQueue
            &&& !history && !draft && !explain && !open && !queue && certs ==> r == AssistantIntent::CertExpirations
            &&& !history && !draft && !explain && !open && !queue && !certs && alerts ==> r
                == AssistantIntent::ActiveAlerts
            &&& !history && !draft && !explain && !open && !queue && !certs && !alerts && events ==> r
                == AssistantIntent::SentinelHistory
            &&& !history && !draft && !explain && !open && !queue && !certs && !alerts && !events && simulate
                ==> r == AssistantIntent::SimulateEvent
            &&& !history && !draft && !explain && !open && !queue && !certs && !alerts && !events && !simulate
                && supervisors ==> r == AssistantIntent::Supervisors
            &&& !history && !draft && !explain && !open && !queue && !certs && !alerts && !events && !simulate
                && !supervisors ==> r == AssistantIntent::Help
        }),
{
    let l = lowercase_chars(query);
    let r = intent_for(l, zones_available, pool_available);
    if has_infix(l, "tuesday close"@) {
        assert(r == AssistantIntent::ShiftHistory);
    } else if has_infix(l, "generate next cycle draft"@) {
        assert(r == AssistantIntent::GenerateDraft);
    } else if has_infix(l, "why"@) && has_infix(l, "marcus"@) {
        assert(r == AssistantIntent::ExplainAssignment);
    } else if has_infix(l, "open shifts"@) {
        assert(r == AssistantIntent::OpenShifts);
    } else if has_infix(l, "first in line"@) || has_infix(l, "queue"@) {
        assert(r == AssistantIntent::ShiftQueue);
    } else if has_infix(l, "expiring certification"@) || has_infix(l, "expiring certifications"@) {
        assert(r == AssistantIntent::CertExpirations);
    } else if has_infix(l, "sentinel alert"@) || has_infix(l, "active alert"@) {
        assert(r == AssistantIntent::ActiveAlerts);
    } else if has_infix(l, "sentinel"@) && has_infix(l, "history"@) {
        assert(r == AssistantIntent::SentinelHistory);
    }
}

/// A question that names the queue, and none of the words of the rules
/// before it, is answered with the request queue, whatever zones and pools
/// exist.
pub proof fn law_queue_questions_show_the_queue(query: Seq<char>, zones_available: bool, pool_available: bool)
    requires
        has_infix(lowercase_chars(query), "queue"@),
        !has_infix(lowercase_chars(query), "tuesday close"@),
        !has_infix(lowercase_chars(query), "generate next cycle draft"@),
        !(has_infix(lowercase_chars(query), "why"@) && has_infix(lowercase_chars(query), "marcus"@)),
        !has_infix(lowercase_chars(query), "open shifts"@),
    ensures
        intent_for(lowercase_chars(query), zones_available, pool_available) == AssistantIntent::ShiftQueue,
{
    law_question_routing(query, zones_available, pool_available);
}

} // verus!
