//! Sentinel, the human-in-the-loop pool surveillance assist: camera and
//! zone records, the plan of a detection pass, who is told about an alert,
//! and what each supervisor action does to an alert.
//!
//! Sentinel only assists; every alert needs a human decision.

use vstd::prelude::*;

use crate::text::{chars_of, owned, str_eq};

verus! {

/// A registered camera source at a site.
#[derive(Debug, Clone)]
pub struct Camera {
    pub id: String,
    pub site_id: String,
    pub name: String,
    pub location: String,
    pub stream_url: String,
    pub active: bool,
}

/// A monitored region of a pool, optionally covered by a camera.
#[derive(Debug, Clone)]
pub struct PoolZone {
    pub id: String,
    pub pool_id: String,
    pub camera_id: Option<String>,
    pub name: String,
    pub zone_type: String,
    pub immobility_threshold_secs: i64,
    pub active: bool,
}

/// A human action recorded on an alert.
#[derive(Debug, Clone)]
pub struct SentinelAcknowledgment {
    pub id: String,
    pub alert_id: String,
    pub guard_id: String,
    pub guard_name: Option<String>,
    pub action: String,
    pub notes: String,
    pub acted_at: String,
}

/// Someone notified about an alert.
#[derive(Debug, Clone)]
pub struct AlertRecipient {
    pub guard_id: String,
    pub guard_name: String,
    pub role: String,
    pub channel: String,
}

/// The final resolution record of an alert.
#[derive(Debug, Clone)]
pub struct IncidentOutcome {
    pub id: String,
    pub alert_id: String,
    pub outcome: String,
    pub summary: String,
    pub recorded_by: Option<String>,
    pub recorded_at: String,
}

/// Zone details sent to the vision worker.
#[derive(Debug, Clone)]
pub struct CvZoneInfo {
    pub zone_id: String,
    pub name: String,
    pub zone_type: String,
    pub immobility_threshold_secs: i64,
}

/// One camera and its zones, sent to the vision worker for analysis.
#[derive(Debug, Clone)]
pub struct CvAnalysisRequest {
    pub camera_id: String,
    pub stream_url: String,
    pub zones: Vec<CvZoneInfo>,
}

/// The demo detection provider: it never raises detections on its own;
/// events are simulated explicitly.
pub struct MockDetectionProvider;

impl MockDetectionProvider {
    /// The provider's name.
    pub fn provider_name(&self) -> (r: &'static str)
        ensures
            r@ == "mock"@,
    {
        "mock"
    }
}

/// What a supervisor action does to an alert.
#[derive(Debug, Clone)]
pub struct AlertTransition {
    /// The alert's new status.
    pub new_status: String,
    /// The alert is closed: its resolution time is set.
    pub resolved: bool,
    /// The alert's escalation count goes up by one.
    pub escalate: bool,
    /// The incident outcome recorded, for closing actions.
    pub outcome: Option<String>,
}

/// The status an action leads to: dismissing counts as a false positive and
/// unknown actions as acknowledging.
pub open spec fn status_after(action: Seq<char>) -> Seq<char> {
    if action == "acknowledged"@ {
        "acknowledged"@
    } else if action == "dismissed"@ || action == "false_positive"@ {
        "false_positive"@
    } else if action == "resolved"@ {
        "resolved"@
    } else if action == "escalated"@ {
        "escalated"@
    } else {
        "acknowledged"@
    }
}

/// Closing statuses end the alert.
pub open spec fn is_closing(status: Seq<char>) -> bool {
    status == "resolved"@ || status == "false_positive"@
}

/// The outcome recorded when an alert closes.
pub open spec fn outcome_for(status: Seq<char>) -> Option<Seq<char>> {
    if status == "false_positive"@ {
        Some("false_alarm"@)
    } else if status == "resolved"@ {
        Some("resolved_safe"@)
    } else {
        None
    }
}

pub open spec fn text_opt(o: Option<String>) -> Option<Seq<char>> {
    match o {
        Some(s) => Some(s@),
        None => None,
    }
}

/// The effect of a supervisor action on an alert.
pub fn alert_transition(action: &str) -> (t: AlertTransition)
    ensures
        t.new_status@ == status_after(action@),
        t.resolved == is_closing(status_after(action@)),
        t.escalate == (status_after(action@) == "escalated"@),
        text_opt(t.outcome) == outcome_for(status_after(action@)),
{
    proof {
        lemma_action_words_distinct();
    }
    if str_eq(action, "acknowledged") {
        AlertTransition { new_status: owned("acknowledged"), resolved: false, escalate: false, outcome: None }
    } else if str_eq(action, "dismissed") || str_eq(action, "false_positive") {
        AlertTransition {
            new_status: owned("false_positive"),
            resolved: true,
            escalate: false,
            outcome: Some(owned("false_alarm")),
        }
    } else if str_eq(action, "resolved") {
        AlertTransition {
            new_status: owned("resolved"),
            resolved: true,
            escalate: false,
            outcome: Some(owned("resolved_safe")),
        }
    } else if str_eq(action, "escalated") {
        AlertTransition { new_status: owned("escalated"), resolved: false, escalate: true, outcome: None }
    } else {
        AlertTransition { new_status: owned("acknowledged"), resolved: false, escalate: false, outcome: None }
    }
}

/// Supervisors are notified of every alert above low severity.
pub fn should_notify_supervisors(severity: &str) -> (r: bool)
    ensures
        r == (severity@ != "low"@),
{
    !str_eq(severity, "low")
}

/// The error of a simulation requested too soon after another one in the
/// same zone (`recent` events in the last ten seconds), if any.
pub fn rate_limit_error(recent: i64) -> (r: Option<String>)
    ensures
        recent > 0 ==> (r matches Some(m) && m@
            == "Rate limited: please wait before simulating another event for this zone"@),
        recent <= 0 ==> r is None,
{
    if recent > 0 {
        Some(owned("Rate limited: please wait before simulating another event for this zone"))
    } else {
        None
    }
}

/// The recipients of an alert of the given severity: every on-duty
/// supervisor, in order, over the in-app channel; nobody for low severity.
pub fn alert_recipients(supervisors: &Vec<(String, String)>, severity: &str) -> (r: Vec<AlertRecipient>)
    ensures
        severity@ == "low"@ ==> r@.len() == 0,
        severity@ != "low"@ ==> r@.len() == supervisors@.len() && forall|i: int|
            0 <= i < supervisors@.len() ==> {
                &&& (#[trigger] r@[i]).guard_id@ == supervisors@[i].0@
                &&& r@[i].guard_name@ == supervisors@[i].1@
                &&& r@[i].role@ == "supervisor"@
                &&& r@[i].channel@ == "in_app"@
            },
{
    let mut r: Vec<AlertRecipient> = Vec::new();
    if !should_notify_supervisors(severity) {
        return r;
    }
    let mut i: usize = 0;
    while i < supervisors.len()
        invariant
            i <= supervisors@.len(),
            r@.len() == i,
            forall|k: int|
                0 <= k < i ==> {
                    &&& (#[trigger] r@[k]).guard_id@ == supervisors@[k].0@
                    &&& r@[k].guard_name@ == supervisors@[k].1@
                    &&& r@[k].role@ == "supervisor"@
                    &&& r@[k].channel@ == "in_app"@
                },
        decreases supervisors@.len() - i,
    {
        let (id, name) = &supervisors[i];
        r.push(AlertRecipient {
            guard_id: id.clone(),
            guard_name: name.clone(),
            role: owned("supervisor"),
            channel: owned("in_app"),
        });
        i = i + 1;
    }
    r
}

/// `s` without its trailing `/` characters.
pub open spec fn without_trailing_slashes(s: Seq<char>) -> Seq<char>
    decreases s.len(),
{
    if s.len() > 0 && s.last() == '/' {
        without_trailing_slashes(s.drop_last())
    } else {
        s
    }
}

/// The URL of `path` (such as `/health` or `/analyze`) on the vision worker
/// at `endpoint`, ignoring slashes at the end of the endpoint.
pub fn worker_url(endpoint: &str, path: &str) -> (r: String)
    ensures
        r@ == without_trailing_slashes(endpoint@) + path@,
{
    let cs = chars_of(endpoint);
    let mut k: usize = cs.len();
    assert(endpoint@.subrange(0, cs@.len() as int) =~= endpoint@);
    while k > 0 && cs[k - 1] == '/'
        invariant
            cs@ == endpoint@,
            k <= cs@.len(),
            without_trailing_slashes(endpoint@) == without_trailing_slashes(endpoint@.subrange(0, k as int)),
        decreases k,
    {
        assert(endpoint@.subrange(0, k as int).drop_last() =~= endpoint@.subrange(0, k - 1));
        k = k - 1;
    }
    let base = endpoint.substring_char(0, k);
    let mut url = owned(base);
    url.append(path);
    url
}

/// A zone is watched by a camera: it is active and mapped to that camera.
pub open spec fn zone_on_camera(z: PoolZone, camera_id: Seq<char>) -> bool {
    z.active && text_opt(z.camera_id) == Some(camera_id)
}

/// The zones among the first `n` that `camera_id` watches, in order.
pub open spec fn camera_zones(zones: Seq<PoolZone>, camera_id: Seq<char>, n: int) -> Seq<PoolZone>
    decreases n,
{
    if n <= 0 {
        Seq::empty()
    } else if zone_on_camera(zones[n - 1], camera_id) {
        camera_zones(zones, camera_id, n - 1).push(zones[n - 1])
    } else {
        camera_zones(zones, camera_id, n - 1)
    }
}

/// `info` describes `z` for the vision worker.
pub open spec fn describes(info: CvZoneInfo, z: PoolZone) -> bool {
    &&& info.zone_id@ == z.id@
    &&& info.name@ == z.name@
    &&& info.zone_type@ == z.zone_type@
    &&& info.immobility_threshold_secs == z.immobility_threshold_secs
}

/// `req` asks the worker to analyse camera `c` over exactly the zones it
/// watches.
pub open spec fn request_for(req: CvAnalysisRequest, c: Camera, zones: Seq<PoolZone>) -> bool {
    let zs = camera_zones(zones, c.id@, zones.len() as int);
    &&& req.camera_id@ == c.id@
    &&& req.stream_url@ == c.stream_url@
    &&& req.zones@.len() == zs.len()
    &&& forall|k: int| 0 <= k < zs.len() ==> describes(#[trigger] req.zones@[k], zs[k])
}

/// Whether camera `c` takes part in a detection pass: it is active and
/// watches at least one zone.
pub open spec fn camera_in_pass(c: Camera, zones: Seq<PoolZone>) -> bool {
    c.active && camera_zones(zones, c.id@, zones.len() as int).len() > 0
}

/// The cameras among the first `n` that take part in a pass, in order.
pub open spec fn pass_cameras(cameras: Seq<Camera>, zones: Seq<PoolZone>, n: int) -> Seq<Camera>
    decreases n,
{
    if n <= 0 {
        Seq::empty()
    } else if camera_in_pass(cameras[n - 1], zones) {
        pass_cameras(cameras, zones, n - 1).push(cameras[n - 1])
    } else {
        pass_cameras(cameras, zones, n - 1)
    }
}

fn zone_watched_by(z: &PoolZone, camera_id: &str) -> (r: bool)
    ensures
        r == zone_on_camera(*z, camera_id@),
{
    if !z.active {
        return false;
    }
    match &z.camera_id {
        Some(c) => str_eq(c.as_str(), camera_id),
        None => false,
    }
}

fn zones_for_camera(zones: &Vec<PoolZone>, camera_id: &str) -> (r: Vec<CvZoneInfo>)
    ensures
        ({
            let zs = camera_zones(zones@, camera_id@, zones@.len() as int);
            &&& r@.len() == zs.len()
            &&& forall|k: int| 0 <= k < zs.len() ==> describes(#[trigger] r@[k], zs[k])
        }),
{
    let mut r: Vec<CvZoneInfo> = Vec::new();
    let mut i: usize = 0;
    while i < zones.len()
        invariant
            i <= zones@.len(),
            ({
                let zs = camera_zones(zones@, camera_id@, i as int);
                &&& r@.len() == zs.len()
                &&& forall|k: int| 0 <= k < zs.len() ==> describes(#[trigger] r@[k], zs[k])
            }),
        decreases zones@.len() - i,
    {
        let z = &zones[i];
        if zone_watched_by(z, camera_id) {
            let ghost old_r = r@;
            r.push(CvZoneInfo {
                zone_id: z.id.clone(),
                name: z.name.clone(),
                zone_type: z.zone_type.clone(),
                immobility_threshold_secs: z.immobility_threshold_secs,
            });
            proof {
                let zs = camera_zones(zones@, camera_id@, i + 1);
                assert forall|k: int| 0 <= k < zs.len() implies describes(#[trigger] r@[k], zs[k]) by {
                    if k < old_r.len() {
                        assert(r@[k] == old_r[k]);
                    }
                }
            }
        }
        i = i + 1;
    }
    r
}

/// The requests of one detection pass: for each active camera watching at
/// least one active zone, in camera order, the camera and those zones.
pub fn plan_detection_requests(cameras: &Vec<Camera>, zones: &Vec<PoolZone>) -> (r: Vec<CvAnalysisRequest>)
    ensures
        ({
            let cs = pass_cameras(cameras@, zones@, cameras@.len() as int);
            &&& r@.len() == cs.len()
            &&& forall|k: int| 0 <= k < cs.len() ==> request_for(#[trigger] r@[k], cs[k], zones@)
        }),
{
    let mut r: Vec<CvAnalysisRequest> = Vec::new();
    let mut i: usize = 0;
    while i < cameras.len()
        invariant
            i <= cameras@.len(),
            ({
                let cs = pass_cameras(cameras@, zones@, i as int);
                &&& r@.len() == cs.len()
                &&& forall|k: int| 0 <= k < cs.len() ==> request_for(#[trigger] r@[k], cs[k], zones@)
            }),
        decreases cameras@.len() - i,
    {
        let c = &cameras[i];
        if c.active {
            let camera_zone_infos = zones_for_camera(zones, c.id.as_str());
            if camera_zone_infos.len() > 0 {
                let ghost old_r = r@;
                r.push(CvAnalysisRequest {
                    camera_id: c.id.clone(),
                    stream_url: c.stream_url.clone(),
                    zones: camera_zone_infos,
                });
                proof {
                    let cs = pass_cameras(cameras@, zones@, i + 1);
                    assert forall|k: int| 0 <= k < cs.len() implies request_for(#[trigger] r@[k], cs[k], zones@) by {
                        if k < old_r.len() {
                            assert(r@[k] == old_r[k]);
                        }
                    }
                }
            }
        }
        i = i + 1;
    }
    r
}

// ---------------------------------------------------------------------------
// Laws
// ---------------------------------------------------------------------------

/// Closing an alert and recording its outcome go together: an action
/// records an incident outcome exactly when it sets the resolution time,
/// and only escalation raises the escalation count, never while closing.
pub proof fn law_closing_records_outcome(action: Seq<char>)
    ensures
        is_closing(status_after(action)) <==> outcome_for(status_after(action)) is Some,
        status_after(action) == "escalated"@ ==> !is_closing(status_after(action)),
        status_after(action) == "escalated"@ <==> action == "escalated"@,
{
    lemma_action_words_distinct();
}

/// Every action leads to one of the four alert statuses, and the five
/// actions a supervisor may take lead to the status they name (dismissing
/// to a false positive).
pub proof fn law_actions_reach_named_status(action: Seq<char>)
    ensures
        status_after(action) == "acknowledged"@ || status_after(action) == "false_positive"@
            || status_after(action) == "resolved"@ || status_after(action) == "escalated"@,
        action == "acknowledged"@ ==> status_after(action) == "acknowledged"@,
        action == "dismissed"@ ==> status_after(action) == "false_positive"@,
        action == "false_positive"@ ==> status_after(action) == "false_positive"@,
        action == "resolved"@ ==> status_after(action) == "resolved"@,
        action == "escalated"@ ==> status_after(action) == "escalated"@,
{
    lemma_action_words_distinct();
}

proof fn lemma_action_words_distinct()
    ensures
        "acknowledged"@ != "dismissed"@,
        "acknowledged"@ != "false_positive"@,
        "acknowledged"@ != "resolved"@,
        "acknowledged"@ != "escalated"@,
        "dismissed"@ != "false_positive"@,
        "dismissed"@ != "resolved"@,
        "dismissed"@ != "escalated"@,
        "false_positive"@ != "resolved"@,
        "false_positive"@ != "escalated"@,
        "resolved"@ != "escalated"@,
{
    reveal_strlit("acknowledged");
    reveal_strlit("dismissed");
    reveal_strlit("false_positive");
    reveal_strlit("resolved");
    reveal_strlit("escalated");
    assert("acknowledged"@[0] == 'a');
    assert("dismissed"@[0] == 'd');
    assert("false_positive"@[0] == 'f');
    assert("resolved"@[0] == 'r');
    assert("escalated"@[0] == 'e');
}

} // verus!
