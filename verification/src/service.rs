//! The Lifebot service: where the database lives, the run modes, and the
//! views and decisions it builds from stored records.

use vstd::prelude::*;

use crate::calendar::{chrono_parse_ymd, days_between, opt_date, parse_ymd, Date};
use crate::sentinel::{alert_transition, plan_detection_requests, AlertTransition, Camera, CvAnalysisRequest, PoolZone};
use crate::sentinel::{pass_cameras, request_for, status_after, is_closing, outcome_for, text_opt};
use crate::sling::{
    guard_of, import_of, parsing_shifts, map_shift, map_user_to_guard, split_groups, GuardImport, ShiftImport, SlingGroup, SlingShift,
    SlingShiftCreate, SlingShiftRef, SlingShiftUser, SlingUser,
};
use crate::text::{chars_of, owned, str_contains, str_eq, has_infix};

verus! {

/// Where the SQLite database lives.
#[derive(Debug, Clone)]
pub struct LifebotDb {
    path: String,
}

impl LifebotDb {
    pub closed spec fn spec_path(&self) -> Seq<char> {
        self.path@
    }

    /// A database at `path`.
    pub fn new(path: &str) -> (r: Self)
        ensures
            r.spec_path() == path@,
    {
        LifebotDb { path: owned(path) }
    }

    /// The database file's path.
    pub fn path(&self) -> (r: &str)
        ensures
            r@ == self.spec_path(),
    {
        self.path.as_str()
    }
}

/// One recorded scheduling decision.
#[derive(Debug, Clone)]
pub struct DecisionTraceSummary {
    pub id: String,
    pub shift_id: String,
    pub summary: String,
    pub decision_type: String,
    pub decided_at: String,
}

/// The dashboard's figures.
#[derive(Debug, Clone)]
pub struct DashboardData {
    pub demo_mode: bool,
    pub admin_mode: bool,
    pub current_cycle_name: String,
    pub next_cycle_name: String,
    pub active_guards: i64,
    pub open_shift_count: i64,
    pub pending_request_count: i64,
    pub expiring_cert_count: i64,
    pub draft_status: String,
    pub recent_decisions: Vec<DecisionTraceSummary>,
}

/// A shift request in the next cycle's queue.
#[derive(Debug, Clone)]
pub struct ShiftQueueEntry {
    pub request_id: String,
    pub shift_id: String,
    pub template_name: String,
    pub requester_name: String,
    pub requested_at: String,
    pub status: String,
    pub reason: Option<String>,
}

/// A shift of a cycle with its assignment, for the schedule view.
#[derive(Debug, Clone)]
pub struct ShiftAssignmentView {
    pub shift_id: String,
    pub template_name: String,
    pub cycle_name: String,
    pub site_name: String,
    pub pool_name: String,
    pub role_name: String,
    pub day_name: String,
    pub start_time: String,
    pub end_time: String,
    pub assigned_guard_name: Option<String>,
    pub assignment_status: String,
    pub incumbent_guard_name: Option<String>,
    pub rollover_deadline: String,
}

/// A request that an eligibility rule turned down.
#[derive(Debug, Clone)]
pub struct PolicyViolationView {
    pub shift_id: String,
    pub guard_name: String,
    pub template_name: String,
    pub violation: String,
    pub reason: String,
}

/// Setup state shown on first launch.
#[derive(Debug, Clone)]
pub struct SetupStatus {
    pub app_mode: String,
    pub sling_connected: bool,
    pub last_import: Option<String>,
    pub guard_count: i64,
    pub site_count: i64,
    pub template_count: i64,
}

/// Counts of a finished Sling import.
#[derive(Debug, Clone)]
pub struct ImportRunResult {
    pub guards_imported: usize,
    pub guards_updated: usize,
    pub sites_imported: usize,
    pub positions_imported: usize,
    pub shifts_imported: usize,
    pub errors: Vec<String>,
}

/// A guard's certification and whether it is still valid.
#[derive(Debug, Clone)]
pub struct GuardCertificationStatus {
    pub certification: String,
    pub expires_on: String,
    pub status: String,
}

/// A certification that expires soon, with the days left until it does.
#[derive(Debug, Clone)]
pub struct CertificationExpiryView {
    pub guard_name: String,
    pub certification: String,
    pub expires_on: String,
    pub days_remaining: i64,
}

/// An integration setting and whether it is set.
#[derive(Debug, Clone)]
pub struct IntegrationStatus {
    pub key: String,
    pub label: String,
    pub connected: bool,
    pub value: String,
    pub description: String,
}

/// The Sling records of an import, mapped and sorted for storage.
#[derive(Debug, Clone)]
pub struct ImportPlan {
    pub guards: Vec<GuardImport>,
    pub locations: Vec<(i64, String)>,
    pub positions: Vec<(i64, String)>,
    pub shifts: Vec<ShiftImport>,
}

/// A supervisor's action on an alert and its effect.
#[derive(Debug, Clone)]
pub struct AcknowledgmentPlan {
    pub alert_id: String,
    pub guard_id: String,
    pub action: String,
    pub notes: String,
    pub transition: AlertTransition,
}

/// The Lifebot service.
#[derive(Debug, Clone)]
pub struct LifebotService {
    db: LifebotDb,
    demo_mode: bool,
    admin_mode: bool,
}

pub open spec fn or_default(o: Option<String>, d: Seq<char>) -> Seq<char> {
    match o {
        Some(s) => s@,
        None => d,
    }
}

/// Lexicographic order of texts, the order Rust's `String` comparison
/// gives (byte order of UTF-8 is code-point order).
pub open spec fn text_le(a: Seq<char>, b: Seq<char>) -> bool
    decreases a.len(),
{
    if a.len() == 0 {
        true
    } else if b.len() == 0 {
        false
    } else if a[0] < b[0] {
        true
    } else if a[0] > b[0] {
        false
    } else {
        text_le(a.drop_first(), b.drop_first())
    }
}

/// The examples the assistant offers.
pub open spec fn example_questions() -> Seq<Seq<char>> {
    seq![
        "Who usually works Tuesday close at the main pool?"@,
        "Generate next cycle draft and preserve recurring shifts where requested."@,
        "Why didn't Marcus get that shift?"@,
        "Show open shifts that still need coverage."@,
        "Who is first in line for Saturday 8am?"@,
        "Which guards have expiring certifications?"@,
        "Show active Sentinel alerts."@,
        "Simulate an unresponsive swimmer in the deep end."@,
        "Who are the current supervisors for this pool?"@,
        "Show Sentinel event history."@,
    ]
}

/// The integration settings, as (key, label, description).
pub open spec fn integration_keys() -> Seq<Seq<char>> {
    seq!["sling_api_key"@, "openclaw_endpoint"@, "cv_endpoint"@, "messaging_provider"@]
}

/// A key holding a credential, kept in the OS keychain rather than the
/// database.
pub open spec fn credential_key(key: Seq<char>) -> bool {
    has_infix(key, "api_key"@) || has_infix(key, "token"@) || has_infix(key, "secret"@)
        || has_infix(key, "password"@)
}

fn text_le_exec(a: &Vec<char>, b: &Vec<char>) -> (r: bool)
    ensures
        r == text_le(a@, b@),
{
    let mut i: usize = 0;
    assert(a@.skip(0) =~= a@);
    assert(b@.skip(0) =~= b@);
    while i < a.len() && i < b.len()
        invariant
            i <= a@.len(),
            i <= b@.len(),
            forall|k: int| 0 <= k < i ==> a@[k] == b@[k],
            text_le(a@, b@) == text_le(a@.skip(i as int), b@.skip(i as int)),
        decreases a@.len() - i,
    {
        let x = a[i];
        let y = b[i];
        proof {
            assert(a@.skip(i as int)[0] == x);
            assert(b@.skip(i as int)[0] == y);
            assert(a@.skip(i as int).drop_first() =~= a@.skip(i + 1));
            assert(b@.skip(i as int).drop_first() =~= b@.skip(i + 1));
        }
        if x < y {
            return true;
        }
        if x > y {
            return false;
        }
        i = i + 1;
    }
    if i == a.len() {
        assert(a@.skip(i as int).len() == 0);
        true
    } else {
        assert(b@.skip(i as int).len() == 0);
        false
    }
}

impl LifebotService {
    pub closed spec fn spec_db(&self) -> LifebotDb {
        self.db
    }

    pub closed spec fn spec_demo_mode(&self) -> bool {
        self.demo_mode
    }

    pub closed spec fn spec_admin_mode(&self) -> bool {
        self.admin_mode
    }

    /// The service as the environment configures it: the database at
    /// `LIFEBOT_DB_PATH` (else `default_db_path`), demo mode unless
    /// `LIFEBOT_DEMO_MODE` says otherwise, admin mode only when
    /// `LIFEBOT_ADMIN_MODE` is `true`.
    pub fn from_env_values(
        db_path: Option<String>,
        default_db_path: &str,
        demo_mode_var: Option<String>,
        admin_mode_var: Option<String>,
    ) -> (r: Self)
        ensures
            r.spec_db().spec_path() == or_default(db_path, default_db_path@),
            r.spec_demo_mode() == (or_default(demo_mode_var, "true"@) == "true"@),
            r.spec_admin_mode() == (or_default(admin_mode_var, "false"@) == "true"@),
    {
        let path = match &db_path {
            Some(p) => p.as_str(),
            None => default_db_path,
        };
        let demo_mode = match &demo_mode_var {
            Some(v) => str_eq(v.as_str(), "true"),
            None => {
                proof { reveal_strlit("true"); }
                true
            },
        };
        let admin_mode = match &admin_mode_var {
            Some(v) => str_eq(v.as_str(), "true"),
            None => {
                proof {
                    reveal_strlit("true");
                    reveal_strlit("false");
                    assert("false"@[0] != "true"@[0]);
                }
                false
            },
        };
        LifebotService { db: LifebotDb::new(path), demo_mode, admin_mode }
    }

    /// The service's database.
    pub fn db(&self) -> (r: &LifebotDb)
        ensures
            r.spec_path() == self.spec_db().spec_path(),
    {
        &self.db
    }

    /// Whether start-up seeds the demo data: when the stored app mode, or
    /// `demo` when none is stored, is `demo`.
    pub fn init(&self, stored_app_mode: Option<String>) -> (seed: bool)
        ensures
            seed == (or_default(stored_app_mode, "demo"@) == "demo"@),
    {
        match &stored_app_mode {
            Some(m) => str_eq(m.as_str(), "demo"),
            None => true,
        }
    }

    /// The dashboard: the run modes, the cycle names, the given counts and
    /// draft status, and the first five decisions of `traces` (newest
    /// first, as stored).
    pub fn dashboard(
        &self,
        active_guards: i64,
        open_shift_count: i64,
        pending_request_count: i64,
        expiring_cert_count: i64,
        draft_status: String,
        traces: Vec<DecisionTraceSummary>,
    ) -> (r: DashboardData)
        ensures
            r.demo_mode == self.spec_demo_mode(),
            r.admin_mode == self.spec_admin_mode(),
            r.current_cycle_name@ == "Current Cycle"@,
            r.next_cycle_name@ == "Next Cycle"@,
            r.active_guards == active_guards,
            r.open_shift_count == open_shift_count,
            r.pending_request_count == pending_request_count,
            r.expiring_cert_count == expiring_cert_count,
            r.draft_status == draft_status,
            r.recent_decisions@ == traces@.take(if traces@.len() < 5 { traces@.len() as int } else { 5 }),
    {
        let mut recent = traces;
        recent.truncate(5);
        assert(recent@ =~= traces@.take(if traces@.len() < 5 { traces@.len() as int } else { 5 }));
        DashboardData {
            demo_mode: self.demo_mode,
            admin_mode: self.admin_mode,
            current_cycle_name: owned("Current Cycle"),
            next_cycle_name: owned("Next Cycle"),
            active_guards,
            open_shift_count,
            pending_request_count,
            expiring_cert_count,
            draft_status,
            recent_decisions: recent,
        }
    }

    /// The requests turned down by an eligibility rule: every queue entry
    /// with a reason, in queue order.
    pub fn policy_violations(&self, queue: Vec<ShiftQueueEntry>) -> (r: Vec<PolicyViolationView>)
        ensures
            r@.len() == violation_count(queue@, queue@.len() as int),
            forall|k: int| 0 <= k < r@.len() ==> violation_of(#[trigger] r@[k], with_reason(queue@, queue@.len() as int)[k]),
    {
        let ghost q = queue@;
        let mut r: Vec<PolicyViolationView> = Vec::new();
        let mut i: usize = 0;
        while i < queue.len()
            invariant
                queue@ == q,
                i <= q.len(),
                r@.len() == violation_count(q, i as int),
                with_reason(q, i as int).len() == violation_count(q, i as int),
                forall|k: int| 0 <= k < r@.len() ==> violation_of(#[trigger] r@[k], with_reason(q, i as int)[k]),
            decreases q.len() - i,
        {
            let e = &queue[i];
            match &e.reason {
                Some(reason) => {
                    let ghost old_r = r@;
                    r.push(PolicyViolationView {
                        shift_id: e.shift_id.clone(),
                        guard_name: e.requester_name.clone(),
                        template_name: e.template_name.clone(),
                        violation: owned("Eligibility rule"),
                        reason: reason.clone(),
                    });
                    proof {
                        assert forall|k: int| 0 <= k < r@.len() implies violation_of(#[trigger] r@[k], with_reason(q, i + 1)[k]) by {
                            if k < old_r.len() {
                                assert(r@[k] == old_r[k]);
                            }
                        }
                    }
                },
                None => {},
            }
            i = i + 1;
        }
        r
    }

    /// The questions the assistant suggests.
    pub fn assistant_examples(&self) -> (r: Vec<String>)
        ensures
            r@.len() == example_questions().len(),
            forall|i: int| 0 <= i < r@.len() ==> (#[trigger] r@[i])@ == example_questions()[i],
    {
        let mut r: Vec<String> = Vec::new();
        r.push(owned("Who usually works Tuesday close at the main pool?"));
        r.push(owned("Generate next cycle draft and preserve recurring shifts where requested."));
        r.push(owned("Why didn't Marcus get that shift?"));
        r.push(owned("Show open shifts that still need coverage."));
        r.push(owned("Who is first in line for Saturday 8am?"));
        r.push(owned("Which guards have expiring certifications?"));
        r.push(owned("Show active Sentinel alerts."));
        r.push(owned("Simulate an unresponsive swimmer in the deep end."));
        r.push(owned("Who are the current supervisors for this pool?"));
        r.push(owned("Show Sentinel event history."));
        r
    }

    /// Whether an integration key holds a credential (kept in the OS
    /// keychain).
    pub fn is_credential_key(key: &str) -> (r: bool)
        ensures
            r == credential_key(key@),
    {
        str_contains(key, "api_key") || str_contains(key, "token") || str_contains(key, "secret")
            || str_contains(key, "password")
    }

    /// The integration settings the app knows, as (key, label, description).
    pub fn integration_catalog() -> (r: Vec<(&'static str, &'static str, &'static str)>)
        ensures
            r@.len() == 4,
            forall|i: int| 0 <= i < 4 ==> (#[trigger] r@[i]).0@ == integration_keys()[i],
    {
        let mut r: Vec<(&'static str, &'static str, &'static str)> = Vec::new();
        r.push(("sling_api_key", "Sling", "Workforce scheduling platform. Connect to import/export shift schedules."));
        r.push(("openclaw_endpoint", "OpenClaw Agent", "AI orchestration endpoint for natural-language scheduling commands."));
        r.push(("cv_endpoint", "CV Worker", "Computer vision worker endpoint for Sentinel camera analysis (e.g. http://localhost:5050)."));
        r.push(("messaging_provider", "Messaging Provider", "GroupMe or SMS provider for staff notifications and alerts."));
        r
    }

    /// Accepts only the known integration keys.
    pub fn check_integration_key(key: &str) -> (r: Result<(), String>)
        ensures
            (exists|i: int| 0 <= i < 4 && key@ == #[trigger] integration_keys()[i]) <==> r is Ok,
            r matches Err(e) ==> e@ == "Unknown integration key: "@ + key@,
    {
        if str_eq(key, "sling_api_key") || str_eq(key, "openclaw_endpoint") || str_eq(key, "cv_endpoint")
            || str_eq(key, "messaging_provider") {
            proof {
                if key@ == "sling_api_key"@ { assert(key@ == integration_keys()[0]); }
                if key@ == "openclaw_endpoint"@ { assert(key@ == integration_keys()[1]); }
                if key@ == "cv_endpoint"@ { assert(key@ == integration_keys()[2]); }
                if key@ == "messaging_provider"@ { assert(key@ == integration_keys()[3]); }
            }
            Ok(())
        } else {
            let mut e = owned("Unknown integration key: ");
            e.append(key);
            Err(e)
        }
    }

    /// The status line of an integration: connected when its value is set.
    pub fn integration_status(key: &str, label: &str, description: &str, value: String) -> (r: IntegrationStatus)
        ensures
            r.key@ == key@,
            r.label@ == label@,
            r.description@ == description@,
            r.value == value,
            r.connected == (value@.len() > 0),
    {
        let connected = !value.as_str().is_empty();
        IntegrationStatus {
            key: owned(key),
            label: owned(label),
            connected,
            value,
            description: owned(description),
        }
    }

    /// The setup status: the stored app mode (`uninitialized` when none),
    /// whether a Sling session is stored, and the given counts.
    pub fn setup_status(
        &self,
        app_mode: Option<String>,
        last_import: Option<String>,
        sling_connected: bool,
        guard_count: i64,
        site_count: i64,
        template_count: i64,
    ) -> (r: SetupStatus)
        ensures
            r.app_mode@ == or_default(app_mode, "uninitialized"@),
            r.last_import == last_import,
            r.sling_connected == sling_connected,
            r.guard_count == guard_count,
            r.site_count == site_count,
            r.template_count == template_count,
    {
        let mode = match app_mode {
            Some(m) => m,
            None => owned("uninitialized"),
        };
        SetupStatus { app_mode: mode, sling_connected, last_import, guard_count, site_count, template_count }
    }

    /// Maps the Sling records of an import: every user onto a guard, the
    /// location and position groups onto (id, name) pairs, and every shift
    /// whose times parse onto a shift import, all in the given order.
    pub fn run_import(&self, users: &Vec<SlingUser>, groups: &Vec<SlingGroup>, shifts: &Vec<SlingShift>) -> (r: ImportPlan)
        ensures
            r.guards@.len() == users@.len(),
            forall|i: int| 0 <= i < users@.len() ==> guard_of(users@[i], #[trigger] r.guards@[i]),
            r.locations@.len() == crate::sling::groups_of_type(groups@, "location"@, groups@.len() as int).len(),
            r.positions@.len() == crate::sling::groups_of_type(groups@, "position"@, groups@.len() as int).len(),
            forall|i: int| 0 <= i < r.locations@.len() ==> {
                let g = crate::sling::groups_of_type(groups@, "location"@, groups@.len() as int)[i];
                (#[trigger] r.locations@[i]).0 == g.id && r.locations@[i].1@ == g.name@
            },
            forall|i: int| 0 <= i < r.positions@.len() ==> {
                let g = crate::sling::groups_of_type(groups@, "position"@, groups@.len() as int)[i];
                (#[trigger] r.positions@[i]).0 == g.id && r.positions@[i].1@ == g.name@
            },
            r.shifts@.len() == parsing_shifts(shifts@, shifts@.len() as int).len(),
            forall|i: int| 0 <= i < r.shifts@.len() ==> import_of(
                parsing_shifts(shifts@, shifts@.len() as int)[i],
                #[trigger] r.shifts@[i],
            ),
    {
        let mut guards: Vec<GuardImport> = Vec::new();
        let mut i: usize = 0;
        while i < users.len()
            invariant
                i <= users@.len(),
                guards@.len() == i,
                forall|k: int| 0 <= k < i ==> guard_of(users@[k], #[trigger] guards@[k]),
            decreases users@.len() - i,
        {
            guards.push(map_user_to_guard(&users[i]));
            i = i + 1;
        }
        let (locs, poss) = split_groups(groups.as_slice());
        let locations = id_name_pairs(&locs);
        let positions = id_name_pairs(&poss);
        let mut imports: Vec<ShiftImport> = Vec::new();
        let mut j: usize = 0;
        while j < shifts.len()
            invariant
                j <= shifts@.len(),
                imports@.len() == parsing_shifts(shifts@, j as int).len(),
                forall|k: int| 0 <= k < imports@.len() ==> import_of(
                    parsing_shifts(shifts@, j as int)[k],
                    #[trigger] imports@[k],
                ),
            decreases shifts@.len() - j,
        {
            let ghost old_imports = imports@;
            match map_shift(&shifts[j]) {
                Some(imp) => {
                    imports.push(imp);
                    proof {
                        assert forall|k: int| 0 <= k < imports@.len() implies import_of(
                            parsing_shifts(shifts@, j + 1)[k],
                            #[trigger] imports@[k],
                        ) by {
                            if k < old_imports.len() {
                                assert(imports@[k] == old_imports[k]);
                            }
                        }
                    }
                },
                None => {},
            }
            j = j + 1;
        }
        ImportPlan { guards, locations, positions, shifts: imports }
    }

    /// The result reported for an import with the given counts and no
    /// errors.
    pub fn import_run_result(
        guards_imported: usize,
        guards_updated: usize,
        sites_imported: usize,
        positions_imported: usize,
        shifts_imported: usize,
    ) -> (r: ImportRunResult)
        ensures
            r.guards_imported == guards_imported,
            r.guards_updated == guards_updated,
            r.sites_imported == sites_imported,
            r.positions_imported == positions_imported,
            r.shifts_imported == shifts_imported,
            r.errors@.len() == 0,
    {
        ImportRunResult {
            guards_imported,
            guards_updated,
            sites_imported,
            positions_imported,
            shifts_imported,
            errors: Vec::new(),
        }
    }

    /// A supervisor's action on an alert, with what it does to the alert.
    pub fn sentinel_acknowledge(&self, alert_id: &str, guard_id: &str, action: &str, notes: &str) -> (r: AcknowledgmentPlan)
        ensures
            r.alert_id@ == alert_id@,
            r.guard_id@ == guard_id@,
            r.action@ == action@,
            r.notes@ == notes@,
            r.transition.new_status@ == status_after(action@),
            r.transition.resolved == is_closing(status_after(action@)),
            r.transition.escalate == (status_after(action@) == "escalated"@),
            text_opt(r.transition.outcome) == outcome_for(status_after(action@)),
    {
        AcknowledgmentPlan {
            alert_id: owned(alert_id),
            guard_id: owned(guard_id),
            action: owned(action),
            notes: owned(notes),
            transition: alert_transition(action),
        }
    }

    /// The requests of a detection pass against the vision worker at
    /// `endpoint`; an error when no endpoint is configured.
    pub fn sentinel_run_detection_pass(&self, endpoint: &str, cameras: &Vec<Camera>, zones: &Vec<PoolZone>) -> (r: Result<Vec<CvAnalysisRequest>, String>)
        ensures
            endpoint@.len() == 0 ==> (r matches Err(e) && e@
                == "No CV endpoint configured. Set it in Integrations \u{2192} OpenClaw Agent or add 'cv_endpoint' to app_settings."@),
            endpoint@.len() > 0 ==> (r matches Ok(reqs) && ({
                let cs = pass_cameras(cameras@, zones@, cameras@.len() as int);
                &&& reqs@.len() == cs.len()
                &&& forall|k: int| 0 <= k < cs.len() ==> request_for(#[trigger] reqs@[k], cs[k], zones@)
            })),
    {
        if endpoint.is_empty() {
            return Err(owned(
                "No CV endpoint configured. Set it in Integrations \u{2192} OpenClaw Agent or add 'cv_endpoint' to app_settings.",
            ));
        }
        Ok(plan_detection_requests(cameras, zones))
    }

    /// The id of a new scheduling cycle starting on `starts_on`.
    pub fn cycle_id_for(starts_on: &str) -> (r: String)
        ensures
            r@ == "cycle-"@ + starts_on@,
    {
        let mut s = owned("cycle-");
        s.append(starts_on);
        s
    }

    /// The Sling payload for an approved assignment: start and end as UTC
    /// instants on the shift date, the template name as summary, and the
    /// Sling ids of the guard, site and role where known.
    pub fn sling_export_entry(
        shift_date: &str,
        start_time: &str,
        end_time: &str,
        name: String,
        guard_sling_id: Option<i64>,
        site_sling_id: Option<i64>,
        role_sling_id: Option<i64>,
    ) -> (r: SlingShiftCreate)
        ensures
            r.dtstart@ == shift_date@ + "T"@ + start_time@ + ":00Z"@,
            r.dtend@ == shift_date@ + "T"@ + end_time@ + ":00Z"@,
            r.user == (match guard_sling_id {
                Some(id) => Some(SlingShiftUser { id }),
                None => None,
            }),
            r.location == (match site_sling_id {
                Some(id) => Some(SlingShiftRef { id }),
                None => None,
            }),
            r.position == (match role_sling_id {
                Some(id) => Some(SlingShiftRef { id }),
                None => None,
            }),
            r.summary == Some(name),
    {
        let mut dtstart = owned(shift_date);
        dtstart.append("T");
        dtstart.append(start_time);
        dtstart.append(":00Z");
        let mut dtend = owned(shift_date);
        dtend.append("T");
        dtend.append(end_time);
        dtend.append(":00Z");
        SlingShiftCreate {
            dtstart,
            dtend,
            user: match guard_sling_id {
                Some(id) => Some(SlingShiftUser { id }),
                None => None,
            },
            location: match site_sling_id {
                Some(id) => Some(SlingShiftRef { id }),
                None => None,
            },
            position: match role_sling_id {
                Some(id) => Some(SlingShiftRef { id }),
                None => None,
            },
            summary: Some(name),
        }
    }

    /// A guard's certification with its status: `Expired` when the expiry
    /// text sorts no later than today's date text, else `Valid`.
    pub fn certification_status(certification: String, expires_on: String, today: &Date) -> (r: GuardCertificationStatus)
        requires
            today.valid(),
        ensures
            r.certification == certification,
            r.expires_on == expires_on,
            r.status@ == (if text_le(expires_on@, today.iso_text()) { "Expired"@ } else { "Valid"@ }),
    {
        let today_text = today.iso_string();
        let a = chars_of(expires_on.as_str());
        let b = chars_of(today_text.as_str());
        let status = if text_le_exec(&a, &b) { owned("Expired") } else { owned("Valid") };
        GuardCertificationStatus { certification, expires_on, status }
    }

    /// A line of the renewal list: the days from `today` until the stored
    /// expiry date, or nothing when the stored text is not a date.
    pub fn certification_expiry(
        guard_name: String,
        certification: String,
        expires_on: String,
        today: &Date,
    ) -> (r: Option<CertificationExpiryView>)
        requires
            today.valid(),
        ensures
            match opt_date(chrono_parse_ymd(expires_on@)) {
                Some(e) => r matches Some(v) && v.guard_name == guard_name && v.certification == certification
                    && v.expires_on == expires_on && v.days_remaining == e.day_number() - today.day_number(),
                None => r is None,
            },
    {
        match parse_ymd(expires_on.as_str()) {
            Some(e) => {
                let days_remaining = days_between(&e, today);
                Some(CertificationExpiryView { guard_name, certification, expires_on, days_remaining })
            },
            None => None,
        }
    }
}

/// The queue entries among the first `n` that carry a reason, in order.
pub open spec fn with_reason(q: Seq<ShiftQueueEntry>, n: int) -> Seq<ShiftQueueEntry>
    decreases n,
{
    if n <= 0 {
        Seq::empty()
    } else if q[n - 1].reason is Some {
        with_reason(q, n - 1).push(q[n - 1])
    } else {
        with_reason(q, n - 1)
    }
}

pub open spec fn violation_count(q: Seq<ShiftQueueEntry>, n: int) -> nat {
    with_reason(q, n).len()
}

/// `v` reports the turned-down request `e`.
pub open spec fn violation_of(v: PolicyViolationView, e: ShiftQueueEntry) -> bool {
    &&& v.shift_id@ == e.shift_id@
    &&& v.guard_name@ == e.requester_name@
    &&& v.template_name@ == e.template_name@
    &&& v.violation@ == "Eligibility rule"@
    &&& text_opt(e.reason) == Some(v.reason@)
}

fn id_name_pairs(groups: &Vec<&SlingGroup>) -> (r: Vec<(i64, String)>)
    ensures
        r@.len() == groups@.len(),
        forall|i: int| 0 <= i < groups@.len() ==> (#[trigger] r@[i]).0 == groups@[i].id && r@[i].1@ == groups@[i].name@,
{
    let mut r: Vec<(i64, String)> = Vec::new();
    let mut i: usize = 0;
    while i < groups.len()
        invariant
            i <= groups@.len(),
            r@.len() == i,
            forall|k: int| 0 <= k < i ==> (#[trigger] r@[k]).0 == groups@[k].id && r@[k].1@ == groups@[k].name@,
        decreases groups@.len() - i,
    {
        let g = groups[i];
        r.push((g.id, g.name.clone()));
        i = i + 1;
    }
    r
}


/// The shifts among the first `n` that nobody is assigned to, in order.
pub open spec fn unassigned(v: Seq<ShiftAssignmentView>, n: int) -> Seq<ShiftAssignmentView>
    decreases n,
{
    if n <= 0 {
        Seq::empty()
    } else if v[n - 1].assigned_guard_name is None {
        unassigned(v, n - 1).push(v[n - 1])
    } else {
        unassigned(v, n - 1)
    }
}

/// The shifts among the first `n` whose template name contains `needle`.
pub open spec fn shifts_named(v: Seq<ShiftAssignmentView>, needle: Seq<char>, n: int) -> Seq<ShiftAssignmentView>
    decreases n,
{
    if n <= 0 {
        Seq::empty()
    } else if has_infix(v[n - 1].template_name@, needle) {
        shifts_named(v, needle, n - 1).push(v[n - 1])
    } else {
        shifts_named(v, needle, n - 1)
    }
}

/// The queue entries among the first `n` whose template name contains
/// `needle`.
pub open spec fn entries_named(q: Seq<ShiftQueueEntry>, needle: Seq<char>, n: int) -> Seq<ShiftQueueEntry>
    decreases n,
{
    if n <= 0 {
        Seq::empty()
    } else if has_infix(q[n - 1].template_name@, needle) {
        entries_named(q, needle, n - 1).push(q[n - 1])
    } else {
        entries_named(q, needle, n - 1)
    }
}

/// The first trace among the first `n` whose summary contains `needle`.
pub open spec fn first_trace_with(traces: Seq<DecisionTraceSummary>, needle: Seq<char>, n: int) -> Option<int>
    decreases n,
{
    if n <= 0 {
        None
    } else {
        match first_trace_with(traces, needle, n - 1) {
            Some(i) => Some(i),
            None => if has_infix(traces[n - 1].summary@, needle) {
                Some(n - 1)
            } else {
                None
            },
        }
    }
}

/// The position of the decision the assistant explains when asked about
/// Marcus: the first trace whose summary mentions `Saturday 8am`.
pub fn trace_to_explain(traces: &Vec<DecisionTraceSummary>) -> (r: Option<usize>)
    ensures
        match r {
            Some(i) => first_trace_with(traces@, "Saturday 8am"@, traces@.len() as int) == Some(i as int),
            None => first_trace_with(traces@, "Saturday 8am"@, traces@.len() as int) is None,
        },
{
    let mut i: usize = 0;
    while i < traces.len()
        invariant
            i <= traces@.len(),
            first_trace_with(traces@, "Saturday 8am"@, i as int) is None,
        decreases traces@.len() - i,
    {
        if str_contains(traces[i].summary.as_str(), "Saturday 8am") {
            proof { lemma_first_trace_later(traces@, "Saturday 8am"@, i as int + 1, traces@.len() as int); }
            return Some(i);
        }
        i = i + 1;
    }
    None
}

proof fn lemma_first_trace_later(traces: Seq<DecisionTraceSummary>, needle: Seq<char>, m: int, n: int)
    requires
        0 <= m <= n,
        first_trace_with(traces, needle, m) is Some,
    ensures
        first_trace_with(traces, needle, n) == first_trace_with(traces, needle, m),
    decreases n - m,
{
    if n > m {
        lemma_first_trace_later(traces, needle, m, n - 1);
    }
}

/// The shifts that still need a guard, in schedule order.
pub fn open_shifts(schedule: Vec<ShiftAssignmentView>) -> (r: Vec<ShiftAssignmentView>)
    ensures
        r@ == unassigned(schedule@, schedule@.len() as int),
{
    let ghost all = schedule@;
    let mut rest = schedule;
    let mut r: Vec<ShiftAssignmentView> = Vec::new();
    let total = rest.len();
    let mut i: usize = 0;
    while rest.len() > 0
        invariant
            total == all.len(),
            i + rest@.len() == all.len(),
            rest@ == all.skip(i as int),
            r@ == unassigned(all, i as int),
        decreases rest@.len(),
    {
        let v = rest.remove(0);
        proof {
            assert(v == all[i as int]);
            assert(rest@ =~= all.skip(i + 1));
        }
        if v.assigned_guard_name.is_none() {
            r.push(v);
        }
        i = i + 1;
    }
    r
}

/// The shifts whose template name contains `needle`, in schedule order.
pub fn shifts_with_template(schedule: Vec<ShiftAssignmentView>, needle: &str) -> (r: Vec<ShiftAssignmentView>)
    ensures
        r@ == shifts_named(schedule@, needle@, schedule@.len() as int),
{
    let ghost all = schedule@;
    let mut rest = schedule;
    let mut r: Vec<ShiftAssignmentView> = Vec::new();
    let total = rest.len();
    let mut i: usize = 0;
    while rest.len() > 0
        invariant
            total == all.len(),
            i + rest@.len() == all.len(),
            rest@ == all.skip(i as int),
            r@ == shifts_named(all, needle@, i as int),
        decreases rest@.len(),
    {
        let v = rest.remove(0);
        proof {
            assert(v == all[i as int]);
            assert(rest@ =~= all.skip(i + 1));
        }
        if str_contains(v.template_name.as_str(), needle) {
            r.push(v);
        }
        i = i + 1;
    }
    r
}

/// The queue entries whose template name contains `needle`, in queue
/// order.
pub fn queue_for_template(queue: Vec<ShiftQueueEntry>, needle: &str) -> (r: Vec<ShiftQueueEntry>)
    ensures
        r@ == entries_named(queue@, needle@, queue@.len() as int),
{
    let ghost all = queue@;
    let mut rest = queue;
    let mut r: Vec<ShiftQueueEntry> = Vec::new();
    let total = rest.len();
    let mut i: usize = 0;
    while rest.len() > 0
        invariant
            total == all.len(),
            i + rest@.len() == all.len(),
            rest@ == all.skip(i as int),
            r@ == entries_named(all, needle@, i as int),
        decreases rest@.len(),
    {
        let v = rest.remove(0);
        proof {
            assert(v == all[i as int]);
            assert(rest@ =~= all.skip(i + 1));
        }
        if str_contains(v.template_name.as_str(), needle) {
            r.push(v);
        }
        i = i + 1;
    }
    r
}

} // verus!
