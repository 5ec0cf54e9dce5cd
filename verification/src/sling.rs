//! Sling workforce-scheduling records and their mapping onto Lifebot's
//! guards, sites, roles and shifts.

use vstd::prelude::*;

use crate::calendar::{
    chrono_parse_utc, chrono_parse_ymd, opt_date, opt_datetime, parse_utc, parse_ymd,
    weekday_from_monday, Date, DateTime,
};
use crate::text::{owned, push_two_digits, str_eq, zero_padded};

verus! {

/// Login details for the Sling API.
#[derive(Debug, Clone)]
pub struct SlingCredentials {
    pub email: String,
    pub password: String,
}

/// An authenticated Sling session.
#[derive(Debug, Clone)]
pub struct SlingSession {
    pub token: String,
    pub org_id: i64,
    pub user_name: String,
}

/// A Sling user (a staff member). The API's weekly hours cap is not read by
/// any rule and is not kept here.
#[derive(Debug, Clone)]
pub struct SlingUser {
    pub id: i64,
    pub name: String,
    pub lastname: Option<String>,
    pub email: Option<String>,
    pub phone: Option<String>,
    pub birthday_date: Option<String>,
    pub deleted: bool,
    pub hidden_on_schedule: bool,
}

/// A Sling group: a location or a position.
#[derive(Debug, Clone)]
pub struct SlingGroup {
    pub id: i64,
    pub name: String,
    pub group_type: String,
    pub timezone: Option<String>,
    pub color: Option<String>,
    pub address: Option<String>,
}

#[derive(Debug, Clone, Copy, PartialEq, Eq, Structural)]
pub struct SlingShiftUser {
    pub id: i64,
}

#[derive(Debug, Clone, Copy, PartialEq, Eq, Structural)]
pub struct SlingShiftRef {
    pub id: i64,
}

/// A shift as Sling reports it; `dtstart` and `dtend` are RFC 3339 texts.
#[derive(Debug, Clone)]
pub struct SlingShift {
    pub id: String,
    pub summary: Option<String>,
    pub dtstart: String,
    pub dtend: String,
    pub user: Option<SlingShiftUser>,
    pub location: Option<SlingShiftRef>,
    pub position: Option<SlingShiftRef>,
    pub status: Option<String>,
    pub break_duration: Option<i32>,
}

/// Payload for creating a shift through the Sling API.
#[derive(Debug, Clone)]
pub struct SlingShiftCreate {
    pub dtstart: String,
    pub dtend: String,
    pub user: Option<SlingShiftUser>,
    pub location: Option<SlingShiftRef>,
    pub position: Option<SlingShiftRef>,
    pub summary: Option<String>,
}

/// Counts of an import run.
#[derive(Debug, Clone)]
pub struct ImportResult {
    pub guards_imported: usize,
    pub guards_updated: usize,
    pub sites_imported: usize,
    pub positions_imported: usize,
    pub shifts_imported: usize,
    pub errors: Vec<String>,
}

impl Default for ImportResult {
    /// All counts zero, no errors.
    fn default() -> (r: Self)
        ensures
            r.guards_imported == 0,
            r.guards_updated == 0,
            r.sites_imported == 0,
            r.positions_imported == 0,
            r.shifts_imported == 0,
            r.errors@.len() == 0,
    {
        ImportResult {
            guards_imported: 0,
            guards_updated: 0,
            sites_imported: 0,
            positions_imported: 0,
            shifts_imported: 0,
            errors: Vec::new(),
        }
    }
}

/// A Sling user mapped onto a guard record.
#[derive(Debug, Clone)]
pub struct GuardImport {
    pub sling_id: i64,
    pub name: String,
    pub date_of_birth: Option<Date>,
    pub phone: Option<String>,
    pub email: Option<String>,
}

/// A Sling shift mapped onto Lifebot's shift model (times are `HH:MM`).
#[derive(Debug, Clone)]
pub struct ShiftImport {
    pub sling_shift_id: String,
    pub summary: Option<String>,
    pub start_time: String,
    pub end_time: String,
    pub shift_date: Date,
    pub day_of_week: String,
    pub location_sling_id: Option<i64>,
    pub position_sling_id: Option<i64>,
    pub assigned_user_sling_id: Option<i64>,
}

pub open spec fn text_of(o: Option<String>) -> Option<Seq<char>> {
    match o {
        Some(s) => Some(s@),
        None => None,
    }
}

/// First name, then a space and the last name when there is a non-empty one.
pub open spec fn full_name_of(name: Seq<char>, lastname: Option<Seq<char>>) -> Seq<char> {
    match lastname {
        Some(last) => if last.len() > 0 {
            name + " "@ + last
        } else {
            name
        },
        None => name,
    }
}

/// The English name of a Monday-based weekday index.
pub open spec fn weekday_name(i: int) -> Seq<char> {
    if i == 0 {
        "Monday"@
    } else if i == 1 {
        "Tuesday"@
    } else if i == 2 {
        "Wednesday"@
    } else if i == 3 {
        "Thursday"@
    } else if i == 4 {
        "Friday"@
    } else if i == 5 {
        "Saturday"@
    } else {
        "Sunday"@
    }
}

/// `HH:MM` for the time of day of an instant.
pub open spec fn hh_mm(t: DateTime) -> Seq<char> {
    zero_padded(t.hour() as nat, 2) + ":"@ + zero_padded(t.minute() as nat, 2)
}

/// The groups among the first `n` whose type is `ty`, in order.
pub open spec fn groups_of_type(gs: Seq<SlingGroup>, ty: Seq<char>, n: int) -> Seq<SlingGroup>
    decreases n,
{
    if n <= 0 {
        Seq::empty()
    } else if gs[n - 1].group_type@ == ty {
        groups_of_type(gs, ty, n - 1).push(gs[n - 1])
    } else {
        groups_of_type(gs, ty, n - 1)
    }
}

pub open spec fn deref_groups(gs: Seq<&SlingGroup>) -> Seq<SlingGroup> {
    gs.map_values(|g: &SlingGroup| *g)
}

impl SlingUser {
    /// The birthday parsed as `YYYY-MM-DD`, when present and valid.
    pub fn date_of_birth(&self) -> (r: Option<Date>)
        ensures
            r == match self.birthday_date {
                Some(b) => opt_date(chrono_parse_ymd(b@)),
                None => None,
            },
            r matches Some(d) ==> d.valid(),
    {
        match &self.birthday_date {
            Some(raw) => parse_ymd(raw.as_str()),
            None => None,
        }
    }

    /// First name followed by last name when present.
    pub fn full_name(&self) -> (r: String)
        ensures
            r@ == full_name_of(self.name@, text_of(self.lastname)),
    {
        match &self.lastname {
            Some(last) => {
                if !last.as_str().is_empty() {
                    let mut s = self.name.clone();
                    s.append(" ");
                    s.append(last.as_str());
                    s
                } else {
                    self.name.clone()
                }
            },
            None => self.name.clone(),
        }
    }
}

impl SlingGroup {
    pub open spec fn spec_is_location(&self) -> bool {
        self.group_type@ == "location"@
    }

    pub open spec fn spec_is_position(&self) -> bool {
        self.group_type@ == "position"@
    }

    /// Whether the group is a location.
    pub fn is_location(&self) -> (r: bool)
        ensures
            r == self.spec_is_location(),
    {
        str_eq(self.group_type.as_str(), "location")
    }

    /// Whether the group is a position.
    pub fn is_position(&self) -> (r: bool)
        ensures
            r == self.spec_is_position(),
    {
        str_eq(self.group_type.as_str(), "position")
    }
}

impl SlingShift {
    /// `dtstart` parsed as a UTC instant.
    pub fn start_datetime(&self) -> (r: Option<DateTime>)
        ensures
            r == opt_datetime(chrono_parse_utc(self.dtstart@)),
            r matches Some(t) ==> t.valid(),
    {
        parse_utc(self.dtstart.as_str())
    }

    /// `dtend` parsed as a UTC instant.
    pub fn end_datetime(&self) -> (r: Option<DateTime>)
        ensures
            r == opt_datetime(chrono_parse_utc(self.dtend@)),
            r matches Some(t) ==> t.valid(),
    {
        parse_utc(self.dtend.as_str())
    }
}

/// The organisation id of a Sling session: the first organisation's id,
/// else the `org` object's id, else the `orgId` field.
pub fn session_org_id(first_org: Option<i64>, org: Option<i64>, org_id_field: Option<i64>) -> (r: Option<i64>)
    ensures
        r == match first_org {
            Some(id) => Some(id),
            None => match org {
                Some(id) => Some(id),
                None => org_id_field,
            },
        },
{
    match first_org {
        Some(id) => Some(id),
        None => match org {
            Some(id) => Some(id),
            None => org_id_field,
        },
    }
}

/// `g` is the guard record of Sling user `u`.
pub open spec fn guard_of(u: SlingUser, g: GuardImport) -> bool {
    &&& g.sling_id == u.id
    &&& g.name@ == full_name_of(u.name@, text_of(u.lastname))
    &&& g.date_of_birth == match u.birthday_date {
        Some(b) => opt_date(chrono_parse_ymd(b@)),
        None => None,
    }
    &&& text_of(g.phone) == text_of(u.phone)
    &&& text_of(g.email) == text_of(u.email)
}

/// Maps a Sling user onto a guard record.
pub fn map_user_to_guard(user: &SlingUser) -> (g: GuardImport)
    ensures
        guard_of(*user, g),
{
    GuardImport {
        sling_id: user.id,
        name: user.full_name(),
        date_of_birth: user.date_of_birth(),
        phone: user.phone.clone(),
        email: user.email.clone(),
    }
}

fn groups_with_type<'a>(groups: &'a [SlingGroup], location: bool) -> (r: Vec<&'a SlingGroup>)
    ensures
        deref_groups(r@) == groups_of_type(
            groups@,
            if location { "location"@ } else { "position"@ },
            groups@.len() as int,
        ),
{
    let ghost ty = if location { "location"@ } else { "position"@ };
    let mut r: Vec<&'a SlingGroup> = Vec::new();
    let mut i: usize = 0;
    while i < groups.len()
        invariant
            i <= groups@.len(),
            ty == (if location { "location"@ } else { "position"@ }),
            deref_groups(r@) == groups_of_type(groups@, ty, i as int),
        decreases groups@.len() - i,
    {
        let g = &groups[i];
        let keep = if location { g.is_location() } else { g.is_position() };
        if keep {
            r.push(g);
            assert(deref_groups(r@) =~= groups_of_type(groups@, ty, i as int).push(groups@[i as int]));
        }
        i = i + 1;
    }
    r
}

/// Splits groups into (locations, positions), each in the given order;
/// groups of other types are in neither.
pub fn split_groups<'a>(groups: &'a [SlingGroup]) -> (r: (Vec<&'a SlingGroup>, Vec<&'a SlingGroup>))
    ensures
        deref_groups(r.0@) == groups_of_type(groups@, "location"@, groups@.len() as int),
        deref_groups(r.1@) == groups_of_type(groups@, "position"@, groups@.len() as int),
{
    let locations = groups_with_type(groups, true);
    let positions = groups_with_type(groups, false);
    (locations, positions)
}

fn weekday_text(i: u32) -> (r: String)
    requires
        i < 7,
    ensures
        r@ == weekday_name(i as int),
{
    if i == 0 {
        owned("Monday")
    } else if i == 1 {
        owned("Tuesday")
    } else if i == 2 {
        owned("Wednesday")
    } else if i == 3 {
        owned("Thursday")
    } else if i == 4 {
        owned("Friday")
    } else if i == 5 {
        owned("Saturday")
    } else {
        owned("Sunday")
    }
}

fn clock_text(t: &DateTime) -> (r: String)
    requires
        t.valid(),
    ensures
        r@ == hh_mm(*t),
{
    let mut s = String::new();
    push_two_digits(&mut s, (t.secs / 3600) as u64);
    s.append(":");
    push_two_digits(&mut s, ((t.secs % 3600) / 60) as u64);
    assert(s@ =~= hh_mm(*t));
    s
}

pub open spec fn ref_id(r: Option<SlingShiftRef>) -> Option<i64> {
    match r {
        Some(x) => Some(x.id),
        None => None,
    }
}

pub open spec fn user_id(r: Option<SlingShiftUser>) -> Option<i64> {
    match r {
        Some(x) => Some(x.id),
        None => None,
    }
}

/// Both ends of a Sling shift parse as UTC instants.
pub open spec fn shift_parses(shift: SlingShift) -> bool {
    chrono_parse_utc(shift.dtstart@) is Some && chrono_parse_utc(shift.dtend@) is Some
}

/// `imp` is the import of the (parsing) Sling shift `shift`.
pub open spec fn import_of(shift: SlingShift, imp: ShiftImport) -> bool {
    let start = opt_datetime(chrono_parse_utc(shift.dtstart@))->0;
    let end = opt_datetime(chrono_parse_utc(shift.dtend@))->0;
    &&& imp.sling_shift_id@ == shift.id@
    &&& text_of(imp.summary) == text_of(shift.summary)
    &&& imp.start_time@ == hh_mm(start)
    &&& imp.end_time@ == hh_mm(end)
    &&& imp.shift_date == start.date
    &&& imp.day_of_week@ == weekday_name(start.date.weekday())
    &&& imp.location_sling_id == ref_id(shift.location)
    &&& imp.position_sling_id == ref_id(shift.position)
    &&& imp.assigned_user_sling_id == user_id(shift.user)
}

/// The shifts among the first `n` whose ends parse, in order.
pub open spec fn parsing_shifts(shifts: Seq<SlingShift>, n: int) -> Seq<SlingShift>
    decreases n,
{
    if n <= 0 {
        Seq::empty()
    } else if shift_parses(shifts[n - 1]) {
        parsing_shifts(shifts, n - 1).push(shifts[n - 1])
    } else {
        parsing_shifts(shifts, n - 1)
    }
}

/// Maps a Sling shift onto a shift import; `None` when either end does not
/// parse as a UTC instant. The date, weekday and `HH:MM` times are those of
/// the start and end in UTC.
pub fn map_shift(shift: &SlingShift) -> (r: Option<ShiftImport>)
    ensures
        shift_parses(*shift) ==> (r matches Some(imp) && import_of(*shift, imp)),
        !shift_parses(*shift) ==> r is None,
        r matches Some(imp) ==> 0 <= imp.shift_date.weekday() < 7,
        r matches Some(imp) ==> (imp.shift_date.weekday() == 0 ==> imp.day_of_week@ == "Monday"@),
        r matches Some(imp) ==> (imp.shift_date.weekday() == 1 ==> imp.day_of_week@ == "Tuesday"@),
        r matches Some(imp) ==> (imp.shift_date.weekday() == 2 ==> imp.day_of_week@ == "Wednesday"@),
        r matches Some(imp) ==> (imp.shift_date.weekday() == 3 ==> imp.day_of_week@ == "Thursday"@),
        r matches Some(imp) ==> (imp.shift_date.weekday() == 4 ==> imp.day_of_week@ == "Friday"@),
        r matches Some(imp) ==> (imp.shift_date.weekday() == 5 ==> imp.day_of_week@ == "Saturday"@),
        r matches Some(imp) ==> (imp.shift_date.weekday() == 6 ==> imp.day_of_week@ == "Sunday"@),
{
    let start = match shift.start_datetime() {
        Some(t) => t,
        None => return None,
    };
    let end = match shift.end_datetime() {
        Some(t) => t,
        None => return None,
    };
    let shift_date = start.date;
    let wd = weekday_from_monday(&shift_date);
    Some(ShiftImport {
        sling_shift_id: shift.id.clone(),
        summary: shift.summary.clone(),
        start_time: clock_text(&start),
        end_time: clock_text(&end),
        shift_date,
        day_of_week: weekday_text(wd),
        location_sling_id: match shift.location {
            Some(r) => Some(r.id),
            None => None,
        },
        position_sling_id: match shift.position {
            Some(r) => Some(r.id),
            None => None,
        },
        assigned_user_sling_id: match shift.user {
            Some(u) => Some(u.id),
            None => None,
        },
    })
}

// ---------------------------------------------------------------------------
// Laws
// ---------------------------------------------------------------------------

/// Splitting keeps only groups of the requested type, and each group of that
/// type is kept.
pub proof fn law_groups_of_type_exact(gs: Seq<SlingGroup>, ty: Seq<char>, n: int)
    requires
        0 <= n <= gs.len(),
    ensures
        forall|k: int| 0 <= k < groups_of_type(gs, ty, n).len() ==> (#[trigger] groups_of_type(gs, ty, n)[k]).group_type@ == ty,
        groups_of_type(gs, ty, n).len() <= n,
        forall|i: int| 0 <= i < n && (#[trigger] gs[i]).group_type@ == ty ==> groups_of_type(gs, ty, n).contains(gs[i]),
    decreases n,
{
    if n > 0 {
        law_groups_of_type_exact(gs, ty, n - 1);
        let prev = groups_of_type(gs, ty, n - 1);
        if gs[n - 1].group_type@ == ty {
            assert forall|i: int| 0 <= i < n && (#[trigger] gs[i]).group_type@ == ty implies groups_of_type(gs, ty, n).contains(gs[i]) by {
                if i < n - 1 {
                    let k = choose|k: int| 0 <= k < prev.len() && prev[k] == gs[i];
                    assert(groups_of_type(gs, ty, n)[k] == gs[i]);
                } else {
                    assert(groups_of_type(gs, ty, n)[prev.len() as int] == gs[i]);
                }
            }
        }
    }
}

/// Locations and positions are disjoint and together hold every group whose
/// type is one of the two: their sizes add up to the number of such groups.
pub proof fn law_split_partitions(gs: Seq<SlingGroup>, n: int)
    requires
        0 <= n <= gs.len(),
    ensures
        groups_of_type(gs, "location"@, n).len() + groups_of_type(gs, "position"@, n).len()
            == gs.take(n).filter(|g: SlingGroup| g.group_type@ == "location"@ || g.group_type@ == "position"@).len(),
    decreases n,
{
    reveal_with_fuel(Seq::filter, 1);
    reveal_strlit("location");
    reveal_strlit("position");
    assert("location"@ != "position"@) by {
        assert("location"@[0] != "position"@[0]);
    }
    if n > 0 {
        law_split_partitions(gs, n - 1);
        assert(gs.take(n).drop_last() =~= gs.take(n - 1));
        assert(gs.take(n).last() == gs[n - 1]);
    } else {
        assert(gs.take(n) =~= Seq::<SlingGroup>::empty());
    }
}

} // verus!
