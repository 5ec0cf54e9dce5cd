//! Identifiers and shift-template resolution for Sling imports.

use vstd::prelude::*;

use crate::sling::ShiftImport;
use crate::text::{owned, push_signed_decimal, signed_decimal};

verus! {

/// Rust's `Debug` text of an optional Sling id.
pub open spec fn debug_opt_id(o: Option<i64>) -> Seq<char> {
    match o {
        Some(v) => "Some("@ + signed_decimal(v as int) + ")"@,
        None => "None"@,
    }
}

/// `prefix` followed by the decimal Sling id, the id given to records
/// created from Sling (`guard-sling-`, `site-sling-`, `role-sling-`).
pub fn sling_record_id(prefix: &str, sling_id: i64) -> (r: String)
    ensures
        r@ == prefix@ + signed_decimal(sling_id as int),
{
    let mut s = owned(prefix);
    push_signed_decimal(&mut s, sling_id);
    s
}

/// The id of a shift imported from Sling.
pub fn imported_shift_id(sling_shift_id: &str) -> (r: String)
    ensures
        r@ == "shift-sling-"@ + sling_shift_id@,
{
    let mut s = owned("shift-sling-");
    s.append(sling_shift_id);
    s
}

/// The name of a template created for an imported shift: the weekday and
/// the `start-end` times.
pub fn template_name_for(shift: &ShiftImport) -> (r: String)
    ensures
        r@ == shift.day_of_week@ + " "@ + shift.start_time@ + "-"@ + shift.end_time@,
{
    let mut s = shift.day_of_week.clone();
    s.append(" ");
    s.append(shift.start_time.as_str());
    s.append("-");
    s.append(shift.end_time.as_str());
    s
}

fn push_debug_opt_id(s: &mut String, o: Option<i64>)
    ensures
        final(s)@ == old(s)@ + debug_opt_id(o),
{
    match o {
        Some(v) => {
            s.append("Some(");
            push_signed_decimal(s, v);
            s.append(")");
            assert(final(s)@ =~= old(s)@ + debug_opt_id(o));
        },
        None => {
            s.append("None");
        },
    }
}

/// The site and role of an imported shift, both of which must be known
/// before a template can be found or made.
pub fn resolve_template_refs(shift: &ShiftImport, site_id: Option<String>, role_id: Option<String>) -> (r: Result<(String, String), String>)
    ensures
        match (site_id, role_id) {
            (Some(s), Some(ro)) => r matches Ok(p) && p.0@ == s@ && p.1@ == ro@,
            (None, _) => r matches Err(e) && e@ == "Cannot resolve location_sling_id "@
                + debug_opt_id(shift.location_sling_id) + " to a site"@,
            (Some(_), None) => r matches Err(e) && e@ == "Cannot resolve position_sling_id "@
                + debug_opt_id(shift.position_sling_id) + " to a role"@,
        },
{
    let site = match site_id {
        Some(s) => s,
        None => {
            let mut e = owned("Cannot resolve location_sling_id ");
            push_debug_opt_id(&mut e, shift.location_sling_id);
            e.append(" to a site");
            return Err(e);
        },
    };
    let role = match role_id {
        Some(ro) => ro,
        None => {
            let mut e = owned("Cannot resolve position_sling_id ");
            push_debug_opt_id(&mut e, shift.position_sling_id);
            e.append(" to a role");
            return Err(e);
        },
    };
    Ok((site, role))
}

} // verus!
