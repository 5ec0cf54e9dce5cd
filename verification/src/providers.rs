//! Provider boundaries: messaging channels, the Sling schedule snapshot and
//! the assistant-orchestrator adapter.

use vstd::prelude::*;

use crate::text::owned;

verus! {

/// Writes messages to the console log.
pub struct ConsoleLogProvider;

/// Delivers messages as in-app notifications.
pub struct InAppNotificationProvider;

/// Stands in for an SMS gateway.
pub struct FakeSmsProvider;

/// Stands in for GroupMe.
pub struct FakeGroupMeProvider;

impl ConsoleLogProvider {
    pub fn provider_name(&self) -> (r: &'static str)
        ensures
            r@ == "console"@,
    {
        "console"
    }
}

impl InAppNotificationProvider {
    pub fn provider_name(&self) -> (r: &'static str)
        ensures
            r@ == "in_app"@,
    {
        "in_app"
    }
}

impl FakeSmsProvider {
    pub fn provider_name(&self) -> (r: &'static str)
        ensures
            r@ == "fake_sms"@,
    {
        "fake_sms"
    }
}

impl FakeGroupMeProvider {
    pub fn provider_name(&self) -> (r: &'static str)
        ensures
            r@ == "fake_groupme"@,
    {
        "fake_groupme"
    }
}

/// A schedule snapshot read from Sling.
#[derive(Debug, Clone)]
pub struct SlingSnapshot {
    pub provider: String,
    pub sites: Vec<SlingSite>,
    pub pools: Vec<SlingPool>,
}

#[derive(Debug, Clone)]
pub struct SlingSite {
    pub id: String,
    pub name: String,
}

#[derive(Debug, Clone)]
pub struct SlingPool {
    pub site_id: String,
    pub id: String,
    pub name: String,
}

/// A tool an external orchestrator may call.
#[derive(Debug, Clone)]
pub struct ToolContract {
    pub name: String,
    pub description: String,
}

/// The local stand-in for an OpenClaw-compatible orchestrator.
pub struct MockOpenClawAdapter;

impl MockOpenClawAdapter {
    /// The tools the adapter registers: draft generation and assignment
    /// explanation.
    pub fn contracts(&self) -> (r: Vec<ToolContract>)
        ensures
            r@.len() == 2,
            r@[0].name@ == "generate_next_cycle_draft"@,
            r@[0].description@ == "Generate a reviewable next-cycle draft schedule."@,
            r@[1].name@ == "explain_assignment"@,
            r@[1].description@ == "Explain why a guard received or did not receive a shift."@,
    {
        let mut r: Vec<ToolContract> = Vec::new();
        r.push(ToolContract {
            name: owned("generate_next_cycle_draft"),
            description: owned("Generate a reviewable next-cycle draft schedule."),
        });
        r.push(ToolContract {
            name: owned("explain_assignment"),
            description: owned("Explain why a guard received or did not receive a shift."),
        });
        r
    }
}

} // verus!
