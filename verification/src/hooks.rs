//! Observation and presentation hooks.
use vstd::prelude::*;

use crate::audit::DecisionSummary;
use crate::identity::Locale;
use crate::reason::DenialReason;

verus! {

/// Side-channel observer for decision summaries.
pub trait PolicyObserver {
    /// Records or exports a decision summary.
    fn observe(&self, decision_summary: &DecisionSummary);
}

/// Observer that discards decision summaries.
#[derive(Default)]
pub struct NoopPolicyObserver;

impl PolicyObserver for NoopPolicyObserver {
    fn observe(&self, decision_summary: &DecisionSummary) {
    }
}

/// Audit sink that discards entries.
#[derive(Default)]
pub struct NoopAuditSink;

/// Presentation adapter for localized denial reasons.
pub trait ReasonCatalog {
    /// Renders a denial reason for the requested locale.
    fn render(&self, reason: &DenialReason, locale: &Locale) -> String;
}

/// Reason catalog that renders the stable reason code.
#[derive(Default)]
pub struct IdentityReasonCatalog;

impl ReasonCatalog for IdentityReasonCatalog {
    fn render(&self, reason: &DenialReason, locale: &Locale) -> (s: String)
        ensures
            s@ == reason.code@,
    {
        reason.code.as_str().to_owned()
    }
}

} // verus!
