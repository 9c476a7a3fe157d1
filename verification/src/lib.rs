//! Ordinary gates and resource policies with inspectable decision evidence.
//!
//! Policies are typed values; evaluation is deterministic and every decision
//! carries the facts and the clause that produced it. Start with a named
//! boolean check, and use `()` for a plain permit or deny outcome.
mod attempt;
mod audit;
mod authorization;
mod clock;
mod context;
mod decision;
mod digest;
mod evaluate;
mod explanation;
mod facts;
mod fold;
mod hooks;
mod identity;
mod occurrence;
mod order;
mod partial;
mod policy_model;
mod prepared;
mod query;
mod reason;
mod resolution;
mod tenant;

/// Condition builder helpers.
pub mod condition;
/// Laws of evaluation that span several functions.
pub mod laws;
/// Policy builder helpers.
pub mod policy;
/// Helpers for synthetic policy scenarios and finite outcome laws.
pub mod testing;

pub use attempt::{AttemptFailure, AttemptValidationError, AuthorizationAttempt};
pub use audit::{
    AuditConstructionError, AuditEntry, AuditEntryError, LegacyAuditEntry, PendingDecision, DecisionSummary, EffectKind, LegacyPolicyAnchor, PolicyAnchor,
    AUDIT_ENTRY_SCHEMA_VERSION, POLICY_HASH_FORMAT_VERSION,
};
pub use authorization::{
    assemble_decision, check_batch_cardinality, check_batch_context, check_batch_size,
    check_decision_inputs, AttemptAuthorizationError, AuthorizationDecision, AuthorizationError,
    BatchDecisions, BatchError, ResolveError,
};
pub use clock::{SystemClock, Timestamp};
pub use context::{Context, ContextError};
pub use decision::{Decision, DecisionTrace, DecisiveClause, DenyShape, Effect};
pub use evaluate::{evaluate, evaluate_residual, required_facts, required_residual_facts};
pub use explanation::ExplanationAudience;
pub use facts::{KnownFacts, PartialFacts, Presence};
pub use fold::{ResidualPolicyBranch, ResidualPolicyNode};
pub use hooks::{
    IdentityReasonCatalog, NoopAuditSink, NoopPolicyObserver, PolicyObserver, ReasonCatalog,
};
pub use identity::{
    ClauseLabel, DecisionAuditId, Fact, FactId, GatekeepError, GatekeepResult, Locale,
    MAX_TENANT_ID_BYTES, ObligationId, ObligationSpec, ParamKey, PolicyHash, PolicyId, ReasonCode,
    RequestId, StaticClauseLabel, StaticFactId, StaticObligationId, StaticParamKey,
    StaticReasonCode, StaticRequestId, StaticSubjectSlot, StaticTenantId, SubjectRef, SubjectSlot,
    TenantId,
};
pub use occurrence::{DecisionAuditOccurrence, DecisionAuditOccurrenceError};
pub use partial::{complete_residual, partial_evaluate, Residual};
pub use prepared::{PolicyAdvice, PolicyInspection, PreparedPolicy, ReplayError};
pub use policy_model::{Condition, Lattice, Policy, ResidualPolicy};
pub use query::{LowerError, Lowered, QueryLowering};
pub use reason::{DenialReason, ReasonValue, Trace, TraceClause, TraceError, TraceValue};
pub use resolution::{
    FactObservation, FactResolution, FactResolutionError, FactResolutionEvidence,
    FactResolutionEvidenceError, FactResolutionMetadata, ObservationError, MAX_FACT_OBSERVATIONS,
};
pub use tenant::{
    ApplicationVerifiedTenantBinding, BindingAuthority, BindingProvenance, EvidenceDigest,
    TenantBinding, TenantBindingError, TenantBindingEvidence, TrustedServiceBinding,
};
