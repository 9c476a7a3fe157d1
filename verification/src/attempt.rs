//! Durable records of authorization attempts that produced no decision.
use vstd::prelude::*;

use crate::audit::PolicyAnchor;
use crate::clock::Timestamp;
use crate::context::{subject_map, Context, ContextError};
use crate::identity::{DecisionAuditId, RequestId, SubjectRef, SubjectSlot, TenantId};
use crate::occurrence::{occurrence_check, occurrence_validation, DecisionAuditOccurrence, DecisionAuditOccurrenceError};
use crate::tenant::TenantBinding;

verus! {

/// Durable format version of attempt records.
pub const ATTEMPT_SCHEMA_VERSION: u16 = 1;

/// Failure category recorded without backend messages or untrusted request
/// bodies.
#[derive(Clone, Copy, Debug, PartialEq, Eq, Structural)]
pub enum AttemptFailure {
    /// Required source observations were unavailable or incomplete.
    Resolution,
    /// Evidence could not be validated or encoded.
    Evidence,
    /// A decision trace could not be encoded.
    Trace,
}

/// Failure establishing a trusted attempt record.
#[derive(Debug)]
pub enum AttemptValidationError {
    /// No currently valid application scope was available.
    Context(ContextError),
    /// Unsupported durable format.
    Schema,
    /// Tenant and binding disagree.
    Tenant,
    /// Invalid occurrence identity or time.
    Occurrence(DecisionAuditOccurrenceError),
}

/// The outcome of validating an attempt's durable fields.
pub open spec fn attempt_check(
    schema_version: u16,
    tenant: TenantId,
    binding: TenantBinding,
    occurrence: DecisionAuditOccurrence,
) -> Result<(), AttemptValidationError> {
    if schema_version != ATTEMPT_SCHEMA_VERSION {
        Err(AttemptValidationError::Schema)
    } else if tenant@ != binding.tenant_of()@ {
        Err(AttemptValidationError::Tenant)
    } else {
        match occurrence_validation(occurrence.id_of(), occurrence.time_of()) {
            Err(e) => Err(AttemptValidationError::Occurrence(e)),
            Ok(_) => Ok(()),
        }
    }
}

/// Separate durable event for an authorization attempt that produced no
/// decision.
///
/// Only an already validated scope may construct this event. An invalid or
/// expired context must be handled by the application's authentication
/// audit; it is never assigned a fabricated tenant or recorded as a denial.
#[derive(Debug)]
pub struct AuthorizationAttempt {
    schema_version: u16,
    occurrence: DecisionAuditOccurrence,
    anchor: PolicyAnchor,
    tenant: TenantId,
    binding: TenantBinding,
    principal: SubjectRef,
    subjects: Vec<(SubjectSlot, SubjectRef)>,
    request_id: Option<RequestId>,
    failure: AttemptFailure,
}

impl AuthorizationAttempt {
    /// The durable schema version.
    pub closed spec fn schema_of(&self) -> u16 {
        self.schema_version
    }

    /// The frozen occurrence.
    pub closed spec fn occurrence_of(&self) -> DecisionAuditOccurrence {
        self.occurrence
    }

    /// The attempted policy.
    pub closed spec fn anchor_of(&self) -> PolicyAnchor {
        self.anchor
    }

    /// The tenant.
    pub closed spec fn tenant_of(&self) -> TenantId {
        self.tenant
    }

    /// The binding.
    pub closed spec fn binding_of(&self) -> TenantBinding {
        self.binding
    }

    /// The principal.
    pub closed spec fn principal_of(&self) -> SubjectRef {
        self.principal
    }

    /// The named subjects.
    pub closed spec fn subjects_of(&self) -> Seq<(SubjectSlot, SubjectRef)> {
        self.subjects@
    }

    /// The request identifier, if any.
    pub closed spec fn request_of(&self) -> Option<RequestId> {
        self.request_id
    }

    /// The failure category.
    pub closed spec fn failure_of(&self) -> AttemptFailure {
        self.failure
    }

    /// Records a failed attempt in a scope validated at the supplied receipt
    /// time; rejects an invalid scope, then an invalid occurrence.
    pub fn new(
        context: &Context,
        anchor: PolicyAnchor,
        failure: AttemptFailure,
        occurrence: DecisionAuditOccurrence,
        now: Timestamp,
    ) -> (r: Result<Self, AttemptValidationError>)
        ensures
            match context.check_at(now) {
                Err(e) => (r matches Err(AttemptValidationError::Context(e2)) && e2 == e),
                Ok(_) => match occurrence_validation(occurrence.id_of(), occurrence.time_of()) {
                    Err(e) => (r matches Err(AttemptValidationError::Occurrence(e2)) && e2 == e),
                    Ok(_) => (r matches Ok(a) && a.schema_of() == ATTEMPT_SCHEMA_VERSION && a.occurrence_of() == occurrence
                        && a.anchor_of() == anchor && a.tenant_of() == context.tenant_of() && a.binding_of()
                        == context.binding_of() && a.principal_of() == context.principal_of() && subject_map(
                        a.subjects_of(),
                    ) == context.subjects_of() && a.request_of() == context.request_of() && a.failure_of()
                        == failure),
                },
            },
    {
        match context.validate_at(now) {
            Err(e) => return Err(AttemptValidationError::Context(e)),
            Ok(_) => {},
        }
        let subjects = context.subjects();
        let mut copied: Vec<(SubjectSlot, SubjectRef)> = Vec::new();
        let mut i: usize = 0;
        while i < subjects.len()
            invariant
                i <= subjects@.len(),
                copied@ == subjects@.take(i as int),
            decreases subjects@.len() - i,
        {
            copied.push((subjects[i].0.duplicate(), subjects[i].1.duplicate()));
            i = i + 1;
            assert(copied@ =~= subjects@.take(i as int));
        }
        assert(subjects@.take(i as int) =~= subjects@);
        let entry = AuthorizationAttempt {
            schema_version: ATTEMPT_SCHEMA_VERSION,
            occurrence,
            anchor,
            tenant: context.tenant().duplicate(),
            binding: context.binding().duplicate(),
            principal: context.principal().duplicate(),
            subjects: copied,
            request_id: match context.request_id() {
                Some(id) => Some(id.duplicate()),
                None => None,
            },
            failure,
        };
        match entry.validate() {
            Err(e) => Err(e),
            Ok(_) => Ok(entry),
        }
    }

    /// Builds the record of a failed authorization: a new occurrence of `id`
    /// at `now`, then the attempt in the context's scope as checked at `now`.
    pub fn for_failure(
        context: &Context,
        anchor: PolicyAnchor,
        failure: AttemptFailure,
        id: DecisionAuditId,
        now: Timestamp,
    ) -> (r: Result<Self, AttemptValidationError>)
        ensures
            match occurrence_check(id@, now) {
                Err(e) => (r matches Err(AttemptValidationError::Occurrence(e2)) && e2 == e),
                Ok(t) => match context.check_at(now) {
                    Err(e) => (r matches Err(AttemptValidationError::Context(e2)) && e2 == e),
                    Ok(_) => (r matches Ok(a) && a.schema_of() == ATTEMPT_SCHEMA_VERSION && a.occurrence_of().id_of()
                        == id && a.occurrence_of().time_of() == t && a.anchor_of() == anchor && a.tenant_of()
                        == context.tenant_of() && a.binding_of() == context.binding_of() && a.principal_of()
                        == context.principal_of() && subject_map(a.subjects_of()) == context.subjects_of()
                        && a.request_of() == context.request_of() && a.failure_of() == failure),
                },
            },
    {
        let ghost gid = id;
        let occurrence = match DecisionAuditOccurrence::new(id, now) {
            Err(e) => return Err(AttemptValidationError::Occurrence(e)),
            Ok(o) => o,
        };
        proof {
            crate::laws::law_occurrence_revalidates(gid, now);
        }
        AuthorizationAttempt::new(context, anchor, failure, occurrence, now)
    }

    /// Reads back a recorded attempt, revalidating its durable format.
    pub fn from_recorded(
        schema_version: u16,
        occurrence: DecisionAuditOccurrence,
        anchor: PolicyAnchor,
        tenant: TenantId,
        binding: TenantBinding,
        principal: SubjectRef,
        subjects: Vec<(SubjectSlot, SubjectRef)>,
        request_id: Option<RequestId>,
        failure: AttemptFailure,
    ) -> (r: Result<Self, AttemptValidationError>)
        ensures
            match attempt_check(schema_version, tenant, binding, occurrence) {
                Err(e) => r == Err::<Self, AttemptValidationError>(e),
                Ok(_) => (r matches Ok(a) && a.schema_of() == schema_version && a.occurrence_of() == occurrence
                    && a.anchor_of() == anchor && a.tenant_of() == tenant && a.binding_of() == binding
                    && a.principal_of() == principal && a.subjects_of() == subjects@ && a.request_of() == request_id
                    && a.failure_of() == failure),
            },
    {
        let entry = AuthorizationAttempt {
            schema_version,
            occurrence,
            anchor,
            tenant,
            binding,
            principal,
            subjects,
            request_id,
            failure,
        };
        match entry.validate() {
            Err(e) => Err(e),
            Ok(_) => Ok(entry),
        }
    }

    /// Revalidates the durable format without pretending old bindings are
    /// current: the schema, the tenant's agreement with the binding, then the
    /// occurrence.
    pub fn validate(&self) -> (r: Result<(), AttemptValidationError>)
        ensures
            r == attempt_check(self.schema_of(), self.tenant_of(), self.binding_of(), self.occurrence_of()),
    {
        if self.schema_version != ATTEMPT_SCHEMA_VERSION {
            return Err(AttemptValidationError::Schema);
        }
        if !self.tenant.same(self.binding.tenant()) {
            return Err(AttemptValidationError::Tenant);
        }
        match self.occurrence.validate() {
            Err(e) => Err(AttemptValidationError::Occurrence(e)),
            Ok(_) => Ok(()),
        }
    }

    /// Durable attempt schema, independent of the decision schema.
    pub fn schema_version(&self) -> (v: u16)
        ensures
            v == self.schema_of(),
    {
        self.schema_version
    }

    /// Trusted binding recorded for this attempt, not renewed authority.
    pub fn binding(&self) -> (b: &TenantBinding)
        ensures
            *b == self.binding_of(),
    {
        &self.binding
    }

    /// Principal established by the application.
    pub fn principal(&self) -> (p: &SubjectRef)
        ensures
            *p == self.principal_of(),
    {
        &self.principal
    }

    /// Application operation correlation, if supplied.
    pub fn request_id(&self) -> (r: Option<&RequestId>)
        ensures
            r == match self.request_of() {
                Some(v) => Some(&v),
                None => None::<&RequestId>,
            },
    {
        self.request_id.as_ref()
    }

    /// Tenant established by the application.
    pub fn tenant(&self) -> (t: &TenantId)
        ensures
            *t == self.tenant_of(),
    {
        &self.tenant
    }

    /// Frozen occurrence used on persistence retries.
    pub fn occurrence(&self) -> (o: &DecisionAuditOccurrence)
        ensures
            *o == self.occurrence_of(),
    {
        &self.occurrence
    }

    /// Stable failure category.
    pub fn failure(&self) -> (f: AttemptFailure)
        ensures
            f == self.failure_of(),
    {
        self.failure
    }

    /// Resource references known within the trusted attempt scope.
    pub fn subjects(&self) -> (s: &[(SubjectSlot, SubjectRef)])
        ensures
            s@ == self.subjects_of(),
    {
        self.subjects.as_slice()
    }

    /// Policy being attempted.
    pub fn anchor(&self) -> (a: &PolicyAnchor)
        ensures
            *a == self.anchor_of(),
    {
        &self.anchor
    }
}

} // verus!
