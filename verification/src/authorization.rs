//! Results and failures of the authorization boundary, and the checks it
//! makes before a decision is evaluated.
use vstd::prelude::*;

use crate::attempt::{AttemptFailure, AttemptValidationError, AuthorizationAttempt};
use crate::audit::AuditEntryError;
use crate::clock::Timestamp;
use crate::context::{Context, ContextError};
use crate::decision::Decision;
use crate::facts::{recorded, KnownFacts};
use crate::identity::{FactId, SubjectSlot};
use crate::occurrence::{DecisionAuditOccurrence, DecisionAuditOccurrenceError};
use crate::reason::TraceError;
use crate::evaluate::{decision_of, evaluate, node_eval};
use crate::identity::DecisionAuditId;
use crate::occurrence::occurrence_check;
use crate::policy_model::{Lattice, Policy};
use crate::resolution::{
    match_check, FactResolution, FactResolutionError, FactResolutionEvidence, FactResolutionEvidenceError,
};

verus! {

/// Error returned by fact resolution orchestration.
#[derive(Debug)]
pub enum ResolveError<E> {
    /// The backing resolver failed.
    Backend(E),
    /// The resolver returned structurally invalid or stale freshness data.
    Resolution(FactResolutionError),
    /// A required fact could not be produced or classified.
    MissingFact(FactId),
    /// A required request-scoped subject was not present in the context.
    MissingSubject {
        /// Fact whose binding required the subject.
        fact: FactId,
        /// Missing request-scoped subject slot.
        slot: SubjectSlot,
    },
    /// Fact resolution exceeded its deadline.
    Timeout,
}

/// Error produced while resolving, evaluating, tracing, or auditing a decision.
#[derive(Debug)]
pub enum AuthorizationError<Resolve, Audit> {
    /// The request context failed tenant-binding validation before facts were
    /// resolved.
    Context(ContextError),
    /// Policy hashing failed before the decision could be anchored.
    PolicyHash(postcard::Error),
    /// Fact resolution failed before evaluation.
    Resolve(ResolveError<Resolve>),
    /// Resolved fact-set evidence could not be built.
    FactResolutionEvidence(FactResolutionEvidenceError),
    /// The current audit entry failed its invariants.
    AuditEntry(AuditEntryError),
    /// The denial reason or trace could not be built after evaluation.
    Trace(TraceError),
    /// The captured decision occurrence could not cross the durable time
    /// boundary without changing its meaning.
    Occurrence(DecisionAuditOccurrenceError),
    /// Audit recording failed.
    Audit {
        /// Reusable identity and occurrence time for an ambiguous retry.
        occurrence: DecisionAuditOccurrence,
        /// Sink-specific failure.
        source: Audit,
    },
}

impl<Resolve, Audit> AuthorizationError<Resolve, Audit> {
    /// Returns the occurrence that was used when audit persistence failed.
    pub fn audit_occurrence(&self) -> (o: Option<&DecisionAuditOccurrence>)
        ensures
            match self {
                AuthorizationError::Audit { occurrence, .. } => o == Some(occurrence),
                _ => o is None,
            },
    {
        match self {
            AuthorizationError::Audit { occurrence, .. } => Some(occurrence),
            _ => None,
        }
    }
}

/// The attempt category recorded for a failed authorization, or none for
/// failures that an attempt record cannot repair (an audit write or the
/// occurrence itself).
pub open spec fn failure_category<R, A>(e: AuthorizationError<R, A>) -> Option<AttemptFailure> {
    match e {
        AuthorizationError::Audit { .. } => None,
        AuthorizationError::Occurrence(_) => None,
        AuthorizationError::Resolve(_) => Some(AttemptFailure::Resolution),
        AuthorizationError::Trace(_) => Some(AttemptFailure::Trace),
        _ => Some(AttemptFailure::Evidence),
    }
}

impl AttemptFailure {
    /// Classifies a failed authorization for an attempt record.
    pub fn for_error<R, A>(error: &AuthorizationError<R, A>) -> (f: Option<AttemptFailure>)
        ensures
            f == failure_category(*error),
    {
        match error {
            AuthorizationError::Audit { .. } | AuthorizationError::Occurrence(_) => None,
            AuthorizationError::Resolve(_) => Some(AttemptFailure::Resolution),
            AuthorizationError::Trace(_) => Some(AttemptFailure::Trace),
            _ => Some(AttemptFailure::Evidence),
        }
    }
}

/// Complete failure result when recording failed authorization attempts.
#[derive(Debug)]
pub enum AttemptAuthorizationError<R, A, T> {
    /// The original failure, after any required attempt record was persisted.
    Authorization(AuthorizationError<R, A>),
    /// No validated tenant scope was available to record the failed attempt.
    Unscoped {
        /// Original failure.
        authorization: AuthorizationError<R, A>,
        /// Why a trusted attempt event could not be constructed.
        scope: AttemptValidationError,
    },
    /// Required attempt persistence also failed; neither failure is discarded.
    Persistence {
        /// Original authorization failure.
        authorization: AuthorizationError<R, A>,
        /// Immutable event to retry or reconcile.
        entry: Box<AuthorizationAttempt>,
        /// Storage failure takes operational precedence.
        source: T,
    },
}

/// A completed authorization decision and its audit occurrence.
///
/// Denials are retained alongside permits. Applications must inspect the
/// decision before performing protected work. A returned obligation still
/// needs execution.
#[derive(Debug)]
pub struct AuthorizationDecision<O> {
    /// Complete typed decision.
    pub decision: Decision<O>,
    /// Occurrence submitted to the configured sink.
    pub audit_occurrence: DecisionAuditOccurrence,
}

/// Whole-batch failure before any decisions are evaluated or persisted.
#[derive(Debug)]
pub enum BatchError<E> {
    /// The caller exceeded its explicit resource bound.
    Limit,
    /// Context at this position was invalid before loading began.
    Context {
        /// Zero-based input position.
        index: usize,
        /// Context validation failure.
        source: ContextError,
    },
    /// The provider could not execute its bulk load.
    Resolve(ResolveError<E>),
    /// The provider violated the input/output cardinality contract.
    Cardinality {
        /// Input count.
        expected: usize,
        /// Output count.
        actual: usize,
    },
}

/// Refuses a batch of `count` contexts larger than its explicit bound.
pub fn check_batch_size<E>(count: usize, limit: usize) -> (r: Result<(), BatchError<E>>)
    ensures
        count > limit ==> r matches Err(BatchError::Limit),
        count <= limit ==> r is Ok,
{
    if count > limit {
        Err(BatchError::Limit)
    } else {
        Ok(())
    }
}

/// Checks the context at position `index` of a batch before any fact is
/// loaded.
pub fn check_batch_context<E>(index: usize, context: &Context, now: Timestamp) -> (r: Result<(), BatchError<E>>)
    ensures
        match context.check_at(now) {
            Ok(_) => r is Ok,
            Err(e) => (r matches Err(BatchError::Context { index: i, source }) && i == index && source == e),
        },
{
    match context.validate_at(now) {
        Err(source) => Err(BatchError::Context { index, source }),
        Ok(_) => Ok(()),
    }
}

/// Refuses provider output whose length differs from the number of
/// contexts it was asked for.
pub fn check_batch_cardinality<E>(expected: usize, actual: usize) -> (r: Result<(), BatchError<E>>)
    ensures
        expected == actual ==> r is Ok,
        expected != actual ==> (r matches Err(BatchError::Cardinality { expected: e, actual: a }) && e == expected
            && a == actual),
{
    if expected != actual {
        Err(BatchError::Cardinality { expected, actual })
    } else {
        Ok(())
    }
}

/// Ordered results retaining decisions and per-item failures, including
/// denials.
///
/// Persistence is sequential and per item, not atomic across the batch.
#[derive(Debug)]
pub struct BatchDecisions<O, R, A> {
    /// One result per input position. Successful denials retain their audit
    /// record.
    pub results: Vec<Result<AuthorizationDecision<O>, AuthorizationError<R, A>>>,
}

impl<O, R, A> BatchDecisions<O, R, A> {
    /// Returns all decisions, in input order, only if every item completed;
    /// otherwise returns the entire batch, preserving all item evidence.
    pub fn into_strict(self) -> (r: Result<Vec<AuthorizationDecision<O>>, Self>)
        ensures
            (exists|i: int| 0 <= i < self.results@.len() && #[trigger] self.results@[i] is Err) ==> (r matches Err(b)
                && b.results@ == self.results@),
            !(exists|i: int| 0 <= i < self.results@.len() && #[trigger] self.results@[i] is Err) ==> (r matches Ok(v)
                && v@.len() == self.results@.len() && forall|i: int|
                0 <= i < v@.len() ==> self.results@[i] == Ok::<AuthorizationDecision<O>, AuthorizationError<R, A>>(
                    #[trigger] v@[i],
                )),
    {
        let mut i: usize = 0;
        while i < self.results.len()
            invariant
                i <= self.results@.len(),
                forall|j: int| 0 <= j < i ==> self.results@[j] is Ok,
            decreases self.results@.len() - i,
        {
            if self.results[i].is_err() {
                return Err(self);
            }
            i = i + 1;
        }
        let ghost all = self.results@;
        let mut results = self.results;
        let mut decisions: Vec<AuthorizationDecision<O>> = Vec::new();
        let mut rest: Vec<Result<AuthorizationDecision<O>, AuthorizationError<R, A>>> = Vec::new();
        while results.len() > 0
            invariant
                results@ == all.take(results@.len() as int),
                forall|j: int| 0 <= j < all.len() ==> all[j] is Ok,
                decisions@.len() + results@.len() == all.len(),
                forall|j: int| 0 <= j < decisions@.len() ==> all[all.len() - 1 - j] == Ok::<
                    AuthorizationDecision<O>,
                    AuthorizationError<R, A>,
                >(#[trigger] decisions@[j]),
            decreases results@.len(),
        {
            let ghost n = results@.len();
            let item = results.pop().unwrap();
            assert(item == all[n - 1]);
            assert(results@ =~= all.take(n - 1));
            match item {
                Ok(d) => decisions.push(d),
                Err(e) => {
                    rest.push(Err(e));
                },
            }
        }
        let mut ordered: Vec<AuthorizationDecision<O>> = Vec::new();
        let ghost rev = decisions@;
        while decisions.len() > 0
            invariant
                decisions@ == rev.take(decisions@.len() as int),
                rev.len() == all.len(),
                ordered@.len() + decisions@.len() == all.len(),
                forall|j: int| 0 <= j < rev.len() ==> all[all.len() - 1 - j] == Ok::<
                    AuthorizationDecision<O>,
                    AuthorizationError<R, A>,
                >(#[trigger] rev[j]),
                forall|j: int| 0 <= j < ordered@.len() ==> all[j] == Ok::<
                    AuthorizationDecision<O>,
                    AuthorizationError<R, A>,
                >(#[trigger] ordered@[j]),
            decreases decisions@.len(),
        {
            let ghost n = decisions@.len();
            let d = decisions.pop().unwrap();
            assert(d == rev[n - 1]);
            assert(decisions@ =~= rev.take(n - 1));
            assert(all[all.len() - 1 - (n - 1)] == Ok::<AuthorizationDecision<O>, AuthorizationError<R, A>>(d));
            ordered.push(d);
        }
        Ok(ordered)
    }
}

/// The first required fact that the resolved facts do not record, at or
/// after position `i`.
pub open spec fn first_missing(required: Seq<FactId>, m: Map<Seq<char>, crate::facts::Presence>, i: int) -> Option<FactId>
    decreases required.len() - i,
{
    if 0 <= i < required.len() {
        if recorded(m, required[i]@) is None {
            Some(required[i])
        } else {
            first_missing(required, m, i + 1)
        }
    } else {
        None
    }
}

/// The outcome of the checks made on a resolved fact set before evaluation:
/// the context at the receipt time, the resolution's freshness, then the
/// first required fact left unobserved.
pub open spec fn boundary_check<E, A>(
    context: Context,
    resolution: FactResolution<KnownFacts>,
    required: Option<Seq<FactId>>,
    received_at: Timestamp,
) -> Result<(), AuthorizationError<E, A>> {
    match context.check_at(received_at) {
        Err(e) => Err(AuthorizationError::Context(e)),
        Ok(_) => match resolution.freshness_at(received_at) {
            Err(e) => Err(AuthorizationError::Resolve(ResolveError::Resolution(e))),
            Ok(_) => match required {
                None => Ok(()),
                Some(req) => match first_missing(req, resolution.facts_of()@, 0) {
                    Some(f) => Err(AuthorizationError::Resolve(ResolveError::MissingFact(f))),
                    None => Ok(()),
                },
            },
        },
    }
}

/// Checks a resolved fact set at the decision boundary before evaluation:
/// the context must still be valid at `received_at`, the resolution fresh,
/// and, for checked authorization, every required fact observed.
#[verifier::loop_isolation(false)]
pub fn check_decision_inputs<E, A>(
    context: &Context,
    resolution: &FactResolution<KnownFacts>,
    required: Option<&[FactId]>,
    received_at: Timestamp,
) -> (r: Result<(), AuthorizationError<E, A>>)
    ensures
        match boundary_check::<E, A>(
            *context,
            *resolution,
            match required {
                Some(s) => Some(s@),
                None => None,
            },
            received_at,
        ) {
            Ok(_) => r is Ok,
            Err(AuthorizationError::Context(e)) => (r matches Err(AuthorizationError::Context(e2)) && e2 == e),
            Err(AuthorizationError::Resolve(ResolveError::Resolution(e))) => (r matches Err(
                AuthorizationError::Resolve(ResolveError::Resolution(e2)),
            ) && e2 == e),
            Err(AuthorizationError::Resolve(ResolveError::MissingFact(f))) => (r matches Err(
                AuthorizationError::Resolve(ResolveError::MissingFact(g)),
            ) && g == f),
            _ => false,
        },
{
    match context.validate_at(received_at) {
        Err(e) => return Err(AuthorizationError::Context(e)),
        Ok(_) => {},
    }
    match resolution.validate_at(received_at) {
        Err(e) => return Err(AuthorizationError::Resolve(ResolveError::Resolution(e))),
        Ok(_) => {},
    }
    match required {
        None => Ok(()),
        Some(req) => {
            let mut i: usize = 0;
            while i < req.len()
                invariant
                    i <= req@.len(),
                    first_missing(req@, resolution.facts_of()@, 0) == first_missing(req@, resolution.facts_of()@, i as int),
                decreases req@.len() - i,
            {
                if resolution.facts().observation(&req[i]).is_none() {
                    return Err(AuthorizationError::Resolve(ResolveError::MissingFact(req[i].duplicate())));
                }
                i = i + 1;
            }
            Ok(())
        },
    }
}

/// The occurrence a decision is recorded under: the one the context
/// carries for retries, else a new occurrence of `fresh_id` at `occurred_at`.
pub open spec fn chosen_occurrence(
    carried: Option<DecisionAuditOccurrence>,
    fresh_id: DecisionAuditId,
    occurred_at: Timestamp,
) -> Result<Option<DecisionAuditOccurrence>, DecisionAuditOccurrenceError> {
    match carried {
        Some(o) => Ok(Some(o)),
        None => match occurrence_check(fresh_id@, occurred_at) {
            Err(e) => Err(e),
            Ok(_) => Ok(None),
        },
    }
}

/// Checks the inputs of a decision at the boundary, digests the resolved
/// fact set, evaluates the policy and fixes the decision's occurrence, in
/// that order.
///
/// `encoded_facts` is the deterministic encoding of the resolved facts.
/// The occurrence is the one the context carries, else a new occurrence of
/// `fresh_id` at `occurred_at`.
pub fn assemble_decision<O: Lattice, E, A>(
    policy: &Policy<O>,
    required: Option<&[FactId]>,
    context: &Context,
    resolution: &FactResolution<KnownFacts>,
    received_at: Timestamp,
    encoded_facts: &[u8],
    fresh_id: DecisionAuditId,
    occurred_at: Timestamp,
) -> (r: Result<(Decision<O>, FactResolutionEvidence, DecisionAuditOccurrence), AuthorizationError<E, A>>)
    ensures
        match boundary_check::<E, A>(
            *context,
            *resolution,
            match required {
                Some(s) => Some(s@),
                None => None,
            },
            received_at,
        ) {
            Err(e) => (r matches Err(e2) && e2 == e),
            Ok(_) => match match_check(resolution.observations_of(), resolution.facts_of()@) {
                Err(e) => (r matches Err(
                    AuthorizationError::FactResolutionEvidence(FactResolutionEvidenceError::Observation(e2)),
                ) && e2 == e),
                Ok(_) => match chosen_occurrence(context.occurrence_of(), fresh_id, occurred_at) {
                    Err(e) => (r matches Err(AuthorizationError::Occurrence(e2)) && e2 == e),
                    Ok(carried) => (r matches Ok((d, ev, occ)) && d@ == decision_of(
                        node_eval(policy@, resolution.facts_of()@),
                    ) && ev.records(*resolution, encoded_facts@) && match carried {
                        Some(o) => occ == o,
                        None => occ.id_of() == fresh_id && occ.time_of() == occurrence_check(
                            fresh_id@,
                            occurred_at,
                        )->Ok_0,
                    }),
                },
            },
        },
{
    match check_decision_inputs::<E, A>(context, resolution, required, received_at) {
        Err(e) => return Err(e),
        Ok(_) => {},
    }
    let evidence = match FactResolutionEvidence::from_resolution(resolution, encoded_facts) {
        Err(e) => return Err(AuthorizationError::FactResolutionEvidence(e)),
        Ok(ev) => ev,
    };
    let decision = evaluate(policy, resolution.facts());
    let occurrence = match context.decision_audit_occurrence() {
        Some(o) => o.duplicate(),
        None => match DecisionAuditOccurrence::new(fresh_id, occurred_at) {
            Err(e) => return Err(AuthorizationError::Occurrence(e)),
            Ok(o) => o,
        },
    };
    Ok((decision, evidence, occurrence))
}

} // verus!
