//! Durable audit records of decisions and their consistency rules.
use vstd::prelude::*;

use crate::clock::Timestamp;
use crate::context::{subject_map, Context};
use crate::decision::{Decision, DecisionView, DenyShape, Effect};
use crate::evaluate::{copy_facts, copy_label, copy_obligations, copy_reads, copy_reason};
use crate::facts::Presence;
use crate::identity::{ClauseLabel, FactId, ParamKey, Locale, ObligationId, PolicyHash, PolicyId, ReasonCode, RequestId, SubjectRef, SubjectSlot, TenantId};
use crate::order::{str_eq, strictly_sorted};
use crate::occurrence::{occurrence_validation, DecisionAuditOccurrence, DecisionAuditOccurrenceError};
use crate::reason::{
    copy_trace_value, json_equal, lemma_missing_key_injective, lemma_missing_params, missing_key, missing_params,
    param_keys, param_map, reason_code_of, reason_params, records_clause, trace_values_equal, TraceError, DenialReason, ReasonValue, Trace, TraceClause, TraceValue,
};
use crate::resolution::{FactResolutionError, FactResolutionEvidence};
use crate::tenant::TenantBinding;

verus! {

/// Format version of the policy content hash.
pub const POLICY_HASH_FORMAT_VERSION: u16 = 1;

/// Current durable representation version for decision audit entries.
pub const AUDIT_ENTRY_SCHEMA_VERSION: u16 = 1;

/// Validation failure for a current durable audit entry.
#[derive(Clone, Debug, PartialEq, Eq)]
pub enum AuditEntryError {
    /// The entry uses a schema version this crate does not understand.
    UnsupportedSchemaVersion {
        /// Schema version required by this release.
        expected: u16,
        /// Schema version found in the entry.
        actual: u16,
    },
    /// The policy hash uses a format version this crate does not understand.
    UnsupportedPolicyHashVersion {
        /// Hash format required by this release.
        expected: u16,
        /// Hash format found in the anchor.
        actual: u16,
    },
    /// The entry tenant differs from the tenant carried by its binding.
    BindingTenantMismatch,
    /// The decision occurrence does not satisfy the current durable contract.
    InvalidDecisionOccurrence(DecisionAuditOccurrenceError),
    /// Fact-resolution evidence has an impossible freshness window.
    InvalidFactResolutionEvidence(FactResolutionError),
    /// The duplicated decisive clause disagrees with the complete trace.
    DecisiveTraceMismatch,
    /// The duplicated consulted-fact list disagrees with the complete trace.
    ConsultedTraceMismatch,
    /// The effect disagrees with the decisive trace clause.
    EffectTraceMismatch,
    /// Permit decisions cannot carry a denial reason.
    PermitWithDenialReason,
    /// Deny decisions cannot carry permit-path obligations.
    DenyWithObligations,
    /// The materialized denial reason disagrees with the decisive trace.
    DenialReasonMismatch,
}

/// The error for an anchor whose hash format is not the current one.
pub open spec fn hash_version_error(actual: u16) -> AuditEntryError {
    AuditEntryError::UnsupportedPolicyHashVersion { expected: POLICY_HASH_FORMAT_VERSION, actual }
}

/// Stable policy identity recorded with summaries and audit entries.
#[derive(Debug, PartialEq, Eq)]
pub struct PolicyAnchor {
    id: PolicyId,
    hash: PolicyHash,
    hash_version: u16,
}

impl PolicyAnchor {
    /// The author-assigned policy id.
    pub closed spec fn id_of(&self) -> PolicyId {
        self.id
    }

    /// The derived policy hash.
    pub closed spec fn hash_of(&self) -> PolicyHash {
        self.hash
    }

    /// The format version of the hash.
    pub closed spec fn version_of(&self) -> u16 {
        self.hash_version
    }

    /// Every anchor carries the current hash format.
    #[verifier::type_invariant]
    closed spec fn wf(self) -> bool {
        self.hash_version == POLICY_HASH_FORMAT_VERSION
    }

    /// Constructs an anchor for the current policy-hash format.
    pub fn new(policy_id: PolicyId, policy_hash: PolicyHash) -> (a: Self)
        ensures
            a.id_of() == policy_id,
            a.hash_of() == policy_hash,
            a.version_of() == POLICY_HASH_FORMAT_VERSION,
    {
        PolicyAnchor { id: policy_id, hash: policy_hash, hash_version: POLICY_HASH_FORMAT_VERSION }
    }

    /// Reads back a recorded anchor; only the current hash format is
    /// accepted.
    pub fn from_recorded(policy_id: PolicyId, policy_hash: PolicyHash, hash_version: u16) -> (r: Result<Self, AuditEntryError>)
        ensures
            hash_version == POLICY_HASH_FORMAT_VERSION ==> (r matches Ok(a) && a.id_of() == policy_id && a.hash_of()
                == policy_hash && a.version_of() == hash_version),
            hash_version != POLICY_HASH_FORMAT_VERSION ==> r == Err::<Self, AuditEntryError>(hash_version_error(hash_version)),
    {
        if hash_version != POLICY_HASH_FORMAT_VERSION {
            return Err(AuditEntryError::UnsupportedPolicyHashVersion {
                expected: POLICY_HASH_FORMAT_VERSION,
                actual: hash_version,
            });
        }
        Ok(PolicyAnchor { id: policy_id, hash: policy_hash, hash_version })
    }

    /// Returns the author-assigned policy id.
    pub fn policy_id(&self) -> (id: &PolicyId)
        ensures
            *id == self.id_of(),
    {
        &self.id
    }

    /// Returns the derived policy hash.
    pub fn policy_hash(&self) -> (h: &PolicyHash)
        ensures
            *h == self.hash_of(),
    {
        &self.hash
    }

    /// Returns the format version used to derive the policy hash.
    pub fn policy_hash_version(&self) -> (v: u16)
        ensures
            v == self.version_of(),
            v == POLICY_HASH_FORMAT_VERSION,
    {
        proof {
            use_type_invariant(self);
        }
        self.hash_version
    }

    /// The outcome of checking the anchor's hash format.
    pub open spec fn current_check(&self) -> Result<(), AuditEntryError> {
        if self.version_of() != POLICY_HASH_FORMAT_VERSION {
            Err(hash_version_error(self.version_of()))
        } else {
            Ok(())
        }
    }

    fn validate_current(&self) -> (r: Result<(), AuditEntryError>)
        ensures
            r == self.current_check(),
    {
        if self.hash_version != POLICY_HASH_FORMAT_VERSION {
            return Err(AuditEntryError::UnsupportedPolicyHashVersion {
                expected: POLICY_HASH_FORMAT_VERSION,
                actual: self.hash_version,
            });
        }
        Ok(())
    }

    /// Two anchors name the same policy, hash and hash format.
    pub open spec fn same_as(&self, other: &Self) -> bool {
        self.id_of()@ == other.id_of()@ && self.hash_of()@ == other.hash_of()@ && self.version_of() == other.version_of()
    }

    /// Compares two anchors by content.
    pub fn same(&self, other: &Self) -> (b: bool)
        ensures
            b == self.same_as(other),
    {
        self.id.same(&other.id) && self.hash.same(&other.hash) && self.hash_version == other.hash_version
    }

    /// Returns an identical copy of this anchor.
    pub fn duplicate(&self) -> (a: Self)
        ensures
            a == *self,
    {
        proof {
            use_type_invariant(self);
        }
        PolicyAnchor { id: self.id.duplicate(), hash: self.hash.duplicate(), hash_version: self.hash_version }
    }
}

impl Clone for PolicyAnchor {
    fn clone(&self) -> (a: Self)
        ensures
            a == *self,
    {
        self.duplicate()
    }
}

/// Policy anchor shape retained for explicit migration of historical audit
/// data.
#[derive(Clone, Debug, PartialEq, Eq)]
pub struct LegacyPolicyAnchor {
    /// Author-assigned stable policy id.
    pub policy_id: PolicyId,
    /// Hash recorded by the historical audit representation.
    pub policy_hash: PolicyHash,
}

/// Permit/deny effect without the generic outcome value.
#[derive(Clone, Copy, Debug, PartialEq, Eq, Structural)]
pub enum EffectKind {
    /// Decision permitted.
    Permit,
    /// Decision denied.
    Deny,
}

/// The effect kind of a decision.
pub open spec fn effect_kind_of<O>(d: Decision<O>) -> EffectKind {
    match d.effect {
        Effect::Permit(_) => EffectKind::Permit,
        Effect::Deny => EffectKind::Deny,
    }
}

impl<'a, O> From<&'a Decision<O>> for EffectKind {
    fn from(decision: &'a Decision<O>) -> (k: Self) {
        match decision.effect {
            Effect::Permit(_) => EffectKind::Permit,
            Effect::Deny => EffectKind::Deny,
        }
    }
}

impl<'a, O> vstd::std_specs::convert::FromSpecImpl<&'a Decision<O>> for EffectKind {
    open spec fn obeys_from_spec() -> bool {
        true
    }

    open spec fn from_spec(decision: &'a Decision<O>) -> Self {
        effect_kind_of(*decision)
    }
}

/// Monomorphic observer payload for a decision.
#[derive(Clone, Debug, PartialEq, Eq)]
pub struct DecisionSummary {
    /// Policy version that produced the decision.
    pub anchor: PolicyAnchor,
    /// Permit/deny effect.
    pub effect: EffectKind,
    /// Obligations attached to the decision.
    pub obligations: Vec<ObligationId>,
    /// Facts read by the evaluator.
    pub consulted: Vec<(FactId, Presence)>,
}

/// Two optional serialized outcomes are equal.
pub open spec fn denied_equal(a: Option<TraceValue>, b: Option<TraceValue>) -> bool {
    match (a, b) {
        (None, None) => true,
        (Some(x), Some(y)) => json_equal(x, y),
        _ => false,
    }
}

/// Two serialized decisive clauses are equal, field by field.
pub open spec fn clause_equal(a: TraceClause, b: TraceClause) -> bool {
    match (a, b) {
        (
            TraceClause::Permit { granted: g1, satisfied: s1, label: l1 },
            TraceClause::Permit { granted: g2, satisfied: s2, label: l2 },
        ) => json_equal(g1, g2) && s1.deep_view() == s2.deep_view() && l1.deep_view() == l2.deep_view(),
        (
            TraceClause::Deny { denied: d1, unsatisfied: u1, label: l1, reason: r1, shape: h1 },
            TraceClause::Deny { denied: d2, unsatisfied: u2, label: l2, reason: r2, shape: h2 },
        ) => denied_equal(d1, d2) && u1.deep_view() == u2.deep_view() && l1.deep_view() == l2.deep_view()
            && r1.deep_view() == r2.deep_view() && h1 == h2,
        _ => false,
    }
}

fn facts_equal(a: &Vec<FactId>, b: &Vec<FactId>) -> (r: bool)
    ensures
        r == (a.deep_view() == b.deep_view()),
{
    if a.len() != b.len() {
        assert(a.deep_view().len() != b.deep_view().len());
        return false;
    }
    let mut i: usize = 0;
    while i < a.len()
        invariant
            a@.len() == b@.len(),
            i <= a@.len(),
            forall|k: int| 0 <= k < i ==> a@[k]@ == b@[k]@,
        decreases a@.len() - i,
    {
        if !a[i].same(&b[i]) {
            assert(a.deep_view()[i as int] != b.deep_view()[i as int]);
            return false;
        }
        i = i + 1;
    }
    assert(a.deep_view() =~= b.deep_view());
    true
}

fn reads_equal(a: &Vec<(FactId, Presence)>, b: &Vec<(FactId, Presence)>) -> (r: bool)
    ensures
        r == (a.deep_view() == b.deep_view()),
{
    if a.len() != b.len() {
        assert(a.deep_view().len() != b.deep_view().len());
        return false;
    }
    let mut i: usize = 0;
    while i < a.len()
        invariant
            a@.len() == b@.len(),
            i <= a@.len(),
            forall|k: int| 0 <= k < i ==> a@[k].0@ == b@[k].0@ && a@[k].1 == b@[k].1,
        decreases a@.len() - i,
    {
        if !a[i].0.same(&b[i].0) || a[i].1 != b[i].1 {
            assert(a.deep_view()[i as int] != b.deep_view()[i as int]);
            return false;
        }
        i = i + 1;
    }
    assert(a.deep_view() =~= b.deep_view());
    true
}

fn labels_equal(a: &Option<ClauseLabel>, b: &Option<ClauseLabel>) -> (r: bool)
    ensures
        r == (a.deep_view() == b.deep_view()),
{
    match (a, b) {
        (Some(x), Some(y)) => x.same(y),
        (None, None) => true,
        _ => false,
    }
}

fn reasons_equal(a: &Option<ReasonCode>, b: &Option<ReasonCode>) -> (r: bool)
    ensures
        r == (a.deep_view() == b.deep_view()),
{
    match (a, b) {
        (Some(x), Some(y)) => x.same(y),
        (None, None) => true,
        _ => false,
    }
}

fn clauses_equal(a: &TraceClause, b: &TraceClause) -> (r: bool)
    ensures
        r == clause_equal(*a, *b),
{
    match (a, b) {
        (
            TraceClause::Permit { granted: g1, satisfied: s1, label: l1 },
            TraceClause::Permit { granted: g2, satisfied: s2, label: l2 },
        ) => trace_values_equal(g1, g2) && facts_equal(s1, s2) && labels_equal(l1, l2),
        (
            TraceClause::Deny { denied: d1, unsatisfied: u1, label: l1, reason: r1, shape: h1 },
            TraceClause::Deny { denied: d2, unsatisfied: u2, label: l2, reason: r2, shape: h2 },
        ) => {
            let denied_equal = match (d1, d2) {
                (None, None) => true,
                (Some(x), Some(y)) => trace_values_equal(x, y),
                _ => false,
            };
            denied_equal && facts_equal(u1, u2) && labels_equal(l1, l2) && reasons_equal(r1, r2) && *h1 == *h2
        },
        _ => false,
    }
}

/// Position of the last parameter with key `k`, or -1.
pub open spec fn last_pos(s: Seq<(crate::identity::ParamKey, ReasonValue)>, k: Seq<char>) -> int
    decreases s.len(),
{
    if s.len() == 0 {
        -1
    } else if s.last().0@ == k {
        s.len() - 1
    } else {
        last_pos(s.drop_last(), k)
    }
}

/// Number of distinct keys among parameters.
pub open spec fn key_count(s: Seq<(crate::identity::ParamKey, ReasonValue)>) -> nat
    decreases s.len(),
{
    if s.len() == 0 {
        0
    } else {
        key_count(s.drop_last()) + if last_pos(s.drop_last(), s.last().0@) >= 0 {
            0nat
        } else {
            1nat
        }
    }
}

/// The parameter recorded under `k`, when a later one does not replace it.
pub open spec fn param_at(s: Seq<(crate::identity::ParamKey, ReasonValue)>, k: Seq<char>) -> Option<ReasonValue> {
    if last_pos(s, k) >= 0 {
        Some(s[last_pos(s, k)].1)
    } else {
        None
    }
}

/// The parameter for the `i`-th failed fact names that fact.
pub open spec fn fact_param_ok(params: Seq<(crate::identity::ParamKey, ReasonValue)>, unsatisfied: Seq<FactId>, i: int) -> bool {
    param_at(params, missing_key(i as nat)) matches Some(ReasonValue::Fact(f)) && f@ == unsatisfied[i]@
}

/// The code a denial reason must carry for a decisive denial: its reason
/// code, else its label.
pub open spec fn expected_code(d: TraceClause) -> Option<Seq<char>> {
    match d {
        TraceClause::Deny { reason: Some(r), .. } => Some(r@),
        TraceClause::Deny { reason: None, label: Some(l), .. } => Some(l@),
        _ => None,
    }
}

/// Whether a materialized denial reason agrees with a decisive clause: the
/// same code and shape, exactly one parameter per failed fact under
/// `missing_fact`, `missing_fact_1`, ..., plus `denied_outcome` when the
/// clause names one.
pub open spec fn reason_matches(reason: Option<DenialReason>, d: TraceClause) -> bool {
    match d {
        TraceClause::Deny { denied, unsatisfied, shape, .. } => match expected_code(d) {
            None => reason is None,
            Some(code) => match reason {
                None => false,
                Some(r) => {
                    let extra: int = if denied is Some {
                        1
                    } else {
                        0
                    };
                    &&& r.code@ == code
                    &&& r.shape == shape
                    &&& unsatisfied.len() + extra <= usize::MAX
                    &&& key_count(r.params@) == unsatisfied.len() + extra
                    &&& forall|i: int| 0 <= i < unsatisfied.len() ==> #[trigger] fact_param_ok(r.params@, unsatisfied@, i)
                    &&& denied matches Some(v) ==> (param_at(r.params@, "denied_outcome"@) matches Some(
                        ReasonValue::Outcome(w),
                    ) && json_equal(w, v))
                },
            },
        },
        _ => reason is None,
    }
}

/// The outcome of checking the denormalized decision fields of an entry.
pub open spec fn semantics_check(
    effect: EffectKind,
    obligations: Seq<ObligationId>,
    consulted: Seq<(Seq<char>, Presence)>,
    decisive: TraceClause,
    denial_reason: Option<DenialReason>,
    trace: Trace,
) -> Result<(), AuditEntryError> {
    if !clause_equal(decisive, trace.decisive) {
        Err(AuditEntryError::DecisiveTraceMismatch)
    } else if consulted != trace.consulted.deep_view() {
        Err(AuditEntryError::ConsultedTraceMismatch)
    } else {
        match (effect, decisive) {
            (EffectKind::Permit, TraceClause::Permit { .. }) => if denial_reason is Some {
                Err(AuditEntryError::PermitWithDenialReason)
            } else {
                Ok(())
            },
            (EffectKind::Deny, TraceClause::Deny { .. }) => if obligations.len() > 0 {
                Err(AuditEntryError::DenyWithObligations)
            } else if !reason_matches(denial_reason, decisive) {
                Err(AuditEntryError::DenialReasonMismatch)
            } else {
                Ok(())
            },
            _ => Err(AuditEntryError::EffectTraceMismatch),
        }
    }
}

/// Finds the last parameter with a key.
fn find_last(params: &Vec<(crate::identity::ParamKey, ReasonValue)>, key: &str) -> (r: Option<usize>)
    ensures
        match r {
            Some(i) => i == last_pos(params@, key@) && i < params@.len(),
            None => last_pos(params@, key@) == -1,
        },
{
    let mut i: usize = params.len();
    assert(params@.take(i as int) =~= params@);
    while i > 0
        invariant
            i <= params@.len(),
            last_pos(params@, key@) == last_pos(params@.take(i as int), key@),
        decreases i,
    {
        let ghost t = params@.take(i as int);
        assert(t.drop_last() =~= params@.take(i - 1));
        if str_eq(params[i - 1].0.as_str(), key) {
            assert(t.last().0@ == key@);
            return Some(i - 1);
        }
        i = i - 1;
    }
    None
}

/// Counts the distinct keys among parameters.
fn count_keys(params: &Vec<(crate::identity::ParamKey, ReasonValue)>) -> (n: usize)
    ensures
        n == key_count(params@),
{
    let mut n: usize = 0;
    let mut i: usize = 0;
    while i < params.len()
        invariant
            i <= params@.len(),
            n == key_count(params@.take(i as int)),
            n <= i,
        decreases params@.len() - i,
    {
        let ghost t = params@.take(i + 1);
        assert(t.drop_last() =~= params@.take(i as int));
        let mut j: usize = i;
        let mut seen = false;
        while j > 0
            invariant
                j <= i < params@.len(),
                t == params@.take(i + 1),
                !seen ==> last_pos(params@.take(i as int), params@[i as int].0@) == last_pos(
                    params@.take(j as int),
                    params@[i as int].0@,
                ),
                seen ==> last_pos(params@.take(i as int), params@[i as int].0@) >= 0,
            decreases j,
        {
            let ghost u = params@.take(j as int);
            assert(u.drop_last() =~= params@.take(j - 1));
            if !seen && params[j - 1].0.same(&params[i].0) {
                seen = true;
                assert(last_pos(u, params@[i as int].0@) == j - 1);
            }
            j = j - 1;
        }
        if !seen {
            n = n + 1;
        }
        i = i + 1;
    }
    assert(params@.take(params@.len() as int) =~= params@);
    n
}

/// Whether a parameter names the fact `f`.
fn is_fact_param(v: &ReasonValue, f: &FactId) -> (b: bool)
    ensures
        b == (*v matches ReasonValue::Fact(g) && g@ == f@),
{
    match v {
        ReasonValue::Fact(g) => g.same(f),
        _ => false,
    }
}

/// Whether a materialized denial reason agrees with the decisive clause.
#[verifier::loop_isolation(false)]
fn denial_reason_matches_trace(reason: Option<&DenialReason>, decisive: &TraceClause) -> (b: bool)
    ensures
        b == reason_matches(
            match reason {
                Some(r) => Some(*r),
                None => None,
            },
            *decisive,
        ),
{
    let (denied, unsatisfied, label, reason_code, shape) = match decisive {
        TraceClause::Deny { denied, unsatisfied, label, reason, shape } => (denied, unsatisfied, label, reason, shape),
        TraceClause::Permit { .. } => return reason.is_none(),
    };
    let expected: &str = match (reason_code, label) {
        (Some(r), _) => r.as_str(),
        (None, Some(l)) => l.as_str(),
        (None, None) => return reason.is_none(),
    };
    let reason = match reason {
        Some(r) => r,
        None => return false,
    };
    if !str_eq(reason.code.as_str(), expected) || reason.shape != *shape {
        return false;
    }
    let extra: usize = if denied.is_some() {
        1
    } else {
        0
    };
    let wanted = match unsatisfied.len().checked_add(extra) {
        Some(w) => w,
        None => return false,
    };
    if count_keys(&reason.params) != wanted {
        return false;
    }
    let mut index: usize = 0;
    while index < unsatisfied.len()
        invariant
            index <= unsatisfied@.len(),
            forall|i: int| 0 <= i < index ==> #[trigger] fact_param_ok(reason.params@, unsatisfied@, i),
        decreases unsatisfied@.len() - index,
    {
        let key = if index == 0 {
            String::from_str("missing_fact")
        } else {
            let mut text = String::from_str("missing_fact_");
            let digits = crate::reason::decimal_string(index);
            text.append(digits.as_str());
            text
        };
        proof {
            reveal_strlit("missing_fact");
            reveal_strlit("missing_fact_");
            assert(key@ == missing_key(index as nat));
        }
        match find_last(&reason.params, key.as_str()) {
            Some(p) => if !is_fact_param(&reason.params[p].1, &unsatisfied[index]) {
                assert(!fact_param_ok(reason.params@, unsatisfied@, index as int));
                return false;
            },
            None => {
                assert(!fact_param_ok(reason.params@, unsatisfied@, index as int));
                return false;
            },
        }
        index = index + 1;
    }
    match denied {
        Some(value) => {
            let found = find_last(&reason.params, "denied_outcome");
            proof {
                reveal_strlit("denied_outcome");
            }
            match found {
                Some(p) => match &reason.params[p].1 {
                    ReasonValue::Outcome(w) => trace_values_equal(w, value),
                    _ => false,
                },
                None => false,
            }
        },
        None => true,
    }
}

/// Checks consistency between the denormalized decision fields.
fn validate_audit_semantics(
    effect: EffectKind,
    obligations: &Vec<ObligationId>,
    consulted: &Vec<(FactId, Presence)>,
    decisive: &TraceClause,
    denial_reason: Option<&DenialReason>,
    trace: &Trace,
) -> (r: Result<(), AuditEntryError>)
    ensures
        r == semantics_check(
            effect,
            obligations@,
            consulted.deep_view(),
            *decisive,
            match denial_reason {
                Some(d) => Some(*d),
                None => None,
            },
            *trace,
        ),
{
    if !clauses_equal(decisive, &trace.decisive) {
        return Err(AuditEntryError::DecisiveTraceMismatch);
    }
    if !reads_equal(consulted, &trace.consulted) {
        return Err(AuditEntryError::ConsultedTraceMismatch);
    }
    match (effect, decisive) {
        (EffectKind::Permit, TraceClause::Permit { .. }) => {
            if denial_reason.is_some() {
                return Err(AuditEntryError::PermitWithDenialReason);
            }
        },
        (EffectKind::Deny, TraceClause::Deny { .. }) => {
            if obligations.len() > 0 {
                return Err(AuditEntryError::DenyWithObligations);
            }
            if !denial_reason_matches_trace(denial_reason, decisive) {
                return Err(AuditEntryError::DenialReasonMismatch);
            }
        },
        _ => return Err(AuditEntryError::EffectTraceMismatch),
    }
    Ok(())
}

} // verus!
verus! {

/// `a` is a copy of `b`: the same variant with equal values and lists.
pub open spec fn clause_copy(a: TraceClause, b: TraceClause) -> bool {
    match (a, b) {
        (
            TraceClause::Permit { granted: g1, satisfied: s1, label: l1 },
            TraceClause::Permit { granted: g2, satisfied: s2, label: l2 },
        ) => g1 == g2 && s1.deep_view() == s2.deep_view() && l1.deep_view() == l2.deep_view(),
        (
            TraceClause::Deny { denied: d1, unsatisfied: u1, label: l1, reason: r1, shape: h1 },
            TraceClause::Deny { denied: d2, unsatisfied: u2, label: l2, reason: r2, shape: h2 },
        ) => d1 == d2 && u1.deep_view() == u2.deep_view() && l1.deep_view() == l2.deep_view() && r1.deep_view()
            == r2.deep_view() && h1 == h2,
        _ => false,
    }
}

/// A copy of a serialized decisive clause.
pub(crate) fn copy_clause(c: &TraceClause) -> (r: TraceClause)
    ensures
        clause_copy(r, *c),
        clause_equal(r, *c),
{
    match c {
        TraceClause::Permit { granted, satisfied, label } => TraceClause::Permit {
            granted: copy_trace_value(granted),
            satisfied: copy_facts(satisfied),
            label: copy_label(label),
        },
        TraceClause::Deny { denied, unsatisfied, label, reason, shape } => TraceClause::Deny {
            denied: match denied {
                Some(v) => Some(copy_trace_value(v)),
                None => None,
            },
            unsatisfied: copy_facts(unsatisfied),
            label: copy_label(label),
            reason: copy_reason(reason),
            shape: *shape,
        },
    }
}

/// The outcome of checking the recorded parts of a current entry: the
/// anchor's hash format, the binding's tenant, the evidence window, then the
/// denormalized decision fields.
pub open spec fn record_check(
    anchor: PolicyAnchor,
    binding: TenantBinding,
    evidence: FactResolutionEvidence,
    tenant: TenantId,
    effect: EffectKind,
    obligations: Seq<ObligationId>,
    consulted: Seq<(Seq<char>, Presence)>,
    decisive: TraceClause,
    denial_reason: Option<DenialReason>,
    trace: Trace,
) -> Result<(), AuditEntryError> {
    if anchor.current_check() is Err {
        anchor.current_check()
    } else if binding.tenant_of()@ != tenant@ {
        Err(AuditEntryError::BindingTenantMismatch)
    } else if evidence.window_check() is Err {
        Err(AuditEntryError::InvalidFactResolutionEvidence(evidence.window_check()->Err_0))
    } else {
        semantics_check(effect, obligations, consulted, decisive, denial_reason, trace)
    }
}

/// Durable audit payload for a decision.
#[derive(Debug)]
pub struct AuditEntry {
    schema_version: u16,
    decision_audit_id: crate::identity::DecisionAuditId,
    occurred_at: Timestamp,
    request_id: Option<RequestId>,
    anchor: PolicyAnchor,
    effect: EffectKind,
    obligations: Vec<ObligationId>,
    consulted: Vec<(FactId, Presence)>,
    decisive: TraceClause,
    denial_reason: Option<DenialReason>,
    trace: Trace,
    binding: TenantBinding,
    fact_resolution: FactResolutionEvidence,
    tenant: TenantId,
    principal: SubjectRef,
    subjects: Vec<(SubjectSlot, SubjectRef)>,
    locale: Locale,
}

impl AuditEntry {
    /// The durable schema version.
    pub closed spec fn schema_of(&self) -> u16 {
        self.schema_version
    }

    /// The stable decision identity.
    pub closed spec fn id_of(&self) -> crate::identity::DecisionAuditId {
        self.decision_audit_id
    }

    /// The occurrence time.
    pub closed spec fn time_of(&self) -> Timestamp {
        self.occurred_at
    }

    /// The request identifier, if any.
    pub closed spec fn request_of(&self) -> Option<RequestId> {
        self.request_id
    }

    /// The policy anchor.
    pub closed spec fn anchor_of(&self) -> PolicyAnchor {
        self.anchor
    }

    /// The permit or deny effect.
    pub closed spec fn effect_of(&self) -> EffectKind {
        self.effect
    }

    /// The obligations of the selected path.
    pub closed spec fn obligations_of(&self) -> Seq<ObligationId> {
        self.obligations@
    }

    /// The obligations of the selected path, by text.
    pub closed spec fn obligation_texts(&self) -> Seq<Seq<char>> {
        self.obligations.deep_view()
    }

    /// The consulted facts, by text.
    pub closed spec fn consulted_of(&self) -> Seq<(Seq<char>, Presence)> {
        self.consulted.deep_view()
    }

    /// The decisive clause.
    pub closed spec fn decisive_of(&self) -> TraceClause {
        self.decisive
    }

    /// The denial reason, if any.
    pub closed spec fn reason_of(&self) -> Option<DenialReason> {
        self.denial_reason
    }

    /// The complete trace.
    pub closed spec fn trace_of(&self) -> Trace {
        self.trace
    }

    /// The tenant binding.
    pub closed spec fn binding_of(&self) -> TenantBinding {
        self.binding
    }

    /// The fact-resolution evidence.
    pub closed spec fn evidence_of(&self) -> FactResolutionEvidence {
        self.fact_resolution
    }

    /// The tenant.
    pub closed spec fn tenant_of(&self) -> TenantId {
        self.tenant
    }

    /// The principal.
    pub closed spec fn principal_of(&self) -> SubjectRef {
        self.principal
    }

    /// The named subjects.
    pub closed spec fn subjects_of(&self) -> Seq<(SubjectSlot, SubjectRef)> {
        self.subjects@
    }

    /// The presentation locale.
    pub closed spec fn locale_of(&self) -> Locale {
        self.locale
    }

    /// The outcome of checking that the decision fields agree.
    pub open spec fn semantics(&self) -> Result<(), AuditEntryError> {
        semantics_check(
            self.effect_of(),
            self.obligations_of(),
            self.consulted_of(),
            self.decisive_of(),
            self.reason_of(),
            self.trace_of(),
        )
    }

    /// The outcome of checking that the entry is safe to persist.
    pub open spec fn current(&self) -> Result<(), AuditEntryError> {
        if self.schema_of() != AUDIT_ENTRY_SCHEMA_VERSION {
            Err(AuditEntryError::UnsupportedSchemaVersion { expected: AUDIT_ENTRY_SCHEMA_VERSION, actual: self.schema_of() })
        } else if occurrence_validation(self.id_of(), self.time_of()) is Err {
            Err(AuditEntryError::InvalidDecisionOccurrence(occurrence_validation(self.id_of(), self.time_of())->Err_0))
        } else {
            record_check(
                self.anchor_of(),
                self.binding_of(),
                self.evidence_of(),
                self.tenant_of(),
                self.effect_of(),
                self.obligations_of(),
                self.consulted_of(),
                self.decisive_of(),
                self.reason_of(),
                self.trace_of(),
            )
        }
    }

    /// Constructs a current audit entry from a validated occurrence, the
    /// decision fields, the binding and the fact-resolution evidence; the
    /// entry is then checked as `validate_current` checks it.
    pub fn new(
        occurrence: DecisionAuditOccurrence,
        request_id: Option<RequestId>,
        anchor: PolicyAnchor,
        effect: EffectKind,
        obligations: Vec<ObligationId>,
        consulted: Vec<(FactId, Presence)>,
        decisive: TraceClause,
        denial_reason: Option<DenialReason>,
        trace: Trace,
        binding: TenantBinding,
        fact_resolution: FactResolutionEvidence,
        tenant: TenantId,
        principal: SubjectRef,
        subjects: Vec<(SubjectSlot, SubjectRef)>,
        locale: Locale,
    ) -> (r: Result<Self, AuditEntryError>)
        ensures
            match occurrence_validation(occurrence.id_of(), occurrence.time_of()) {
                Err(e) => r == Err::<Self, AuditEntryError>(AuditEntryError::InvalidDecisionOccurrence(e)),
                Ok(_) => match record_check(
                    anchor,
                    binding,
                    fact_resolution,
                    tenant,
                    effect,
                    obligations@,
                    consulted.deep_view(),
                    decisive,
                    denial_reason,
                    trace,
                ) {
                    Err(e) => r == Err::<Self, AuditEntryError>(e),
                    Ok(_) => r matches Ok(entry) && entry.current() is Ok && entry.id_of() == occurrence.id_of()
                        && entry.time_of() == occurrence.time_of() && entry.request_of() == request_id
                        && entry.anchor_of() == anchor && entry.effect_of() == effect && entry.obligations_of()
                        == obligations@ && entry.consulted_of() == consulted.deep_view() && entry.decisive_of()
                        == decisive && entry.reason_of() == denial_reason && entry.trace_of() == trace
                        && entry.binding_of() == binding && entry.evidence_of() == fact_resolution
                        && entry.tenant_of() == tenant && entry.principal_of() == principal
                        && entry.subjects_of() == subjects@ && entry.locale_of() == locale,
                },
            },
    {
        match occurrence.validate() {
            Err(e) => return Err(AuditEntryError::InvalidDecisionOccurrence(e)),
            Ok(_) => {},
        }
        let (decision_audit_id, occurred_at) = occurrence.into_parts();
        let entry = AuditEntry {
            schema_version: AUDIT_ENTRY_SCHEMA_VERSION,
            decision_audit_id,
            occurred_at,
            request_id,
            anchor,
            effect,
            obligations,
            consulted,
            decisive,
            denial_reason,
            trace,
            binding,
            fact_resolution,
            tenant,
            principal,
            subjects,
            locale,
        };
        match entry.validate_current() {
            Err(e) => Err(e),
            Ok(_) => Ok(entry),
        }
    }

    /// Reads back a recorded entry: the schema version must be the current
    /// one, the recorded identity and time must form a valid occurrence, and
    /// the entry is then constructed as `new` constructs it.
    pub fn from_recorded(
        schema_version: u16,
        decision_audit_id: crate::identity::DecisionAuditId,
        occurred_at: Timestamp,
        request_id: Option<RequestId>,
        anchor: PolicyAnchor,
        effect: EffectKind,
        obligations: Vec<ObligationId>,
        consulted: Vec<(FactId, Presence)>,
        decisive: TraceClause,
        denial_reason: Option<DenialReason>,
        trace: Trace,
        binding: TenantBinding,
        fact_resolution: FactResolutionEvidence,
        tenant: TenantId,
        principal: SubjectRef,
        subjects: Vec<(SubjectSlot, SubjectRef)>,
        locale: Locale,
    ) -> (r: Result<Self, AuditEntryError>)
        ensures
            schema_version != AUDIT_ENTRY_SCHEMA_VERSION ==> r == Err::<Self, AuditEntryError>(
                AuditEntryError::UnsupportedSchemaVersion { expected: AUDIT_ENTRY_SCHEMA_VERSION, actual: schema_version },
            ),
            schema_version == AUDIT_ENTRY_SCHEMA_VERSION ==> match crate::occurrence::occurrence_check(
                decision_audit_id@,
                occurred_at,
            ) {
                Err(e) => r == Err::<Self, AuditEntryError>(AuditEntryError::InvalidDecisionOccurrence(e)),
                Ok(t) => match record_check(
                    anchor,
                    binding,
                    fact_resolution,
                    tenant,
                    effect,
                    obligations@,
                    consulted.deep_view(),
                    decisive,
                    denial_reason,
                    trace,
                ) {
                    Err(e) => r == Err::<Self, AuditEntryError>(e),
                    Ok(_) => r matches Ok(entry) && entry.current() is Ok && entry.id_of() == decision_audit_id
                        && entry.time_of() == t && entry.request_of() == request_id && entry.anchor_of() == anchor
                        && entry.effect_of() == effect && entry.obligations_of() == obligations@
                        && entry.consulted_of() == consulted.deep_view() && entry.decisive_of() == decisive
                        && entry.reason_of() == denial_reason && entry.trace_of() == trace && entry.binding_of()
                        == binding && entry.evidence_of() == fact_resolution && entry.tenant_of() == tenant
                        && entry.principal_of() == principal && entry.subjects_of() == subjects@
                        && entry.locale_of() == locale,
                },
            },
    {
        if schema_version != AUDIT_ENTRY_SCHEMA_VERSION {
            return Err(AuditEntryError::UnsupportedSchemaVersion { expected: AUDIT_ENTRY_SCHEMA_VERSION, actual: schema_version });
        }
        let ghost id = decision_audit_id;
        let occurrence = match DecisionAuditOccurrence::new(decision_audit_id, occurred_at) {
            Err(e) => return Err(AuditEntryError::InvalidDecisionOccurrence(e)),
            Ok(o) => o,
        };
        proof {
            crate::laws::law_occurrence_revalidates(id, occurred_at);
        }
        AuditEntry::new(
            occurrence,
            request_id,
            anchor,
            effect,
            obligations,
            consulted,
            decisive,
            denial_reason,
            trace,
            binding,
            fact_resolution,
            tenant,
            principal,
            subjects,
            locale,
        )
    }

    /// Validates that this entry is safe to persist as a current decision:
    /// schema version, occurrence, anchor format, binding tenant, evidence
    /// window, then the agreement of the decision fields.
    pub fn validate_current(&self) -> (r: Result<(), AuditEntryError>)
        ensures
            r == self.current(),
    {
        if self.schema_version != AUDIT_ENTRY_SCHEMA_VERSION {
            return Err(AuditEntryError::UnsupportedSchemaVersion {
                expected: AUDIT_ENTRY_SCHEMA_VERSION,
                actual: self.schema_version,
            });
        }
        let occurrence = DecisionAuditOccurrence::from_parts(self.decision_audit_id.duplicate(), self.occurred_at);
        match occurrence.validate() {
            Err(e) => return Err(AuditEntryError::InvalidDecisionOccurrence(e)),
            Ok(_) => {},
        }
        match self.anchor.validate_current() {
            Err(e) => return Err(e),
            Ok(_) => {},
        }
        if !self.binding.tenant().same(&self.tenant) {
            return Err(AuditEntryError::BindingTenantMismatch);
        }
        match self.fact_resolution.validate() {
            Err(e) => return Err(AuditEntryError::InvalidFactResolutionEvidence(e)),
            Ok(_) => {},
        }
        self.validate_semantics()
    }

    /// Validates consistency between the denormalized decision fields: the
    /// decisive clause and consulted facts against the trace, the effect
    /// against the clause, and the obligations and denial reason against the
    /// effect.
    pub fn validate_semantics(&self) -> (r: Result<(), AuditEntryError>)
        ensures
            r == self.semantics(),
    {
        validate_audit_semantics(
            self.effect,
            &self.obligations,
            &self.consulted,
            &self.decisive,
            self.denial_reason.as_ref(),
            &self.trace,
        )
    }

    /// Returns the current durable audit schema version.
    pub fn schema_version(&self) -> (v: u16)
        ensures
            v == self.schema_of(),
    {
        self.schema_version
    }

    /// Returns the stable identity and occurrence time as one value.
    pub fn occurrence(&self) -> (o: DecisionAuditOccurrence)
        ensures
            o.id_of() == self.id_of(),
            o.time_of() == self.time_of(),
    {
        DecisionAuditOccurrence::from_parts(self.decision_audit_id.duplicate(), self.occurred_at)
    }

    /// Returns the stable decision identity.
    pub fn decision_audit_id(&self) -> (id: &crate::identity::DecisionAuditId)
        ensures
            *id == self.id_of(),
    {
        &self.decision_audit_id
    }

    /// Returns the authoritative decision occurrence time.
    pub fn occurred_at(&self) -> (t: Timestamp)
        ensures
            t == self.time_of(),
    {
        self.occurred_at
    }

    /// Returns the optional request identifier.
    pub fn request_id(&self) -> (r: Option<&RequestId>)
        ensures
            r == match self.request_of() {
                Some(v) => Some(&v),
                None => None::<&RequestId>,
            },
    {
        self.request_id.as_ref()
    }

    /// Returns the policy anchor.
    pub fn anchor(&self) -> (a: &PolicyAnchor)
        ensures
            *a == self.anchor_of(),
    {
        &self.anchor
    }

    /// Returns the permit or deny effect.
    pub fn effect(&self) -> (e: EffectKind)
        ensures
            e == self.effect_of(),
    {
        self.effect
    }

    /// Returns obligations attached to the selected policy path.
    pub fn obligations(&self) -> (o: &[ObligationId])
        ensures
            o@ == self.obligations_of(),
    {
        self.obligations.as_slice()
    }

    /// Returns facts consulted by evaluation.
    pub fn consulted(&self) -> (c: &Vec<(FactId, Presence)>)
        ensures
            c.deep_view() == self.consulted_of(),
    {
        &self.consulted
    }

    /// Returns the decisive trace clause.
    pub fn decisive(&self) -> (d: &TraceClause)
        ensures
            *d == self.decisive_of(),
    {
        &self.decisive
    }

    /// Returns the structured denial reason, when present.
    pub fn denial_reason(&self) -> (d: Option<&DenialReason>)
        ensures
            d == match self.reason_of() {
                Some(v) => Some(&v),
                None => None::<&DenialReason>,
            },
    {
        self.denial_reason.as_ref()
    }

    /// Returns the complete durable decision trace.
    pub fn trace(&self) -> (t: &Trace)
        ensures
            *t == self.trace_of(),
    {
        &self.trace
    }

    /// Returns the tenant binding used by the decision.
    pub fn binding(&self) -> (b: &TenantBinding)
        ensures
            *b == self.binding_of(),
    {
        &self.binding
    }

    /// Returns bounded evidence for the complete resolved fact set.
    pub fn fact_resolution(&self) -> (e: &FactResolutionEvidence)
        ensures
            *e == self.evidence_of(),
    {
        &self.fact_resolution
    }

    /// Returns the tenant selected by the application.
    pub fn tenant(&self) -> (t: &TenantId)
        ensures
            *t == self.tenant_of(),
    {
        &self.tenant
    }

    /// Returns the principal selected by the application.
    pub fn principal(&self) -> (p: &SubjectRef)
        ensures
            *p == self.principal_of(),
    {
        &self.principal
    }

    /// Returns named request subjects.
    pub fn subjects(&self) -> (s: &[(SubjectSlot, SubjectRef)])
        ensures
            s@ == self.subjects_of(),
    {
        self.subjects.as_slice()
    }

    /// Returns the request presentation locale.
    pub fn locale(&self) -> (l: &Locale)
        ensures
            *l == self.locale_of(),
    {
        &self.locale
    }
}

} // verus!
verus! {

/// Historical audit shape used only by an explicit migration decoder.
///
/// Its optional binding and fact evidence mirror historical payloads so
/// migration code can inspect and map them deliberately; it is never
/// accepted where a current entry is required.
#[derive(Debug)]
pub struct LegacyAuditEntry {
    /// Historical decision identity as it appeared in the source record.
    pub decision_audit_id: String,
    /// Historical decision occurrence time.
    pub occurred_at: Timestamp,
    /// Request identifier supplied by the historical application boundary.
    pub request_id: Option<RequestId>,
    /// Historical policy anchor without a hash-format marker.
    pub anchor: LegacyPolicyAnchor,
    /// Permit/deny effect.
    pub effect: EffectKind,
    /// Obligations attached to the decision.
    pub obligations: Vec<ObligationId>,
    /// Facts read by the evaluator.
    pub consulted: Vec<(FactId, Presence)>,
    /// Clause that fixed the decision effect.
    pub decisive: TraceClause,
    /// Structured denial reason for deny decisions.
    pub denial_reason: Option<DenialReason>,
    /// Durable decision trace.
    pub trace: Trace,
    /// Historical tenant binding, when the source contained one.
    pub binding: Option<TenantBinding>,
    /// Historical fact-set evidence, when the source contained one.
    pub fact_resolution: Option<FactResolutionEvidence>,
    /// Tenant selected by the historical application.
    pub tenant: TenantId,
    /// Principal selected by the historical application.
    pub principal: SubjectRef,
    /// Named request subjects selected by the historical application.
    pub subjects: Vec<(SubjectSlot, SubjectRef)>,
    /// Locale carried by the historical request context.
    pub locale: Locale,
}

impl LegacyAuditEntry {
    /// The outcome of checking the historical decision fields.
    pub open spec fn semantics(&self) -> Result<(), AuditEntryError> {
        semantics_check(
            self.effect,
            self.obligations@,
            self.consulted.deep_view(),
            self.decisive,
            self.denial_reason,
            self.trace,
        )
    }

    /// Validates only the semantic fields retained by the historical shape.
    pub fn validate_semantics(&self) -> (r: Result<(), AuditEntryError>)
        ensures
            r == self.semantics(),
    {
        validate_audit_semantics(
            self.effect,
            &self.obligations,
            &self.consulted,
            &self.decisive,
            self.denial_reason.as_ref(),
            &self.trace,
        )
    }

    /// Imports this historical record after the caller supplies the current
    /// binding, evidence, occurrence and the known historical hash format.
    ///
    /// The supplied occurrence determines the new current identity; the
    /// historical identity remains migration provenance only.
    pub fn into_current(
        self,
        occurrence: DecisionAuditOccurrence,
        policy_hash_version: u16,
        binding: TenantBinding,
        fact_resolution: FactResolutionEvidence,
    ) -> (r: Result<AuditEntry, AuditEntryError>)
        ensures
            self.semantics() is Err ==> r == Err::<AuditEntry, AuditEntryError>(self.semantics()->Err_0),
            self.semantics() is Ok && policy_hash_version != POLICY_HASH_FORMAT_VERSION ==> r == Err::<
                AuditEntry,
                AuditEntryError,
            >(hash_version_error(policy_hash_version)),
            self.semantics() is Ok && policy_hash_version == POLICY_HASH_FORMAT_VERSION ==> match occurrence_validation(
                occurrence.id_of(),
                occurrence.time_of(),
            ) {
                Err(e) => r == Err::<AuditEntry, AuditEntryError>(AuditEntryError::InvalidDecisionOccurrence(e)),
                Ok(_) => {
                    &&& binding.tenant_of()@ != self.tenant@ ==> r == Err::<AuditEntry, AuditEntryError>(
                        AuditEntryError::BindingTenantMismatch,
                    )
                    &&& binding.tenant_of()@ == self.tenant@ && fact_resolution.window_check() is Err ==> r == Err::<
                        AuditEntry,
                        AuditEntryError,
                    >(AuditEntryError::InvalidFactResolutionEvidence(fact_resolution.window_check()->Err_0))
                    &&& binding.tenant_of()@ == self.tenant@ && fact_resolution.window_check() is Ok ==> (r matches Ok(
                        entry,
                    ) && entry.current() is Ok && entry.id_of() == occurrence.id_of() && entry.time_of()
                        == occurrence.time_of() && entry.anchor_of().id_of() == self.anchor.policy_id
                        && entry.anchor_of().hash_of() == self.anchor.policy_hash && entry.effect_of() == self.effect
                        && entry.obligations_of() == self.obligations@ && entry.consulted_of()
                        == self.consulted.deep_view() && entry.decisive_of() == self.decisive && entry.reason_of()
                        == self.denial_reason && entry.trace_of() == self.trace && entry.binding_of() == binding
                        && entry.evidence_of() == fact_resolution && entry.tenant_of() == self.tenant
                        && entry.principal_of() == self.principal && entry.subjects_of() == self.subjects@
                        && entry.locale_of() == self.locale && entry.request_of() == self.request_id)
                },
            },
    {
        match self.validate_semantics() {
            Err(e) => return Err(e),
            Ok(_) => {},
        }
        if policy_hash_version != POLICY_HASH_FORMAT_VERSION {
            return Err(AuditEntryError::UnsupportedPolicyHashVersion {
                expected: POLICY_HASH_FORMAT_VERSION,
                actual: policy_hash_version,
            });
        }
        let LegacyAuditEntry {
            decision_audit_id: _,
            occurred_at: _,
            request_id,
            anchor,
            effect,
            obligations,
            consulted,
            decisive,
            denial_reason,
            trace,
            binding: _,
            fact_resolution: _,
            tenant,
            principal,
            subjects,
            locale,
        } = self;
        AuditEntry::new(
            occurrence,
            request_id,
            PolicyAnchor::new(anchor.policy_id, anchor.policy_hash),
            effect,
            obligations,
            consulted,
            decisive,
            denial_reason,
            trace,
            binding,
            fact_resolution,
            tenant,
            principal,
            subjects,
            locale,
        )
    }
}

/// The identity error that refuses a decision's denial reason, if any.
pub open spec fn reason_error<O>(d: Decision<O>) -> Option<crate::identity::GatekeepError> {
    if d@.effect is Deny {
        match reason_code_of(d@.decisive) {
            Some(Err(e)) => Some(e),
            _ => None,
        }
    } else {
        None
    }
}

/// Failure while turning a decision into a current audit entry.
#[derive(Debug)]
pub enum AuditConstructionError {
    /// The denial reason could not be built from the decisive clause.
    Trace(TraceError),
    /// The assembled entry failed its current invariants.
    Entry(AuditEntryError),
}

impl AuditEntry {
    /// Builds the current audit entry for a decision made in `context`.
    ///
    /// `outcome` is the serialized outcome of the decisive clause, as
    /// `Decision::to_trace` takes it. The trace and the denial reason are
    /// built from the decision; the request id, binding, tenant, principal,
    /// subjects and locale come from the context.
    pub fn from_decision<O>(
        occurrence: DecisionAuditOccurrence,
        anchor: PolicyAnchor,
        decision: &Decision<O>,
        context: &Context,
        fact_resolution: FactResolutionEvidence,
        outcome: TraceValue,
    ) -> (r: Result<AuditEntry, AuditConstructionError>)
        ensures
            match reason_error(*decision) {
                Some(e) => (r matches Err(AuditConstructionError::Trace(TraceError::Identity(e2))) && e2 == e),
                None => match occurrence_validation(occurrence.id_of(), occurrence.time_of()) {
                    Err(e) => (r matches Err(AuditConstructionError::Entry(AuditEntryError::InvalidDecisionOccurrence(e2)))
                        && e2 == e),
                    Ok(_) => match anchor.current_check() {
                        Err(e) => (r matches Err(AuditConstructionError::Entry(e2)) && e2 == e),
                        Ok(_) => match fact_resolution.window_check() {
                            Err(e) => (r matches Err(
                                AuditConstructionError::Entry(AuditEntryError::InvalidFactResolutionEvidence(e2)),
                            ) && e2 == e),
                            Ok(_) => if (decision@.effect is Permit) != (decision@.decisive is Permit) {
                                r matches Err(AuditConstructionError::Entry(AuditEntryError::EffectTraceMismatch))
                            } else if decision@.effect is Deny && decision@.obligations.len() > 0 {
                                r matches Err(AuditConstructionError::Entry(AuditEntryError::DenyWithObligations))
                            } else {
                                r is Ok
                            },
                        },
                    },
                },
            },
            r matches Ok(entry) ==> {
                &&& entry.current() is Ok
                &&& entry.id_of() == occurrence.id_of() && entry.time_of() == occurrence.time_of()
                &&& entry.anchor_of() == anchor
                &&& entry.effect_of() == effect_kind_of(*decision)
                &&& entry.obligations_of().map_values(|o: ObligationId| o@) == decision@.obligations
                &&& entry.consulted_of() == decision@.consulted
                &&& records_clause(entry.trace_of().decisive, decision.trace.decisive, outcome)
                &&& entry.trace_of().consulted.deep_view() == decision@.consulted
                &&& clause_copy(entry.decisive_of(), entry.trace_of().decisive)
                &&& entry.evidence_of() == fact_resolution
                &&& entry.binding_of() == context.binding_of()
                &&& entry.tenant_of() == context.tenant_of()
                &&& entry.principal_of() == context.principal_of()
                &&& subject_map(entry.subjects_of()) == context.subjects_of()
                &&& entry.locale_of() == context.locale_of()
                &&& entry.request_of() == context.request_of()
            },
    {
        let copied_outcome = copy_trace_value(&outcome);
        let ghost outcome_view = outcome;
        let reason = match decision.denial_reason(copied_outcome) {
            Err(e) => return Err(AuditConstructionError::Trace(e)),
            Ok(r) => r,
        };
        let trace = decision.to_trace(outcome);
        let decisive = copy_clause(&trace.decisive);
        let request_id = match context.request_id() {
            Some(id) => Some(id.duplicate()),
            None => None,
        };
        let binding = context.binding().duplicate();
        let subjects = context.subjects();
        let mut copied: Vec<(SubjectSlot, SubjectRef)> = Vec::new();
        let mut i: usize = 0;
        while i < subjects.len()
            invariant
                i <= subjects@.len(),
                copied@ == subjects@.take(i as int),
            decreases subjects@.len() - i,
        {
            copied.push((subjects[i].0.duplicate(), subjects[i].1.duplicate()));
            i = i + 1;
            assert(copied@ =~= subjects@.take(i as int));
        }
        assert(subjects@.take(i as int) =~= subjects@);
        let obligations = copy_obligations(&decision.obligations);
        let consulted = copy_reads(&decision.trace.consulted);
        let effect = EffectKind::from(decision);
        proof {
            assert(clause_equal(decisive, trace.decisive));
            assert(consulted.deep_view() == trace.consulted.deep_view());
            if decision_consistent(decision@) {
                let tc = decision.trace.decisive;
                match tc {
                    crate::decision::DecisiveClause::Permit { .. } => {
                        assert(trace.decisive is Permit);
                        assert(effect == EffectKind::Permit);
                        assert(decisive is Permit);
                        assert(reason is None);
                    },
                    crate::decision::DecisiveClause::Deny { denied, unsatisfied, label, reason: code, shape } => {
                        assert(trace.decisive is Deny);
                        assert(effect == EffectKind::Deny);
                        assert(obligations.deep_view().len() == 0);
                        assert(obligations@.len() == 0);
                        let d = decisive;
                        assert(d is Deny);
                        assert(d->Deny_unsatisfied.deep_view() == trace.decisive->Deny_unsatisfied.deep_view());
                        assert(d->Deny_unsatisfied.deep_view() == unsatisfied.deep_view());
                        assert(unsatisfied.deep_view().len() == unsatisfied@.len());
                        assert(d->Deny_unsatisfied.deep_view().len() == d->Deny_unsatisfied@.len());
                        assert forall|k: int| 0 <= k < unsatisfied@.len() implies unsatisfied@[k]@ == d->Deny_unsatisfied@[k]@ by {
                            assert(unsatisfied.deep_view()[k] == unsatisfied@[k]@);
                            assert(d->Deny_unsatisfied.deep_view()[k] == d->Deny_unsatisfied@[k]@);
                        }
                        match reason_code_of(decision@.decisive) {
                            Some(Ok(text)) => {
                                let rr = reason->Some_0;
                                assert(expected_code(d) == Some(rr.code@)) by {
                                    assert(d->Deny_reason.deep_view() == trace.decisive->Deny_reason.deep_view());
                                    assert(d->Deny_label.deep_view() == trace.decisive->Deny_label.deep_view());
                                    if code is Some {
                                        assert(d->Deny_reason.deep_view() == code.deep_view());
                                    } else {
                                        assert(d->Deny_label.deep_view() == label.deep_view());
                                    }
                                }
                                lemma_built_reason_matches(rr, d, unsatisfied@, outcome_view);
                                assert(reason_matches(reason, d));
                                assert(decisive is Deny);
                            },
                            _ => {
                                assert(expected_code(d) is None) by {
                                    assert(d->Deny_reason.deep_view() == trace.decisive->Deny_reason.deep_view());
                                    assert(d->Deny_label.deep_view() == trace.decisive->Deny_label.deep_view());
                                    assert(d->Deny_reason.deep_view() == code.deep_view());
                                    assert(d->Deny_label.deep_view() == label.deep_view());
                                }
                            },
                        }
                    },
                }
                if reason_error(*decision) is None {
                    assert(clause_equal(decisive, trace.decisive));
                    assert(consulted.deep_view() == trace.consulted.deep_view());
                    assert(semantics_check(effect, obligations@, consulted.deep_view(), decisive, reason, trace) == Ok::<
                        (),
                        AuditEntryError,
                    >(()));
                }
            }
        }
        let result = AuditEntry::new(
            occurrence,
            request_id,
            anchor,
            effect,
            obligations,
            consulted,
            decisive,
            reason,
            trace,
            binding,
            fact_resolution,
            context.tenant().duplicate(),
            context.principal().duplicate(),
            copied,
            context.locale().duplicate(),
        );
        match result {
            Err(e) => Err(AuditConstructionError::Entry(e)),
            Ok(entry) => Ok(entry),
        }
    }
}

/// An evaluated decision awaiting required persistence, not an
/// authorization token.
///
/// The event is immutable. Retry its write using the same value, including
/// its observation time and occurrence identity. A new evaluation is a new
/// event.
#[derive(Debug)]
pub struct PendingDecision<O> {
    decision: Decision<O>,
    entry: AuditEntry,
}

impl<O> PendingDecision<O> {
    /// The provisional decision.
    pub closed spec fn decision_of(&self) -> Decision<O> {
        self.decision
    }

    /// The frozen audit entry.
    pub closed spec fn entry_of(&self) -> AuditEntry {
        self.entry
    }

    /// Pairs a decision with the entry that records it.
    pub fn new(decision: Decision<O>, entry: AuditEntry) -> (p: Self)
        ensures
            p.decision_of() == decision,
            p.entry_of() == entry,
    {
        PendingDecision { decision, entry }
    }

    /// Borrows the frozen event for an application-owned transaction or export.
    pub fn entry(&self) -> (e: &AuditEntry)
        ensures
            *e == self.entry_of(),
    {
        &self.entry
    }

    /// Inspects the provisional decision. Required persistence has not succeeded.
    pub fn decision(&self) -> (d: &Decision<O>)
        ensures
            *d == self.decision_of(),
    {
        &self.decision
    }
}

impl DecisionSummary {
    /// The observer payload of a recorded entry: its anchor, effect,
    /// obligations and consulted facts.
    pub fn from_entry(entry: &AuditEntry) -> (s: Self)
        ensures
            s.anchor == entry.anchor_of(),
            s.effect == entry.effect_of(),
            s.obligations.deep_view() == entry.obligation_texts(),
            s.consulted.deep_view() == entry.consulted_of(),
    {
        DecisionSummary {
            anchor: entry.anchor.duplicate(),
            effect: entry.effect,
            obligations: copy_obligations(&entry.obligations),
            consulted: copy_reads(&entry.consulted),
        }
    }
}


/// No two parameters share a key.
pub open spec fn distinct_keys(s: Seq<(ParamKey, ReasonValue)>) -> bool {
    forall|i: int, j: int| 0 <= i < j < s.len() ==> s[i].0@ != s[j].0@
}

/// Where the last parameter with a key stands.
proof fn lemma_last_pos(s: Seq<(ParamKey, ReasonValue)>, k: Seq<char>)
    ensures
        last_pos(s, k) >= 0 <==> exists|i: int| 0 <= i < s.len() && s[i].0@ == k,
        last_pos(s, k) >= 0 ==> last_pos(s, k) < s.len() && s[last_pos(s, k)].0@ == k,
        last_pos(s, k) < s.len(),
        last_pos(s, k) >= -1,
        distinct_keys(s) ==> forall|i: int| 0 <= i < s.len() && s[i].0@ == k ==> last_pos(s, k) == i,
    decreases s.len(),
{
    if s.len() > 0 {
        let p = s.drop_last();
        lemma_last_pos(p, k);
        if s.last().0@ != k {
            if exists|i: int| 0 <= i < s.len() && s[i].0@ == k {
                let i = choose|i: int| 0 <= i < s.len() && s[i].0@ == k;
                assert(i < s.len() - 1);
                assert(p[i] == s[i]);
            }
            if last_pos(p, k) >= 0 {
                assert(p[last_pos(p, k)] == s[last_pos(p, k)]);
            }
            if distinct_keys(s) {
                assert(distinct_keys(p)) by {
                    assert forall|a: int, b: int| 0 <= a < b < p.len() implies p[a].0@ != p[b].0@ by {
                        assert(p[a] == s[a] && p[b] == s[b]);
                    }
                }
                assert forall|i: int| 0 <= i < s.len() && s[i].0@ == k implies last_pos(s, k) == i by {
                    assert(p[i] == s[i]);
                }
            }
        } else {
            assert(s[s.len() - 1].0@ == k);
        }
    }
}

/// With distinct keys every parameter counts once, the parameters form a
/// map of as many keys, and the last parameter with a key is the one the map
/// holds.
proof fn lemma_distinct_params(s: Seq<(ParamKey, ReasonValue)>)
    requires
        distinct_keys(s),
    ensures
        key_count(s) == s.len(),
        param_map(s).dom().finite(),
        param_map(s).dom().len() == s.len(),
        forall|k: Seq<char>| #[trigger] param_map(s).contains_key(k) ==> param_at(s, k) == Some(param_map(s)[k]),
        forall|k: Seq<char>| !param_map(s).contains_key(k) ==> #[trigger] param_at(s, k) is None,
    decreases s.len(),
{
    if s.len() == 0 {
        assert(param_map(s).dom() =~= Set::<Seq<char>>::empty());
        assert forall|k: Seq<char>| !param_map(s).contains_key(k) implies #[trigger] param_at(s, k) is None by {
            lemma_last_pos(s, k);
        }
    } else {
        let p = s.drop_last();
        let last = s.last();
        assert(distinct_keys(p)) by {
            assert forall|a: int, b: int| 0 <= a < b < p.len() implies p[a].0@ != p[b].0@ by {
                assert(p[a] == s[a] && p[b] == s[b]);
            }
        }
        lemma_distinct_params(p);
        lemma_last_pos(p, last.0@);
        assert(last_pos(p, last.0@) == -1) by {
            if last_pos(p, last.0@) >= 0 {
                let i = last_pos(p, last.0@);
                assert(p[i] == s[i]);
                assert(s[i].0@ == s[s.len() - 1].0@);
            }
        }
        assert(param_map(s) =~= param_map(p).insert(last.0@, last.1)) by {
            assert forall|k: Seq<char>| param_map(s).contains_key(k) == param_map(p).insert(last.0@, last.1).contains_key(k) by {
                if exists|i: int| 0 <= i < s.len() && s[i].0@ == k {
                    let i = choose|i: int| 0 <= i < s.len() && s[i].0@ == k;
                    if i < s.len() - 1 {
                        assert(p[i] == s[i]);
                    }
                }
                if exists|i: int| 0 <= i < p.len() && p[i].0@ == k {
                    let i = choose|i: int| 0 <= i < p.len() && p[i].0@ == k;
                    assert(p[i] == s[i]);
                }
                if k == last.0@ {
                    assert(s[s.len() - 1].0@ == k);
                }
            }
            assert forall|k: Seq<char>| #[trigger] param_map(s).contains_key(k) implies param_map(s)[k] == param_map(p).insert(
                last.0@,
                last.1,
            )[k] by {
                let i = choose|i: int| 0 <= i < s.len() && s[i].0@ == k;
                if k == last.0@ {
                    if i < s.len() - 1 {
                        assert(s[i].0@ == s[s.len() - 1].0@);
                    }
                } else {
                    assert(i < s.len() - 1);
                    assert(p[i] == s[i]);
                    let j = choose|j: int| 0 <= j < p.len() && p[j].0@ == k;
                    assert(p[j] == s[j]);
                    if i != j {
                        if i < j {
                            assert(s[i].0@ != s[j].0@);
                        } else {
                            assert(s[j].0@ != s[i].0@);
                        }
                    }
                }
            }
        }
        assert(!param_map(p).contains_key(last.0@)) by {
            if param_map(p).contains_key(last.0@) {
                let i = choose|i: int| 0 <= i < p.len() && p[i].0@ == last.0@;
                lemma_last_pos(p, last.0@);
            }
        }
        assert forall|k: Seq<char>| #[trigger] param_map(s).contains_key(k) implies param_at(s, k) == Some(param_map(s)[k]) by {
            lemma_last_pos(s, k);
            lemma_last_pos(p, k);
            if k != last.0@ {
                assert(param_at(p, k) == Some(param_map(p)[k]));
                assert(p[last_pos(p, k)] == s[last_pos(p, k)]);
            }
        }
        assert forall|k: Seq<char>| !param_map(s).contains_key(k) implies #[trigger] param_at(s, k) is None by {
            lemma_last_pos(s, k);
            if last_pos(s, k) >= 0 {
                assert(param_map(s).contains_key(k));
            }
        }
    }
}

/// Strictly ordered keys are distinct.
proof fn lemma_sorted_distinct(s: Seq<(ParamKey, ReasonValue)>)
    requires
        strictly_sorted(param_keys(s)),
    ensures
        distinct_keys(s),
{
    assert forall|i: int, j: int| 0 <= i < j < s.len() implies s[i].0@ != s[j].0@ by {
        assert(param_keys(s)[i] == s[i].0@);
        assert(param_keys(s)[j] == s[j].0@);
        if s[i].0@ == s[j].0@ {
            crate::order::lemma_lex_irreflexive(s[i].0@);
        }
    }
}


/// A decision whose effect agrees with its decisive clause and whose
/// denials carry no obligations.
pub open spec fn decision_consistent<O>(d: DecisionView<O>) -> bool {
    &&& (d.effect is Permit) == (d.decisive is Permit)
    &&& d.effect is Deny ==> d.obligations.len() == 0
}

/// A denial reason built as `Decision::denial_reason` builds it agrees with
/// the decisive clause it was built for.
pub(crate) proof fn lemma_built_reason_matches(r: DenialReason, d: TraceClause, u: Seq<FactId>, outcome: TraceValue)
    requires
        d is Deny,
        expected_code(d) == Some(r.code@),
        r.shape == d->Deny_shape,
        strictly_sorted(param_keys(r.params@)),
        u.len() == d->Deny_unsatisfied@.len(),
        forall|i: int| 0 <= i < u.len() ==> u[i]@ == d->Deny_unsatisfied@[i]@,
        param_map(r.params@) == reason_params(u, d->Deny_denied is Some, outcome),
        d->Deny_denied matches Some(v) ==> json_equal(outcome, v),
    ensures
        reason_matches(Some(r), d),
{
    let ps = r.params@;
    let n = u.len();
    lemma_sorted_distinct(ps);
    lemma_distinct_params(ps);
    lemma_missing_params(u, n);
    let mp = missing_params(u, n);
    assert(!mp.contains_key("denied_outcome"@)) by {
        if mp.contains_key("denied_outcome"@) {
            let i = choose|i: nat| i < n && "denied_outcome"@ == missing_key(i);
            lemma_missing_key_injective(i, i);
        }
    }
    if d->Deny_denied is Some {
        assert(mp.insert("denied_outcome"@, ReasonValue::Outcome(outcome)).dom() =~= mp.dom().insert("denied_outcome"@));
    }
    assert(r.params.len() == ps.len());
    assert forall|i: int| 0 <= i < d->Deny_unsatisfied@.len() implies #[trigger] fact_param_ok(ps, d->Deny_unsatisfied@, i) by {
        let k = missing_key(i as nat);
        assert(mp.contains_key(k));
        lemma_missing_key_injective(i as nat, i as nat);
        assert(param_map(ps).contains_key(k));
    }
    if d->Deny_denied is Some {
        assert(param_map(ps).contains_key("denied_outcome"@));
    }
}

} // verus!
