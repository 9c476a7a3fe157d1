//! Policy builder helpers.
use vstd::prelude::*;

use crate::decision::DenyShape;
use crate::identity::{
    identifier_check, ClauseLabel, GatekeepError, GatekeepResult, ObligationId, ObligationSpec,
    ReasonCode,
};
use crate::policy_model::{
    lemma_policy_list_view, policies_of, Condition, ConditionView, Lattice, Policy, PolicyNode,
};

verus! {

/// Builds an unconditional permit policy.
pub fn permit<O>(outcome: O) -> (p: Policy<O>)
    ensures
        p@ == PolicyNode::Permit(outcome),
{
    Policy::Permit(outcome)
}

/// Builds an unconditional denial policy.
pub fn deny<O>() -> (p: Policy<O>)
    ensures
        p@ == PolicyNode::<O>::Deny,
{
    Policy::Deny
}

/// The view of a grant with the given parts.
pub open spec fn grant_node<O>(
    outcome: O,
    condition: ConditionView,
    label: Option<Seq<char>>,
    deny_shape: DenyShape,
    obligations: Seq<Seq<char>>,
    reason: Option<Seq<char>>,
) -> PolicyNode<O> {
    PolicyNode::Grant { outcome, condition, label, deny_shape, obligations, reason }
}

/// Builds a conditional denial guard.
///
/// The returned policy permits with the top outcome when `condition` is false
/// and denies with `reason` when `condition` is true. Place these guards in
/// `policy::all` before positive grant clauses to get ordered fail-closed
/// precedence.
pub fn deny_when<O: Lattice, R: IntoReasonCode>(condition: Condition, reason: R) -> (p: Policy<O>)
    ensures
        p@ == grant_node(
            O::spec_top(),
            ConditionView::Not(Box::new(condition@)),
            None,
            DenyShape::Forbidden,
            Seq::empty(),
            Some(reason.reason_of()),
        ),
{
    grant(O::top(), crate::condition::not(condition)).reason(reason)
}

/// Builds a conditional grant policy.
pub fn grant<O>(outcome: O, condition: Condition) -> (p: Policy<O>)
    ensures
        p@ == grant_node(outcome, condition@, None, DenyShape::Forbidden, Seq::empty(), None),
{
    let obligations: Vec<ObligationId> = Vec::new();
    assert(obligations.deep_view() =~= Seq::<Seq<char>>::empty());
    Policy::Grant {
        outcome,
        condition,
        label: None,
        deny_shape: DenyShape::Forbidden,
        obligations,
        reason: None,
    }
}

/// Builds a grant-only policy builder.
///
/// Unlike [`Policy::labeled`], [`Policy::hidden`], [`Policy::reason`], and
/// [`Policy::with_obligation`], these methods are only available on grant
/// clauses and cannot silently no-op on other policy variants.
pub fn grant_clause<O>(outcome: O, condition: Condition) -> (g: GrantPolicy<O>)
    ensures
        g@ == grant_node(outcome, condition@, None, DenyShape::Forbidden, Seq::empty(), None),
{
    let obligations: Vec<ObligationId> = Vec::new();
    assert(obligations.deep_view() =~= Seq::<Seq<char>>::empty());
    GrantPolicy {
        outcome,
        condition,
        label: None,
        deny_shape: DenyShape::Forbidden,
        obligations,
        reason: None,
    }
}

/// Grant-only policy builder.
#[derive(Debug, PartialEq, Eq)]
pub struct GrantPolicy<O> {
    outcome: O,
    condition: Condition,
    label: Option<ClauseLabel>,
    deny_shape: DenyShape,
    obligations: Vec<ObligationId>,
    reason: Option<ReasonCode>,
}

impl<O> View for GrantPolicy<O> {
    type V = PolicyNode<O>;

    closed spec fn view(&self) -> PolicyNode<O> {
        grant_node(
            self.outcome,
            self.condition@,
            self.label.deep_view(),
            self.deny_shape,
            self.obligations.deep_view(),
            self.reason.deep_view(),
        )
    }
}

/// `p` with the label of a grant set to `l`; other policies are unchanged.
pub open spec fn with_label<O>(p: PolicyNode<O>, l: Seq<char>) -> PolicyNode<O> {
    match p {
        PolicyNode::Grant { outcome, condition, deny_shape, obligations, reason, .. } =>
            grant_node(outcome, condition, Some(l), deny_shape, obligations, reason),
        _ => p,
    }
}

/// `p` with the denial of a grant hidden; other policies are unchanged.
pub open spec fn with_hidden<O>(p: PolicyNode<O>) -> PolicyNode<O> {
    match p {
        PolicyNode::Grant { outcome, condition, label, obligations, reason, .. } =>
            grant_node(outcome, condition, label, DenyShape::Hidden, obligations, reason),
        _ => p,
    }
}

/// `p` with the reason of a grant set to `r`; other policies are unchanged.
pub open spec fn with_reason<O>(p: PolicyNode<O>, r: Seq<char>) -> PolicyNode<O> {
    match p {
        PolicyNode::Grant { outcome, condition, label, deny_shape, obligations, .. } =>
            grant_node(outcome, condition, label, deny_shape, obligations, Some(r)),
        _ => p,
    }
}

/// `p` with `o` appended to the obligations of a grant; other policies are unchanged.
pub open spec fn with_obligation_id<O>(p: PolicyNode<O>, o: Seq<char>) -> PolicyNode<O> {
    match p {
        PolicyNode::Grant { outcome, condition, label, deny_shape, obligations, reason } =>
            grant_node(outcome, condition, label, deny_shape, obligations.push(o), reason),
        _ => p,
    }
}

impl<O> GrantPolicy<O> {
    /// Converts this grant builder into a policy.
    pub fn into_policy(self) -> (p: Policy<O>)
        ensures
            p@ == self@,
    {
        Policy::Grant {
            outcome: self.outcome,
            condition: self.condition,
            label: self.label,
            deny_shape: self.deny_shape,
            obligations: self.obligations,
            reason: self.reason,
        }
    }

    /// Adds a label to this grant.
    pub fn labeled<L: IntoLabel>(self, label: L) -> (g: Self)
        ensures
            g@ == with_label(self@, label.label_of()),
    {
        GrantPolicy { label: Some(label.into_label()), ..self }
    }

    /// Tries to add a validated label to this grant.
    ///
    /// Returns [`GatekeepError::EmptyIdentifier`] when `label` is empty or
    /// contains only whitespace.
    pub fn try_labeled(self, label: &str) -> (result: GatekeepResult<Self>)
        ensures
            match identifier_check("clause_label", false, label@) {
                Ok(v) => result matches Ok(g) && g@ == with_label(self@, v),
                Err(e) => result == Err::<Self, GatekeepError>(e),
            },
    {
        match ClauseLabel::new(label) {
            Ok(l) => Ok(self.labeled(l)),
            Err(e) => Err(e),
        }
    }

    /// Marks this grant's denial as hidden.
    pub fn hidden(self) -> (g: Self)
        ensures
            g@ == with_hidden(self@),
    {
        GrantPolicy { deny_shape: DenyShape::Hidden, ..self }
    }

    /// Adds a reason code to this grant's denial.
    pub fn reason<R: IntoReasonCode>(self, reason: R) -> (g: Self)
        ensures
            g@ == with_reason(self@, reason.reason_of()),
    {
        GrantPolicy { reason: Some(reason.into_reason_code()), ..self }
    }

    /// Tries to add a validated reason code to this grant's denial.
    ///
    /// Returns [`GatekeepError::EmptyIdentifier`] when `reason` is empty or
    /// contains only whitespace.
    pub fn try_reason(self, reason: &str) -> (result: GatekeepResult<Self>)
        ensures
            match identifier_check("reason_code", false, reason@) {
                Ok(v) => result matches Ok(g) && g@ == with_reason(self@, v),
                Err(e) => result == Err::<Self, GatekeepError>(e),
            },
    {
        match ReasonCode::new(reason) {
            Ok(r) => Ok(self.reason(r)),
            Err(e) => Err(e),
        }
    }

    /// Adds a typed obligation to this grant's permit result.
    pub fn with_obligation<S: ObligationSpec>(self) -> (g: Self)
        ensures
            g@ == with_obligation_id(self@, S::spec_id()),
    {
        let id = S::id();
        let mut obligations = self.obligations;
        let ghost before = obligations.deep_view();
        let o = ObligationId::from_trusted(id.as_str());
        obligations.push(o);
        assert(obligations.deep_view() =~= before.push(S::spec_id()));
        GrantPolicy { obligations, ..self }
    }
}

/// Builds a meet composition. Empty input fails closed.
pub fn all<O>(policies: Vec<Policy<O>>) -> (p: Policy<O>)
    ensures
        policies@.len() == 0 ==> p@ == PolicyNode::<O>::Deny,
        policies@.len() > 0 ==> p@ == PolicyNode::All(policies_of(policies@)),
{
    if policies.len() == 0 {
        Policy::Deny
    } else {
        proof {
            lemma_policy_list_view(policies);
        }
        Policy::All(policies)
    }
}

/// Builds a join composition. Empty input fails closed.
pub fn any<O>(policies: Vec<Policy<O>>) -> (p: Policy<O>)
    ensures
        policies@.len() == 0 ==> p@ == PolicyNode::<O>::Deny,
        policies@.len() > 0 ==> p@ == PolicyNode::Any(policies_of(policies@)),
{
    if policies.len() == 0 {
        Policy::Deny
    } else {
        proof {
            lemma_policy_list_view(policies);
        }
        Policy::Any(policies)
    }
}

/// Builds a fallback policy.
pub fn or_else<O>(primary: Policy<O>, fallback: Policy<O>) -> (p: Policy<O>)
    ensures
        p@ == PolicyNode::OrElse(Box::new(primary@), Box::new(fallback@)),
{
    Policy::OrElse { primary: Box::new(primary), fallback: Box::new(fallback) }
}

impl<O> Policy<O> {
    /// Adds a label to grant policies.
    pub fn labeled<L: IntoLabel>(self, label: L) -> (p: Self)
        ensures
            p@ == with_label(self@, label.label_of()),
    {
        match self {
            Policy::Grant { outcome, condition, deny_shape, obligations, reason, .. } => Policy::Grant {
                outcome,
                condition,
                label: Some(label.into_label()),
                deny_shape,
                obligations,
                reason,
            },
            other => other,
        }
    }

    /// Tries to add a validated label to grant policies.
    ///
    /// Returns [`GatekeepError::EmptyIdentifier`] when `label` is empty or
    /// contains only whitespace.
    pub fn try_labeled(self, label: &str) -> (result: GatekeepResult<Self>)
        ensures
            match identifier_check("clause_label", false, label@) {
                Ok(v) => result matches Ok(p) && p@ == with_label(self@, v),
                Err(e) => result == Err::<Self, GatekeepError>(e),
            },
    {
        match ClauseLabel::new(label) {
            Ok(l) => Ok(self.labeled(l)),
            Err(e) => Err(e),
        }
    }

    /// Marks grant denial as hidden.
    pub fn hidden(self) -> (p: Self)
        ensures
            p@ == with_hidden(self@),
    {
        match self {
            Policy::Grant { outcome, condition, label, obligations, reason, .. } => Policy::Grant {
                outcome,
                condition,
                label,
                deny_shape: DenyShape::Hidden,
                obligations,
                reason,
            },
            other => other,
        }
    }

    /// Adds a reason code to grant denials.
    pub fn reason<R: IntoReasonCode>(self, reason: R) -> (p: Self)
        ensures
            p@ == with_reason(self@, reason.reason_of()),
    {
        match self {
            Policy::Grant { outcome, condition, label, deny_shape, obligations, .. } => Policy::Grant {
                outcome,
                condition,
                label,
                deny_shape,
                obligations,
                reason: Some(reason.into_reason_code()),
            },
            other => other,
        }
    }

    /// Tries to add a validated reason code to grant denials.
    ///
    /// Returns [`GatekeepError::EmptyIdentifier`] when `reason` is empty or
    /// contains only whitespace.
    pub fn try_reason(self, reason: &str) -> (result: GatekeepResult<Self>)
        ensures
            match identifier_check("reason_code", false, reason@) {
                Ok(v) => result matches Ok(p) && p@ == with_reason(self@, v),
                Err(e) => result == Err::<Self, GatekeepError>(e),
            },
    {
        match ReasonCode::new(reason) {
            Ok(r) => Ok(self.reason(r)),
            Err(e) => Err(e),
        }
    }

    /// Adds a typed obligation to grant permits.
    pub fn with_obligation<S: ObligationSpec>(self) -> (p: Self)
        ensures
            p@ == with_obligation_id(self@, S::spec_id()),
    {
        match self {
            Policy::Grant { outcome, condition, label, deny_shape, obligations, reason } => {
                let id = S::id();
                let mut obligations = obligations;
                let ghost before = obligations.deep_view();
                obligations.push(ObligationId::from_trusted(id.as_str()));
                assert(obligations.deep_view() =~= before.push(S::spec_id()));
                Policy::Grant { outcome, condition, label, deny_shape, obligations, reason }
            },
            other => other,
        }
    }
}

/// Conversion into a validated clause label.
pub trait IntoLabel: Sized {
    /// Text of the label that `into_label` gives.
    spec fn label_of(&self) -> Seq<char>;

    /// Converts the value into a label.
    fn into_label(self) -> (l: ClauseLabel)
        ensures
            l@ == self.label_of(),
    ;
}

impl IntoLabel for ClauseLabel {
    open spec fn label_of(&self) -> Seq<char> {
        self@
    }

    fn into_label(self) -> (l: ClauseLabel) {
        self
    }
}

/// Conversion into a validated reason code.
pub trait IntoReasonCode: Sized {
    /// Text of the reason code that `into_reason_code` gives.
    spec fn reason_of(&self) -> Seq<char>;

    /// Converts the value into a reason code.
    fn into_reason_code(self) -> (r: ReasonCode)
        ensures
            r@ == self.reason_of(),
    ;
}

impl IntoReasonCode for ReasonCode {
    open spec fn reason_of(&self) -> Seq<char> {
        self@
    }

    fn into_reason_code(self) -> (r: ReasonCode) {
        self
    }
}

} // verus!
