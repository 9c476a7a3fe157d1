use vstd::prelude::*;

use crate::decision::DenyShape;
use crate::identity::{ClauseLabel, FactId, ObligationId, ReasonCode};

verus! {

/// Outcome ordering used when policies combine permissions.
///
/// `meet` computes the common permission for `all` composition, `join` the
/// least upper permission for `any` composition, `top` the most permissive
/// and `bottom` the least permissive outcome. `same` is the outcome equality
/// and `duplicate` its copy. The `spec_*` functions name what the methods
/// compute; implementations written outside verified code cannot supply them,
/// so generic code treats them as opaque and relies on the `ensures` clauses.
pub trait Lattice: Sized {
    /// What `meet` computes.
    closed spec fn spec_meet(self, other: Self) -> Self {
        arbitrary()
    }

    /// What `join` computes.
    closed spec fn spec_join(self, other: Self) -> Self {
        arbitrary()
    }

    /// What `top` returns.
    closed spec fn spec_top() -> Self {
        arbitrary()
    }

    /// What `bottom` returns.
    closed spec fn spec_bottom() -> Self {
        arbitrary()
    }

    /// Computes the common permission for `all` policy composition.
    fn meet(&self, other: &Self) -> (r: Self)
        ensures
            r == self.spec_meet(*other),
    ;

    /// Computes the least upper permission for `any` policy composition.
    fn join(&self, other: &Self) -> (r: Self)
        ensures
            r == self.spec_join(*other),
    ;

    /// Returns the most permissive outcome.
    fn top() -> (r: Self)
        ensures
            r == Self::spec_top(),
    ;

    /// Returns the least permissive outcome.
    fn bottom() -> (r: Self)
        ensures
            r == Self::spec_bottom(),
    ;

    /// Outcome equality.
    fn same(&self, other: &Self) -> (b: bool)
        ensures
            b == (*self == *other),
    ;

    /// Returns an equal copy of this outcome.
    fn duplicate(&self) -> (r: Self)
        ensures
            r == *self,
    ;
}

impl Lattice for () {
    open spec fn spec_meet(self, other: Self) -> Self {
        ()
    }

    open spec fn spec_join(self, other: Self) -> Self {
        ()
    }

    open spec fn spec_top() -> Self {
        ()
    }

    open spec fn spec_bottom() -> Self {
        ()
    }

    fn meet(&self, other: &Self) -> (r: Self) {
    }

    fn join(&self, other: &Self) -> (r: Self) {
    }

    fn top() -> (r: Self) {
    }

    fn bottom() -> (r: Self) {
    }

    fn same(&self, other: &Self) -> (b: bool) {
        true
    }

    fn duplicate(&self) -> (r: Self) {
    }
}

/// Boolean predicate over known or deferred facts.
#[derive(Debug, PartialEq, Eq)]
pub enum Condition {
    /// Predicate that always succeeds.
    Always,
    /// Predicate that always fails.
    Never,
    /// Predicate requiring the fact to be present.
    Has(FactId),
    /// Negated predicate.
    Not(Box<Condition>),
    /// Conjunction of predicates.
    All(Vec<Condition>),
    /// Disjunction of predicates.
    Any(Vec<Condition>),
}

/// Mathematical view of a condition; facts are named by their identifier text.
#[verifier::ext_equal]
pub enum ConditionView {
    Always,
    Never,
    Has(Seq<char>),
    Not(Box<ConditionView>),
    All(Seq<ConditionView>),
    Any(Seq<ConditionView>),
}

/// View of a condition.
pub open spec fn cond_view(c: Condition) -> ConditionView
    decreases c,
{
    match c {
        Condition::Always => ConditionView::Always,
        Condition::Never => ConditionView::Never,
        Condition::Has(f) => ConditionView::Has(f@),
        Condition::Not(inner) => ConditionView::Not(Box::new(cond_view(*inner))),
        Condition::All(cs) => ConditionView::All(
            Seq::new(
                cs.len() as nat,
                |k: int|
                    if 0 <= k < cs.len() {
                        cond_view(cs[k])
                    } else {
                        ConditionView::Never
                    },
            ),
        ),
        Condition::Any(cs) => ConditionView::Any(
            Seq::new(
                cs.len() as nat,
                |k: int|
                    if 0 <= k < cs.len() {
                        cond_view(cs[k])
                    } else {
                        ConditionView::Never
                    },
            ),
        ),
    }
}

/// Views of a list of conditions.
pub open spec fn conds_view(cs: Seq<Condition>) -> Seq<ConditionView> {
    Seq::new(cs.len(), |k: int| cond_view(cs[k]))
}

impl View for Condition {
    type V = ConditionView;

    open spec fn view(&self) -> ConditionView {
        cond_view(*self)
    }
}

impl Condition {
    /// Returns an identical copy of this condition.
    pub fn duplicate(&self) -> (c: Self)
        ensures
            c@ == self@,
        decreases self, 0nat,
    {
        match self {
            Condition::Always => {
                assert(cond_view(Condition::Always) == ConditionView::Always);
                let r = Condition::Always;
                assert(r@ == cond_view(r));
                assert(r@ == self@);
                r
            },
            Condition::Never => Condition::Never,
            Condition::Has(f) => {
                let r = Condition::Has(f.duplicate());
                assert(r@ == self@);
                r
            },
            Condition::Not(inner) => {
                let d = (**inner).duplicate();
                let r = Condition::Not(Box::new(d));
                assert(cond_view(r) == ConditionView::Not(Box::new(cond_view(d))));
                assert(cond_view(*self) == ConditionView::Not(Box::new(cond_view(**inner))));
                r
            },
            Condition::All(cs) => {
                let rv = duplicate_conditions(cs);
                let r = Condition::All(rv);
                proof {
                    let a = match cond_view(r) {
                        ConditionView::All(s) => s,
                        _ => Seq::empty(),
                    };
                    let b = match cond_view(*self) {
                        ConditionView::All(s) => s,
                        _ => Seq::empty(),
                    };
                    assert(a.len() == b.len());
                    assert forall|k: int| 0 <= k < a.len() implies a[k] == b[k] by {
                        assert(cond_view(rv@[k]) == cond_view(cs@[k]));
                    }
                    assert(a =~= b);
                }
                r
            },
            Condition::Any(cs) => {
                let rv = duplicate_conditions(cs);
                let r = Condition::Any(rv);
                proof {
                    let a = match cond_view(r) {
                        ConditionView::Any(s) => s,
                        _ => Seq::empty(),
                    };
                    let b = match cond_view(*self) {
                        ConditionView::Any(s) => s,
                        _ => Seq::empty(),
                    };
                    assert(a.len() == b.len());
                    assert forall|k: int| 0 <= k < a.len() implies a[k] == b[k] by {
                        assert(cond_view(rv@[k]) == cond_view(cs@[k]));
                    }
                    assert(a =~= b);
                }
                r
            },
        }
    }
}

fn duplicate_conditions(cs: &Vec<Condition>) -> (r: Vec<Condition>)
    ensures
        r.len() == cs.len(),
        forall|k: int| 0 <= k < cs.len() ==> #[trigger] cond_view(r[k]) == cond_view(cs[k]),
    decreases cs, 1nat,
{
    let mut r: Vec<Condition> = Vec::new();
    let mut i: usize = 0;
    while i < cs.len()
        invariant
            i <= cs.len(),
            r.len() == i,
            forall|k: int| 0 <= k < i ==> #[trigger] cond_view(r[k]) == cond_view(cs[k]),
        decreases cs.len() - i,
    {
        r.push(cs[i].duplicate());
        i = i + 1;
    }
    r
}

/// Reified authorization policy.
#[derive(Debug, PartialEq, Eq)]
pub enum Policy<O> {
    /// Unconditional permit with an outcome.
    Permit(O),
    /// Unconditional denial.
    Deny,
    /// Conditional permit with denial metadata.
    Grant {
        /// Outcome granted when the condition succeeds.
        outcome: O,
        /// Predicate that guards the grant.
        condition: Condition,
        /// Optional trace label for this clause.
        label: Option<ClauseLabel>,
        /// Shape exposed when the grant condition fails.
        deny_shape: DenyShape,
        /// Obligations attached to a successful grant.
        obligations: Vec<ObligationId>,
        /// Reason code attached to a failed grant.
        reason: Option<ReasonCode>,
    },
    /// Meet composition across child policies.
    All(Vec<Policy<O>>),
    /// Join composition across child policies.
    Any(Vec<Policy<O>>),
    /// Fallback policy used only when the primary denies.
    OrElse {
        /// Primary policy.
        primary: Box<Policy<O>>,
        /// Fallback policy.
        fallback: Box<Policy<O>>,
    },
}

/// Residual policy produced by partial evaluation.
#[derive(Debug, PartialEq, Eq)]
pub enum ResidualPolicy<O> {
    /// Unconditional permit with an outcome.
    Permit(O),
    /// Unconditional denial.
    Deny,
    /// Constant permit that preserves decisive trace metadata.
    PermitWithTrace {
        /// Granted outcome.
        outcome: O,
        /// Obligations attached to the permit.
        obligations: Vec<ObligationId>,
        /// Facts that satisfied the original condition.
        satisfied: Vec<FactId>,
        /// Optional stable clause label.
        label: Option<ClauseLabel>,
    },
    /// Constant denial that preserves decisive trace metadata.
    DenyWithTrace {
        /// Outcome requested by the denied grant, when one exists.
        denied: Option<O>,
        /// Facts that caused the original condition to fail.
        unsatisfied: Vec<FactId>,
        /// Optional stable clause label.
        label: Option<ClauseLabel>,
        /// Optional stable reason code.
        reason: Option<ReasonCode>,
        /// Disclosure shape for presentation.
        shape: DenyShape,
    },
    /// Conditional permit with denial metadata.
    Grant {
        /// Outcome granted when the condition succeeds.
        outcome: O,
        /// Predicate that guards the grant.
        condition: Condition,
        /// Optional trace label for this clause.
        label: Option<ClauseLabel>,
        /// Shape exposed when the grant condition fails.
        deny_shape: DenyShape,
        /// Obligations attached to a successful grant.
        obligations: Vec<ObligationId>,
        /// Reason code attached to a failed grant.
        reason: Option<ReasonCode>,
    },
    /// Meet composition across child residual policies.
    All(Vec<ResidualPolicy<O>>),
    /// Join composition across child residual policies.
    Any(Vec<ResidualPolicy<O>>),
    /// Fallback residual used only when the primary denies.
    OrElse {
        /// Primary residual.
        primary: Box<ResidualPolicy<O>>,
        /// Fallback residual.
        fallback: Box<ResidualPolicy<O>>,
    },
}

/// Mathematical view shared by policies and residual policies; identifiers
/// are named by their text.
#[verifier::ext_equal]
pub enum PolicyNode<O> {
    Permit(O),
    Deny,
    PermitWithTrace {
        outcome: O,
        obligations: Seq<Seq<char>>,
        satisfied: Seq<Seq<char>>,
        label: Option<Seq<char>>,
    },
    DenyWithTrace {
        denied: Option<O>,
        unsatisfied: Seq<Seq<char>>,
        label: Option<Seq<char>>,
        reason: Option<Seq<char>>,
        shape: DenyShape,
    },
    Grant {
        outcome: O,
        condition: ConditionView,
        label: Option<Seq<char>>,
        deny_shape: DenyShape,
        obligations: Seq<Seq<char>>,
        reason: Option<Seq<char>>,
    },
    All(Seq<PolicyNode<O>>),
    Any(Seq<PolicyNode<O>>),
    OrElse(Box<PolicyNode<O>>, Box<PolicyNode<O>>),
}

/// View of a policy.
pub open spec fn policy_view<O>(p: Policy<O>) -> PolicyNode<O>
    decreases p,
{
    match p {
        Policy::Permit(o) => PolicyNode::Permit(o),
        Policy::Deny => PolicyNode::Deny,
        Policy::Grant { outcome, condition, label, deny_shape, obligations, reason } => PolicyNode::Grant {
            outcome,
            condition: cond_view(condition),
            label: label.deep_view(),
            deny_shape,
            obligations: obligations.deep_view(),
            reason: reason.deep_view(),
        },
        Policy::All(ps) => PolicyNode::All(
            Seq::new(
                ps.len() as nat,
                |k: int|
                    if 0 <= k < ps.len() {
                        policy_view(ps[k])
                    } else {
                        PolicyNode::Deny
                    },
            ),
        ),
        Policy::Any(ps) => PolicyNode::Any(
            Seq::new(
                ps.len() as nat,
                |k: int|
                    if 0 <= k < ps.len() {
                        policy_view(ps[k])
                    } else {
                        PolicyNode::Deny
                    },
            ),
        ),
        Policy::OrElse { primary, fallback } => PolicyNode::OrElse(
            Box::new(policy_view(*primary)),
            Box::new(policy_view(*fallback)),
        ),
    }
}

/// View of a residual policy.
pub open spec fn residual_view<O>(p: ResidualPolicy<O>) -> PolicyNode<O>
    decreases p,
{
    match p {
        ResidualPolicy::Permit(o) => PolicyNode::Permit(o),
        ResidualPolicy::Deny => PolicyNode::Deny,
        ResidualPolicy::PermitWithTrace { outcome, obligations, satisfied, label } => PolicyNode::PermitWithTrace {
            outcome,
            obligations: obligations.deep_view(),
            satisfied: satisfied.deep_view(),
            label: label.deep_view(),
        },
        ResidualPolicy::DenyWithTrace { denied, unsatisfied, label, reason, shape } => PolicyNode::DenyWithTrace {
            denied,
            unsatisfied: unsatisfied.deep_view(),
            label: label.deep_view(),
            reason: reason.deep_view(),
            shape,
        },
        ResidualPolicy::Grant { outcome, condition, label, deny_shape, obligations, reason } => PolicyNode::Grant {
            outcome,
            condition: cond_view(condition),
            label: label.deep_view(),
            deny_shape,
            obligations: obligations.deep_view(),
            reason: reason.deep_view(),
        },
        ResidualPolicy::All(ps) => PolicyNode::All(
            Seq::new(
                ps.len() as nat,
                |k: int|
                    if 0 <= k < ps.len() {
                        residual_view(ps[k])
                    } else {
                        PolicyNode::Deny
                    },
            ),
        ),
        ResidualPolicy::Any(ps) => PolicyNode::Any(
            Seq::new(
                ps.len() as nat,
                |k: int|
                    if 0 <= k < ps.len() {
                        residual_view(ps[k])
                    } else {
                        PolicyNode::Deny
                    },
            ),
        ),
        ResidualPolicy::OrElse { primary, fallback } => PolicyNode::OrElse(
            Box::new(residual_view(*primary)),
            Box::new(residual_view(*fallback)),
        ),
    }
}

impl<O> View for Policy<O> {
    type V = PolicyNode<O>;

    open spec fn view(&self) -> PolicyNode<O> {
        policy_view(*self)
    }
}

impl<O> View for ResidualPolicy<O> {
    type V = PolicyNode<O>;

    open spec fn view(&self) -> PolicyNode<O> {
        residual_view(*self)
    }
}


/// Views of a list of conditions.
pub open spec fn conds_of(s: Seq<Condition>) -> Seq<ConditionView> {
    Seq::new(s.len(), |k: int| cond_view(s[k]))
}

/// Views of a list of residual policies.
pub open spec fn residuals_of<O>(s: Seq<ResidualPolicy<O>>) -> Seq<PolicyNode<O>> {
    Seq::new(s.len(), |k: int| residual_view(s[k]))
}

/// A composition of conditions is viewed as the composition of their views.
pub proof fn lemma_condition_list_view(v: Vec<Condition>)
    ensures
        cond_view(Condition::All(v)) == ConditionView::All(conds_of(v@)),
        cond_view(Condition::Any(v)) == ConditionView::Any(conds_of(v@)),
{
    let a = match cond_view(Condition::All(v)) {
        ConditionView::All(s) => s,
        _ => Seq::empty(),
    };
    assert(a =~= conds_of(v@));
    let b = match cond_view(Condition::Any(v)) {
        ConditionView::Any(s) => s,
        _ => Seq::empty(),
    };
    assert(b =~= conds_of(v@));
}

/// A composition of residual policies is viewed as the composition of their views.
pub proof fn lemma_residual_list_view<O>(v: Vec<ResidualPolicy<O>>)
    ensures
        residual_view(ResidualPolicy::All(v)) == PolicyNode::All(residuals_of(v@)),
        residual_view(ResidualPolicy::Any(v)) == PolicyNode::Any(residuals_of(v@)),
{
    let a = match residual_view(ResidualPolicy::All(v)) {
        PolicyNode::All(s) => s,
        _ => Seq::empty(),
    };
    assert(a =~= residuals_of(v@));
    let b = match residual_view(ResidualPolicy::Any(v)) {
        PolicyNode::Any(s) => s,
        _ => Seq::empty(),
    };
    assert(b =~= residuals_of(v@));
}


/// Views of a list of policies.
pub open spec fn policies_of<O>(s: Seq<Policy<O>>) -> Seq<PolicyNode<O>> {
    Seq::new(s.len(), |k: int| policy_view(s[k]))
}

/// A composition of policies is viewed as the composition of their views.
pub proof fn lemma_policy_list_view<O>(v: Vec<Policy<O>>)
    ensures
        policy_view(Policy::All(v)) == PolicyNode::All(policies_of(v@)),
        policy_view(Policy::Any(v)) == PolicyNode::Any(policies_of(v@)),
{
    let a = match policy_view(Policy::All(v)) {
        PolicyNode::All(s) => s,
        _ => Seq::empty(),
    };
    assert(a =~= policies_of(v@));
    let b = match policy_view(Policy::Any(v)) {
        PolicyNode::Any(s) => s,
        _ => Seq::empty(),
    };
    assert(b =~= policies_of(v@));
}


/// Whether some permit that a policy can give carries an obligation.
pub open spec fn node_carries<O>(p: PolicyNode<O>) -> bool
    decreases p, 0nat,
{
    match p {
        PolicyNode::PermitWithTrace { obligations, .. } => obligations.len() > 0,
        PolicyNode::Grant { obligations, .. } => obligations.len() > 0,
        PolicyNode::All(ps) => nodes_carry_from(ps, 0),
        PolicyNode::Any(ps) => nodes_carry_from(ps, 0),
        PolicyNode::OrElse(primary, fallback) => node_carries(*primary) || node_carries(*fallback),
        _ => false,
    }
}

/// Whether some policy of `ps[i..]` carries an obligation.
pub open spec fn nodes_carry_from<O>(ps: Seq<PolicyNode<O>>, i: int) -> bool
    decreases ps, ps.len() - i,
{
    if 0 <= i < ps.len() {
        node_carries(ps[i]) || nodes_carry_from(ps, i + 1)
    } else {
        false
    }
}

impl<O> ResidualPolicy<O> {
    /// Returns true for unconditional permit nodes.
    pub fn is_permit_constant(&self) -> (b: bool)
        ensures
            b == (self@ is Permit || self@ is PermitWithTrace),
    {
        match self {
            ResidualPolicy::Permit(_) | ResidualPolicy::PermitWithTrace { .. } => true,
            _ => false,
        }
    }

    /// Returns true for unconditional denial nodes.
    pub fn is_deny_constant(&self) -> (b: bool)
        ensures
            b == (self@ is Deny || self@ is DenyWithTrace),
    {
        match self {
            ResidualPolicy::Deny | ResidualPolicy::DenyWithTrace { .. } => true,
            _ => false,
        }
    }

    /// Returns true for unconditional permit or denial nodes.
    pub fn is_constant(&self) -> (b: bool)
        ensures
            b == (self@ is Permit || self@ is PermitWithTrace || self@ is Deny || self@ is DenyWithTrace),
    {
        self.is_permit_constant() || self.is_deny_constant()
    }

    /// Returns true when any possible permit carries an obligation.
    pub fn carries_obligation(&self) -> (b: bool)
        ensures
            b == node_carries(self@),
        decreases self, 0nat,
    {
        match self {
            ResidualPolicy::PermitWithTrace { obligations, .. } => obligations.len() > 0,
            ResidualPolicy::Grant { obligations, .. } => obligations.len() > 0,
            ResidualPolicy::All(policies) | ResidualPolicy::Any(policies) => {
                let ghost vs = match self@ {
                    PolicyNode::All(vs) => vs,
                    PolicyNode::Any(vs) => vs,
                    _ => Seq::empty(),
                };
                any_carries(policies, Ghost(vs))
            },
            ResidualPolicy::OrElse { primary, fallback } => primary.carries_obligation() || fallback.carries_obligation(),
            _ => false,
        }
    }
}


fn any_carries<O>(policies: &Vec<ResidualPolicy<O>>, Ghost(vs): Ghost<Seq<PolicyNode<O>>>) -> (b: bool)
    requires
        vs.len() == policies@.len(),
        forall|k: int| 0 <= k < vs.len() ==> vs[k] == #[trigger] residual_view(policies@[k]),
    ensures
        b == nodes_carry_from(vs, 0),
    decreases policies, 1nat,
{
    let mut i: usize = 0;
    while i < policies.len()
        invariant
            i <= policies@.len(),
            vs.len() == policies@.len(),
            forall|k: int| 0 <= k < vs.len() ==> vs[k] == #[trigger] residual_view(policies@[k]),
            nodes_carry_from(vs, 0) == nodes_carry_from(vs, i as int),
        decreases policies@.len() - i,
    {
        assert(vs[i as int] == residual_view(policies@[i as int]));
        if policies[i].carries_obligation() {
            return true;
        }
        i = i + 1;
    }
    false
}

} // verus!
