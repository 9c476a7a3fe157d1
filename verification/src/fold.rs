use vstd::prelude::*;

use crate::decision::DenyShape;
use crate::identity::{ClauseLabel, FactId, ObligationId, ReasonCode};
use crate::policy_model::{Condition, ResidualPolicy};

verus! {

/// Fold node exposed by [`ResidualPolicy::fold`] and its fallible forms.
#[derive(Debug)]
pub enum ResidualPolicyNode<'a, O, T> {
    /// Unconditional permit with an outcome.
    Permit(&'a O),
    /// Unconditional denial.
    Deny,
    /// Constant permit that preserves decisive trace metadata.
    PermitWithTrace {
        /// Granted outcome.
        outcome: &'a O,
        /// Obligations attached to the permit.
        obligations: &'a [ObligationId],
        /// Facts that satisfied the original condition.
        satisfied: &'a [FactId],
        /// Optional stable clause label.
        label: Option<&'a ClauseLabel>,
    },
    /// Constant denial that preserves decisive trace metadata.
    DenyWithTrace {
        /// Outcome requested by the denied grant, when one exists.
        denied: Option<&'a O>,
        /// Facts that caused the original condition to fail.
        unsatisfied: &'a [FactId],
        /// Optional stable clause label.
        label: Option<&'a ClauseLabel>,
        /// Optional stable reason code.
        reason: Option<&'a ReasonCode>,
        /// Disclosure shape for presentation.
        shape: DenyShape,
    },
    /// Conditional permit with denial metadata.
    Grant {
        /// Outcome granted when the condition succeeds.
        outcome: &'a O,
        /// Predicate that guards the grant.
        condition: &'a Condition,
        /// Optional trace label for this clause.
        label: Option<&'a ClauseLabel>,
        /// Shape exposed when the grant condition fails.
        deny_shape: DenyShape,
        /// Obligations attached to a successful grant.
        obligations: &'a [ObligationId],
        /// Reason code attached to a failed grant.
        reason: Option<&'a ReasonCode>,
    },
    /// Meet composition with already-folded child outputs.
    All {
        /// Source child policies.
        policies: &'a [ResidualPolicy<O>],
        /// Folded child outputs in source order.
        arms: Vec<T>,
    },
    /// Join composition with already-folded child outputs.
    Any {
        /// Source child policies.
        policies: &'a [ResidualPolicy<O>],
        /// Folded child outputs in source order.
        arms: Vec<T>,
    },
    /// Fallback composition with already-folded child outputs.
    OrElse {
        /// Source primary residual.
        primary_policy: &'a ResidualPolicy<O>,
        /// Source fallback residual.
        fallback_policy: &'a ResidualPolicy<O>,
        /// Folded primary output.
        primary: T,
        /// Folded fallback output, unless a pruned fold skipped it.
        fallback: Option<T>,
    },
}

/// Child branch considered by [`ResidualPolicy::try_fold_pruned`].
#[derive(Clone, Copy, Debug)]
pub enum ResidualPolicyBranch<'a, O> {
    /// `OrElse` fallback branch.
    OrElseFallback {
        /// Primary residual for the `OrElse`.
        primary: &'a ResidualPolicy<O>,
        /// Fallback residual for the `OrElse`.
        fallback: &'a ResidualPolicy<O>,
    },
}

/// Value view of a fold node: what it borrows, taken by value.
pub enum FoldNode<O, T> {
    Permit(O),
    Deny,
    PermitWithTrace {
        outcome: O,
        obligations: Seq<ObligationId>,
        satisfied: Seq<FactId>,
        label: Option<ClauseLabel>,
    },
    DenyWithTrace {
        denied: Option<O>,
        unsatisfied: Seq<FactId>,
        label: Option<ClauseLabel>,
        reason: Option<ReasonCode>,
        shape: DenyShape,
    },
    Grant {
        outcome: O,
        condition: Condition,
        label: Option<ClauseLabel>,
        deny_shape: DenyShape,
        obligations: Seq<ObligationId>,
        reason: Option<ReasonCode>,
    },
    All { policies: Seq<ResidualPolicy<O>>, arms: Seq<T> },
    Any { policies: Seq<ResidualPolicy<O>>, arms: Seq<T> },
    OrElse {
        primary_policy: ResidualPolicy<O>,
        fallback_policy: ResidualPolicy<O>,
        primary: T,
        fallback: Option<T>,
    },
}

/// The value an optional borrow points to.
pub open spec fn deref_opt<X>(o: Option<&X>) -> Option<X> {
    match o {
        Some(x) => Some(*x),
        None => None,
    }
}

impl<'a, O, T> ResidualPolicyNode<'a, O, T> {
    /// The node with its borrows taken by value.
    pub open spec fn value(&self) -> FoldNode<O, T> {
        match self {
            ResidualPolicyNode::Permit(o) => FoldNode::Permit(**o),
            ResidualPolicyNode::Deny => FoldNode::Deny,
            ResidualPolicyNode::PermitWithTrace { outcome, obligations, satisfied, label } => FoldNode::PermitWithTrace {
                outcome: **outcome,
                obligations: obligations@,
                satisfied: satisfied@,
                label: deref_opt(*label),
            },
            ResidualPolicyNode::DenyWithTrace { denied, unsatisfied, label, reason, shape } => FoldNode::DenyWithTrace {
                denied: deref_opt(*denied),
                unsatisfied: unsatisfied@,
                label: deref_opt(*label),
                reason: deref_opt(*reason),
                shape: *shape,
            },
            ResidualPolicyNode::Grant { outcome, condition, label, deny_shape, obligations, reason } => FoldNode::Grant {
                outcome: **outcome,
                condition: **condition,
                label: deref_opt(*label),
                deny_shape: *deny_shape,
                obligations: obligations@,
                reason: deref_opt(*reason),
            },
            ResidualPolicyNode::All { policies, arms } => FoldNode::All { policies: policies@, arms: arms@ },
            ResidualPolicyNode::Any { policies, arms } => FoldNode::Any { policies: policies@, arms: arms@ },
            ResidualPolicyNode::OrElse { primary_policy, fallback_policy, primary, fallback } => FoldNode::OrElse {
                primary_policy: **primary_policy,
                fallback_policy: **fallback_policy,
                primary: *primary,
                fallback: *fallback,
            },
        }
    }
}

/// `r` is a possible output of the visitor on a node with value `v`.
pub open spec fn visits<'a, O: 'a, T, F: FnMut(ResidualPolicyNode<'a, O, T>) -> T>(f: F, v: FoldNode<O, T>, r: T) -> bool {
    exists|n: ResidualPolicyNode<'a, O, T>| n.value() == v && #[trigger] call_ensures(f, (n,), r)
}

/// `r` is a result of folding `p` bottom-up with the visitor `f`.
pub open spec fn folded<'a, O: 'a, T, F: FnMut(ResidualPolicyNode<'a, O, T>) -> T>(p: ResidualPolicy<O>, f: F, r: T) -> bool
    decreases p,
{
    match p {
        ResidualPolicy::Permit(o) => visits(f, FoldNode::Permit(o), r),
        ResidualPolicy::Deny => visits(f, FoldNode::Deny, r),
        ResidualPolicy::PermitWithTrace { outcome, obligations, satisfied, label } => visits(
            f,
            FoldNode::PermitWithTrace { outcome, obligations: obligations@, satisfied: satisfied@, label },
            r,
        ),
        ResidualPolicy::DenyWithTrace { denied, unsatisfied, label, reason, shape } => visits(
            f,
            FoldNode::DenyWithTrace { denied, unsatisfied: unsatisfied@, label, reason, shape },
            r,
        ),
        ResidualPolicy::Grant { outcome, condition, label, deny_shape, obligations, reason } => visits(
            f,
            FoldNode::Grant { outcome, condition, label, deny_shape, obligations: obligations@, reason },
            r,
        ),
        ResidualPolicy::All(ps) => exists|arms: Seq<T>|
            arms.len() == ps.len() && (forall|k: int| 0 <= k < ps.len() ==> folded(ps[k], f, #[trigger] arms[k]))
                && visits(f, FoldNode::All { policies: ps@, arms }, r),
        ResidualPolicy::Any(ps) => exists|arms: Seq<T>|
            arms.len() == ps.len() && (forall|k: int| 0 <= k < ps.len() ==> folded(ps[k], f, #[trigger] arms[k]))
                && visits(f, FoldNode::Any { policies: ps@, arms }, r),
        ResidualPolicy::OrElse { primary, fallback } => exists|a: T, b: T|
            folded(*primary, f, a) && folded(*fallback, f, b) && visits(
                f,
                FoldNode::OrElse { primary_policy: *primary, fallback_policy: *fallback, primary: a, fallback: Some(b) },
                r,
            ),
    }
}


impl<O> ResidualPolicy<O> {
    /// Folds a residual policy bottom-up: each child is folded first, in
    /// source order, and the visitor receives the node with the children's
    /// outputs.
    pub fn fold<T, F: FnMut(ResidualPolicyNode<'_, O, T>) -> T>(&self, visitor: &mut F) -> (r: T)
        requires
            forall|n: ResidualPolicyNode<'_, O, T>| call_requires(*old(visitor), (n,)),
        ensures
            folded(*self, *old(visitor), r),
            *final(visitor) == *old(visitor),
        decreases self, 0nat,
    {
        match self {
            ResidualPolicy::Permit(outcome) => visitor(ResidualPolicyNode::Permit(outcome)),
            ResidualPolicy::Deny => visitor(ResidualPolicyNode::Deny),
            ResidualPolicy::PermitWithTrace { outcome, obligations, satisfied, label } => visitor(
                ResidualPolicyNode::PermitWithTrace {
                    outcome,
                    obligations: obligations.as_slice(),
                    satisfied: satisfied.as_slice(),
                    label: label.as_ref(),
                },
            ),
            ResidualPolicy::DenyWithTrace { denied, unsatisfied, label, reason, shape } => visitor(
                ResidualPolicyNode::DenyWithTrace {
                    denied: denied.as_ref(),
                    unsatisfied: unsatisfied.as_slice(),
                    label: label.as_ref(),
                    reason: reason.as_ref(),
                    shape: *shape,
                },
            ),
            ResidualPolicy::Grant { outcome, condition, label, deny_shape, obligations, reason } => visitor(
                ResidualPolicyNode::Grant {
                    outcome,
                    condition,
                    label: label.as_ref(),
                    deny_shape: *deny_shape,
                    obligations: obligations.as_slice(),
                    reason: reason.as_ref(),
                },
            ),
            ResidualPolicy::All(policies) => {
                let arms = fold_arms(policies, visitor);
                visitor(ResidualPolicyNode::All { policies: policies.as_slice(), arms })
            },
            ResidualPolicy::Any(policies) => {
                let arms = fold_arms(policies, visitor);
                visitor(ResidualPolicyNode::Any { policies: policies.as_slice(), arms })
            },
            ResidualPolicy::OrElse { primary, fallback } => {
                let ghost f0 = *visitor;
                let primary_output = primary.fold(visitor);
                let fallback_output = fallback.fold(visitor);
                let ghost a = primary_output;
                let ghost b = fallback_output;
                let r = visitor(
                    ResidualPolicyNode::OrElse {
                        primary_policy: &**primary,
                        fallback_policy: &**fallback,
                        primary: primary_output,
                        fallback: Some(fallback_output),
                    },
                );
                proof {
                    assert(folded(**primary, f0, a) && folded(**fallback, f0, b) && visits(
                        f0,
                        FoldNode::OrElse {
                            primary_policy: **primary,
                            fallback_policy: **fallback,
                            primary: a,
                            fallback: Some(b),
                        },
                        r,
                    ));
                }
                r
            },
        }
    }
}

fn fold_arms<O, T, F: FnMut(ResidualPolicyNode<'_, O, T>) -> T>(policies: &Vec<ResidualPolicy<O>>, visitor: &mut F) -> (arms: Vec<T>)
    requires
        forall|n: ResidualPolicyNode<'_, O, T>| call_requires(*old(visitor), (n,)),
    ensures
        arms@.len() == policies@.len(),
        forall|k: int| 0 <= k < policies@.len() ==> folded(policies@[k], *old(visitor), #[trigger] arms@[k]),
        *final(visitor) == *old(visitor),
    decreases policies, 1nat,
{
    let mut arms: Vec<T> = Vec::new();
    let mut i: usize = 0;
    while i < policies.len()
        invariant
            i <= policies@.len(),
            arms@.len() == i,
            *visitor == *old(visitor),
            forall|n: ResidualPolicyNode<'_, O, T>| call_requires(*visitor, (n,)),
            forall|k: int| 0 <= k < i ==> folded(policies@[k], *old(visitor), #[trigger] arms@[k]),
        decreases policies@.len() - i,
    {
        let out = policies[i].fold(visitor);
        arms.push(out);
        i = i + 1;
    }
    arms
}


/// `res` is a possible output of a fallible visitor on a node with value `v`.
pub open spec fn try_visits<'a, O: 'a, T, E, F: FnMut(ResidualPolicyNode<'a, O, T>) -> Result<T, E>>(
    f: F,
    v: FoldNode<O, T>,
    res: Result<T, E>,
) -> bool {
    exists|n: ResidualPolicyNode<'a, O, T>| n.value() == v && #[trigger] call_ensures(f, (n,), res)
}

/// Value view of a leaf policy as a fold node; `None` for compositions.
pub open spec fn leaf_node<O, T>(p: ResidualPolicy<O>) -> Option<FoldNode<O, T>> {
    match p {
        ResidualPolicy::Permit(o) => Some(FoldNode::Permit(o)),
        ResidualPolicy::Deny => Some(FoldNode::Deny),
        ResidualPolicy::PermitWithTrace { outcome, obligations, satisfied, label } => Some(
            FoldNode::PermitWithTrace { outcome, obligations: obligations@, satisfied: satisfied@, label },
        ),
        ResidualPolicy::DenyWithTrace { denied, unsatisfied, label, reason, shape } => Some(
            FoldNode::DenyWithTrace { denied, unsatisfied: unsatisfied@, label, reason, shape },
        ),
        ResidualPolicy::Grant { outcome, condition, label, deny_shape, obligations, reason } => Some(
            FoldNode::Grant { outcome, condition, label, deny_shape, obligations: obligations@, reason },
        ),
        _ => None,
    }
}

/// The outputs of successful results.
pub open spec fn oks<T, E>(rs: Seq<Result<T, E>>) -> Seq<T> {
    Seq::new(rs.len(), |j: int| rs[j]->Ok_0)
}

/// `res` is a result of folding the arms `ps`, in order, with results `rs`,
/// then visiting the composition (`all` for meet, else join); the first
/// error stops the fold.
pub open spec fn tried_arms<'a, O: 'a, T, E, F: FnMut(ResidualPolicyNode<'a, O, T>) -> Result<T, E>>(
    ps: Seq<ResidualPolicy<O>>,
    f: F,
    rs: Seq<Result<T, E>>,
    res: Result<T, E>,
    all: bool,
) -> bool {
    if rs.len() == ps.len() && forall|j: int| 0 <= j < rs.len() ==> rs[j] is Ok {
        try_visits(
            f,
            if all {
                FoldNode::All { policies: ps, arms: oks(rs) }
            } else {
                FoldNode::Any { policies: ps, arms: oks(rs) }
            },
            res,
        )
    } else {
        &&& 0 < rs.len() <= ps.len()
        &&& forall|j: int| 0 <= j < rs.len() - 1 ==> rs[j] is Ok
        &&& rs.last() is Err
        &&& res == rs.last()
    }
}

/// `res` is a result of folding a fallback composition whose primary folds
/// with result `x` and whose fallback folds with result `y`.
pub open spec fn or_else_result<'a, O: 'a, T, E, F: FnMut(ResidualPolicyNode<'a, O, T>) -> Result<T, E>>(
    primary: ResidualPolicy<O>,
    fallback: ResidualPolicy<O>,
    f: F,
    x: Result<T, E>,
    y: Result<T, E>,
    res: Result<T, E>,
) -> bool {
    match x {
        Err(_) => res == x,
        Ok(a) => match y {
            Err(_) => res == y,
            Ok(b) => try_visits(
                f,
                FoldNode::OrElse { primary_policy: primary, fallback_policy: fallback, primary: a, fallback: Some(b) },
                res,
            ),
        },
    }
}

/// `res` is a result of folding `p` bottom-up with the fallible visitor `f`,
/// which stops at the first error.
pub open spec fn tried<'a, O: 'a, T, E, F: FnMut(ResidualPolicyNode<'a, O, T>) -> Result<T, E>>(
    p: ResidualPolicy<O>,
    f: F,
    res: Result<T, E>,
) -> bool
    decreases p,
{
    match p {
        ResidualPolicy::All(ps) => exists|rs: Seq<Result<T, E>>|
            #![trigger tried_arms(ps@, f, rs, res, true)]
            rs.len() <= ps@.len() && (forall|j: int| 0 <= j < rs.len() ==> tried(ps@[j], f, #[trigger] rs[j]))
                && tried_arms(ps@, f, rs, res, true),
        ResidualPolicy::Any(ps) => exists|rs: Seq<Result<T, E>>|
            #![trigger tried_arms(ps@, f, rs, res, false)]
            rs.len() <= ps@.len() && (forall|j: int| 0 <= j < rs.len() ==> tried(ps@[j], f, #[trigger] rs[j]))
                && tried_arms(ps@, f, rs, res, false),
        ResidualPolicy::OrElse { primary, fallback } => {
            ||| tried(*primary, f, res) && res is Err
            ||| exists|x: Result<T, E>, y: Result<T, E>|
                #![trigger or_else_result(*primary, *fallback, f, x, y, res)]
                tried(*primary, f, x) && x is Ok && tried(*fallback, f, y)
                    && or_else_result(*primary, *fallback, f, x, y, res)
        },
        _ => try_visits(f, leaf_node(p)->Some_0, res),
    }
}

impl<O> ResidualPolicy<O> {
    /// Fallibly folds a residual policy bottom-up, returning the first error
    /// produced by `visitor`.
    pub fn try_fold<T, E, F: FnMut(ResidualPolicyNode<'_, O, T>) -> Result<T, E>>(&self, visitor: &mut F) -> (r: Result<T, E>)
        requires
            forall|n: ResidualPolicyNode<'_, O, T>| call_requires(*old(visitor), (n,)),
        ensures
            tried(*self, *old(visitor), r),
            *final(visitor) == *old(visitor),
        decreases self, 0nat,
    {
        match self {
            ResidualPolicy::Permit(outcome) => visitor(ResidualPolicyNode::Permit(outcome)),
            ResidualPolicy::Deny => visitor(ResidualPolicyNode::Deny),
            ResidualPolicy::PermitWithTrace { outcome, obligations, satisfied, label } => visitor(
                ResidualPolicyNode::PermitWithTrace {
                    outcome,
                    obligations: obligations.as_slice(),
                    satisfied: satisfied.as_slice(),
                    label: label.as_ref(),
                },
            ),
            ResidualPolicy::DenyWithTrace { denied, unsatisfied, label, reason, shape } => visitor(
                ResidualPolicyNode::DenyWithTrace {
                    denied: denied.as_ref(),
                    unsatisfied: unsatisfied.as_slice(),
                    label: label.as_ref(),
                    reason: reason.as_ref(),
                    shape: *shape,
                },
            ),
            ResidualPolicy::Grant { outcome, condition, label, deny_shape, obligations, reason } => visitor(
                ResidualPolicyNode::Grant {
                    outcome,
                    condition,
                    label: label.as_ref(),
                    deny_shape: *deny_shape,
                    obligations: obligations.as_slice(),
                    reason: reason.as_ref(),
                },
            ),
            ResidualPolicy::All(policies) => {
                let ghost f0 = *visitor;
                let r = try_fold_arms(policies, visitor, true);
                proof {
                    let rs = choose|rs: Seq<Result<T, E>>|
                        rs.len() <= policies@.len() && (forall|j: int| 0 <= j < rs.len() ==> tried(policies@[j], f0, #[trigger] rs[j]))
                            && tried_arms(policies@, f0, rs, r, true);
                    assert(rs.len() <= policies@.len() && (forall|j: int| 0 <= j < rs.len() ==> tried(policies@[j], f0, #[trigger] rs[j]))
                        && tried_arms(policies@, f0, rs, r, true));
                }
                r
            },
            ResidualPolicy::Any(policies) => {
                let ghost f0 = *visitor;
                let r = try_fold_arms(policies, visitor, false);
                proof {
                    let rs = choose|rs: Seq<Result<T, E>>|
                        rs.len() <= policies@.len() && (forall|j: int| 0 <= j < rs.len() ==> tried(policies@[j], f0, #[trigger] rs[j]))
                            && tried_arms(policies@, f0, rs, r, false);
                    assert(rs.len() <= policies@.len() && (forall|j: int| 0 <= j < rs.len() ==> tried(policies@[j], f0, #[trigger] rs[j]))
                        && tried_arms(policies@, f0, rs, r, false));
                }
                r
            },
            ResidualPolicy::OrElse { primary, fallback } => {
                let ghost f0 = *visitor;
                let primary_result = primary.try_fold(visitor);
                let ghost x = primary_result;
                match primary_result {
                    Err(e) => {
                        assert(tried(**primary, f0, x) && x is Err);
                        Err(e)
                    },
                    Ok(primary_output) => {
                        let ghost a = primary_output;
                        let fallback_result = fallback.try_fold(visitor);
                        let ghost y = fallback_result;
                        match fallback_result {
                            Err(e) => {
                                assert(tried(**primary, f0, x) && x is Ok && tried(**fallback, f0, y)
                                    && or_else_result(**primary, **fallback, f0, x, y, Err::<T, E>(e)));
                                Err(e)
                            },
                            Ok(fallback_output) => {
                                let ghost b = fallback_output;
                                let r = visitor(
                                    ResidualPolicyNode::OrElse {
                                        primary_policy: &**primary,
                                        fallback_policy: &**fallback,
                                        primary: primary_output,
                                        fallback: Some(fallback_output),
                                    },
                                );
                                assert(tried(**primary, f0, x) && x is Ok && tried(**fallback, f0, y)
                                    && or_else_result(**primary, **fallback, f0, x, y, r));
                                r
                            },
                        }
                    },
                }
            },
        }
    }
}

fn try_fold_arms<O, T, E, F: FnMut(ResidualPolicyNode<'_, O, T>) -> Result<T, E>>(
    policies: &Vec<ResidualPolicy<O>>,
    visitor: &mut F,
    all: bool,
) -> (r: Result<T, E>)
    requires
        forall|n: ResidualPolicyNode<'_, O, T>| call_requires(*old(visitor), (n,)),
    ensures
        exists|rs: Seq<Result<T, E>>|
            rs.len() <= policies@.len() && (forall|j: int| 0 <= j < rs.len() ==> tried(policies@[j], *old(visitor), #[trigger] rs[j]))
                && tried_arms(policies@, *old(visitor), rs, r, all),
        *final(visitor) == *old(visitor),
    decreases policies, 1nat,
{
    let ghost f0 = *visitor;
    let ghost ps = policies@;
    let ghost mut rs: Seq<Result<T, E>> = Seq::empty();
    let mut arms: Vec<T> = Vec::new();
    let mut failed: Option<E> = None;
    let mut i: usize = 0;
    while i < policies.len() && failed.is_none()
        invariant
            i <= policies@.len(),
            ps == policies@,
            *visitor == f0,
            f0 == *old(visitor),
            forall|n: ResidualPolicyNode<'_, O, T>| call_requires(f0, (n,)),
            rs.len() == i,
            forall|j: int| 0 <= j < rs.len() ==> tried(ps[j], f0, #[trigger] rs[j]),
            failed is None ==> arms@ == oks(rs) && forall|j: int| 0 <= j < rs.len() ==> #[trigger] rs[j] is Ok,
            failed matches Some(e) ==> i > 0 && rs.last() == Err::<T, E>(e) && forall|j: int| 0 <= j < rs.len() - 1 ==> #[trigger] rs[j] is Ok,
        decreases policies@.len() - i,
    {
        let result = policies[i].try_fold(visitor);
        let ghost x = result;
        proof {
            rs = rs.push(x);
        }
        match result {
            Ok(out) => {
                let ghost before = arms@;
                arms.push(out);
                proof {
                    assert(arms@ =~= oks(rs));
                }
            },
            Err(e) => {
                failed = Some(e);
            },
        }
        i = i + 1;
    }
    match failed {
        Some(e) => {
            proof {
                if rs.len() == ps.len() && forall|j: int| 0 <= j < rs.len() ==> rs[j] is Ok {
                    assert(rs[rs.len() - 1] is Ok);
                }
                assert(tried_arms(ps, f0, rs, Err::<T, E>(e), all));
                assert(rs.len() <= ps.len() && (forall|j: int| 0 <= j < rs.len() ==> tried(ps[j], f0, #[trigger] rs[j]))
                    && tried_arms(ps, f0, rs, Err::<T, E>(e), all));
            }
            Err(e)
        },
        None => {
            let r = if all {
                visitor(ResidualPolicyNode::All { policies: policies.as_slice(), arms })
            } else {
                visitor(ResidualPolicyNode::Any { policies: policies.as_slice(), arms })
            };
            proof {
                assert(tried_arms(ps, f0, rs, r, all));
                assert(rs.len() <= ps.len() && (forall|j: int| 0 <= j < rs.len() ==> tried(ps[j], f0, #[trigger] rs[j]))
                    && tried_arms(ps, f0, rs, r, all));
            }
            r
        },
    }
}


/// The residual pair a branch points to.
pub open spec fn branch_pair<'a, O>(b: ResidualPolicyBranch<'a, O>) -> (ResidualPolicy<O>, ResidualPolicy<O>) {
    match b {
        ResidualPolicyBranch::OrElseFallback { primary, fallback } => (*primary, *fallback),
    }
}

/// `go` is a possible answer of `d` on the fallback branch of the
/// composition of `primary` and `fallback`.
pub open spec fn descends<'a, O: 'a, D: FnMut(&ResidualPolicyBranch<'a, O>) -> bool>(
    d: D,
    primary: ResidualPolicy<O>,
    fallback: ResidualPolicy<O>,
    go: bool,
) -> bool {
    exists|b: ResidualPolicyBranch<'a, O>| branch_pair(b) == (primary, fallback) && #[trigger] call_ensures(d, (&b,), go)
}

/// `res` is a result of a pruned fallback composition whose primary folded
/// with `x`, whose fallback was entered when `go` holds and then folded with
/// `y`.
pub open spec fn pruned_or_else<'a, O: 'a, T, E, D: FnMut(&ResidualPolicyBranch<'a, O>) -> bool, F: FnMut(ResidualPolicyNode<'a, O, T>) -> Result<T, E>>(
    primary: ResidualPolicy<O>,
    fallback: ResidualPolicy<O>,
    d: D,
    f: F,
    x: Result<T, E>,
    go: bool,
    y: Result<T, E>,
    res: Result<T, E>,
) -> bool {
    &&& x is Ok
    &&& descends(d, primary, fallback, go)
    &&& go ==> or_else_result(primary, fallback, f, x, y, res)
    &&& !go ==> try_visits(
        f,
        FoldNode::OrElse { primary_policy: primary, fallback_policy: fallback, primary: x->Ok_0, fallback: None },
        res,
    )
}

/// `res` is a result of folding `p` bottom-up with the fallible visitor `f`,
/// entering a fallback branch only where `d` answers `true`.
pub open spec fn pruned<'a, O: 'a, T, E, D: FnMut(&ResidualPolicyBranch<'a, O>) -> bool, F: FnMut(ResidualPolicyNode<'a, O, T>) -> Result<T, E>>(
    p: ResidualPolicy<O>,
    d: D,
    f: F,
    res: Result<T, E>,
) -> bool
    decreases p,
{
    match p {
        ResidualPolicy::All(ps) => exists|rs: Seq<Result<T, E>>|
            #![trigger tried_arms(ps@, f, rs, res, true)]
            rs.len() <= ps@.len() && (forall|j: int| 0 <= j < rs.len() ==> pruned(ps@[j], d, f, #[trigger] rs[j]))
                && tried_arms(ps@, f, rs, res, true),
        ResidualPolicy::Any(ps) => exists|rs: Seq<Result<T, E>>|
            #![trigger tried_arms(ps@, f, rs, res, false)]
            rs.len() <= ps@.len() && (forall|j: int| 0 <= j < rs.len() ==> pruned(ps@[j], d, f, #[trigger] rs[j]))
                && tried_arms(ps@, f, rs, res, false),
        ResidualPolicy::OrElse { primary, fallback } => {
            ||| pruned(*primary, d, f, res) && res is Err
            ||| exists|x: Result<T, E>, go: bool, y: Result<T, E>|
                #![trigger pruned_or_else(*primary, *fallback, d, f, x, go, y, res)]
                pruned(*primary, d, f, x) && (go ==> pruned(*fallback, d, f, y))
                    && pruned_or_else(*primary, *fallback, d, f, x, go, y, res)
        },
        _ => try_visits(f, leaf_node(p)->Some_0, res),
    }
}

impl<O> ResidualPolicy<O> {
    /// Fallibly folds a residual policy bottom-up, asking `should_descend`
    /// before each fallback branch is folded; a skipped fallback reaches the
    /// visitor as `None`. Returns the first error produced by `visitor`.
    pub fn try_fold_pruned<T, E, D: FnMut(&ResidualPolicyBranch<'_, O>) -> bool, F: FnMut(ResidualPolicyNode<'_, O, T>) -> Result<T, E>>(
        &self,
        should_descend: &mut D,
        visitor: &mut F,
    ) -> (r: Result<T, E>)
        requires
            forall|b: &ResidualPolicyBranch<'_, O>| call_requires(*old(should_descend), (b,)),
            forall|n: ResidualPolicyNode<'_, O, T>| call_requires(*old(visitor), (n,)),
        ensures
            pruned(*self, *old(should_descend), *old(visitor), r),
            *final(should_descend) == *old(should_descend),
            *final(visitor) == *old(visitor),
        decreases self, 0nat,
    {
        match self {
            ResidualPolicy::Permit(outcome) => visitor(ResidualPolicyNode::Permit(outcome)),
            ResidualPolicy::Deny => visitor(ResidualPolicyNode::Deny),
            ResidualPolicy::PermitWithTrace { outcome, obligations, satisfied, label } => visitor(
                ResidualPolicyNode::PermitWithTrace {
                    outcome,
                    obligations: obligations.as_slice(),
                    satisfied: satisfied.as_slice(),
                    label: label.as_ref(),
                },
            ),
            ResidualPolicy::DenyWithTrace { denied, unsatisfied, label, reason, shape } => visitor(
                ResidualPolicyNode::DenyWithTrace {
                    denied: denied.as_ref(),
                    unsatisfied: unsatisfied.as_slice(),
                    label: label.as_ref(),
                    reason: reason.as_ref(),
                    shape: *shape,
                },
            ),
            ResidualPolicy::Grant { outcome, condition, label, deny_shape, obligations, reason } => visitor(
                ResidualPolicyNode::Grant {
                    outcome,
                    condition,
                    label: label.as_ref(),
                    deny_shape: *deny_shape,
                    obligations: obligations.as_slice(),
                    reason: reason.as_ref(),
                },
            ),
            ResidualPolicy::All(policies) => try_fold_pruned_arms(policies, should_descend, visitor, true),
            ResidualPolicy::Any(policies) => try_fold_pruned_arms(policies, should_descend, visitor, false),
            ResidualPolicy::OrElse { primary, fallback } => {
                let ghost d0 = *should_descend;
                let ghost f0 = *visitor;
                let primary_result = primary.try_fold_pruned(should_descend, visitor);
                let ghost x = primary_result;
                let primary_output = match primary_result {
                    Err(e) => {
                        assert(pruned(**primary, d0, f0, x) && x is Err);
                        return Err(e);
                    },
                    Ok(out) => out,
                };
                let fallback_branch = ResidualPolicyBranch::OrElseFallback { primary: &**primary, fallback: &**fallback };
                let go = should_descend(&fallback_branch);
                proof {
                    assert(branch_pair(fallback_branch) == (**primary, **fallback));
                    assert(descends(d0, **primary, **fallback, go));
                }
                if go {
                    let fallback_result = fallback.try_fold_pruned(should_descend, visitor);
                    let ghost y = fallback_result;
                    match fallback_result {
                        Err(e) => {
                            assert(pruned(**primary, d0, f0, x) && pruned(**fallback, d0, f0, y)
                                && pruned_or_else(**primary, **fallback, d0, f0, x, go, y, Err::<T, E>(e)));
                            Err(e)
                        },
                        Ok(fallback_output) => {
                            let r = visitor(
                                ResidualPolicyNode::OrElse {
                                    primary_policy: &**primary,
                                    fallback_policy: &**fallback,
                                    primary: primary_output,
                                    fallback: Some(fallback_output),
                                },
                            );
                            assert(pruned(**primary, d0, f0, x) && pruned(**fallback, d0, f0, y)
                                && pruned_or_else(**primary, **fallback, d0, f0, x, go, y, r));
                            r
                        },
                    }
                } else {
                    let r = visitor(
                        ResidualPolicyNode::OrElse {
                            primary_policy: &**primary,
                            fallback_policy: &**fallback,
                            primary: primary_output,
                            fallback: None,
                        },
                    );
                    assert(pruned(**primary, d0, f0, x) && pruned_or_else(**primary, **fallback, d0, f0, x, go, x, r));
                    r
                }
            },
        }
    }
}

fn try_fold_pruned_arms<O, T, E, D: FnMut(&ResidualPolicyBranch<'_, O>) -> bool, F: FnMut(ResidualPolicyNode<'_, O, T>) -> Result<T, E>>(
    policies: &Vec<ResidualPolicy<O>>,
    should_descend: &mut D,
    visitor: &mut F,
    all: bool,
) -> (r: Result<T, E>)
    requires
        forall|b: &ResidualPolicyBranch<'_, O>| call_requires(*old(should_descend), (b,)),
        forall|n: ResidualPolicyNode<'_, O, T>| call_requires(*old(visitor), (n,)),
    ensures
        exists|rs: Seq<Result<T, E>>|
            #![trigger tried_arms(policies@, *old(visitor), rs, r, all)]
            rs.len() <= policies@.len() && (forall|j: int| 0 <= j < rs.len() ==> pruned(policies@[j], *old(should_descend), *old(visitor), #[trigger] rs[j]))
                && tried_arms(policies@, *old(visitor), rs, r, all),
        *final(should_descend) == *old(should_descend),
        *final(visitor) == *old(visitor),
    decreases policies, 1nat,
{
    let ghost d0 = *should_descend;
    let ghost f0 = *visitor;
    let ghost ps = policies@;
    let ghost mut rs: Seq<Result<T, E>> = Seq::empty();
    let mut arms: Vec<T> = Vec::new();
    let mut failed: Option<E> = None;
    let mut i: usize = 0;
    while i < policies.len() && failed.is_none()
        invariant
            i <= policies@.len(),
            ps == policies@,
            *should_descend == d0,
            d0 == *old(should_descend),
            *visitor == f0,
            f0 == *old(visitor),
            forall|b: &ResidualPolicyBranch<'_, O>| call_requires(d0, (b,)),
            forall|n: ResidualPolicyNode<'_, O, T>| call_requires(f0, (n,)),
            rs.len() == i,
            forall|j: int| 0 <= j < rs.len() ==> pruned(ps[j], d0, f0, #[trigger] rs[j]),
            failed is None ==> arms@ == oks(rs) && forall|j: int| 0 <= j < rs.len() ==> #[trigger] rs[j] is Ok,
            failed matches Some(e) ==> i > 0 && rs.last() == Err::<T, E>(e) && forall|j: int| 0 <= j < rs.len() - 1 ==> #[trigger] rs[j] is Ok,
        decreases policies@.len() - i,
    {
        let result = policies[i].try_fold_pruned(should_descend, visitor);
        let ghost x = result;
        proof {
            rs = rs.push(x);
        }
        match result {
            Ok(out) => {
                arms.push(out);
                proof {
                    assert(arms@ =~= oks(rs));
                }
            },
            Err(e) => {
                failed = Some(e);
            },
        }
        i = i + 1;
    }
    match failed {
        Some(e) => {
            proof {
                if rs.len() == ps.len() && forall|j: int| 0 <= j < rs.len() ==> rs[j] is Ok {
                    assert(rs[rs.len() - 1] is Ok);
                }
                assert(tried_arms(ps, f0, rs, Err::<T, E>(e), all));
            }
            Err(e)
        },
        None => {
            let r = if all {
                visitor(ResidualPolicyNode::All { policies: policies.as_slice(), arms })
            } else {
                visitor(ResidualPolicyNode::Any { policies: policies.as_slice(), arms })
            };
            proof {
                assert(tried_arms(ps, f0, rs, r, all));
            }
            r
        },
    }
}

} // verus!
