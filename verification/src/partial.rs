use vstd::prelude::*;

use crate::decision::{Decision, DecisionTrace, DecisionView, DecisiveClause, DecisiveView, Effect};
use crate::evaluate::{
    copy_label, copy_obligations, copy_reason, decision_of, deny_view, effect_permits, evaluate,
    evaluate_residual, node_eval, record_all, Consulted, Read,
};
use crate::facts::{known_part, presence_in, KnownFacts, PartialFacts, Presence};
use crate::identity::FactId;
use crate::policy_model::{
    cond_view, conds_of, lemma_condition_list_view, lemma_residual_list_view, policy_view,
    residual_view, residuals_of, Condition, ConditionView, Lattice, Policy, PolicyNode,
    ResidualPolicy,
};

verus! {

// ---------------------------------------------------------------------------
// Specification of partial evaluation

/// A condition reduced against partial facts: either decided, or a smaller
/// condition over the unknown facts; with the known facts consulted.
#[verifier::ext_equal]
pub enum ReducedCond {
    Known(bool, Seq<Read>),
    Pending(ConditionView, Seq<Read>),
}

/// Result of partially evaluating a policy, as a view: a decision, or a
/// residual policy with the known facts consulted so far.
#[verifier::ext_equal]
pub enum ResidualView<O> {
    Resolved(DecisionView<O>),
    Pending(PolicyNode<O>, Seq<Read>),
}

/// Reduction of a condition: known facts decide what they can, unknown facts
/// stay in the residual condition.
pub open spec fn reduce_cond(c: ConditionView, m: Map<Seq<char>, Presence>) -> ReducedCond
    decreases c, 0nat,
{
    match c {
        ConditionView::Always => ReducedCond::Known(true, Seq::empty()),
        ConditionView::Never => ReducedCond::Known(false, Seq::empty()),
        ConditionView::Has(f) => {
            let p = presence_in(m, f);
            if p == Presence::Unknown {
                ReducedCond::Pending(ConditionView::Has(f), Seq::empty())
            } else {
                ReducedCond::Known(p == Presence::Present, seq![(f, p)])
            }
        },
        ConditionView::Not(inner) => match reduce_cond(*inner, m) {
            ReducedCond::Known(s, c) => ReducedCond::Known(!s, c),
            ReducedCond::Pending(r, c) => ReducedCond::Pending(ConditionView::Not(Box::new(r)), c),
        },
        ConditionView::All(cs) => if cs.len() == 0 {
            ReducedCond::Known(false, Seq::empty())
        } else {
            reduce_cond_all_from(cs, 0, m, Seq::empty(), Seq::empty())
        },
        ConditionView::Any(cs) => if cs.len() == 0 {
            ReducedCond::Known(false, Seq::empty())
        } else {
            reduce_cond_any_from(cs, 0, m, Seq::empty(), Seq::empty())
        },
    }
}

/// The residual of a composition whose decided arms did not settle it.
pub open spec fn pending_cond(settled: bool, all: bool, pending: Seq<ConditionView>, consulted: Seq<Read>) -> ReducedCond {
    if pending.len() == 0 {
        ReducedCond::Known(settled, consulted)
    } else if pending.len() == 1 {
        ReducedCond::Pending(pending[0], consulted)
    } else if all {
        ReducedCond::Pending(ConditionView::All(pending), consulted)
    } else {
        ReducedCond::Pending(ConditionView::Any(pending), consulted)
    }
}

/// Reduction of a conjunction over `cs[i..]`: a known failure decides it.
pub open spec fn reduce_cond_all_from(
    cs: Seq<ConditionView>,
    i: int,
    m: Map<Seq<char>, Presence>,
    consulted: Seq<Read>,
    pending: Seq<ConditionView>,
) -> ReducedCond
    decreases cs, cs.len() - i,
{
    if 0 <= i < cs.len() {
        match reduce_cond(cs[i], m) {
            ReducedCond::Known(s, c) => if !s {
                ReducedCond::Known(false, record_all(consulted, c))
            } else {
                reduce_cond_all_from(cs, i + 1, m, record_all(consulted, c), pending)
            },
            ReducedCond::Pending(r, c) => reduce_cond_all_from(cs, i + 1, m, record_all(consulted, c), pending.push(r)),
        }
    } else {
        pending_cond(true, true, pending, consulted)
    }
}

/// Reduction of a disjunction over `cs[i..]`: a known success decides it.
pub open spec fn reduce_cond_any_from(
    cs: Seq<ConditionView>,
    i: int,
    m: Map<Seq<char>, Presence>,
    consulted: Seq<Read>,
    pending: Seq<ConditionView>,
) -> ReducedCond
    decreases cs, cs.len() - i,
{
    if 0 <= i < cs.len() {
        match reduce_cond(cs[i], m) {
            ReducedCond::Known(s, c) => if s {
                ReducedCond::Known(true, record_all(consulted, c))
            } else {
                reduce_cond_any_from(cs, i + 1, m, record_all(consulted, c), pending)
            },
            ReducedCond::Pending(r, c) => reduce_cond_any_from(cs, i + 1, m, record_all(consulted, c), pending.push(r)),
        }
    } else {
        pending_cond(false, false, pending, consulted)
    }
}


/// `d` with its consulted facts replaced by `c`.
pub open spec fn with_consulted_view<O>(d: DecisionView<O>, c: Seq<Read>) -> DecisionView<O> {
    DecisionView { effect: d.effect, obligations: d.obligations, consulted: c, decisive: d.decisive }
}

/// The constant residual that reproduces a decision's effect, obligations
/// and decisive clause.
pub open spec fn residual_of_decision<O>(d: DecisionView<O>) -> PolicyNode<O> {
    match d.effect {
        Effect::Permit(outcome) => match d.decisive {
            DecisiveView::Permit { satisfied, label, .. } => PolicyNode::PermitWithTrace {
                outcome,
                obligations: d.obligations,
                satisfied,
                label,
            },
            DecisiveView::Deny { .. } => PolicyNode::Permit(outcome),
        },
        Effect::Deny => match d.decisive {
            DecisiveView::Deny { denied, unsatisfied, label, reason, shape } => PolicyNode::DenyWithTrace {
                denied,
                unsatisfied,
                label,
                reason,
                shape,
            },
            DecisiveView::Permit { .. } => PolicyNode::Deny,
        },
    }
}

/// Partial evaluation of a policy view against a partial fact map: decided
/// parts are resolved with the known facts, the rest stays as a residual.
pub open spec fn reduce_node<O: Lattice>(p: PolicyNode<O>, m: Map<Seq<char>, Presence>) -> ResidualView<O>
    decreases p, 0nat,
{
    match p {
        PolicyNode::Grant { outcome, condition, label, deny_shape, obligations, reason } => match reduce_cond(condition, m) {
            ReducedCond::Known(_, c) => ResidualView::Resolved(
                with_consulted_view(decision_of(node_eval(p, known_part(m))), c),
            ),
            ReducedCond::Pending(r, c) => ResidualView::Pending(
                PolicyNode::Grant { outcome, condition: r, label, deny_shape, obligations, reason },
                c,
            ),
        },
        PolicyNode::All(ps) => if ps.len() == 0 {
            ResidualView::Resolved(decision_of(deny_view()))
        } else {
            reduce_all_from(ps, 0, m, Seq::empty(), Seq::empty(), Seq::empty())
        },
        PolicyNode::Any(ps) => if ps.len() == 0 {
            ResidualView::Resolved(decision_of(deny_view()))
        } else {
            reduce_any_from(ps, 0, m, Seq::empty(), Seq::empty(), Seq::empty(), None)
        },
        PolicyNode::OrElse(primary, fallback) => or_else_view(reduce_node(*primary, m), reduce_node(*fallback, m)),
        _ => ResidualView::Resolved(decision_of(node_eval(p, known_part(m)))),
    }
}

/// Reduction of a meet composition over `ps[i..]`: a resolved denial decides
/// it; resolved permits become constant residuals ahead of the pending arms.
pub open spec fn reduce_all_from<O: Lattice>(
    ps: Seq<PolicyNode<O>>,
    i: int,
    m: Map<Seq<char>, Presence>,
    consulted: Seq<Read>,
    permits: Seq<PolicyNode<O>>,
    pending: Seq<PolicyNode<O>>,
) -> ResidualView<O>
    decreases ps, ps.len() - i,
{
    if 0 <= i < ps.len() {
        match reduce_node(ps[i], m) {
            ResidualView::Resolved(d) => {
                let c = record_all(consulted, d.consulted);
                if d.effect is Deny {
                    ResidualView::Resolved(with_consulted_view(d, c))
                } else {
                    reduce_all_from(ps, i + 1, m, c, permits.push(residual_of_decision(d)), pending)
                }
            },
            ResidualView::Pending(r, c) => reduce_all_from(ps, i + 1, m, record_all(consulted, c), permits, pending.push(r)),
        }
    } else if pending.len() == 0 {
        ResidualView::Resolved(
            with_consulted_view(decision_of(node_eval(PolicyNode::All(permits), known_part(m))), consulted),
        )
    } else {
        ResidualView::Pending(PolicyNode::All(permits + pending), consulted)
    }
}

/// Reduction of a join composition over `ps[i..]`: resolved permits become
/// constant residuals ahead of the pending arms; without resolved permits
/// the first resolved denial is kept.
pub open spec fn reduce_any_from<O: Lattice>(
    ps: Seq<PolicyNode<O>>,
    i: int,
    m: Map<Seq<char>, Presence>,
    consulted: Seq<Read>,
    permits: Seq<PolicyNode<O>>,
    pending: Seq<PolicyNode<O>>,
    first_deny: Option<DecisionView<O>>,
) -> ResidualView<O>
    decreases ps, ps.len() - i,
{
    if 0 <= i < ps.len() {
        match reduce_node(ps[i], m) {
            ResidualView::Resolved(d) => {
                let c = record_all(consulted, d.consulted);
                if d.effect is Permit {
                    reduce_any_from(ps, i + 1, m, c, permits.push(residual_of_decision(d)), pending, first_deny)
                } else {
                    reduce_any_from(ps, i + 1, m, c, permits, pending, if first_deny is None { Some(d) } else { first_deny })
                }
            },
            ResidualView::Pending(r, c) => reduce_any_from(ps, i + 1, m, record_all(consulted, c), permits, pending.push(r), first_deny),
        }
    } else if pending.len() == 0 {
        if permits.len() == 0 && first_deny is Some {
            ResidualView::Resolved(with_consulted_view(first_deny->Some_0, consulted))
        } else {
            ResidualView::Resolved(
                with_consulted_view(decision_of(node_eval(PolicyNode::Any(permits), known_part(m))), consulted),
            )
        }
    } else if permits.len() == 0 && first_deny is Some {
        ResidualView::Pending(PolicyNode::Any(seq![residual_of_decision(first_deny->Some_0)] + pending), consulted)
    } else {
        ResidualView::Pending(PolicyNode::Any(permits + pending), consulted)
    }
}

/// Reduction of a fallback composition from the reductions of its parts: a
/// resolved permit of the primary decides it, a resolved denial hands over to
/// the fallback.
pub open spec fn or_else_view<O>(a: ResidualView<O>, b: ResidualView<O>) -> ResidualView<O> {
    match a {
        ResidualView::Resolved(d) => if d.effect is Permit {
            a
        } else {
            match b {
                ResidualView::Resolved(fd) => ResidualView::Resolved(
                    with_consulted_view(fd, record_all(d.consulted, fd.consulted)),
                ),
                ResidualView::Pending(r, fc) => ResidualView::Pending(r, record_all(d.consulted, fc)),
            }
        },
        ResidualView::Pending(pr, c) => match b {
            ResidualView::Resolved(d) => ResidualView::Pending(
                PolicyNode::OrElse(Box::new(pr), Box::new(residual_of_decision(d))),
                record_all(c, d.consulted),
            ),
            ResidualView::Pending(fr, fc) => ResidualView::Pending(
                PolicyNode::OrElse(Box::new(pr), Box::new(fr)),
                record_all(c, fc),
            ),
        },
    }
}

/// Completion of a partial-evaluation result against known facts: a pending
/// residual is evaluated, and its consulted facts follow the earlier ones.
pub open spec fn complete_view<O: Lattice>(r: ResidualView<O>, m: Map<Seq<char>, Presence>) -> DecisionView<O> {
    match r {
        ResidualView::Resolved(d) => d,
        ResidualView::Pending(p, c) => {
            let d = decision_of(node_eval(p, m));
            with_consulted_view(d, record_all(record_all(Seq::empty(), c), d.consulted))
        },
    }
}


// ---------------------------------------------------------------------------
// Executable condition reduction

enum ReducedCondition {
    Known { satisfied: bool, consulted: Consulted },
    Pending { residual: Condition, consulted: Consulted },
}

impl ReducedCondition {
    spec fn view(&self) -> ReducedCond {
        match self {
            ReducedCondition::Known { satisfied, consulted } => ReducedCond::Known(*satisfied, consulted.reads()),
            ReducedCondition::Pending { residual, consulted } => ReducedCond::Pending(residual@, consulted.reads()),
        }
    }
}

fn reduce_condition(condition: &Condition, facts: &PartialFacts) -> (r: ReducedCondition)
    ensures
        r.view() == reduce_cond(condition@, facts@),
    decreases condition, 0nat,
{
    match condition {
        Condition::Always => ReducedCondition::Known { satisfied: true, consulted: Consulted::new() },
        Condition::Never => ReducedCondition::Known { satisfied: false, consulted: Consulted::new() },
        Condition::Has(fact) => {
            let presence = facts.presence(fact);
            if presence == Presence::Unknown {
                ReducedCondition::Pending {
                    residual: Condition::Has(fact.duplicate()),
                    consulted: Consulted::new(),
                }
            } else {
                let mut consulted = Consulted::new();
                consulted.record(fact, presence);
                assert(consulted.reads() =~= seq![(fact@, presence)]);
                ReducedCondition::Known { satisfied: presence == Presence::Present, consulted }
            }
        },
        Condition::Not(inner) => match reduce_condition(inner, facts) {
            ReducedCondition::Known { satisfied, consulted } => ReducedCondition::Known {
                satisfied: !satisfied,
                consulted,
            },
            ReducedCondition::Pending { residual, consulted } => {
                let r = ReducedCondition::Pending {
                    residual: Condition::Not(Box::new(residual)),
                    consulted,
                };
                assert(cond_view(Condition::Not(Box::new(residual))) == ConditionView::Not(
                    Box::new(cond_view(residual)),
                ));
                r
            },
        },
        Condition::All(conditions) => {
            let ghost vs = match condition@ {
                ConditionView::All(vs) => vs,
                _ => Seq::empty(),
            };
            reduce_condition_list(conditions, facts, true, Ghost(vs))
        },
        Condition::Any(conditions) => {
            let ghost vs = match condition@ {
                ConditionView::Any(vs) => vs,
                _ => Seq::empty(),
            };
            reduce_condition_list(conditions, facts, false, Ghost(vs))
        },
    }
}

/// Reduces a conjunction (`all`) or a disjunction (not `all`).
fn reduce_condition_list(
    conditions: &Vec<Condition>,
    facts: &PartialFacts,
    all: bool,
    Ghost(vs): Ghost<Seq<ConditionView>>,
) -> (r: ReducedCondition)
    requires
        vs.len() == conditions@.len(),
        forall|k: int| 0 <= k < vs.len() ==> vs[k] == #[trigger] cond_view(conditions@[k]),
    ensures
        r.view() == (if vs.len() == 0 {
            ReducedCond::Known(false, Seq::empty())
        } else if all {
            reduce_cond_all_from(vs, 0, facts@, Seq::empty(), Seq::empty())
        } else {
            reduce_cond_any_from(vs, 0, facts@, Seq::empty(), Seq::empty())
        }),
    decreases conditions, 1nat,
{
    if conditions.len() == 0 {
        return ReducedCondition::Known { satisfied: false, consulted: Consulted::new() };
    }
    let ghost m = facts@;
    let ghost whole = if all {
        reduce_cond_all_from(vs, 0, m, Seq::empty(), Seq::empty())
    } else {
        reduce_cond_any_from(vs, 0, m, Seq::empty(), Seq::empty())
    };
    let mut consulted = Consulted::new();
    let mut pending: Vec<Condition> = Vec::new();
    assert(conds_of(pending@) =~= Seq::<ConditionView>::empty());
    let mut i: usize = 0;
    while i < conditions.len()
        invariant
            i <= conditions@.len(),
            vs.len() == conditions@.len(),
            forall|k: int| 0 <= k < vs.len() ==> vs[k] == #[trigger] cond_view(conditions@[k]),
            m == facts@,
            whole == (if all {
                reduce_cond_all_from(vs, 0, m, Seq::empty(), Seq::empty())
            } else {
                reduce_cond_any_from(vs, 0, m, Seq::empty(), Seq::empty())
            }),
            whole == (if all {
                reduce_cond_all_from(vs, i as int, m, consulted.reads(), conds_of(pending@))
            } else {
                reduce_cond_any_from(vs, i as int, m, consulted.reads(), conds_of(pending@))
            }),
        decreases conditions@.len() - i,
    {
        assert(vs[i as int] == cond_view(conditions@[i as int]));
        let ghost old_reads = consulted.reads();
        match reduce_condition(&conditions[i], facts) {
            ReducedCondition::Known { satisfied, consulted: arm_consulted } => {
                consulted.extend(&arm_consulted.0);
                if satisfied != all {
                    proof {
                        if all {
                            assert(reduce_cond_all_from(vs, i as int, m, old_reads, conds_of(pending@))
                                == ReducedCond::Known(false, consulted.reads()));
                        } else {
                            assert(reduce_cond_any_from(vs, i as int, m, old_reads, conds_of(pending@))
                                == ReducedCond::Known(true, consulted.reads()));
                        }
                    }
                    return ReducedCondition::Known { satisfied, consulted };
                }
            },
            ReducedCondition::Pending { residual, consulted: arm_consulted } => {
                consulted.extend(&arm_consulted.0);
                let ghost before = conds_of(pending@);
                pending.push(residual);
                assert(conds_of(pending@) =~= before.push(residual@));
            },
        }
        i = i + 1;
    }
    if pending.len() == 0 {
        ReducedCondition::Known { satisfied: all, consulted }
    } else if pending.len() == 1 {
        let ghost ps = pending@;
        let residual = pending.pop().unwrap();
        assert(residual == ps[0]);
        ReducedCondition::Pending { residual, consulted }
    } else if all {
        proof {
            lemma_condition_list_view(pending);
        }
        ReducedCondition::Pending { residual: Condition::All(pending), consulted }
    } else {
        proof {
            lemma_condition_list_view(pending);
        }
        ReducedCondition::Pending { residual: Condition::Any(pending), consulted }
    }
}


// ---------------------------------------------------------------------------
// Executable policy reduction

enum ReducedPolicy<O> {
    Resolved(Decision<O>),
    Pending { residual: ResidualPolicy<O>, consulted: Consulted },
}

impl<O> ReducedPolicy<O> {
    spec fn view(&self) -> ResidualView<O> {
        match self {
            ReducedPolicy::Resolved(d) => ResidualView::Resolved(d@),
            ReducedPolicy::Pending { residual, consulted } => ResidualView::Pending(residual@, consulted.reads()),
        }
    }
}

/// Replaces the consulted facts of a decision.
fn with_consulted<O>(decision: Decision<O>, consulted: Consulted) -> (r: Decision<O>)
    ensures
        r@ == with_consulted_view(decision@, consulted.reads()),
{
    Decision {
        effect: decision.effect,
        obligations: decision.obligations,
        trace: DecisionTrace { consulted: consulted.0, decisive: decision.trace.decisive },
    }
}

/// The constant residual that reproduces a decision.
fn policy_from_decision<O>(decision: Decision<O>) -> (r: ResidualPolicy<O>)
    ensures
        r@ == residual_of_decision(decision@),
{
    let Decision { effect, obligations, trace } = decision;
    match effect {
        Effect::Permit(outcome) => match trace.decisive {
            DecisiveClause::Permit { satisfied, label, .. } => ResidualPolicy::PermitWithTrace {
                outcome,
                obligations,
                satisfied,
                label,
            },
            DecisiveClause::Deny { .. } => ResidualPolicy::Permit(outcome),
        },
        Effect::Deny => match trace.decisive {
            DecisiveClause::Deny { denied, unsatisfied, label, reason, shape } => ResidualPolicy::DenyWithTrace {
                denied,
                unsatisfied,
                label,
                reason,
                shape,
            },
            DecisiveClause::Permit { .. } => ResidualPolicy::Deny,
        },
    }
}

fn reduce_policy<O: Lattice>(policy: &Policy<O>, facts: &PartialFacts) -> (r: ReducedPolicy<O>)
    ensures
        r.view() == reduce_node(policy@, facts@),
    decreases policy, 2nat,
{
    match policy {
        Policy::Grant { outcome, condition, label, deny_shape, obligations, reason } => match reduce_condition(condition, facts) {
            ReducedCondition::Known { consulted, .. } => {
                let known = facts.to_known();
                let decision = evaluate(policy, &known);
                ReducedPolicy::Resolved(with_consulted(decision, consulted))
            },
            ReducedCondition::Pending { residual, consulted } => ReducedPolicy::Pending {
                residual: ResidualPolicy::Grant {
                    outcome: outcome.duplicate(),
                    condition: residual,
                    label: copy_label(label),
                    deny_shape: *deny_shape,
                    obligations: copy_obligations(obligations),
                    reason: copy_reason(reason),
                },
                consulted,
            },
        },
        Policy::All(policies) => {
            let ghost vs = match policy@ {
                PolicyNode::All(vs) => vs,
                _ => Seq::empty(),
            };
            reduce_all(policies, facts, Ghost(vs))
        },
        Policy::Any(policies) => {
            let ghost vs = match policy@ {
                PolicyNode::Any(vs) => vs,
                _ => Seq::empty(),
            };
            reduce_any(policies, facts, Ghost(vs))
        },
        Policy::OrElse { .. } => reduce_or_else(policy, facts),
        _ => {
            let known = facts.to_known();
            ReducedPolicy::Resolved(evaluate(policy, &known))
        },
    }
}

fn reduce_or_else<O: Lattice>(policy: &Policy<O>, facts: &PartialFacts) -> (r: ReducedPolicy<O>)
    requires
        policy is OrElse,
    ensures
        r.view() == reduce_node(policy@, facts@),
    decreases policy, 1nat,
{
    let (primary, fallback) = match policy {
        Policy::OrElse { primary, fallback } => (primary, fallback),
        _ => {
            proof {
                assert(false);
            }
            return ReducedPolicy::Resolved(evaluate(policy, &facts.to_known()));
        },
    };
    match reduce_policy(primary, facts) {
        ReducedPolicy::Resolved(decision) => {
            if effect_permits(&decision.effect) {
                ReducedPolicy::Resolved(decision)
            } else {
                let mut consulted = Consulted(decision.trace.consulted);
                match reduce_policy(fallback, facts) {
                    ReducedPolicy::Resolved(fallback_decision) => {
                        consulted.extend(&fallback_decision.trace.consulted);
                        ReducedPolicy::Resolved(with_consulted(fallback_decision, consulted))
                    },
                    ReducedPolicy::Pending { residual, consulted: fallback_consulted } => {
                        consulted.extend(&fallback_consulted.0);
                        ReducedPolicy::Pending { residual, consulted }
                    },
                }
            }
        },
        ReducedPolicy::Pending { residual: primary_residual, consulted } => {
            let mut consulted = consulted;
            match reduce_policy(fallback, facts) {
                ReducedPolicy::Resolved(decision) => {
                    consulted.extend(&decision.trace.consulted);
                    ReducedPolicy::Pending {
                        residual: ResidualPolicy::OrElse {
                            primary: Box::new(primary_residual),
                            fallback: Box::new(policy_from_decision(decision)),
                        },
                        consulted,
                    }
                },
                ReducedPolicy::Pending { residual: fallback_residual, consulted: fallback_consulted } => {
                    consulted.extend(&fallback_consulted.0);
                    ReducedPolicy::Pending {
                        residual: ResidualPolicy::OrElse {
                            primary: Box::new(primary_residual),
                            fallback: Box::new(fallback_residual),
                        },
                        consulted,
                    }
                },
            }
        },
    }
}

fn reduce_all<O: Lattice>(
    policies: &Vec<Policy<O>>,
    facts: &PartialFacts,
    Ghost(vs): Ghost<Seq<PolicyNode<O>>>,
) -> (r: ReducedPolicy<O>)
    requires
        vs.len() == policies@.len(),
        forall|k: int| 0 <= k < vs.len() ==> vs[k] == #[trigger] policy_view(policies@[k]),
    ensures
        r.view() == (if vs.len() == 0 {
            ResidualView::Resolved(decision_of(deny_view()))
        } else {
            reduce_all_from(vs, 0, facts@, Seq::empty(), Seq::empty(), Seq::empty())
        }),
    decreases policies, 3nat,
{
    if policies.len() == 0 {
        let known = facts.to_known();
        return ReducedPolicy::Resolved(evaluate(&Policy::Deny, &known));
    }
    let ghost m = facts@;
    let ghost whole = reduce_all_from(vs, 0, m, Seq::empty(), Seq::empty(), Seq::empty());
    let mut consulted = Consulted::new();
    let mut pending: Vec<ResidualPolicy<O>> = Vec::new();
    let mut resolved_permits: Vec<ResidualPolicy<O>> = Vec::new();
    assert(residuals_of(pending@) =~= Seq::<PolicyNode<O>>::empty());
    assert(residuals_of(resolved_permits@) =~= Seq::<PolicyNode<O>>::empty());
    let mut i: usize = 0;
    while i < policies.len()
        invariant
            i <= policies@.len(),
            vs.len() == policies@.len(),
            forall|k: int| 0 <= k < vs.len() ==> vs[k] == #[trigger] policy_view(policies@[k]),
            m == facts@,
            whole == reduce_all_from(vs, 0, m, Seq::empty(), Seq::empty(), Seq::empty()),
            whole == reduce_all_from(
                vs,
                i as int,
                m,
                consulted.reads(),
                residuals_of(resolved_permits@),
                residuals_of(pending@),
            ),
        decreases policies@.len() - i,
    {
        assert(vs[i as int] == policy_view(policies@[i as int]));
        match reduce_policy(&policies[i], facts) {
            ReducedPolicy::Resolved(decision) => {
                consulted.extend(&decision.trace.consulted);
                if !effect_permits(&decision.effect) {
                    return ReducedPolicy::Resolved(with_consulted(decision, consulted));
                }
                let ghost before = residuals_of(resolved_permits@);
                let residual = policy_from_decision(decision);
                resolved_permits.push(residual);
                assert(residuals_of(resolved_permits@) =~= before.push(residual@));
            },
            ReducedPolicy::Pending { residual, consulted: arm_consulted } => {
                consulted.extend(&arm_consulted.0);
                let ghost before = residuals_of(pending@);
                pending.push(residual);
                assert(residuals_of(pending@) =~= before.push(residual@));
            },
        }
        i = i + 1;
    }
    if pending.len() == 0 {
        let known = facts.to_known();
        proof {
            lemma_residual_list_view(resolved_permits);
        }
        let decision = evaluate_residual(&ResidualPolicy::All(resolved_permits), &known);
        return ReducedPolicy::Resolved(with_consulted(decision, consulted));
    }
    let ghost a = residuals_of(resolved_permits@);
    let ghost b = residuals_of(pending@);
    let mut residual = resolved_permits;
    residual.append(&mut pending);
    assert(residuals_of(residual@) =~= a + b);
    proof {
        lemma_residual_list_view(residual);
    }
    ReducedPolicy::Pending { residual: ResidualPolicy::All(residual), consulted }
}

fn reduce_any<O: Lattice>(
    policies: &Vec<Policy<O>>,
    facts: &PartialFacts,
    Ghost(vs): Ghost<Seq<PolicyNode<O>>>,
) -> (r: ReducedPolicy<O>)
    requires
        vs.len() == policies@.len(),
        forall|k: int| 0 <= k < vs.len() ==> vs[k] == #[trigger] policy_view(policies@[k]),
    ensures
        r.view() == (if vs.len() == 0 {
            ResidualView::Resolved(decision_of(deny_view()))
        } else {
            reduce_any_from(vs, 0, facts@, Seq::empty(), Seq::empty(), Seq::empty(), None)
        }),
    decreases policies, 3nat,
{
    if policies.len() == 0 {
        let known = facts.to_known();
        return ReducedPolicy::Resolved(evaluate(&Policy::Deny, &known));
    }
    let ghost m = facts@;
    let ghost whole = reduce_any_from(vs, 0, m, Seq::empty(), Seq::empty(), Seq::empty(), None);
    let mut consulted = Consulted::new();
    let mut pending: Vec<ResidualPolicy<O>> = Vec::new();
    let mut resolved_permits: Vec<ResidualPolicy<O>> = Vec::new();
    let mut first_resolved_deny: Option<Decision<O>> = None;
    assert(residuals_of(pending@) =~= Seq::<PolicyNode<O>>::empty());
    assert(residuals_of(resolved_permits@) =~= Seq::<PolicyNode<O>>::empty());
    let mut i: usize = 0;
    while i < policies.len()
        invariant
            i <= policies@.len(),
            vs.len() == policies@.len(),
            forall|k: int| 0 <= k < vs.len() ==> vs[k] == #[trigger] policy_view(policies@[k]),
            m == facts@,
            whole == reduce_any_from(vs, 0, m, Seq::empty(), Seq::empty(), Seq::empty(), None),
            whole == reduce_any_from(
                vs,
                i as int,
                m,
                consulted.reads(),
                residuals_of(resolved_permits@),
                residuals_of(pending@),
                decision_opt_view(first_resolved_deny),
            ),
        decreases policies@.len() - i,
    {
        assert(vs[i as int] == policy_view(policies@[i as int]));
        match reduce_policy(&policies[i], facts) {
            ReducedPolicy::Resolved(decision) => {
                consulted.extend(&decision.trace.consulted);
                if effect_permits(&decision.effect) {
                    let ghost before = residuals_of(resolved_permits@);
                    let residual = policy_from_decision(decision);
                    resolved_permits.push(residual);
                    assert(residuals_of(resolved_permits@) =~= before.push(residual@));
                } else if first_resolved_deny.is_none() {
                    first_resolved_deny = Some(decision);
                }
            },
            ReducedPolicy::Pending { residual, consulted: arm_consulted } => {
                consulted.extend(&arm_consulted.0);
                let ghost before = residuals_of(pending@);
                pending.push(residual);
                assert(residuals_of(pending@) =~= before.push(residual@));
            },
        }
        i = i + 1;
    }
    if pending.len() == 0 {
        if resolved_permits.len() == 0 {
            if let Some(decision) = first_resolved_deny {
                return ReducedPolicy::Resolved(with_consulted(decision, consulted));
            }
        }
        let known = facts.to_known();
        proof {
            lemma_residual_list_view(resolved_permits);
        }
        let decision = evaluate_residual(&ResidualPolicy::Any(resolved_permits), &known);
        return ReducedPolicy::Resolved(with_consulted(decision, consulted));
    }
    let ghost b = residuals_of(pending@);
    let mut residual = resolved_permits;
    if residual.len() == 0 && first_resolved_deny.is_some() {
        let decision = first_resolved_deny.unwrap();
        let ghost dv = decision@;
        let first = policy_from_decision(decision);
        residual.push(first);
        assert(residuals_of(residual@) =~= seq![residual_of_decision(dv)]);
    }
    let ghost a = residuals_of(residual@);
    residual.append(&mut pending);
    assert(residuals_of(residual@) =~= a + b);
    proof {
        lemma_residual_list_view(residual);
    }
    ReducedPolicy::Pending { residual: ResidualPolicy::Any(residual), consulted }
}

spec fn decision_opt_view<O>(d: Option<Decision<O>>) -> Option<DecisionView<O>> {
    match d {
        Some(x) => Some(x@),
        None => None,
    }
}


// ---------------------------------------------------------------------------
// Public partial evaluation

/// Result of partial evaluation with possibly unknown facts.
#[derive(Debug)]
pub enum Residual<O> {
    /// The policy was fully resolved with the supplied facts.
    Resolved(Decision<O>),
    /// Evaluation needs more facts and produced a smaller residual policy.
    Pending {
        /// Remaining policy to evaluate after unknown facts are resolved.
        residual: ResidualPolicy<O>,
        /// Facts consulted while reducing the policy.
        consulted: Vec<(FactId, Presence)>,
    },
}

impl<O> View for Residual<O> {
    type V = ResidualView<O>;

    open spec fn view(&self) -> ResidualView<O> {
        match self {
            Residual::Resolved(d) => ResidualView::Resolved(d@),
            Residual::Pending { residual, consulted } => ResidualView::Pending(residual@, consulted.deep_view()),
        }
    }
}

/// Partially evaluates a policy against present, absent, and unknown facts.
pub fn partial_evaluate<O: Lattice>(policy: &Policy<O>, facts: &PartialFacts) -> (r: Residual<O>)
    ensures
        r@ == reduce_node(policy@, facts@),
{
    match reduce_policy(policy, facts) {
        ReducedPolicy::Resolved(decision) => Residual::Resolved(decision),
        ReducedPolicy::Pending { residual, consulted } => Residual::Pending { residual, consulted: consulted.0 },
    }
}

/// Completes a partial-evaluation result against known facts.
pub fn complete_residual<O: Lattice>(residual: &Residual<O>, facts: &KnownFacts) -> (d: Decision<O>)
    ensures
        d@ == complete_view(residual@, facts@),
{
    match residual {
        Residual::Resolved(decision) => decision.duplicate(),
        Residual::Pending { residual, consulted } => {
            let decision = evaluate_residual(residual, facts);
            with_prior_consulted(decision, consulted)
        },
    }
}

/// Puts earlier consulted facts ahead of a decision's own.
fn with_prior_consulted<O>(decision: Decision<O>, consulted: &Vec<(FactId, Presence)>) -> (r: Decision<O>)
    ensures
        r@ == with_consulted_view(
            decision@,
            record_all(record_all(Seq::empty(), consulted.deep_view()), decision@.consulted),
        ),
{
    let mut merged = Consulted::new();
    merged.extend(consulted);
    merged.extend(&decision.trace.consulted);
    with_consulted(decision, merged)
}

} // verus!
