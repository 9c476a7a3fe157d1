use vstd::prelude::*;

use crate::decision::{
    Decision, DecisionTrace, DecisionView, DecisiveClause, DecisiveView, DenyShape, Effect,
};
use crate::facts::{presence_in, KnownFacts, Presence};
use crate::identity::{ClauseLabel, FactId, ObligationId, ReasonCode};
use crate::order::{insert_sorted, strictly_sorted};
use crate::policy_model::{
    cond_view, policy_view, residual_view, Condition, ConditionView, Lattice, Policy, PolicyNode,
    ResidualPolicy,
};

verus! {

/// One fact read: the fact's identifier and the presence that was read.
pub type Read = (Seq<char>, Presence);

/// Records a read unless the fact was already consulted (first-read order).
pub open spec fn record(c: Seq<Read>, e: Read) -> Seq<Read> {
    if exists|k: int| 0 <= k < c.len() && c[k].0 == e.0 {
        c
    } else {
        c.push(e)
    }
}

/// Records every read in order.
pub open spec fn record_all(c: Seq<Read>, rs: Seq<Read>) -> Seq<Read>
    decreases rs.len(),
{
    if rs.len() == 0 {
        c
    } else {
        record(record_all(c, rs.drop_last()), rs.last())
    }
}

/// Facts consulted by a run of reads, each fact once, in first-read order.
pub open spec fn consulted_of(rs: Seq<Read>) -> Seq<Read> {
    record_all(Seq::empty(), rs)
}

/// Recording two runs of reads equals recording their concatenation.
pub proof fn lemma_record_all_append(c: Seq<Read>, r1: Seq<Read>, r2: Seq<Read>)
    ensures
        record_all(c, r1 + r2) == record_all(record_all(c, r1), r2),
    decreases r2.len(),
{
    if r2.len() == 0 {
        assert(r1 + r2 =~= r1);
    } else {
        assert((r1 + r2).drop_last() =~= r1 + r2.drop_last());
        assert((r1 + r2).last() == r2.last());
        lemma_record_all_append(c, r1, r2.drop_last());
    }
}

/// Facts consulted by evaluation, in first-read order.
pub(crate) struct Consulted(pub(crate) Vec<(FactId, Presence)>);

impl Consulted {
    pub(crate) open spec fn reads(&self) -> Seq<Read> {
        self.0.deep_view()
    }

    pub(crate) fn new() -> (c: Self)
        ensures
            c.reads() == Seq::<Read>::empty(),
    {
        let c = Consulted(Vec::new());
        assert(c.reads() =~= Seq::<Read>::empty());
        c
    }

    /// Records a read unless the fact was already consulted.
    pub(crate) fn record(&mut self, fact: &FactId, presence: Presence)
        ensures
            final(self).reads() == record(old(self).reads(), (fact@, presence)),
    {
        let mut i: usize = 0;
        while i < self.0.len()
            invariant
                i <= self.0@.len(),
                self.reads() == old(self).reads(),
                self.0@ == old(self).0@,
                forall|k: int| 0 <= k < i ==> self.reads()[k].0 != fact@,
            decreases self.0@.len() - i,
        {
            if self.0[i].0.same(fact) {
                assert(self.reads()[i as int].0 == fact@);
                return;
            }
            i = i + 1;
        }
        let ghost before = self.reads();
        self.0.push((fact.duplicate(), presence));
        assert(self.reads() =~= before.push((fact@, presence)));
    }

    /// Records every read of `other`, in order.
    pub(crate) fn extend(&mut self, other: &Vec<(FactId, Presence)>)
        ensures
            final(self).reads() == record_all(old(self).reads(), other.deep_view()),
    {
        let ghost rs = other.deep_view();
        let mut i: usize = 0;
        while i < other.len()
            invariant
                i <= other@.len(),
                rs == other.deep_view(),
                self.reads() == record_all(old(self).reads(), rs.take(i as int)),
            decreases other@.len() - i,
        {
            let ghost prev = self.reads();
            self.record(&other[i].0, other[i].1);
            proof {
                assert(rs.take(i + 1).drop_last() =~= rs.take(i as int));
                assert(rs.take(i + 1).last() == (other@[i as int].0@, other@[i as int].1));
            }
            i = i + 1;
        }
        assert(rs.take(other@.len() as int) =~= rs);
    }
}

// ---------------------------------------------------------------------------
// Specification of condition evaluation

/// Result of evaluating a condition: whether it held, the facts that decided
/// it, and the facts read in order.
pub struct CondEval {
    pub satisfied: bool,
    pub facts: Seq<Seq<char>>,
    pub reads: Seq<Read>,
}

/// A condition result with nothing read.
pub open spec fn cond_const(satisfied: bool) -> CondEval {
    CondEval { satisfied, facts: Seq::empty(), reads: Seq::empty() }
}

/// Condition evaluation with its decisive facts and reads.
pub open spec fn cond_eval(c: ConditionView, m: Map<Seq<char>, Presence>) -> CondEval
    decreases c, 0nat,
{
    match c {
        ConditionView::Always => cond_const(true),
        ConditionView::Never => cond_const(false),
        ConditionView::Has(f) => {
            let p = presence_in(m, f);
            CondEval { satisfied: p == Presence::Present, facts: seq![f], reads: seq![(f, p)] }
        },
        ConditionView::Not(inner) => {
            let r = cond_eval(*inner, m);
            CondEval { satisfied: !r.satisfied, facts: r.facts, reads: r.reads }
        },
        ConditionView::All(cs) => if cs.len() == 0 {
            cond_const(false)
        } else {
            cond_all_from(cs, 0, m)
        },
        ConditionView::Any(cs) => if cs.len() == 0 {
            cond_const(false)
        } else {
            cond_any_from(cs, 0, m)
        },
    }
}

/// Conjunction over `cs[i..]`, stopping at the first failing arm, whose facts
/// alone decide a failure.
pub open spec fn cond_all_from(cs: Seq<ConditionView>, i: int, m: Map<Seq<char>, Presence>) -> CondEval
    decreases cs, cs.len() - i,
{
    if 0 <= i < cs.len() {
        let a = cond_eval(cs[i], m);
        if !a.satisfied {
            a
        } else {
            let rest = cond_all_from(cs, i + 1, m);
            CondEval {
                satisfied: rest.satisfied,
                facts: if rest.satisfied {
                    a.facts + rest.facts
                } else {
                    rest.facts
                },
                reads: a.reads + rest.reads,
            }
        }
    } else {
        cond_const(true)
    }
}

/// Disjunction over `cs[i..]`, stopping at the first satisfied arm, whose facts
/// alone decide a success.
pub open spec fn cond_any_from(cs: Seq<ConditionView>, i: int, m: Map<Seq<char>, Presence>) -> CondEval
    decreases cs, cs.len() - i,
{
    if 0 <= i < cs.len() {
        let a = cond_eval(cs[i], m);
        if a.satisfied {
            a
        } else {
            let rest = cond_any_from(cs, i + 1, m);
            CondEval {
                satisfied: rest.satisfied,
                facts: if rest.satisfied {
                    rest.facts
                } else {
                    a.facts + rest.facts
                },
                reads: a.reads + rest.reads,
            }
        }
    } else {
        cond_const(false)
    }
}

// ---------------------------------------------------------------------------
// Executable condition evaluation

struct ConditionEval {
    satisfied: bool,
    decisive_facts: Vec<FactId>,
}

fn eval_condition(condition: &Condition, facts: &KnownFacts, consulted: &mut Consulted) -> (r:
    ConditionEval)
    ensures
        ({
            let e = cond_eval(condition@, facts@);
            &&& r.satisfied == e.satisfied
            &&& r.decisive_facts.deep_view() == e.facts
            &&& final(consulted).reads() == record_all(old(consulted).reads(), e.reads)
        }),
    decreases condition, 0nat,
{
    match condition {
        Condition::Always => {
            let v: Vec<FactId> = Vec::new();
            assert(v.deep_view() =~= Seq::<Seq<char>>::empty());
            ConditionEval { satisfied: true, decisive_facts: v }
        },
        Condition::Never => {
            let v: Vec<FactId> = Vec::new();
            assert(v.deep_view() =~= Seq::<Seq<char>>::empty());
            ConditionEval { satisfied: false, decisive_facts: v }
        },
        Condition::Has(fact) => {
            let presence = facts.presence(fact);
            consulted.record(fact, presence);
            let mut v: Vec<FactId> = Vec::new();
            v.push(fact.duplicate());
            proof {
                let e = cond_eval(condition@, facts@);
                assert(v.deep_view() =~= seq![fact@]);
                assert(presence == presence_in(facts@, fact@));
                assert(e.reads == seq![(fact@, presence)]);
                assert(e.reads.drop_last() =~= Seq::<Read>::empty());
                assert(record_all(old(consulted).reads(), e.reads.drop_last()) == old(
                    consulted,
                ).reads());
            }
            ConditionEval { satisfied: presence == Presence::Present, decisive_facts: v }
        },
        Condition::Not(inner) => {
            let r = eval_condition(inner, facts, consulted);
            ConditionEval { satisfied: !r.satisfied, decisive_facts: r.decisive_facts }
        },
        Condition::All(conditions) => {
            let ghost vs = match condition@ {
                ConditionView::All(vs) => vs,
                _ => Seq::empty(),
            };
            eval_condition_all(conditions, facts, consulted, Ghost(vs))
        },
        Condition::Any(conditions) => {
            let ghost vs = match condition@ {
                ConditionView::Any(vs) => vs,
                _ => Seq::empty(),
            };
            eval_condition_any(conditions, facts, consulted, Ghost(vs))
        },
    }
}

fn eval_condition_all(
    conditions: &Vec<Condition>,
    facts: &KnownFacts,
    consulted: &mut Consulted,
    Ghost(vs): Ghost<Seq<ConditionView>>,
) -> (r: ConditionEval)
    requires
        vs.len() == conditions@.len(),
        forall|k: int| 0 <= k < vs.len() ==> vs[k] == #[trigger] cond_view(conditions@[k]),
    ensures
        ({
            let e = if vs.len() == 0 {
                cond_const(false)
            } else {
                cond_all_from(vs, 0, facts@)
            };
            &&& r.satisfied == e.satisfied
            &&& r.decisive_facts.deep_view() == e.facts
            &&& final(consulted).reads() == record_all(old(consulted).reads(), e.reads)
        }),
    decreases conditions, 1nat,
{
    if conditions.len() == 0 {
        let v: Vec<FactId> = Vec::new();
        assert(v.deep_view() =~= Seq::<Seq<char>>::empty());
        return ConditionEval { satisfied: false, decisive_facts: v };
    }
    let ghost m = facts@;
    let ghost c0 = consulted.reads();
    let ghost whole = cond_all_from(vs, 0, m);
    let ghost mut reads: Seq<Read> = Seq::empty();
    let mut satisfied_facts: Vec<FactId> = Vec::new();
    let mut failed: Option<Vec<FactId>> = None;
    let mut i: usize = 0;
    while i < conditions.len() && failed.is_none()
        invariant
            i <= conditions@.len(),
            vs.len() == conditions@.len(),
            forall|k: int| 0 <= k < vs.len() ==> vs[k] == #[trigger] cond_view(conditions@[k]),
            m == facts@,
            whole == cond_all_from(vs, 0, m),
            consulted.reads() == record_all(c0, reads),
            match failed {
                Some(f) => !whole.satisfied && whole.facts == f.deep_view() && whole.reads == reads,
                None => {
                    let rest = cond_all_from(vs, i as int, m);
                    &&& whole.satisfied == rest.satisfied
                    &&& whole.reads == reads + rest.reads
                    &&& rest.satisfied ==> whole.facts == satisfied_facts.deep_view() + rest.facts
                    &&& !rest.satisfied ==> whole.facts == rest.facts
                },
            },
        decreases conditions@.len() - i,
    {
        assert(vs[i as int] == cond_view(conditions@[i as int]));
        let arm = eval_condition(&conditions[i], facts, consulted);
        proof {
            let a = cond_eval(vs[i as int], m);
            lemma_record_all_append(c0, reads, a.reads);
        }
        if !arm.satisfied {
            proof {
                let a = cond_eval(vs[i as int], m);
                assert(cond_all_from(vs, i as int, m) == a);
                reads = reads + a.reads;
            }
            failed = Some(arm.decisive_facts);
            i = i + 1;
        } else {
            proof {
                let a = cond_eval(vs[i as int], m);
                let rest2 = cond_all_from(vs, i + 1, m);
                assert(reads + (a.reads + rest2.reads) =~= (reads + a.reads) + rest2.reads);
                assert(satisfied_facts.deep_view() + (a.facts + rest2.facts) =~= (
                satisfied_facts.deep_view() + a.facts) + rest2.facts);
                reads = reads + a.reads;
            }
            append_facts(&mut satisfied_facts, arm.decisive_facts);
            i = i + 1;
        }
    }
    match failed {
        Some(f) => ConditionEval { satisfied: false, decisive_facts: f },
        None => {
            proof {
                assert(reads + Seq::<Read>::empty() =~= reads);
                assert(satisfied_facts.deep_view() + Seq::<Seq<char>>::empty()
                    =~= satisfied_facts.deep_view());
            }
            ConditionEval { satisfied: true, decisive_facts: satisfied_facts }
        },
    }
}

fn eval_condition_any(
    conditions: &Vec<Condition>,
    facts: &KnownFacts,
    consulted: &mut Consulted,
    Ghost(vs): Ghost<Seq<ConditionView>>,
) -> (r: ConditionEval)
    requires
        vs.len() == conditions@.len(),
        forall|k: int| 0 <= k < vs.len() ==> vs[k] == #[trigger] cond_view(conditions@[k]),
    ensures
        ({
            let e = if vs.len() == 0 {
                cond_const(false)
            } else {
                cond_any_from(vs, 0, facts@)
            };
            &&& r.satisfied == e.satisfied
            &&& r.decisive_facts.deep_view() == e.facts
            &&& final(consulted).reads() == record_all(old(consulted).reads(), e.reads)
        }),
    decreases conditions, 1nat,
{
    if conditions.len() == 0 {
        let v: Vec<FactId> = Vec::new();
        assert(v.deep_view() =~= Seq::<Seq<char>>::empty());
        return ConditionEval { satisfied: false, decisive_facts: v };
    }
    let ghost m = facts@;
    let ghost c0 = consulted.reads();
    let ghost whole = cond_any_from(vs, 0, m);
    let ghost mut reads: Seq<Read> = Seq::empty();
    let mut missing: Vec<FactId> = Vec::new();
    let mut found: Option<Vec<FactId>> = None;
    let mut i: usize = 0;
    while i < conditions.len() && found.is_none()
        invariant
            i <= conditions@.len(),
            vs.len() == conditions@.len(),
            forall|k: int| 0 <= k < vs.len() ==> vs[k] == #[trigger] cond_view(conditions@[k]),
            m == facts@,
            whole == cond_any_from(vs, 0, m),
            consulted.reads() == record_all(c0, reads),
            match found {
                Some(f) => whole.satisfied && whole.facts == f.deep_view() && whole.reads == reads,
                None => {
                    let rest = cond_any_from(vs, i as int, m);
                    &&& whole.satisfied == rest.satisfied
                    &&& whole.reads == reads + rest.reads
                    &&& !rest.satisfied ==> whole.facts == missing.deep_view() + rest.facts
                    &&& rest.satisfied ==> whole.facts == rest.facts
                },
            },
        decreases conditions@.len() - i,
    {
        assert(vs[i as int] == cond_view(conditions@[i as int]));
        let arm = eval_condition(&conditions[i], facts, consulted);
        proof {
            let a = cond_eval(vs[i as int], m);
            lemma_record_all_append(c0, reads, a.reads);
        }
        if arm.satisfied {
            proof {
                let a = cond_eval(vs[i as int], m);
                assert(cond_any_from(vs, i as int, m) == a);
                reads = reads + a.reads;
            }
            found = Some(arm.decisive_facts);
            i = i + 1;
        } else {
            proof {
                let a = cond_eval(vs[i as int], m);
                let rest2 = cond_any_from(vs, i + 1, m);
                assert(reads + (a.reads + rest2.reads) =~= (reads + a.reads) + rest2.reads);
                assert(missing.deep_view() + (a.facts + rest2.facts) =~= (missing.deep_view()
                    + a.facts) + rest2.facts);
                reads = reads + a.reads;
            }
            append_facts(&mut missing, arm.decisive_facts);
            i = i + 1;
        }
    }
    match found {
        Some(f) => ConditionEval { satisfied: true, decisive_facts: f },
        None => {
            proof {
                assert(reads + Seq::<Read>::empty() =~= reads);
                assert(missing.deep_view() + Seq::<Seq<char>>::empty() =~= missing.deep_view());
            }
            ConditionEval { satisfied: false, decisive_facts: missing }
        },
    }
}

/// Appends `extra` to `target`.
fn append_facts(target: &mut Vec<FactId>, extra: Vec<FactId>)
    ensures
        final(target).deep_view() == old(target).deep_view() + extra.deep_view(),
{
    let mut i: usize = 0;
    while i < extra.len()
        invariant
            i <= extra@.len(),
            target.deep_view() == old(target).deep_view() + extra.deep_view().take(i as int),
        decreases extra@.len() - i,
    {
        let ghost before = target.deep_view();
        target.push(extra[i].duplicate());
        assert(target.deep_view() =~= before.push(extra@[i as int]@));
        assert(extra.deep_view().take(i + 1) =~= extra.deep_view().take(i as int).push(
            extra@[i as int]@,
        ));
        i = i + 1;
    }
    assert(extra.deep_view().take(extra@.len() as int) =~= extra.deep_view());
}


// ---------------------------------------------------------------------------
// Specification of policy evaluation

/// Result of evaluating a policy: effect, obligations, decisive clause and the
/// facts read in order.
pub struct EvalView<O> {
    pub effect: Effect<O>,
    pub obligations: Seq<Seq<char>>,
    pub decisive: DecisiveView<O>,
    pub reads: Seq<Read>,
}

/// The decisive clause of a denial that no clause explains.
pub open spec fn generic_deny_clause<O>() -> DecisiveView<O> {
    DecisiveView::Deny {
        denied: None,
        unsatisfied: Seq::empty(),
        label: None,
        reason: None,
        shape: DenyShape::Forbidden,
    }
}

/// A denial that no clause explains, with nothing read.
pub open spec fn deny_view<O>() -> EvalView<O> {
    EvalView {
        effect: Effect::Deny,
        obligations: Seq::empty(),
        decisive: generic_deny_clause(),
        reads: Seq::empty(),
    }
}

/// An unconditional permit, with nothing read.
pub open spec fn permit_view<O>(o: O) -> EvalView<O> {
    EvalView {
        effect: Effect::Permit(o),
        obligations: Seq::empty(),
        decisive: DecisiveView::Permit { granted: o, satisfied: Seq::empty(), label: None },
        reads: Seq::empty(),
    }
}

/// `e` preceded by the reads `r`.
pub open spec fn after_reads<O>(r: Seq<Read>, e: EvalView<O>) -> EvalView<O> {
    EvalView { effect: e.effect, obligations: e.obligations, decisive: e.decisive, reads: r + e.reads }
}

/// A grant: permits with its outcome and obligations when the condition
/// holds, else denies with the facts that decided the condition.
pub open spec fn grant_view<O>(
    outcome: O,
    condition: ConditionView,
    label: Option<Seq<char>>,
    deny_shape: DenyShape,
    obligations: Seq<Seq<char>>,
    reason: Option<Seq<char>>,
    m: Map<Seq<char>, Presence>,
) -> EvalView<O> {
    let c = cond_eval(condition, m);
    if c.satisfied {
        EvalView {
            effect: Effect::Permit(outcome),
            obligations,
            decisive: DecisiveView::Permit { granted: outcome, satisfied: c.facts, label },
            reads: c.reads,
        }
    } else {
        EvalView {
            effect: Effect::Deny,
            obligations: Seq::empty(),
            decisive: DecisiveView::Deny {
                denied: Some(outcome),
                unsatisfied: c.facts,
                label,
                reason,
                shape: deny_shape,
            },
            reads: c.reads,
        }
    }
}

/// Evaluation of a policy (or residual policy) view against a fact map.
pub open spec fn node_eval<O: Lattice>(p: PolicyNode<O>, m: Map<Seq<char>, Presence>) -> EvalView<O>
    decreases p, 0nat,
{
    match p {
        PolicyNode::Permit(o) => permit_view(o),
        PolicyNode::Deny => deny_view(),
        PolicyNode::PermitWithTrace { outcome, obligations, satisfied, label } => EvalView {
            effect: Effect::Permit(outcome),
            obligations,
            decisive: DecisiveView::Permit { granted: outcome, satisfied, label },
            reads: Seq::empty(),
        },
        PolicyNode::DenyWithTrace { denied, unsatisfied, label, reason, shape } => EvalView {
            effect: Effect::Deny,
            obligations: Seq::empty(),
            decisive: DecisiveView::Deny { denied, unsatisfied, label, reason, shape },
            reads: Seq::empty(),
        },
        PolicyNode::Grant { outcome, condition, label, deny_shape, obligations, reason } =>
            grant_view(outcome, condition, label, deny_shape, obligations, reason, m),
        PolicyNode::All(ps) => if ps.len() == 0 {
            deny_view()
        } else {
            all_from(ps, 0, m, None)
        },
        PolicyNode::Any(ps) => if ps.len() == 0 {
            deny_view()
        } else {
            any_from(ps, 0, m, None, Seq::empty(), None)
        },
        PolicyNode::OrElse(primary, fallback) => {
            let a = node_eval(*primary, m);
            if a.effect is Permit {
                a
            } else {
                after_reads(a.reads, node_eval(*fallback, m))
            }
        },
    }
}

/// Permit state of a meet composition: outcome so far, its obligations and
/// its decisive clause.
pub type AllState<O> = Option<(O, Seq<Seq<char>>, DecisiveView<O>)>;

/// Folds one permitting arm into a meet composition. The arm's obligations
/// and clause take over when the meet equals the arm's outcome and lowers the
/// current one; a meet below both is a synthesized permit without
/// obligations; otherwise the current permit stays.
pub open spec fn all_step<O: Lattice>(st: AllState<O>, o: O, obs: Seq<Seq<char>>, d: DecisiveView<O>) -> AllState<O> {
    match st {
        None => Some((o, obs, d)),
        Some((cur, cobs, cd)) => {
            let met = cur.spec_meet(o);
            if met == o && met != cur {
                Some((met, obs, d))
            } else if met != cur {
                Some((met, Seq::empty(), DecisiveView::Permit { granted: met, satisfied: Seq::empty(), label: None }))
            } else {
                Some((met, cobs, cd))
            }
        },
    }
}

/// Meet composition over `ps[i..]`: the first denying arm decides, else the
/// folded permit.
pub open spec fn all_from<O: Lattice>(ps: Seq<PolicyNode<O>>, i: int, m: Map<Seq<char>, Presence>, st: AllState<O>) -> EvalView<O>
    decreases ps, ps.len() - i,
{
    if 0 <= i < ps.len() {
        let a = node_eval(ps[i], m);
        match a.effect {
            Effect::Deny => a,
            Effect::Permit(o) => after_reads(a.reads, all_from(ps, i + 1, m, all_step(st, o, a.obligations, a.decisive))),
        }
    } else {
        match st {
            None => deny_view(),
            Some((o, obs, d)) => EvalView { effect: Effect::Permit(o), obligations: obs, decisive: d, reads: Seq::empty() },
        }
    }
}

/// `t` followed by the entries of `s` it does not already hold, in order.
pub open spec fn union_obs(t: Seq<Seq<char>>, s: Seq<Seq<char>>) -> Seq<Seq<char>>
    decreases s.len(),
{
    if s.len() == 0 {
        t
    } else {
        let u = union_obs(t, s.drop_last());
        if u.contains(s.last()) {
            u
        } else {
            u.push(s.last())
        }
    }
}

/// Winning permit of a join composition: outcome so far and its decisive clause.
pub type AnyWin<O> = Option<(O, DecisiveView<O>)>;

/// Folds one permitting arm into a join composition: at an equal grade the
/// obligations are united; an arm at the join takes over; a join above both
/// is a synthesized permit that unites the obligations.
pub open spec fn any_step<O: Lattice>(win: AnyWin<O>, wobs: Seq<Seq<char>>, o: O, obs: Seq<Seq<char>>, d: DecisiveView<O>) -> (AnyWin<O>, Seq<Seq<char>>) {
    match win {
        None => (Some((o, d)), obs),
        Some((cur, cd)) => {
            let j = cur.spec_join(o);
            if j == cur && j == o {
                (Some((cur, cd)), union_obs(wobs, obs))
            } else if j == o {
                (Some((j, d)), obs)
            } else if j != cur {
                (Some((j, DecisiveView::Permit { granted: j, satisfied: Seq::empty(), label: None })), union_obs(wobs, obs))
            } else {
                (Some((cur, cd)), wobs)
            }
        },
    }
}

/// Join composition over `ps[i..]`: the folded permit if any arm permits,
/// else a denial decided by the first denying arm.
pub open spec fn any_from<O: Lattice>(
    ps: Seq<PolicyNode<O>>,
    i: int,
    m: Map<Seq<char>, Presence>,
    win: AnyWin<O>,
    wobs: Seq<Seq<char>>,
    first_deny: Option<DecisiveView<O>>,
) -> EvalView<O>
    decreases ps, ps.len() - i,
{
    if 0 <= i < ps.len() {
        let a = node_eval(ps[i], m);
        match a.effect {
            Effect::Deny => after_reads(
                a.reads,
                any_from(ps, i + 1, m, win, wobs, if first_deny is None { Some(a.decisive) } else { first_deny }),
            ),
            Effect::Permit(o) => {
                let (w2, obs2) = any_step(win, wobs, o, a.obligations, a.decisive);
                after_reads(a.reads, any_from(ps, i + 1, m, w2, obs2, first_deny))
            },
        }
    } else {
        match win {
            Some((o, d)) => EvalView { effect: Effect::Permit(o), obligations: wobs, decisive: d, reads: Seq::empty() },
            None => EvalView {
                effect: Effect::Deny,
                obligations: Seq::empty(),
                decisive: match first_deny {
                    Some(d) => d,
                    None => generic_deny_clause(),
                },
                reads: Seq::empty(),
            },
        }
    }
}


// ---------------------------------------------------------------------------
// Copies of evaluation metadata

/// Returns an equal copy of a list of obligations.
pub(crate) fn copy_obligations(v: &Vec<ObligationId>) -> (r: Vec<ObligationId>)
    ensures
        r.deep_view() == v.deep_view(),
{
    let mut r: Vec<ObligationId> = Vec::new();
    let mut i: usize = 0;
    while i < v.len()
        invariant
            i <= v@.len(),
            r.deep_view() == v.deep_view().take(i as int),
        decreases v@.len() - i,
    {
        let ghost before = r.deep_view();
        r.push(v[i].duplicate());
        assert(r.deep_view() =~= before.push(v@[i as int]@));
        assert(v.deep_view().take(i + 1) =~= v.deep_view().take(i as int).push(v@[i as int]@));
        i = i + 1;
    }
    assert(v.deep_view().take(v@.len() as int) =~= v.deep_view());
    r
}

/// Returns an equal copy of a list of facts.
pub(crate) fn copy_facts(v: &Vec<FactId>) -> (r: Vec<FactId>)
    ensures
        r.deep_view() == v.deep_view(),
{
    let mut r: Vec<FactId> = Vec::new();
    let mut i: usize = 0;
    while i < v.len()
        invariant
            i <= v@.len(),
            r.deep_view() == v.deep_view().take(i as int),
        decreases v@.len() - i,
    {
        let ghost before = r.deep_view();
        r.push(v[i].duplicate());
        assert(r.deep_view() =~= before.push(v@[i as int]@));
        assert(v.deep_view().take(i + 1) =~= v.deep_view().take(i as int).push(v@[i as int]@));
        i = i + 1;
    }
    assert(v.deep_view().take(v@.len() as int) =~= v.deep_view());
    r
}

/// Returns an equal copy of a list of fact reads.
pub(crate) fn copy_reads(v: &Vec<(FactId, Presence)>) -> (r: Vec<(FactId, Presence)>)
    ensures
        r.deep_view() == v.deep_view(),
{
    let mut r: Vec<(FactId, Presence)> = Vec::new();
    let mut i: usize = 0;
    while i < v.len()
        invariant
            i <= v@.len(),
            r.deep_view() == v.deep_view().take(i as int),
        decreases v@.len() - i,
    {
        let ghost before = r.deep_view();
        r.push((v[i].0.duplicate(), v[i].1));
        assert(r.deep_view() =~= before.push(v@[i as int].deep_view()));
        assert(v.deep_view().take(i + 1) =~= v.deep_view().take(i as int).push(
            v@[i as int].deep_view(),
        ));
        i = i + 1;
    }
    assert(v.deep_view().take(v@.len() as int) =~= v.deep_view());
    r
}

/// Returns an equal copy of an optional label.
pub(crate) fn copy_label(l: &Option<ClauseLabel>) -> (r: Option<ClauseLabel>)
    ensures
        r.deep_view() == l.deep_view(),
{
    match l {
        Some(x) => Some(x.duplicate()),
        None => None,
    }
}

/// Returns an equal copy of an optional reason code.
pub(crate) fn copy_reason(l: &Option<ReasonCode>) -> (r: Option<ReasonCode>)
    ensures
        r.deep_view() == l.deep_view(),
{
    match l {
        Some(x) => Some(x.duplicate()),
        None => None,
    }
}

/// Returns an equal copy of an optional outcome.
pub(crate) fn copy_outcome<O: Lattice>(o: &Option<O>) -> (r: Option<O>)
    ensures
        r == *o,
{
    match o {
        Some(x) => Some(x.duplicate()),
        None => None,
    }
}

/// An empty list of obligations.
pub(crate) fn no_obligations() -> (r: Vec<ObligationId>)
    ensures
        r.deep_view() == Seq::<Seq<char>>::empty(),
{
    let r: Vec<ObligationId> = Vec::new();
    assert(r.deep_view() =~= Seq::<Seq<char>>::empty());
    r
}

/// An empty list of facts.
pub(crate) fn no_facts() -> (r: Vec<FactId>)
    ensures
        r.deep_view() == Seq::<Seq<char>>::empty(),
{
    let r: Vec<FactId> = Vec::new();
    assert(r.deep_view() =~= Seq::<Seq<char>>::empty());
    r
}

// ---------------------------------------------------------------------------
// Executable policy evaluation

pub(crate) struct EvalResult<O> {
    pub(crate) effect: Effect<O>,
    pub(crate) obligations: Vec<ObligationId>,
    pub(crate) decisive: DecisiveClause<O>,
}

impl<O> EvalResult<O> {
    pub(crate) open spec fn matches(&self, e: EvalView<O>) -> bool {
        &&& self.effect == e.effect
        &&& self.obligations.deep_view() == e.obligations
        &&& self.decisive@ == e.decisive
    }
}

pub(crate) fn generic_deny<O>() -> (r: EvalResult<O>)
    ensures
        r.matches(deny_view()),
{
    EvalResult {
        effect: Effect::Deny,
        obligations: no_obligations(),
        decisive: DecisiveClause::Deny {
            denied: None,
            unsatisfied: no_facts(),
            label: None,
            reason: None,
            shape: DenyShape::Forbidden,
        },
    }
}

fn permit_constant<O: Lattice>(outcome: &O) -> (r: EvalResult<O>)
    ensures
        r.matches(permit_view(*outcome)),
{
    EvalResult {
        effect: Effect::Permit(outcome.duplicate()),
        obligations: no_obligations(),
        decisive: DecisiveClause::Permit {
            granted: outcome.duplicate(),
            satisfied: no_facts(),
            label: None,
        },
    }
}

fn eval_grant<O: Lattice>(
    outcome: &O,
    condition: &Condition,
    label: &Option<ClauseLabel>,
    deny_shape: DenyShape,
    obligations: &Vec<ObligationId>,
    reason: &Option<ReasonCode>,
    facts: &KnownFacts,
    consulted: &mut Consulted,
) -> (r: EvalResult<O>)
    ensures
        ({
            let e = grant_view(
                *outcome,
                condition@,
                label.deep_view(),
                deny_shape,
                obligations.deep_view(),
                reason.deep_view(),
                facts@,
            );
            &&& r.matches(e)
            &&& final(consulted).reads() == record_all(old(consulted).reads(), e.reads)
        }),
{
    let condition = eval_condition(condition, facts, consulted);
    if condition.satisfied {
        EvalResult {
            effect: Effect::Permit(outcome.duplicate()),
            obligations: copy_obligations(obligations),
            decisive: DecisiveClause::Permit {
                granted: outcome.duplicate(),
                satisfied: condition.decisive_facts,
                label: copy_label(label),
            },
        }
    } else {
        EvalResult {
            effect: Effect::Deny,
            obligations: no_obligations(),
            decisive: DecisiveClause::Deny {
                denied: Some(outcome.duplicate()),
                unsatisfied: condition.decisive_facts,
                label: copy_label(label),
                reason: copy_reason(reason),
                shape: deny_shape,
            },
        }
    }
}

/// Executable permit state of a meet composition.
type AllPermit<O> = Option<(O, Vec<ObligationId>, DecisiveClause<O>)>;

spec fn all_permit_view<O>(p: AllPermit<O>) -> AllState<O> {
    match p {
        None => None,
        Some((o, obs, d)) => Some((o, obs.deep_view(), d@)),
    }
}

fn all_merge<O: Lattice>(permit: AllPermit<O>, arm: EvalResult<O>) -> (r: AllPermit<O>)
    requires
        arm.effect is Permit,
    ensures
        all_permit_view(r) == all_step(
            all_permit_view(permit),
            arm.effect->Permit_0,
            arm.obligations.deep_view(),
            arm.decisive@,
        ),
{
    let EvalResult { effect, obligations, decisive } = arm;
    let outcome = match effect {
        Effect::Permit(o) => o,
        Effect::Deny => {
            proof {
                assert(false);
            }
            return permit;
        },
    };
    match permit {
        None => Some((outcome, obligations, decisive)),
        Some((current, current_obligations, current_decisive)) => {
            let met = current.meet(&outcome);
            if met.same(&outcome) && !met.same(&current) {
                Some((met, obligations, decisive))
            } else if !met.same(&current) {
                let granted = met.duplicate();
                Some(
                    (
                        met,
                        no_obligations(),
                        DecisiveClause::Permit { granted, satisfied: no_facts(), label: None },
                    ),
                )
            } else {
                Some((met, current_obligations, current_decisive))
            }
        },
    }
}

/// Executable winning permit of a join composition.
type AnyWinning<O> = Option<(O, DecisiveClause<O>)>;

spec fn any_win_view<O>(w: AnyWinning<O>) -> AnyWin<O> {
    match w {
        None => None,
        Some((o, d)) => Some((o, d@)),
    }
}

/// Whether `v` holds an obligation equal to `o`.
fn contains_obligation(v: &Vec<ObligationId>, o: &ObligationId) -> (b: bool)
    ensures
        b == v.deep_view().contains(o@),
{
    let mut i: usize = 0;
    while i < v.len()
        invariant
            i <= v@.len(),
            forall|k: int| 0 <= k < i ==> v.deep_view()[k] != o@,
        decreases v@.len() - i,
    {
        if v[i].same(o) {
            assert(v.deep_view()[i as int] == o@);
            return true;
        }
        i = i + 1;
    }
    proof {
        if v.deep_view().contains(o@) {
            let k = choose|k: int| 0 <= k < v.deep_view().len() && v.deep_view()[k] == o@;
            assert(v.deep_view()[k] != o@);
        }
    }
    false
}

/// Appends to `target` the obligations of `source` it does not already hold.
fn union_obligations(target: &mut Vec<ObligationId>, source: Vec<ObligationId>)
    ensures
        final(target).deep_view() == union_obs(old(target).deep_view(), source.deep_view()),
{
    let ghost s = source.deep_view();
    let mut i: usize = 0;
    while i < source.len()
        invariant
            i <= source@.len(),
            s == source.deep_view(),
            target.deep_view() == union_obs(old(target).deep_view(), s.take(i as int)),
        decreases source@.len() - i,
    {
        let ghost before = target.deep_view();
        proof {
            assert(s.take(i + 1).drop_last() =~= s.take(i as int));
            assert(s.take(i + 1).last() == source@[i as int]@);
        }
        if !contains_obligation(target, &source[i]) {
            target.push(source[i].duplicate());
            assert(target.deep_view() =~= before.push(source@[i as int]@));
        }
        i = i + 1;
    }
    assert(s.take(source@.len() as int) =~= s);
}

fn any_merge<O: Lattice>(
    winning: AnyWinning<O>,
    winning_obligations: Vec<ObligationId>,
    arm: EvalResult<O>,
) -> (r: (AnyWinning<O>, Vec<ObligationId>))
    requires
        arm.effect is Permit,
    ensures
        (any_win_view(r.0), r.1.deep_view()) == any_step(
            any_win_view(winning),
            winning_obligations.deep_view(),
            arm.effect->Permit_0,
            arm.obligations.deep_view(),
            arm.decisive@,
        ),
{
    let EvalResult { effect, obligations, decisive } = arm;
    let outcome = match effect {
        Effect::Permit(o) => o,
        Effect::Deny => {
            proof {
                assert(false);
            }
            return (winning, winning_obligations);
        },
    };
    let mut winning_obligations = winning_obligations;
    match winning {
        None => (Some((outcome, decisive)), obligations),
        Some((current, current_decisive)) => {
            let joined = current.join(&outcome);
            if joined.same(&current) && joined.same(&outcome) {
                union_obligations(&mut winning_obligations, obligations);
                (Some((current, current_decisive)), winning_obligations)
            } else if joined.same(&outcome) {
                (Some((joined, decisive)), obligations)
            } else if !joined.same(&current) {
                union_obligations(&mut winning_obligations, obligations);
                let granted = joined.duplicate();
                (
                    Some(
                        (
                            joined,
                            DecisiveClause::Permit { granted, satisfied: no_facts(), label: None },
                        ),
                    ),
                    winning_obligations,
                )
            } else {
                (Some((current, current_decisive)), winning_obligations)
            }
        },
    }
}


/// Whether an effect permits.
pub(crate) fn effect_permits<O>(e: &Effect<O>) -> (b: bool)
    ensures
        b == (*e is Permit),
{
    match e {
        Effect::Permit(_) => true,
        Effect::Deny => false,
    }
}

spec fn first_deny_view<O>(d: Option<DecisiveClause<O>>) -> Option<DecisiveView<O>> {
    match d {
        None => None,
        Some(c) => Some(c@),
    }
}

fn eval_policy<O: Lattice>(policy: &Policy<O>, facts: &KnownFacts, consulted: &mut Consulted) -> (r:
    EvalResult<O>)
    ensures
        ({
            let e = node_eval(policy@, facts@);
            &&& r.matches(e)
            &&& final(consulted).reads() == record_all(old(consulted).reads(), e.reads)
        }),
    decreases policy, 0nat,
{
    match policy {
        Policy::Permit(outcome) => permit_constant(outcome),
        Policy::Deny => generic_deny(),
        Policy::Grant { outcome, condition, label, deny_shape, obligations, reason } => eval_grant(
            outcome,
            condition,
            label,
            *deny_shape,
            obligations,
            reason,
            facts,
            consulted,
        ),
        Policy::All(policies) => {
            let ghost vs = match policy@ {
                PolicyNode::All(vs) => vs,
                _ => Seq::empty(),
            };
            eval_all_by(policies, facts, consulted, Ghost(vs))
        },
        Policy::Any(policies) => {
            let ghost vs = match policy@ {
                PolicyNode::Any(vs) => vs,
                _ => Seq::empty(),
            };
            eval_any_by(policies, facts, consulted, Ghost(vs))
        },
        Policy::OrElse { primary, fallback } => {
            let ghost c0 = consulted.reads();
            let primary = eval_policy(primary, facts, consulted);
            if effect_permits(&primary.effect) {
                primary
            } else {
                let ghost mid = consulted.reads();
                let result = eval_policy(fallback, facts, consulted);
                proof {
                    let a = node_eval(*policy@->OrElse_0, facts@);
                    let b = node_eval(*policy@->OrElse_1, facts@);
                    lemma_record_all_append(c0, a.reads, b.reads);
                }
                result
            }
        },
    }
}

fn eval_all_by<O: Lattice>(
    policies: &Vec<Policy<O>>,
    facts: &KnownFacts,
    consulted: &mut Consulted,
    Ghost(vs): Ghost<Seq<PolicyNode<O>>>,
) -> (r: EvalResult<O>)
    requires
        vs.len() == policies@.len(),
        forall|k: int| 0 <= k < vs.len() ==> vs[k] == #[trigger] policy_view(policies@[k]),
    ensures
        ({
            let e = if vs.len() == 0 {
                deny_view()
            } else {
                all_from(vs, 0, facts@, None)
            };
            &&& r.matches(e)
            &&& final(consulted).reads() == record_all(old(consulted).reads(), e.reads)
        }),
    decreases policies, 1nat,
{
    if policies.len() == 0 {
        return generic_deny();
    }
    let ghost m = facts@;
    let ghost c0 = consulted.reads();
    let ghost whole = all_from(vs, 0, m, None);
    let ghost mut reads: Seq<Read> = Seq::empty();
    let mut permit: AllPermit<O> = None;
    let mut denied: Option<EvalResult<O>> = None;
    let mut i: usize = 0;
    while i < policies.len() && denied.is_none()
        invariant
            i <= policies@.len(),
            vs.len() == policies@.len(),
            forall|k: int| 0 <= k < vs.len() ==> vs[k] == #[trigger] policy_view(policies@[k]),
            m == facts@,
            whole == all_from(vs, 0, m, None),
            consulted.reads() == record_all(c0, reads),
            match denied {
                Some(res) => res.matches(whole) && whole.reads == reads,
                None => {
                    let rest = all_from(vs, i as int, m, all_permit_view(permit));
                    &&& whole.effect == rest.effect
                    &&& whole.obligations == rest.obligations
                    &&& whole.decisive == rest.decisive
                    &&& whole.reads == reads + rest.reads
                },
            },
        decreases policies@.len() - i,
    {
        assert(vs[i as int] == policy_view(policies@[i as int]));
        let arm = eval_policy(&policies[i], facts, consulted);
        proof {
            let a = node_eval(vs[i as int], m);
            lemma_record_all_append(c0, reads, a.reads);
        }
        if effect_permits(&arm.effect) {
            proof {
                let a = node_eval(vs[i as int], m);
                let rest2 = all_from(
                    vs,
                    i + 1,
                    m,
                    all_step(all_permit_view(permit), a.effect->Permit_0, a.obligations, a.decisive),
                );
                assert(reads + (a.reads + rest2.reads) =~= (reads + a.reads) + rest2.reads);
                reads = reads + a.reads;
            }
            permit = all_merge(permit, arm);
        } else {
            proof {
                let a = node_eval(vs[i as int], m);
                assert(all_from(vs, i as int, m, all_permit_view(permit)) == a);
                reads = reads + a.reads;
            }
            denied = Some(arm);
        }
        i = i + 1;
    }
    match denied {
        Some(res) => res,
        None => {
            proof {
                assert(reads + Seq::<Read>::empty() =~= reads);
            }
            match permit {
                None => generic_deny(),
                Some((outcome, obligations, decisive)) => EvalResult {
                    effect: Effect::Permit(outcome),
                    obligations,
                    decisive,
                },
            }
        },
    }
}

fn eval_any_by<O: Lattice>(
    policies: &Vec<Policy<O>>,
    facts: &KnownFacts,
    consulted: &mut Consulted,
    Ghost(vs): Ghost<Seq<PolicyNode<O>>>,
) -> (r: EvalResult<O>)
    requires
        vs.len() == policies@.len(),
        forall|k: int| 0 <= k < vs.len() ==> vs[k] == #[trigger] policy_view(policies@[k]),
    ensures
        ({
            let e = if vs.len() == 0 {
                deny_view()
            } else {
                any_from(vs, 0, facts@, None, Seq::empty(), None)
            };
            &&& r.matches(e)
            &&& final(consulted).reads() == record_all(old(consulted).reads(), e.reads)
        }),
    decreases policies, 1nat,
{
    if policies.len() == 0 {
        return generic_deny();
    }
    let ghost m = facts@;
    let ghost c0 = consulted.reads();
    let ghost whole = any_from(vs, 0, m, None, Seq::empty(), None);
    let ghost mut reads: Seq<Read> = Seq::empty();
    let mut winning: AnyWinning<O> = None;
    let mut winning_obligations = no_obligations();
    let mut first_deny: Option<DecisiveClause<O>> = None;
    let mut i: usize = 0;
    while i < policies.len()
        invariant
            i <= policies@.len(),
            vs.len() == policies@.len(),
            forall|k: int| 0 <= k < vs.len() ==> vs[k] == #[trigger] policy_view(policies@[k]),
            m == facts@,
            whole == any_from(vs, 0, m, None, Seq::empty(), None),
            consulted.reads() == record_all(c0, reads),
            ({
                let rest = any_from(
                    vs,
                    i as int,
                    m,
                    any_win_view(winning),
                    winning_obligations.deep_view(),
                    first_deny_view(first_deny),
                );
                &&& whole.effect == rest.effect
                &&& whole.obligations == rest.obligations
                &&& whole.decisive == rest.decisive
                &&& whole.reads == reads + rest.reads
            }),
        decreases policies@.len() - i,
    {
        assert(vs[i as int] == policy_view(policies@[i as int]));
        let arm = eval_policy(&policies[i], facts, consulted);
        proof {
            let a = node_eval(vs[i as int], m);
            lemma_record_all_append(c0, reads, a.reads);
        }
        if effect_permits(&arm.effect) {
            proof {
                let a = node_eval(vs[i as int], m);
                let (w2, obs2) = any_step(
                    any_win_view(winning),
                    winning_obligations.deep_view(),
                    a.effect->Permit_0,
                    a.obligations,
                    a.decisive,
                );
                let rest2 = any_from(vs, i + 1, m, w2, obs2, first_deny_view(first_deny));
                assert(reads + (a.reads + rest2.reads) =~= (reads + a.reads) + rest2.reads);
                reads = reads + a.reads;
            }
            let (w, wo) = any_merge(winning, winning_obligations, arm);
            winning = w;
            winning_obligations = wo;
        } else {
            proof {
                let a = node_eval(vs[i as int], m);
                let fd2 = if first_deny_view(first_deny) is None {
                    Some(a.decisive)
                } else {
                    first_deny_view(first_deny)
                };
                let rest2 = any_from(
                    vs,
                    i + 1,
                    m,
                    any_win_view(winning),
                    winning_obligations.deep_view(),
                    fd2,
                );
                assert(reads + (a.reads + rest2.reads) =~= (reads + a.reads) + rest2.reads);
                reads = reads + a.reads;
            }
            if first_deny.is_none() {
                first_deny = Some(arm.decisive);
            }
        }
        i = i + 1;
    }
    proof {
        assert(reads + Seq::<Read>::empty() =~= reads);
    }
    match winning {
        Some((outcome, decisive)) => EvalResult {
            effect: Effect::Permit(outcome),
            obligations: winning_obligations,
            decisive,
        },
        None => {
            let decisive = match first_deny {
                Some(d) => d,
                None => generic_deny::<O>().decisive,
            };
            EvalResult { effect: Effect::Deny, obligations: no_obligations(), decisive }
        },
    }
}

fn eval_residual_policy<O: Lattice>(policy: &ResidualPolicy<O>, facts: &KnownFacts, consulted: &mut Consulted) -> (r:
    EvalResult<O>)
    ensures
        ({
            let e = node_eval(policy@, facts@);
            &&& r.matches(e)
            &&& final(consulted).reads() == record_all(old(consulted).reads(), e.reads)
        }),
    decreases policy, 0nat,
{
    match policy {
        ResidualPolicy::Permit(outcome) => permit_constant(outcome),
        ResidualPolicy::Deny => generic_deny(),
        ResidualPolicy::PermitWithTrace { outcome, obligations, satisfied, label } => EvalResult {
            effect: Effect::Permit(outcome.duplicate()),
            obligations: copy_obligations(obligations),
            decisive: DecisiveClause::Permit {
                granted: outcome.duplicate(),
                satisfied: copy_facts(satisfied),
                label: copy_label(label),
            },
        },
        ResidualPolicy::DenyWithTrace { denied, unsatisfied, label, reason, shape } => EvalResult {
            effect: Effect::Deny,
            obligations: no_obligations(),
            decisive: DecisiveClause::Deny {
                denied: copy_outcome(denied),
                unsatisfied: copy_facts(unsatisfied),
                label: copy_label(label),
                reason: copy_reason(reason),
                shape: *shape,
            },
        },
        ResidualPolicy::Grant { outcome, condition, label, deny_shape, obligations, reason } => eval_grant(
            outcome,
            condition,
            label,
            *deny_shape,
            obligations,
            reason,
            facts,
            consulted,
        ),
        ResidualPolicy::All(policies) => {
            let ghost vs = match policy@ {
                PolicyNode::All(vs) => vs,
                _ => Seq::empty(),
            };
            eval_residual_all(policies, facts, consulted, Ghost(vs))
        },
        ResidualPolicy::Any(policies) => {
            let ghost vs = match policy@ {
                PolicyNode::Any(vs) => vs,
                _ => Seq::empty(),
            };
            eval_residual_any(policies, facts, consulted, Ghost(vs))
        },
        ResidualPolicy::OrElse { primary, fallback } => {
            let ghost c0 = consulted.reads();
            let primary = eval_residual_policy(primary, facts, consulted);
            if effect_permits(&primary.effect) {
                primary
            } else {
                let ghost mid = consulted.reads();
                let result = eval_residual_policy(fallback, facts, consulted);
                proof {
                    let a = node_eval(*policy@->OrElse_0, facts@);
                    let b = node_eval(*policy@->OrElse_1, facts@);
                    lemma_record_all_append(c0, a.reads, b.reads);
                }
                result
            }
        },
    }
}

fn eval_residual_all<O: Lattice>(
    policies: &Vec<ResidualPolicy<O>>,
    facts: &KnownFacts,
    consulted: &mut Consulted,
    Ghost(vs): Ghost<Seq<PolicyNode<O>>>,
) -> (r: EvalResult<O>)
    requires
        vs.len() == policies@.len(),
        forall|k: int| 0 <= k < vs.len() ==> vs[k] == #[trigger] residual_view(policies@[k]),
    ensures
        ({
            let e = if vs.len() == 0 {
                deny_view()
            } else {
                all_from(vs, 0, facts@, None)
            };
            &&& r.matches(e)
            &&& final(consulted).reads() == record_all(old(consulted).reads(), e.reads)
        }),
    decreases policies, 1nat,
{
    if policies.len() == 0 {
        return generic_deny();
    }
    let ghost m = facts@;
    let ghost c0 = consulted.reads();
    let ghost whole = all_from(vs, 0, m, None);
    let ghost mut reads: Seq<Read> = Seq::empty();
    let mut permit: AllPermit<O> = None;
    let mut denied: Option<EvalResult<O>> = None;
    let mut i: usize = 0;
    while i < policies.len() && denied.is_none()
        invariant
            i <= policies@.len(),
            vs.len() == policies@.len(),
            forall|k: int| 0 <= k < vs.len() ==> vs[k] == #[trigger] residual_view(policies@[k]),
            m == facts@,
            whole == all_from(vs, 0, m, None),
            consulted.reads() == record_all(c0, reads),
            match denied {
                Some(res) => res.matches(whole) && whole.reads == reads,
                None => {
                    let rest = all_from(vs, i as int, m, all_permit_view(permit));
                    &&& whole.effect == rest.effect
                    &&& whole.obligations == rest.obligations
                    &&& whole.decisive == rest.decisive
                    &&& whole.reads == reads + rest.reads
                },
            },
        decreases policies@.len() - i,
    {
        assert(vs[i as int] == residual_view(policies@[i as int]));
        let arm = eval_residual_policy(&policies[i], facts, consulted);
        proof {
            let a = node_eval(vs[i as int], m);
            lemma_record_all_append(c0, reads, a.reads);
        }
        if effect_permits(&arm.effect) {
            proof {
                let a = node_eval(vs[i as int], m);
                let rest2 = all_from(
                    vs,
                    i + 1,
                    m,
                    all_step(all_permit_view(permit), a.effect->Permit_0, a.obligations, a.decisive),
                );
                assert(reads + (a.reads + rest2.reads) =~= (reads + a.reads) + rest2.reads);
                reads = reads + a.reads;
            }
            permit = all_merge(permit, arm);
        } else {
            proof {
                let a = node_eval(vs[i as int], m);
                assert(all_from(vs, i as int, m, all_permit_view(permit)) == a);
                reads = reads + a.reads;
            }
            denied = Some(arm);
        }
        i = i + 1;
    }
    match denied {
        Some(res) => res,
        None => {
            proof {
                assert(reads + Seq::<Read>::empty() =~= reads);
            }
            match permit {
                None => generic_deny(),
                Some((outcome, obligations, decisive)) => EvalResult {
                    effect: Effect::Permit(outcome),
                    obligations,
                    decisive,
                },
            }
        },
    }
}

fn eval_residual_any<O: Lattice>(
    policies: &Vec<ResidualPolicy<O>>,
    facts: &KnownFacts,
    consulted: &mut Consulted,
    Ghost(vs): Ghost<Seq<PolicyNode<O>>>,
) -> (r: EvalResult<O>)
    requires
        vs.len() == policies@.len(),
        forall|k: int| 0 <= k < vs.len() ==> vs[k] == #[trigger] residual_view(policies@[k]),
    ensures
        ({
            let e = if vs.len() == 0 {
                deny_view()
            } else {
                any_from(vs, 0, facts@, None, Seq::empty(), None)
            };
            &&& r.matches(e)
            &&& final(consulted).reads() == record_all(old(consulted).reads(), e.reads)
        }),
    decreases policies, 1nat,
{
    if policies.len() == 0 {
        return generic_deny();
    }
    let ghost m = facts@;
    let ghost c0 = consulted.reads();
    let ghost whole = any_from(vs, 0, m, None, Seq::empty(), None);
    let ghost mut reads: Seq<Read> = Seq::empty();
    let mut winning: AnyWinning<O> = None;
    let mut winning_obligations = no_obligations();
    let mut first_deny: Option<DecisiveClause<O>> = None;
    let mut i: usize = 0;
    while i < policies.len()
        invariant
            i <= policies@.len(),
            vs.len() == policies@.len(),
            forall|k: int| 0 <= k < vs.len() ==> vs[k] == #[trigger] residual_view(policies@[k]),
            m == facts@,
            whole == any_from(vs, 0, m, None, Seq::empty(), None),
            consulted.reads() == record_all(c0, reads),
            ({
                let rest = any_from(
                    vs,
                    i as int,
                    m,
                    any_win_view(winning),
                    winning_obligations.deep_view(),
                    first_deny_view(first_deny),
                );
                &&& whole.effect == rest.effect
                &&& whole.obligations == rest.obligations
                &&& whole.decisive == rest.decisive
                &&& whole.reads == reads + rest.reads
            }),
        decreases policies@.len() - i,
    {
        assert(vs[i as int] == residual_view(policies@[i as int]));
        let arm = eval_residual_policy(&policies[i], facts, consulted);
        proof {
            let a = node_eval(vs[i as int], m);
            lemma_record_all_append(c0, reads, a.reads);
        }
        if effect_permits(&arm.effect) {
            proof {
                let a = node_eval(vs[i as int], m);
                let (w2, obs2) = any_step(
                    any_win_view(winning),
                    winning_obligations.deep_view(),
                    a.effect->Permit_0,
                    a.obligations,
                    a.decisive,
                );
                let rest2 = any_from(vs, i + 1, m, w2, obs2, first_deny_view(first_deny));
                assert(reads + (a.reads + rest2.reads) =~= (reads + a.reads) + rest2.reads);
                reads = reads + a.reads;
            }
            let (w, wo) = any_merge(winning, winning_obligations, arm);
            winning = w;
            winning_obligations = wo;
        } else {
            proof {
                let a = node_eval(vs[i as int], m);
                let fd2 = if first_deny_view(first_deny) is None {
                    Some(a.decisive)
                } else {
                    first_deny_view(first_deny)
                };
                let rest2 = any_from(
                    vs,
                    i + 1,
                    m,
                    any_win_view(winning),
                    winning_obligations.deep_view(),
                    fd2,
                );
                assert(reads + (a.reads + rest2.reads) =~= (reads + a.reads) + rest2.reads);
                reads = reads + a.reads;
            }
            if first_deny.is_none() {
                first_deny = Some(arm.decisive);
            }
        }
        i = i + 1;
    }
    proof {
        assert(reads + Seq::<Read>::empty() =~= reads);
    }
    match winning {
        Some((outcome, decisive)) => EvalResult {
            effect: Effect::Permit(outcome),
            obligations: winning_obligations,
            decisive,
        },
        None => {
            let decisive = match first_deny {
                Some(d) => d,
                None => generic_deny::<O>().decisive,
            };
            EvalResult { effect: Effect::Deny, obligations: no_obligations(), decisive }
        },
    }
}


// ---------------------------------------------------------------------------
// Public evaluation

/// The decision that an evaluation result gives: its reads become the facts
/// consulted, each once, in first-read order.
pub open spec fn decision_of<O>(e: EvalView<O>) -> DecisionView<O> {
    DecisionView {
        effect: e.effect,
        obligations: e.obligations,
        consulted: consulted_of(e.reads),
        decisive: e.decisive,
    }
}

/// Evaluates a policy against known facts.
pub fn evaluate<O: Lattice>(policy: &Policy<O>, facts: &KnownFacts) -> (decision: Decision<O>)
    ensures
        decision@ == decision_of(node_eval(policy@, facts@)),
{
    let mut consulted = Consulted::new();
    let result = eval_policy(policy, facts, &mut consulted);
    Decision {
        effect: result.effect,
        obligations: result.obligations,
        trace: DecisionTrace { consulted: consulted.0, decisive: result.decisive },
    }
}

/// Evaluates a residual policy against known facts.
pub fn evaluate_residual<O: Lattice>(policy: &ResidualPolicy<O>, facts: &KnownFacts) -> (decision:
    Decision<O>)
    ensures
        decision@ == decision_of(node_eval(policy@, facts@)),
{
    let mut consulted = Consulted::new();
    let result = eval_residual_policy(policy, facts, &mut consulted);
    Decision {
        effect: result.effect,
        obligations: result.obligations,
        trace: DecisionTrace { consulted: consulted.0, decisive: result.decisive },
    }
}


// ---------------------------------------------------------------------------
// Facts a policy may consult

/// Facts named by a condition.
pub open spec fn cond_facts(c: ConditionView) -> Set<Seq<char>>
    decreases c, 0nat,
{
    match c {
        ConditionView::Always => Set::empty(),
        ConditionView::Never => Set::empty(),
        ConditionView::Has(f) => set![f],
        ConditionView::Not(inner) => cond_facts(*inner),
        ConditionView::All(cs) => conds_facts_from(cs, 0),
        ConditionView::Any(cs) => conds_facts_from(cs, 0),
    }
}

/// Facts named by `cs[i..]`.
pub open spec fn conds_facts_from(cs: Seq<ConditionView>, i: int) -> Set<Seq<char>>
    decreases cs, cs.len() - i,
{
    if 0 <= i < cs.len() {
        cond_facts(cs[i]).union(conds_facts_from(cs, i + 1))
    } else {
        Set::empty()
    }
}

/// Facts named by the conditions of a policy's grants.
pub open spec fn node_facts<O>(p: PolicyNode<O>) -> Set<Seq<char>>
    decreases p, 0nat,
{
    match p {
        PolicyNode::Grant { condition, .. } => cond_facts(condition),
        PolicyNode::All(ps) => nodes_facts_from(ps, 0),
        PolicyNode::Any(ps) => nodes_facts_from(ps, 0),
        PolicyNode::OrElse(primary, fallback) => node_facts(*primary).union(node_facts(*fallback)),
        _ => Set::empty(),
    }
}

/// Facts named by the policies `ps[i..]`.
pub open spec fn nodes_facts_from<O>(ps: Seq<PolicyNode<O>>, i: int) -> Set<Seq<char>>
    decreases ps, ps.len() - i,
{
    if 0 <= i < ps.len() {
        node_facts(ps[i]).union(nodes_facts_from(ps, i + 1))
    } else {
        Set::empty()
    }
}

fn collect_condition_facts(condition: &Condition, facts: &mut Vec<FactId>)
    requires
        strictly_sorted(old(facts).deep_view()),
    ensures
        strictly_sorted(final(facts).deep_view()),
        final(facts).deep_view().to_set() == old(facts).deep_view().to_set().union(
            cond_facts(condition@),
        ),
    decreases condition, 0nat,
{
    match condition {
        Condition::Always | Condition::Never => {
            assert(facts.deep_view().to_set().union(Set::empty()) =~= facts.deep_view().to_set());
        },
        Condition::Has(fact) => {
            insert_sorted(facts, fact);
            assert(old(facts).deep_view().to_set().insert(fact@) =~= old(facts).deep_view().to_set().union(set![fact@]));
        },
        Condition::Not(inner) => collect_condition_facts(inner, facts),
        Condition::All(conditions) | Condition::Any(conditions) => {
            let ghost vs = match condition@ {
                ConditionView::All(vs) => vs,
                ConditionView::Any(vs) => vs,
                _ => Seq::empty(),
            };
            collect_conditions_facts(conditions, facts, Ghost(vs));
        },
    }
}

fn collect_conditions_facts(
    conditions: &Vec<Condition>,
    facts: &mut Vec<FactId>,
    Ghost(vs): Ghost<Seq<ConditionView>>,
)
    requires
        strictly_sorted(old(facts).deep_view()),
        vs.len() == conditions@.len(),
        forall|k: int| 0 <= k < vs.len() ==> vs[k] == #[trigger] cond_view(conditions@[k]),
    ensures
        strictly_sorted(final(facts).deep_view()),
        final(facts).deep_view().to_set() == old(facts).deep_view().to_set().union(
            conds_facts_from(vs, 0),
        ),
    decreases conditions, 1nat,
{
    let ghost goal = old(facts).deep_view().to_set().union(conds_facts_from(vs, 0));
    let mut i: usize = 0;
    assert(facts.deep_view().to_set().union(conds_facts_from(vs, 0)) == goal);
    while i < conditions.len()
        invariant
            i <= conditions@.len(),
            vs.len() == conditions@.len(),
            forall|k: int| 0 <= k < vs.len() ==> vs[k] == #[trigger] cond_view(conditions@[k]),
            strictly_sorted(facts.deep_view()),
            facts.deep_view().to_set().union(conds_facts_from(vs, i as int)) == goal,
        decreases conditions@.len() - i,
    {
        let ghost before = facts.deep_view().to_set();
        assert(vs[i as int] == cond_view(conditions@[i as int]));
        collect_condition_facts(&conditions[i], facts);
        assert(before.union(conds_facts_from(vs, i as int)) =~= facts.deep_view().to_set().union(
            conds_facts_from(vs, i + 1),
        ));
        i = i + 1;
    }
    assert(facts.deep_view().to_set().union(Set::empty()) =~= facts.deep_view().to_set());
}

fn collect_policy_facts<O>(policy: &Policy<O>, facts: &mut Vec<FactId>)
    requires
        strictly_sorted(old(facts).deep_view()),
    ensures
        strictly_sorted(final(facts).deep_view()),
        final(facts).deep_view().to_set() == old(facts).deep_view().to_set().union(
            node_facts(policy@),
        ),
    decreases policy, 0nat,
{
    match policy {
        Policy::Grant { condition, .. } => collect_condition_facts(condition, facts),
        Policy::All(policies) | Policy::Any(policies) => {
            let ghost vs = match policy@ {
                PolicyNode::All(vs) => vs,
                PolicyNode::Any(vs) => vs,
                _ => Seq::empty(),
            };
            collect_policies_facts(policies, facts, Ghost(vs));
        },
        Policy::OrElse { primary, fallback } => {
            collect_policy_facts(primary, facts);
            collect_policy_facts(fallback, facts);
            assert(old(facts).deep_view().to_set().union(node_facts(policy@)) =~= old(facts).deep_view().to_set().union(node_facts(*policy@->OrElse_0)).union(node_facts(*policy@->OrElse_1)));
        },
        _ => {
            assert(facts.deep_view().to_set().union(node_facts(policy@)) =~= facts.deep_view().to_set());
        },
    }
}

fn collect_policies_facts<O>(policies: &Vec<Policy<O>>, facts: &mut Vec<FactId>, Ghost(vs): Ghost<Seq<PolicyNode<O>>>)
    requires
        strictly_sorted(old(facts).deep_view()),
        vs.len() == policies@.len(),
        forall|k: int| 0 <= k < vs.len() ==> vs[k] == #[trigger] policy_view(policies@[k]),
    ensures
        strictly_sorted(final(facts).deep_view()),
        final(facts).deep_view().to_set() == old(facts).deep_view().to_set().union(
            nodes_facts_from(vs, 0),
        ),
    decreases policies, 1nat,
{
    let ghost goal = old(facts).deep_view().to_set().union(nodes_facts_from(vs, 0));
    let mut i: usize = 0;
    while i < policies.len()
        invariant
            i <= policies@.len(),
            vs.len() == policies@.len(),
            forall|k: int| 0 <= k < vs.len() ==> vs[k] == #[trigger] policy_view(policies@[k]),
            strictly_sorted(facts.deep_view()),
            facts.deep_view().to_set().union(nodes_facts_from(vs, i as int)) == goal,
        decreases policies@.len() - i,
    {
        let ghost before = facts.deep_view().to_set();
        assert(vs[i as int] == policy_view(policies@[i as int]));
        collect_policy_facts(&policies[i], facts);
        assert(before.union(nodes_facts_from(vs, i as int)) =~= facts.deep_view().to_set().union(
            nodes_facts_from(vs, i + 1),
        ));
        i = i + 1;
    }
    assert(facts.deep_view().to_set().union(Set::empty()) =~= facts.deep_view().to_set());
}

fn collect_residual_policy_facts<O>(policy: &ResidualPolicy<O>, facts: &mut Vec<FactId>)
    requires
        strictly_sorted(old(facts).deep_view()),
    ensures
        strictly_sorted(final(facts).deep_view()),
        final(facts).deep_view().to_set() == old(facts).deep_view().to_set().union(
            node_facts(policy@),
        ),
    decreases policy, 0nat,
{
    match policy {
        ResidualPolicy::Grant { condition, .. } => collect_condition_facts(condition, facts),
        ResidualPolicy::All(policies) | ResidualPolicy::Any(policies) => {
            let ghost vs = match policy@ {
                PolicyNode::All(vs) => vs,
                PolicyNode::Any(vs) => vs,
                _ => Seq::empty(),
            };
            collect_residual_policies_facts(policies, facts, Ghost(vs));
        },
        ResidualPolicy::OrElse { primary, fallback } => {
            collect_residual_policy_facts(primary, facts);
            collect_residual_policy_facts(fallback, facts);
            assert(old(facts).deep_view().to_set().union(node_facts(policy@)) =~= old(facts).deep_view().to_set().union(node_facts(*policy@->OrElse_0)).union(node_facts(*policy@->OrElse_1)));
        },
        _ => {
            assert(facts.deep_view().to_set().union(node_facts(policy@)) =~= facts.deep_view().to_set());
        },
    }
}

fn collect_residual_policies_facts<O>(policies: &Vec<ResidualPolicy<O>>, facts: &mut Vec<FactId>, Ghost(vs): Ghost<Seq<PolicyNode<O>>>)
    requires
        strictly_sorted(old(facts).deep_view()),
        vs.len() == policies@.len(),
        forall|k: int| 0 <= k < vs.len() ==> vs[k] == #[trigger] residual_view(policies@[k]),
    ensures
        strictly_sorted(final(facts).deep_view()),
        final(facts).deep_view().to_set() == old(facts).deep_view().to_set().union(
            nodes_facts_from(vs, 0),
        ),
    decreases policies, 1nat,
{
    let ghost goal = old(facts).deep_view().to_set().union(nodes_facts_from(vs, 0));
    let mut i: usize = 0;
    while i < policies.len()
        invariant
            i <= policies@.len(),
            vs.len() == policies@.len(),
            forall|k: int| 0 <= k < vs.len() ==> vs[k] == #[trigger] residual_view(policies@[k]),
            strictly_sorted(facts.deep_view()),
            facts.deep_view().to_set().union(nodes_facts_from(vs, i as int)) == goal,
        decreases policies@.len() - i,
    {
        let ghost before = facts.deep_view().to_set();
        assert(vs[i as int] == residual_view(policies@[i as int]));
        collect_residual_policy_facts(&policies[i], facts);
        assert(before.union(nodes_facts_from(vs, i as int)) =~= facts.deep_view().to_set().union(
            nodes_facts_from(vs, i + 1),
        ));
        i = i + 1;
    }
    assert(facts.deep_view().to_set().union(Set::empty()) =~= facts.deep_view().to_set());
}

/// Returns every fact that a policy may consult, in lexicographic order,
/// each once.
pub fn required_facts<O>(policy: &Policy<O>) -> (facts: Vec<FactId>)
    ensures
        strictly_sorted(facts.deep_view()),
        facts.deep_view().to_set() == node_facts(policy@),
{
    let mut facts: Vec<FactId> = Vec::new();
    assert(facts.deep_view() =~= Seq::<Seq<char>>::empty());
    collect_policy_facts(policy, &mut facts);
    assert(Seq::<Seq<char>>::empty().to_set().union(node_facts(policy@)) =~= node_facts(policy@));
    facts
}

/// Returns every fact that a residual policy may consult, in lexicographic
/// order, each once.
pub fn required_residual_facts<O>(policy: &ResidualPolicy<O>) -> (facts: Vec<FactId>)
    ensures
        strictly_sorted(facts.deep_view()),
        facts.deep_view().to_set() == node_facts(policy@),
{
    let mut facts: Vec<FactId> = Vec::new();
    assert(facts.deep_view() =~= Seq::<Seq<char>>::empty());
    collect_residual_policy_facts(policy, &mut facts);
    assert(Seq::<Seq<char>>::empty().to_set().union(node_facts(policy@)) =~= node_facts(policy@));
    facts
}

} // verus!
