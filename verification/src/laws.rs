use vstd::prelude::*;

use crate::decision::{DecisiveView, Effect};
use crate::evaluate::{
    all_from, all_step, any_from, any_step, cond_all_from, cond_any_from, cond_eval, node_eval,
    record_all, AllState, AnyWin, EvalView, Read,
};
use crate::decision::DecisionView;
use crate::evaluate::{cond_facts, conds_facts_from, decision_of, node_facts, nodes_facts_from};
use crate::facts::{inserted_all, known_part, presence_in, recorded, KnownFacts, PartialFacts, Presence};
use crate::prepared::{empty_inventory, grants_of, inspect_run, observed_map, GrantInfo, InspectView};
use crate::explanation::{consulted_lines, explanation, ExplanationAudience};
use crate::audit::{
    clause_copy, clause_equal, decision_consistent, effect_kind_of, expected_code, lemma_built_reason_matches, reason_matches,
    semantics_check, AuditEntryError, EffectKind,
};
use crate::decision::{Decision, DecisiveClause};
use crate::reason::{built_reason, json_equal, reason_code_of, records_clause, DenialReason, Trace, TraceClause, TraceValue};
use crate::clock::Timestamp;
use crate::context::Context;
use crate::identity::{DecisionAuditId, FactId, Locale, SubjectRef, TenantId};
use crate::occurrence::{occurrence_check, occurrence_validation, DecisionAuditOccurrenceError};
use crate::tenant::TenantBinding;
use crate::resolution::{agrees, observed_presence, FactObservation};
use crate::partial::{
    with_consulted_view, complete_view, pending_cond, reduce_all_from, reduce_any_from, reduce_cond, reduce_cond_all_from,
    reduce_cond_any_from, reduce_node, residual_of_decision, ReducedCond, ResidualView,
};
use crate::policy_model::{ConditionView, Lattice, Policy, PolicyNode, ResidualPolicy};
use crate::fold::{
    descends, folded, oks, or_else_result, pruned, pruned_or_else, tried, tried_arms, try_visits, visits,
    FoldNode, ResidualPolicyBranch, ResidualPolicyNode,
};
use crate::decision::DenyShape;
use crate::policy::{grant_node, with_hidden, with_label, with_obligation_id, with_reason};

verus! {

/// Every fact of `km` is present or absent.
pub open spec fn fully_known(km: Map<Seq<char>, Presence>) -> bool {
    forall|id: Seq<char>| #[trigger] presence_in(km, id) != Presence::Unknown
}

/// `km` gives every fact that `pm` knows the presence that `pm` gives it.
pub open spec fn completes(pm: Map<Seq<char>, Presence>, km: Map<Seq<char>, Presence>) -> bool {
    &&& fully_known(km)
    &&& forall|id: Seq<char>|
        #[trigger] presence_in(pm, id) != Presence::Unknown ==> presence_in(km, id) == presence_in(pm, id)
}

/// The known part of partial facts completes them.
pub proof fn lemma_known_part_completes(pm: Map<Seq<char>, Presence>)
    ensures
        completes(pm, known_part(pm)),
{
    assert forall|id: Seq<char>| #[trigger] presence_in(known_part(pm), id) != Presence::Unknown by {
    }
    assert forall|id: Seq<char>| #[trigger] presence_in(pm, id) != Presence::Unknown implies presence_in(
        known_part(pm),
        id,
    ) == presence_in(pm, id) by {
    }
}

/// A conjunction over `cs[i..]` holds exactly when each arm holds.
proof fn lemma_cond_all_from_sat(cs: Seq<ConditionView>, i: int, m: Map<Seq<char>, Presence>)
    requires
        0 <= i <= cs.len(),
    ensures
        cond_all_from(cs, i, m).satisfied == forall|j: int| i <= j < cs.len() ==> #[trigger] cond_eval(cs[j], m).satisfied,
    decreases cs.len() - i,
{
    if i < cs.len() {
        lemma_cond_all_from_sat(cs, i + 1, m);
        if cond_eval(cs[i], m).satisfied && cond_all_from(cs, i + 1, m).satisfied {
            assert forall|j: int| i <= j < cs.len() implies #[trigger] cond_eval(cs[j], m).satisfied by {
                if j > i {
                    assert(i + 1 <= j < cs.len());
                }
            }
        }
    }
}

/// A disjunction over `cs[i..]` holds exactly when some arm holds.
proof fn lemma_cond_any_from_sat(cs: Seq<ConditionView>, i: int, m: Map<Seq<char>, Presence>)
    requires
        0 <= i <= cs.len(),
    ensures
        cond_any_from(cs, i, m).satisfied == exists|j: int| i <= j < cs.len() && #[trigger] cond_eval(cs[j], m).satisfied,
    decreases cs.len() - i,
{
    if i < cs.len() {
        lemma_cond_any_from_sat(cs, i + 1, m);
        if cond_eval(cs[i], m).satisfied {
            assert(i <= i < cs.len() && cond_eval(cs[i], m).satisfied);
        }
        if cond_any_from(cs, i + 1, m).satisfied {
            let j = choose|j: int| i + 1 <= j < cs.len() && #[trigger] cond_eval(cs[j], m).satisfied;
            assert(i <= j < cs.len() && cond_eval(cs[j], m).satisfied);
        }
        if exists|j: int| i <= j < cs.len() && #[trigger] cond_eval(cs[j], m).satisfied {
            let j = choose|j: int| i <= j < cs.len() && #[trigger] cond_eval(cs[j], m).satisfied;
            if j > i {
                assert(i + 1 <= j < cs.len() && cond_eval(cs[j], m).satisfied);
            }
        }
    }
}

/// Whether the reduction of a condition agrees with its value under facts
/// that complete the partial ones: a decided reduction gives the value, a
/// residual condition has the same value.
pub open spec fn reduction_agrees(r: ReducedCond, satisfied: bool, km: Map<Seq<char>, Presence>) -> bool {
    match r {
        ReducedCond::Known(s, _) => s == satisfied,
        ReducedCond::Pending(rc, _) => cond_eval(rc, km).satisfied == satisfied,
    }
}

/// Reducing a condition against partial facts preserves its value under any
/// completion of them.
pub proof fn lemma_reduce_cond_sound(c: ConditionView, pm: Map<Seq<char>, Presence>, km: Map<Seq<char>, Presence>)
    requires
        completes(pm, km),
    ensures
        reduction_agrees(reduce_cond(c, pm), cond_eval(c, km).satisfied, km),
    decreases c, 0nat,
{
    match c {
        ConditionView::Has(f) => {
            assert(presence_in(pm, f) != Presence::Unknown ==> presence_in(km, f) == presence_in(pm, f));
        },
        ConditionView::Not(inner) => {
            lemma_reduce_cond_sound(*inner, pm, km);
        },
        ConditionView::All(cs) => {
            if cs.len() > 0 {
                lemma_cond_all_from_sat(cs, 0, km);
                lemma_reduce_cond_all_sound(cs, 0, pm, km, Seq::empty(), Seq::empty());
            }
        },
        ConditionView::Any(cs) => {
            if cs.len() > 0 {
                lemma_cond_any_from_sat(cs, 0, km);
                lemma_reduce_cond_any_sound(cs, 0, pm, km, Seq::empty(), Seq::empty());
            }
        },
        _ => {},
    }
}

proof fn lemma_reduce_cond_all_sound(
    cs: Seq<ConditionView>,
    i: int,
    pm: Map<Seq<char>, Presence>,
    km: Map<Seq<char>, Presence>,
    consulted: Seq<(Seq<char>, Presence)>,
    pending: Seq<ConditionView>,
)
    requires
        completes(pm, km),
        0 <= i <= cs.len(),
    ensures
        reduction_agrees(
            reduce_cond_all_from(cs, i, pm, consulted, pending),
            (forall|k: int| 0 <= k < pending.len() ==> #[trigger] cond_eval(pending[k], km).satisfied)
                && (forall|j: int| i <= j < cs.len() ==> #[trigger] cond_eval(cs[j], km).satisfied),
            km,
        ),
    decreases cs, cs.len() - i,
{
    if i < cs.len() {
        lemma_reduce_cond_sound(cs[i], pm, km);
        match reduce_cond(cs[i], pm) {
            ReducedCond::Known(s, c) => {
                if s {
                    lemma_reduce_cond_all_sound(cs, i + 1, pm, km, record_all(consulted, c), pending);
                }
            },
            ReducedCond::Pending(r, c) => {
                let p2 = pending.push(r);
                lemma_reduce_cond_all_sound(cs, i + 1, pm, km, record_all(consulted, c), p2);
                assert((forall|k: int| 0 <= k < p2.len() ==> #[trigger] cond_eval(p2[k], km).satisfied)
                    == ((forall|k: int| 0 <= k < pending.len() ==> #[trigger] cond_eval(pending[k], km).satisfied)
                    && cond_eval(r, km).satisfied)) by {
                    if forall|k: int| 0 <= k < pending.len() ==> #[trigger] cond_eval(pending[k], km).satisfied {
                        if cond_eval(r, km).satisfied {
                            assert forall|k: int| 0 <= k < p2.len() implies #[trigger] cond_eval(p2[k], km).satisfied by {
                                if k < pending.len() {
                                    assert(p2[k] == pending[k]);
                                }
                            }
                        }
                    }
                    if forall|k: int| 0 <= k < p2.len() ==> #[trigger] cond_eval(p2[k], km).satisfied {
                        assert(p2[pending.len() as int] == r);
                        assert forall|k: int| 0 <= k < pending.len() implies #[trigger] cond_eval(pending[k], km).satisfied by {
                            assert(p2[k] == pending[k]);
                        }
                    }
                }
            },
        }
    } else {
        if pending.len() > 1 {
            lemma_cond_all_from_sat(pending, 0, km);
        }
    }
}

proof fn lemma_reduce_cond_any_sound(
    cs: Seq<ConditionView>,
    i: int,
    pm: Map<Seq<char>, Presence>,
    km: Map<Seq<char>, Presence>,
    consulted: Seq<(Seq<char>, Presence)>,
    pending: Seq<ConditionView>,
)
    requires
        completes(pm, km),
        0 <= i <= cs.len(),
    ensures
        reduction_agrees(
            reduce_cond_any_from(cs, i, pm, consulted, pending),
            (exists|k: int| 0 <= k < pending.len() && #[trigger] cond_eval(pending[k], km).satisfied)
                || (exists|j: int| i <= j < cs.len() && #[trigger] cond_eval(cs[j], km).satisfied),
            km,
        ),
    decreases cs, cs.len() - i,
{
    if i < cs.len() {
        lemma_reduce_cond_sound(cs[i], pm, km);
        match reduce_cond(cs[i], pm) {
            ReducedCond::Known(s, c) => {
                if !s {
                    lemma_reduce_cond_any_sound(cs, i + 1, pm, km, record_all(consulted, c), pending);
                }
            },
            ReducedCond::Pending(r, c) => {
                let p2 = pending.push(r);
                lemma_reduce_cond_any_sound(cs, i + 1, pm, km, record_all(consulted, c), p2);
                assert((exists|k: int| 0 <= k < p2.len() && #[trigger] cond_eval(p2[k], km).satisfied)
                    == ((exists|k: int| 0 <= k < pending.len() && #[trigger] cond_eval(pending[k], km).satisfied)
                    || cond_eval(r, km).satisfied)) by {
                    if exists|k: int| 0 <= k < p2.len() && #[trigger] cond_eval(p2[k], km).satisfied {
                        let k = choose|k: int| 0 <= k < p2.len() && #[trigger] cond_eval(p2[k], km).satisfied;
                        if k < pending.len() {
                            assert(p2[k] == pending[k]);
                        }
                    }
                    if exists|k: int| 0 <= k < pending.len() && #[trigger] cond_eval(pending[k], km).satisfied {
                        let k = choose|k: int| 0 <= k < pending.len() && #[trigger] cond_eval(pending[k], km).satisfied;
                        assert(p2[k] == pending[k]);
                    }
                    if cond_eval(r, km).satisfied {
                        assert(p2[pending.len() as int] == r);
                    }
                }
            },
        }
    } else {
        if pending.len() > 1 {
            lemma_cond_any_from_sat(pending, 0, km);
        }
    }
}


// ---------------------------------------------------------------------------
// Effects of compositions

/// Meet and join are commutative and associative.
pub open spec fn lawful<O: Lattice>() -> bool {
    &&& forall|a: O, b: O| #[trigger] a.spec_meet(b) == b.spec_meet(a)
    &&& forall|a: O, b: O, c: O| #[trigger] a.spec_meet(b).spec_meet(c) == a.spec_meet(b.spec_meet(c))
    &&& forall|a: O, b: O| #[trigger] a.spec_join(b) == b.spec_join(a)
    &&& forall|a: O, b: O, c: O| #[trigger] a.spec_join(b).spec_join(c) == a.spec_join(b.spec_join(c))
}

/// The meet of an optional accumulated outcome with another.
pub open spec fn meet_acc<O: Lattice>(acc: Option<O>, o: O) -> O {
    match acc {
        None => o,
        Some(a) => a.spec_meet(o),
    }
}

/// The join of an optional accumulated outcome with another.
pub open spec fn join_acc<O: Lattice>(acc: Option<O>, o: O) -> O {
    match acc {
        None => o,
        Some(a) => a.spec_join(o),
    }
}

/// Effect of a meet composition of arms with the given effects: any denial
/// denies, else the meet of the outcomes permits.
pub open spec fn all_fold<O: Lattice>(acc: Option<O>, es: Seq<Effect<O>>) -> Effect<O>
    decreases es.len(),
{
    if es.len() == 0 {
        match acc {
            None => Effect::Deny,
            Some(a) => Effect::Permit(a),
        }
    } else {
        match es[0] {
            Effect::Deny => Effect::Deny,
            Effect::Permit(o) => all_fold(Some(meet_acc(acc, o)), es.drop_first()),
        }
    }
}

/// Effect of a join composition of arms with the given effects: the join of
/// the permitting outcomes permits, else it denies.
pub open spec fn any_fold<O: Lattice>(acc: Option<O>, es: Seq<Effect<O>>) -> Effect<O>
    decreases es.len(),
{
    if es.len() == 0 {
        match acc {
            None => Effect::Deny,
            Some(a) => Effect::Permit(a),
        }
    } else {
        match es[0] {
            Effect::Deny => any_fold(acc, es.drop_first()),
            Effect::Permit(o) => any_fold(Some(join_acc(acc, o)), es.drop_first()),
        }
    }
}

/// Effects of the policies `ps[i..]`.
pub open spec fn effects_from<O: Lattice>(ps: Seq<PolicyNode<O>>, i: int, m: Map<Seq<char>, Presence>) -> Seq<Effect<O>> {
    Seq::new((ps.len() - i) as nat, |k: int| node_eval(ps[i + k], m).effect)
}

spec fn all_outcome<O>(st: AllState<O>) -> Option<O> {
    match st {
        None => None,
        Some((o, _, _)) => Some(o),
    }
}

spec fn any_outcome<O>(w: AnyWin<O>) -> Option<O> {
    match w {
        None => None,
        Some((o, _)) => Some(o),
    }
}

proof fn lemma_all_from_effect<O: Lattice>(ps: Seq<PolicyNode<O>>, i: int, m: Map<Seq<char>, Presence>, st: AllState<O>)
    requires
        0 <= i <= ps.len(),
    ensures
        all_from(ps, i, m, st).effect == all_fold(all_outcome(st), effects_from(ps, i, m)),
    decreases ps.len() - i,
{
    let es = effects_from(ps, i, m);
    if i < ps.len() {
        let a = node_eval(ps[i], m);
        assert(es[0] == a.effect);
        if let Effect::Permit(o) = a.effect {
            let st2 = all_step(st, o, a.obligations, a.decisive);
            lemma_all_from_effect(ps, i + 1, m, st2);
            assert(es.drop_first() =~= effects_from(ps, i + 1, m));
            assert(all_outcome(st2) == Some(meet_acc(all_outcome(st), o)));
        }
    }
}

proof fn lemma_any_from_effect<O: Lattice>(
    ps: Seq<PolicyNode<O>>,
    i: int,
    m: Map<Seq<char>, Presence>,
    win: AnyWin<O>,
    wobs: Seq<Seq<char>>,
    fd: Option<DecisiveView<O>>,
)
    requires
        0 <= i <= ps.len(),
    ensures
        any_from(ps, i, m, win, wobs, fd).effect == any_fold(any_outcome(win), effects_from(ps, i, m)),
    decreases ps.len() - i,
{
    let es = effects_from(ps, i, m);
    if i < ps.len() {
        let a = node_eval(ps[i], m);
        assert(es[0] == a.effect);
        assert(es.drop_first() =~= effects_from(ps, i + 1, m));
        match a.effect {
            Effect::Deny => {
                let fd2 = if fd is None { Some(a.decisive) } else { fd };
                lemma_any_from_effect(ps, i + 1, m, win, wobs, fd2);
            },
            Effect::Permit(o) => {
                let (w2, obs2) = any_step(win, wobs, o, a.obligations, a.decisive);
                lemma_any_from_effect(ps, i + 1, m, w2, obs2, fd);
                assert(any_outcome(w2) == Some(join_acc(any_outcome(win), o)));
            },
        }
    }
}

proof fn lemma_all_fold_deny<O: Lattice>(acc: Option<O>, es: Seq<Effect<O>>, k: int)
    requires
        0 <= k < es.len(),
        es[k] is Deny,
    ensures
        all_fold(acc, es) is Deny,
    decreases es.len(),
{
    if k > 0 {
        if let Effect::Permit(o) = es[0] {
            lemma_all_fold_deny(Some(meet_acc(acc, o)), es.drop_first(), k - 1);
        }
    }
}

proof fn lemma_all_fold_swap<O: Lattice>(acc: Option<O>, p: Seq<Effect<O>>, x: Effect<O>, y: Effect<O>, s: Seq<Effect<O>>)
    requires
        lawful::<O>(),
    ensures
        all_fold(acc, p + seq![x, y] + s) == all_fold(acc, p + seq![y, x] + s),
    decreases p.len(),
{
    let l = p + seq![x, y] + s;
    let r = p + seq![y, x] + s;
    if p.len() > 0 {
        assert(l[0] == p[0] && r[0] == p[0]);
        assert(l.drop_first() =~= p.drop_first() + seq![x, y] + s);
        assert(r.drop_first() =~= p.drop_first() + seq![y, x] + s);
        if let Effect::Permit(o) = p[0] {
            lemma_all_fold_swap(Some(meet_acc(acc, o)), p.drop_first(), x, y, s);
        }
    } else {
        assert(l =~= seq![x, y] + s);
        assert(r =~= seq![y, x] + s);
        assert(l.drop_first() =~= seq![y] + s);
        assert(r.drop_first() =~= seq![x] + s);
        assert((seq![y] + s).drop_first() =~= s);
        assert((seq![x] + s).drop_first() =~= s);
        reveal_with_fuel(all_fold, 3);
        if let (Effect::Permit(a), Effect::Permit(b)) = (x, y) {
            match acc {
                None => {
                    assert(a.spec_meet(b) == b.spec_meet(a));
                },
                Some(c) => {
                    assert(c.spec_meet(a).spec_meet(b) == c.spec_meet(a.spec_meet(b)));
                    assert(c.spec_meet(b).spec_meet(a) == c.spec_meet(b.spec_meet(a)));
                    assert(a.spec_meet(b) == b.spec_meet(a));
                },
            }
        }
    }
}

proof fn lemma_all_fold_move<O: Lattice>(acc: Option<O>, p: Seq<Effect<O>>, b: Seq<Effect<O>>, x: Effect<O>, s: Seq<Effect<O>>)
    requires
        lawful::<O>(),
    ensures
        all_fold(acc, p + b + seq![x] + s) == all_fold(acc, p + seq![x] + b + s),
    decreases b.len(),
{
    if b.len() == 0 {
        assert(p + b + seq![x] + s =~= p + seq![x] + b + s);
    } else {
        let b2 = b.drop_last();
        let z = b.last();
        lemma_all_fold_swap(acc, p + b2, z, x, s);
        assert(p + b + seq![x] + s =~= (p + b2) + seq![z, x] + s);
        assert((p + b2) + seq![x, z] + s =~= p + b2 + seq![x] + (seq![z] + s));
        lemma_all_fold_move(acc, p, b2, x, seq![z] + s);
        assert(p + seq![x] + b2 + (seq![z] + s) =~= p + seq![x] + b + s);
    }
}

proof fn lemma_any_fold_swap<O: Lattice>(acc: Option<O>, p: Seq<Effect<O>>, x: Effect<O>, y: Effect<O>, s: Seq<Effect<O>>)
    requires
        lawful::<O>(),
    ensures
        any_fold(acc, p + seq![x, y] + s) == any_fold(acc, p + seq![y, x] + s),
    decreases p.len(),
{
    let l = p + seq![x, y] + s;
    let r = p + seq![y, x] + s;
    if p.len() > 0 {
        assert(l[0] == p[0] && r[0] == p[0]);
        assert(l.drop_first() =~= p.drop_first() + seq![x, y] + s);
        assert(r.drop_first() =~= p.drop_first() + seq![y, x] + s);
        match p[0] {
            Effect::Permit(o) => lemma_any_fold_swap(Some(join_acc(acc, o)), p.drop_first(), x, y, s),
            Effect::Deny => lemma_any_fold_swap(acc, p.drop_first(), x, y, s),
        }
    } else {
        assert(l =~= seq![x, y] + s);
        assert(r =~= seq![y, x] + s);
        assert(l.drop_first() =~= seq![y] + s);
        assert(r.drop_first() =~= seq![x] + s);
        assert((seq![y] + s).drop_first() =~= s);
        assert((seq![x] + s).drop_first() =~= s);
        reveal_with_fuel(any_fold, 3);
        if let (Effect::Permit(a), Effect::Permit(b)) = (x, y) {
            match acc {
                None => {
                    assert(a.spec_join(b) == b.spec_join(a));
                },
                Some(c) => {
                    assert(c.spec_join(a).spec_join(b) == c.spec_join(a.spec_join(b)));
                    assert(c.spec_join(b).spec_join(a) == c.spec_join(b.spec_join(a)));
                    assert(a.spec_join(b) == b.spec_join(a));
                },
            }
        }
    }
}

proof fn lemma_any_fold_move<O: Lattice>(acc: Option<O>, p: Seq<Effect<O>>, b: Seq<Effect<O>>, x: Effect<O>, s: Seq<Effect<O>>)
    requires
        lawful::<O>(),
    ensures
        any_fold(acc, p + b + seq![x] + s) == any_fold(acc, p + seq![x] + b + s),
    decreases b.len(),
{
    if b.len() == 0 {
        assert(p + b + seq![x] + s =~= p + seq![x] + b + s);
    } else {
        let b2 = b.drop_last();
        let z = b.last();
        lemma_any_fold_swap(acc, p + b2, z, x, s);
        assert(p + b + seq![x] + s =~= (p + b2) + seq![z, x] + s);
        assert((p + b2) + seq![x, z] + s =~= p + b2 + seq![x] + (seq![z] + s));
        lemma_any_fold_move(acc, p, b2, x, seq![z] + s);
        assert(p + seq![x] + b2 + (seq![z] + s) =~= p + seq![x] + b + s);
    }
}

proof fn lemma_any_fold_drop_deny<O: Lattice>(acc: Option<O>, p: Seq<Effect<O>>, s: Seq<Effect<O>>)
    ensures
        any_fold(acc, p + seq![Effect::Deny] + s) == any_fold(acc, p + s),
    decreases p.len(),
{
    let l = p + seq![Effect::Deny] + s;
    if p.len() > 0 {
        assert(l[0] == p[0] && (p + s)[0] == p[0]);
        assert(l.drop_first() =~= p.drop_first() + seq![Effect::Deny] + s);
        assert((p + s).drop_first() =~= p.drop_first() + s);
        match p[0] {
            Effect::Permit(o) => lemma_any_fold_drop_deny(Some(join_acc(acc, o)), p.drop_first(), s),
            Effect::Deny => lemma_any_fold_drop_deny(acc, p.drop_first(), s),
        }
    } else {
        assert(l.drop_first() =~= s);
        assert(p + s =~= s);
    }
}


// ---------------------------------------------------------------------------
// Partial evaluation preserves effects

/// Effects of a list of policies.
pub open spec fn effects_of<O: Lattice>(ps: Seq<PolicyNode<O>>, m: Map<Seq<char>, Presence>) -> Seq<Effect<O>> {
    Seq::new(ps.len(), |k: int| node_eval(ps[k], m).effect)
}

/// A policy whose effect does not depend on facts.
pub open spec fn is_constant<O>(p: PolicyNode<O>) -> bool {
    ||| p is Permit
    ||| p is Deny
    ||| p is PermitWithTrace
    ||| p is DenyWithTrace
}

/// Whether a reduction agrees with an effect under completing facts: a
/// resolved decision has the effect, a residual policy evaluates to it.
pub open spec fn residual_agrees<O: Lattice>(r: ResidualView<O>, e: Effect<O>, km: Map<Seq<char>, Presence>) -> bool {
    match r {
        ResidualView::Resolved(d) => d.effect == e,
        ResidualView::Pending(rp, _) => node_eval(rp, km).effect == e,
    }
}

proof fn lemma_residual_of_decision<O: Lattice>(d: DecisionView<O>, m: Map<Seq<char>, Presence>)
    ensures
        is_constant(residual_of_decision(d)),
        node_eval(residual_of_decision(d), m).effect == d.effect,
{
}

proof fn lemma_constant_effects<O: Lattice>(ps: Seq<PolicyNode<O>>, m1: Map<Seq<char>, Presence>, m2: Map<Seq<char>, Presence>)
    requires
        forall|k: int| 0 <= k < ps.len() ==> is_constant(#[trigger] ps[k]),
    ensures
        effects_of(ps, m1) == effects_of(ps, m2),
{
    assert forall|k: int| 0 <= k < ps.len() implies #[trigger] effects_of(ps, m1)[k] == effects_of(ps, m2)[k] by {
        assert(is_constant(ps[k]));
    }
    assert(effects_of(ps, m1) =~= effects_of(ps, m2));
}

/// Reducing a policy against partial facts preserves its effect under any
/// completion of them.
pub proof fn lemma_reduce_node_sound<O: Lattice>(p: PolicyNode<O>, pm: Map<Seq<char>, Presence>, km: Map<Seq<char>, Presence>)
    requires
        lawful::<O>(),
        completes(pm, km),
    ensures
        residual_agrees(reduce_node(p, pm), node_eval(p, km).effect, km),
    decreases p, 0nat,
{
    lemma_known_part_completes(pm);
    match p {
        PolicyNode::Grant { outcome, condition, label, deny_shape, obligations, reason } => {
            lemma_reduce_cond_sound(condition, pm, km);
            lemma_reduce_cond_sound(condition, pm, known_part(pm));
        },
        PolicyNode::All(ps) => {
            if ps.len() > 0 {
                lemma_reduce_all_sound(ps, 0, pm, km, Seq::empty(), Seq::empty(), Seq::empty());
                lemma_all_from_effect(ps, 0, km, None);
                assert(effects_of(Seq::<PolicyNode<O>>::empty(), km) + effects_of(Seq::<PolicyNode<O>>::empty(), km)
                    + effects_from(ps, 0, km) =~= effects_from(ps, 0, km));
            }
        },
        PolicyNode::Any(ps) => {
            if ps.len() > 0 {
                lemma_reduce_any_sound(ps, 0, pm, km, Seq::empty(), Seq::empty(), Seq::empty(), None);
                lemma_any_from_effect(ps, 0, km, None, Seq::empty(), None);
                assert(effects_of(Seq::<PolicyNode<O>>::empty(), km) + effects_of(Seq::<PolicyNode<O>>::empty(), km)
                    + effects_from(ps, 0, km) =~= effects_from(ps, 0, km));
            }
        },
        PolicyNode::OrElse(primary, fallback) => {
            lemma_reduce_node_sound(*primary, pm, km);
            lemma_reduce_node_sound(*fallback, pm, km);
            match reduce_node(*primary, pm) {
                ResidualView::Resolved(d) => {},
                ResidualView::Pending(pr, c) => {
                    match reduce_node(*fallback, pm) {
                        ResidualView::Resolved(d) => {
                            lemma_residual_of_decision(d, km);
                        },
                        ResidualView::Pending(fr, fc) => {},
                    }
                },
            }
        },
        _ => {},
    }
}

proof fn lemma_reduce_all_sound<O: Lattice>(
    ps: Seq<PolicyNode<O>>,
    i: int,
    pm: Map<Seq<char>, Presence>,
    km: Map<Seq<char>, Presence>,
    consulted: Seq<(Seq<char>, Presence)>,
    permits: Seq<PolicyNode<O>>,
    pending: Seq<PolicyNode<O>>,
)
    requires
        lawful::<O>(),
        completes(pm, km),
        0 <= i <= ps.len(),
        permits.len() + pending.len() + ps.len() - i > 0,
        forall|k: int| 0 <= k < permits.len() ==> is_constant(#[trigger] permits[k]),
    ensures
        residual_agrees(
            reduce_all_from(ps, i, pm, consulted, permits, pending),
            all_fold(None, effects_of(permits, km) + effects_of(pending, km) + effects_from(ps, i, km)),
            km,
        ),
    decreases ps, ps.len() - i,
{
    let ep = effects_of(permits, km);
    let eq = effects_of(pending, km);
    let rest = effects_from(ps, i, km);
    if i < ps.len() {
        lemma_reduce_node_sound(ps[i], pm, km);
        let e = node_eval(ps[i], km).effect;
        let rest2 = effects_from(ps, i + 1, km);
        assert(rest =~= seq![e] + rest2);
        match reduce_node(ps[i], pm) {
            ResidualView::Resolved(d) => {
                let c = record_all(consulted, d.consulted);
                if d.effect is Deny {
                    lemma_all_fold_deny(None, ep + eq + rest, (ep.len() + eq.len()) as int);
                } else {
                    let r = residual_of_decision(d);
                    lemma_residual_of_decision(d, km);
                    let p2 = permits.push(r);
                    assert forall|k: int| 0 <= k < p2.len() implies is_constant(#[trigger] p2[k]) by {
                        if k < permits.len() {
                            assert(p2[k] == permits[k]);
                        }
                    }
                    lemma_reduce_all_sound(ps, i + 1, pm, km, c, p2, pending);
                    assert(effects_of(p2, km) =~= ep + seq![e]);
                    lemma_all_fold_move(None, ep, eq, e, rest2);
                    assert(ep + seq![e] + eq + rest2 =~= effects_of(p2, km) + eq + rest2);
                    assert(ep + eq + seq![e] + rest2 =~= ep + eq + rest);
                }
            },
            ResidualView::Pending(r, c) => {
                let q2 = pending.push(r);
                lemma_reduce_all_sound(ps, i + 1, pm, km, record_all(consulted, c), permits, q2);
                assert(effects_of(q2, km) =~= eq + seq![e]);
                assert(ep + effects_of(q2, km) + rest2 =~= ep + eq + rest);
            },
        }
    } else {
        assert(rest =~= Seq::<Effect<O>>::empty());
        if pending.len() == 0 {
            lemma_all_from_effect(permits, 0, known_part(pm), None);
            lemma_constant_effects(permits, known_part(pm), km);
            assert(effects_from(permits, 0, known_part(pm)) =~= effects_of(permits, known_part(pm)));
            assert(ep + eq + rest =~= ep);
        } else {
            let both = permits + pending;
            lemma_all_from_effect(both, 0, km, None);
            assert(effects_from(both, 0, km) =~= ep + eq + rest);
        }
    }
}

proof fn lemma_reduce_any_sound<O: Lattice>(
    ps: Seq<PolicyNode<O>>,
    i: int,
    pm: Map<Seq<char>, Presence>,
    km: Map<Seq<char>, Presence>,
    consulted: Seq<(Seq<char>, Presence)>,
    permits: Seq<PolicyNode<O>>,
    pending: Seq<PolicyNode<O>>,
    first_deny: Option<DecisionView<O>>,
)
    requires
        lawful::<O>(),
        completes(pm, km),
        0 <= i <= ps.len(),
        forall|k: int| 0 <= k < permits.len() ==> is_constant(#[trigger] permits[k]),
        first_deny matches Some(d) ==> d.effect is Deny,
    ensures
        residual_agrees(
            reduce_any_from(ps, i, pm, consulted, permits, pending, first_deny),
            any_fold(None, effects_of(permits, km) + effects_of(pending, km) + effects_from(ps, i, km)),
            km,
        ),
    decreases ps, ps.len() - i,
{
    let ep = effects_of(permits, km);
    let eq = effects_of(pending, km);
    let rest = effects_from(ps, i, km);
    if i < ps.len() {
        lemma_reduce_node_sound(ps[i], pm, km);
        let e = node_eval(ps[i], km).effect;
        let rest2 = effects_from(ps, i + 1, km);
        assert(rest =~= seq![e] + rest2);
        match reduce_node(ps[i], pm) {
            ResidualView::Resolved(d) => {
                let c = record_all(consulted, d.consulted);
                if d.effect is Permit {
                    let r = residual_of_decision(d);
                    lemma_residual_of_decision(d, km);
                    let p2 = permits.push(r);
                    assert forall|k: int| 0 <= k < p2.len() implies is_constant(#[trigger] p2[k]) by {
                        if k < permits.len() {
                            assert(p2[k] == permits[k]);
                        }
                    }
                    lemma_reduce_any_sound(ps, i + 1, pm, km, c, p2, pending, first_deny);
                    assert(effects_of(p2, km) =~= ep + seq![e]);
                    lemma_any_fold_move(None, ep, eq, e, rest2);
                    assert(ep + seq![e] + eq + rest2 =~= effects_of(p2, km) + eq + rest2);
                    assert(ep + eq + seq![e] + rest2 =~= ep + eq + rest);
                } else {
                    let fd2 = if first_deny is None { Some(d) } else { first_deny };
                    lemma_reduce_any_sound(ps, i + 1, pm, km, c, permits, pending, fd2);
                    lemma_any_fold_drop_deny(None, ep + eq, rest2);
                    assert(ep + eq + seq![Effect::Deny] + rest2 =~= ep + eq + rest);
                }
            },
            ResidualView::Pending(r, c) => {
                let q2 = pending.push(r);
                lemma_reduce_any_sound(ps, i + 1, pm, km, record_all(consulted, c), permits, q2, first_deny);
                assert(effects_of(q2, km) =~= eq + seq![e]);
                assert(ep + effects_of(q2, km) + rest2 =~= ep + eq + rest);
            },
        }
    } else {
        assert(rest =~= Seq::<Effect<O>>::empty());
        if pending.len() == 0 {
            if !(permits.len() == 0 && first_deny is Some) && permits.len() > 0 {
                lemma_any_from_effect(permits, 0, known_part(pm), None, Seq::empty(), None);
                lemma_constant_effects(permits, known_part(pm), km);
                assert(effects_from(permits, 0, known_part(pm)) =~= effects_of(permits, known_part(pm)));
            }
            assert(ep + eq + rest =~= ep);
        } else if permits.len() == 0 && first_deny is Some {
            let d = first_deny->Some_0;
            let both = seq![residual_of_decision(d)] + pending;
            lemma_residual_of_decision(d, km);
            lemma_any_from_effect(both, 0, km, None, Seq::empty(), None);
            assert(effects_from(both, 0, km) =~= seq![Effect::Deny] + eq);
            lemma_any_fold_drop_deny(None, Seq::empty(), eq);
            assert(Seq::<Effect<O>>::empty() + seq![Effect::Deny] + eq =~= seq![Effect::Deny] + eq);
            assert(Seq::<Effect<O>>::empty() + eq =~= ep + eq + rest);
        } else {
            let both = permits + pending;
            lemma_any_from_effect(both, 0, km, None, Seq::empty(), None);
            assert(effects_from(both, 0, km) =~= ep + eq + rest);
        }
    }
}

/// Partially evaluating a policy and completing the residual with known facts
/// that keep every present or absent partial fact gives the effect that
/// evaluating the policy with those known facts gives, whenever meet and join
/// are commutative and associative.
pub proof fn law_partial_evaluation_preserves_effect<O: Lattice>(
    policy: Policy<O>,
    partial: PartialFacts,
    known: KnownFacts,
)
    requires
        lawful::<O>(),
        fully_known(known@),
        completes(partial@, known@),
    ensures
        complete_view(reduce_node(policy@, partial@), known@).effect == node_eval(policy@, known@).effect,
{
    lemma_reduce_node_sound(policy@, partial@, known@);
}

} // verus!

verus! {

/// Two fact maps give every fact of `s` the same presence.
pub open spec fn agree_on(m1: Map<Seq<char>, Presence>, m2: Map<Seq<char>, Presence>, s: Set<Seq<char>>) -> bool {
    forall|f: Seq<char>| s.contains(f) ==> presence_in(m1, f) == presence_in(m2, f)
}

/// A condition's evaluation depends only on the facts it names.
pub proof fn lemma_cond_local(c: ConditionView, m1: Map<Seq<char>, Presence>, m2: Map<Seq<char>, Presence>)
    requires
        agree_on(m1, m2, cond_facts(c)),
    ensures
        cond_eval(c, m1) == cond_eval(c, m2),
    decreases c, 0nat,
{
    match c {
        ConditionView::Has(f) => {
            assert(cond_facts(c).contains(f));
        },
        ConditionView::Not(inner) => {
            lemma_cond_local(*inner, m1, m2);
        },
        ConditionView::All(cs) => {
            if cs.len() > 0 {
                lemma_cond_all_local(cs, 0, m1, m2);
            }
        },
        ConditionView::Any(cs) => {
            if cs.len() > 0 {
                lemma_cond_any_local(cs, 0, m1, m2);
            }
        },
        _ => {},
    }
}

proof fn lemma_cond_all_local(cs: Seq<ConditionView>, i: int, m1: Map<Seq<char>, Presence>, m2: Map<Seq<char>, Presence>)
    requires
        agree_on(m1, m2, conds_facts_from(cs, i)),
    ensures
        cond_all_from(cs, i, m1) == cond_all_from(cs, i, m2),
    decreases cs, cs.len() - i,
{
    if 0 <= i < cs.len() {
        lemma_cond_local(cs[i], m1, m2);
        lemma_cond_all_local(cs, i + 1, m1, m2);
    }
}

proof fn lemma_cond_any_local(cs: Seq<ConditionView>, i: int, m1: Map<Seq<char>, Presence>, m2: Map<Seq<char>, Presence>)
    requires
        agree_on(m1, m2, conds_facts_from(cs, i)),
    ensures
        cond_any_from(cs, i, m1) == cond_any_from(cs, i, m2),
    decreases cs, cs.len() - i,
{
    if 0 <= i < cs.len() {
        lemma_cond_local(cs[i], m1, m2);
        lemma_cond_any_local(cs, i + 1, m1, m2);
    }
}

/// A policy's evaluation depends only on the facts its conditions name.
pub proof fn lemma_node_local<O: Lattice>(p: PolicyNode<O>, m1: Map<Seq<char>, Presence>, m2: Map<Seq<char>, Presence>)
    requires
        agree_on(m1, m2, node_facts(p)),
    ensures
        node_eval(p, m1) == node_eval(p, m2),
    decreases p, 0nat,
{
    match p {
        PolicyNode::Grant { condition, .. } => {
            lemma_cond_local(condition, m1, m2);
        },
        PolicyNode::All(ps) => {
            if ps.len() > 0 {
                lemma_all_local(ps, 0, m1, m2, None);
            }
        },
        PolicyNode::Any(ps) => {
            if ps.len() > 0 {
                lemma_any_local(ps, 0, m1, m2, None, Seq::empty(), None);
            }
        },
        PolicyNode::OrElse(primary, fallback) => {
            lemma_node_local(*primary, m1, m2);
            lemma_node_local(*fallback, m1, m2);
        },
        _ => {},
    }
}

proof fn lemma_all_local<O: Lattice>(
    ps: Seq<PolicyNode<O>>,
    i: int,
    m1: Map<Seq<char>, Presence>,
    m2: Map<Seq<char>, Presence>,
    st: AllState<O>,
)
    requires
        agree_on(m1, m2, nodes_facts_from(ps, i)),
    ensures
        all_from(ps, i, m1, st) == all_from(ps, i, m2, st),
    decreases ps, ps.len() - i,
{
    if 0 <= i < ps.len() {
        lemma_node_local(ps[i], m1, m2);
        let a = node_eval(ps[i], m1);
        if let Effect::Permit(o) = a.effect {
            lemma_all_local(ps, i + 1, m1, m2, all_step(st, o, a.obligations, a.decisive));
        }
    }
}

proof fn lemma_any_local<O: Lattice>(
    ps: Seq<PolicyNode<O>>,
    i: int,
    m1: Map<Seq<char>, Presence>,
    m2: Map<Seq<char>, Presence>,
    win: AnyWin<O>,
    wobs: Seq<Seq<char>>,
    first_deny: Option<DecisiveView<O>>,
)
    requires
        agree_on(m1, m2, nodes_facts_from(ps, i)),
    ensures
        any_from(ps, i, m1, win, wobs, first_deny) == any_from(ps, i, m2, win, wobs, first_deny),
    decreases ps, ps.len() - i,
{
    if 0 <= i < ps.len() {
        lemma_node_local(ps[i], m1, m2);
        let a = node_eval(ps[i], m1);
        match a.effect {
            Effect::Deny => {
                lemma_any_local(
                    ps,
                    i + 1,
                    m1,
                    m2,
                    win,
                    wobs,
                    if first_deny is None {
                        Some(a.decisive)
                    } else {
                        first_deny
                    },
                );
            },
            Effect::Permit(o) => {
                let (w2, obs2) = any_step(win, wobs, o, a.obligations, a.decisive);
                lemma_any_local(ps, i + 1, m1, m2, w2, obs2, first_deny);
            },
        }
    }
}

/// A fact that retained observations record takes the presence of one of
/// them.
proof fn lemma_observed_entry(es: Seq<(Seq<char>, Presence)>, k: Seq<char>)
    requires
        inserted_all(Map::empty(), es).contains_key(k),
    ensures
        exists|j: int| 0 <= j < es.len() && es[j].0 == k && es[j].1 == inserted_all(Map::empty(), es)[k],
    decreases es.len(),
{
    if es.len() > 0 {
        if es.last().0 == k {
            assert(es[es.len() - 1].0 == k);
        } else {
            lemma_observed_entry(es.drop_last(), k);
            let j = choose|j: int| 0 <= j < es.drop_last().len() && es.drop_last()[j].0 == k && es.drop_last()[j].1
                == inserted_all(Map::empty(), es.drop_last())[k];
            assert(es[j] == es.drop_last()[j]);
        }
    }
}

/// Replaying a decision from retained observations reproduces the decision
/// made from the resolved facts, provided the observations agree with those
/// facts and observe every fact the policy names.
pub proof fn law_replay_reproduces_decision<O: Lattice>(
    policy: Policy<O>,
    facts: KnownFacts,
    observations: Seq<FactObservation>,
)
    requires
        agrees(observations, facts@),
        node_facts(policy@).subset_of(observed_map(observations).dom()),
    ensures
        decision_of(node_eval(policy@, observed_map(observations))) == decision_of(node_eval(policy@, facts@)),
{
    let m = observed_map(observations);
    let es = Seq::new(
        observations.len(),
        |i: int| (observations[i].fact_of()@, observed_presence(observations[i].value_of())),
    );
    assert forall|f: Seq<char>| node_facts(policy@).contains(f) implies presence_in(m, f) == presence_in(facts@, f) by {
        lemma_observed_entry(es, f);
        let j = choose|j: int| 0 <= j < es.len() && es[j].0 == f && es[j].1 == inserted_all(Map::empty(), es)[f];
        assert(recorded(facts@, observations[j].fact_of()@) == Some(observed_presence(observations[j].value_of())));
    }
    lemma_node_local(policy@, m, facts@);
}

} // verus!

verus! {

/// An occurrence accepted by its constructor passes revalidation, and
/// normalizing it again changes nothing.
pub proof fn law_occurrence_revalidates(id: DecisionAuditId, t: Timestamp)
    requires
        occurrence_check(id@, t) is Ok,
    ensures
        occurrence_validation(id, occurrence_check(id@, t)->Ok_0) == Ok::<(), DecisionAuditOccurrenceError>(()),
        occurrence_check(id@, occurrence_check(id@, t)->Ok_0) == occurrence_check(id@, t),
{
    let n = t.nanosecond as int;
    assert((n - n % 1000) % 1000 == 0) by (nonlinear_arith)
        requires
            0 <= n,
    ;
}

/// A context constructed at `now` passes the recheck at `now`.
pub proof fn law_context_valid_when_built(
    c: Context,
    tenant: TenantId,
    binding: TenantBinding,
    principal: SubjectRef,
    locale: Locale,
    now: Timestamp,
)
    requires
        c.fresh(tenant, binding, principal, locale),
        Context::mismatch(tenant, binding) is None,
        binding.check_at(now) is Ok,
    ensures
        c.check_at(now) is Ok,
{
}

/// Reading a fact back from known facts gives what was last written for it,
/// and writing one fact leaves the others as they were.
pub proof fn law_known_fact_read_after_write(facts: KnownFacts, fact: FactId, presence: Presence, other: FactId)
    ensures
        presence_in(facts@.insert(fact@, presence), fact@) == presence,
        other@ != fact@ ==> presence_in(facts@.insert(fact@, presence), other@) == presence_in(facts@, other@),
{
}

} // verus!

verus! {

/// Every read gives the presence that `m` gives its fact, and reads only
/// facts of `s`.
pub open spec fn reads_ok(rs: Seq<Read>, m: Map<Seq<char>, Presence>, s: Set<Seq<char>>) -> bool {
    forall|k: int| 0 <= k < rs.len() ==> #[trigger] rs[k].1 == presence_in(m, rs[k].0) && s.contains(rs[k].0)
}

proof fn lemma_reads_concat(a: Seq<Read>, b: Seq<Read>, m: Map<Seq<char>, Presence>, s: Set<Seq<char>>)
    requires
        reads_ok(a, m, s),
        reads_ok(b, m, s),
    ensures
        reads_ok(a + b, m, s),
{
    assert forall|k: int| 0 <= k < (a + b).len() implies #[trigger] (a + b)[k].1 == presence_in(m, (a + b)[k].0) && s.contains(
        (a + b)[k].0,
    ) by {
        if k < a.len() {
            assert((a + b)[k] == a[k]);
        } else {
            assert((a + b)[k] == b[k - a.len()]);
        }
    }
}

proof fn lemma_reads_widen(a: Seq<Read>, m: Map<Seq<char>, Presence>, s: Set<Seq<char>>, t: Set<Seq<char>>)
    requires
        reads_ok(a, m, s),
        s.subset_of(t),
    ensures
        reads_ok(a, m, t),
{
}

proof fn lemma_cond_reads(c: ConditionView, m: Map<Seq<char>, Presence>)
    ensures
        reads_ok(cond_eval(c, m).reads, m, cond_facts(c)),
    decreases c, 0nat,
{
    match c {
        ConditionView::Has(f) => {
            assert(cond_facts(c).contains(f));
        },
        ConditionView::Not(inner) => {
            lemma_cond_reads(*inner, m);
        },
        ConditionView::All(cs) => {
            if cs.len() > 0 {
                lemma_cond_all_reads(cs, 0, m);
            }
        },
        ConditionView::Any(cs) => {
            if cs.len() > 0 {
                lemma_cond_any_reads(cs, 0, m);
            }
        },
        _ => {},
    }
}

proof fn lemma_cond_all_reads(cs: Seq<ConditionView>, i: int, m: Map<Seq<char>, Presence>)
    ensures
        reads_ok(cond_all_from(cs, i, m).reads, m, conds_facts_from(cs, i)),
    decreases cs, cs.len() - i,
{
    if 0 <= i < cs.len() {
        lemma_cond_reads(cs[i], m);
        lemma_cond_all_reads(cs, i + 1, m);
        let s = conds_facts_from(cs, i);
        lemma_reads_widen(cond_eval(cs[i], m).reads, m, cond_facts(cs[i]), s);
        lemma_reads_widen(cond_all_from(cs, i + 1, m).reads, m, conds_facts_from(cs, i + 1), s);
        lemma_reads_concat(cond_eval(cs[i], m).reads, cond_all_from(cs, i + 1, m).reads, m, s);
    }
}

proof fn lemma_cond_any_reads(cs: Seq<ConditionView>, i: int, m: Map<Seq<char>, Presence>)
    ensures
        reads_ok(cond_any_from(cs, i, m).reads, m, conds_facts_from(cs, i)),
    decreases cs, cs.len() - i,
{
    if 0 <= i < cs.len() {
        lemma_cond_reads(cs[i], m);
        lemma_cond_any_reads(cs, i + 1, m);
        let s = conds_facts_from(cs, i);
        lemma_reads_widen(cond_eval(cs[i], m).reads, m, cond_facts(cs[i]), s);
        lemma_reads_widen(cond_any_from(cs, i + 1, m).reads, m, conds_facts_from(cs, i + 1), s);
        lemma_reads_concat(cond_eval(cs[i], m).reads, cond_any_from(cs, i + 1, m).reads, m, s);
    }
}

proof fn lemma_node_reads<O: Lattice>(p: PolicyNode<O>, m: Map<Seq<char>, Presence>)
    ensures
        reads_ok(node_eval(p, m).reads, m, node_facts(p)),
    decreases p, 0nat,
{
    match p {
        PolicyNode::Grant { condition, .. } => {
            lemma_cond_reads(condition, m);
        },
        PolicyNode::All(ps) => {
            if ps.len() > 0 {
                lemma_all_reads(ps, 0, m, None);
            }
        },
        PolicyNode::Any(ps) => {
            if ps.len() > 0 {
                lemma_any_reads(ps, 0, m, None, Seq::empty(), None);
            }
        },
        PolicyNode::OrElse(primary, fallback) => {
            lemma_node_reads(*primary, m);
            lemma_node_reads(*fallback, m);
            let s = node_facts(p);
            lemma_reads_widen(node_eval(*primary, m).reads, m, node_facts(*primary), s);
            lemma_reads_widen(node_eval(*fallback, m).reads, m, node_facts(*fallback), s);
            lemma_reads_concat(node_eval(*primary, m).reads, node_eval(*fallback, m).reads, m, s);
        },
        _ => {},
    }
}

proof fn lemma_all_reads<O: Lattice>(ps: Seq<PolicyNode<O>>, i: int, m: Map<Seq<char>, Presence>, st: AllState<O>)
    ensures
        reads_ok(all_from(ps, i, m, st).reads, m, nodes_facts_from(ps, i)),
    decreases ps, ps.len() - i,
{
    if 0 <= i < ps.len() {
        let a = node_eval(ps[i], m);
        let s = nodes_facts_from(ps, i);
        lemma_node_reads(ps[i], m);
        lemma_reads_widen(a.reads, m, node_facts(ps[i]), s);
        if let Effect::Permit(o) = a.effect {
            let st2 = all_step(st, o, a.obligations, a.decisive);
            lemma_all_reads(ps, i + 1, m, st2);
            lemma_reads_widen(all_from(ps, i + 1, m, st2).reads, m, nodes_facts_from(ps, i + 1), s);
            lemma_reads_concat(a.reads, all_from(ps, i + 1, m, st2).reads, m, s);
        }
    }
}

proof fn lemma_any_reads<O: Lattice>(
    ps: Seq<PolicyNode<O>>,
    i: int,
    m: Map<Seq<char>, Presence>,
    win: AnyWin<O>,
    wobs: Seq<Seq<char>>,
    first_deny: Option<DecisiveView<O>>,
)
    ensures
        reads_ok(any_from(ps, i, m, win, wobs, first_deny).reads, m, nodes_facts_from(ps, i)),
    decreases ps, ps.len() - i,
{
    if 0 <= i < ps.len() {
        let a = node_eval(ps[i], m);
        let s = nodes_facts_from(ps, i);
        lemma_node_reads(ps[i], m);
        lemma_reads_widen(a.reads, m, node_facts(ps[i]), s);
        match a.effect {
            Effect::Deny => {
                let fd = if first_deny is None {
                    Some(a.decisive)
                } else {
                    first_deny
                };
                lemma_any_reads(ps, i + 1, m, win, wobs, fd);
                let rest = any_from(ps, i + 1, m, win, wobs, fd);
                lemma_reads_widen(rest.reads, m, nodes_facts_from(ps, i + 1), s);
                lemma_reads_concat(a.reads, rest.reads, m, s);
            },
            Effect::Permit(o) => {
                let (w2, obs2) = any_step(win, wobs, o, a.obligations, a.decisive);
                lemma_any_reads(ps, i + 1, m, w2, obs2, first_deny);
                let rest = any_from(ps, i + 1, m, w2, obs2, first_deny);
                lemma_reads_widen(rest.reads, m, nodes_facts_from(ps, i + 1), s);
                lemma_reads_concat(a.reads, rest.reads, m, s);
            },
        }
    }
}

proof fn lemma_record_all_reads(c: Seq<Read>, rs: Seq<Read>, m: Map<Seq<char>, Presence>, s: Set<Seq<char>>)
    requires
        reads_ok(c, m, s),
        reads_ok(rs, m, s),
    ensures
        reads_ok(record_all(c, rs), m, s),
        forall|a: int, b: int|
            0 <= a < b < record_all(c, rs).len() && (forall|x: int, y: int| 0 <= x < y < c.len() ==> c[x].0 != c[y].0)
                ==> record_all(c, rs)[a].0 != record_all(c, rs)[b].0,
    decreases rs.len(),
{
    if rs.len() > 0 {
        assert(reads_ok(rs.drop_last(), m, s)) by {
            assert forall|k: int| 0 <= k < rs.drop_last().len() implies #[trigger] rs.drop_last()[k].1 == presence_in(
                m,
                rs.drop_last()[k].0,
            ) && s.contains(rs.drop_last()[k].0) by {
                assert(rs.drop_last()[k] == rs[k]);
            }
        }
        lemma_record_all_reads(c, rs.drop_last(), m, s);
        let prev = record_all(c, rs.drop_last());
        assert(rs.last() == rs[rs.len() - 1]);
        if !(exists|k: int| 0 <= k < prev.len() && prev[k].0 == rs.last().0) {
            assert forall|k: int| 0 <= k < prev.push(rs.last()).len() implies #[trigger] prev.push(rs.last())[k].1
                == presence_in(m, prev.push(rs.last())[k].0) && s.contains(prev.push(rs.last())[k].0) by {
                if k < prev.len() {
                    assert(prev.push(rs.last())[k] == prev[k]);
                }
            }
        }
    }
}

/// Every fact a decision reports as consulted was read with the presence the
/// facts give it, is named by the policy, and is reported once.
pub proof fn law_consulted_facts_are_faithful<O: Lattice>(policy: Policy<O>, facts: KnownFacts)
    ensures
        forall|k: int|
            0 <= k < decision_of(node_eval(policy@, facts@)).consulted.len() ==> {
                let r = #[trigger] decision_of(node_eval(policy@, facts@)).consulted[k];
                r.1 == presence_in(facts@, r.0) && node_facts(policy@).contains(r.0)
            },
        forall|a: int, b: int|
            0 <= a < b < decision_of(node_eval(policy@, facts@)).consulted.len() ==> #[trigger] decision_of(
                node_eval(policy@, facts@),
            ).consulted[a].0 != #[trigger] decision_of(node_eval(policy@, facts@)).consulted[b].0,
{
    let e = node_eval(policy@, facts@);
    lemma_node_reads(policy@, facts@);
    lemma_record_all_reads(Seq::empty(), e.reads, facts@, node_facts(policy@));
}

} // verus!

verus! {

/// A meet composition denies when any arm denies and otherwise permits with
/// the meet of the arms' outcomes, taken in order.
pub proof fn law_all_is_meet_of_arms<O: Lattice>(arms: Seq<PolicyNode<O>>, facts: KnownFacts)
    requires
        arms.len() > 0,
    ensures
        node_eval(PolicyNode::All(arms), facts@).effect == all_fold(None, effects_of(arms, facts@)),
{
    lemma_all_from_effect(arms, 0, facts@, None);
    assert(effects_of(arms, facts@) =~= effects_from(arms, 0, facts@));
}

/// A join composition permits with the join of the permitting arms'
/// outcomes, taken in order, and denies when no arm permits.
pub proof fn law_any_is_join_of_arms<O: Lattice>(arms: Seq<PolicyNode<O>>, facts: KnownFacts)
    requires
        arms.len() > 0,
    ensures
        node_eval(PolicyNode::Any(arms), facts@).effect == any_fold(None, effects_of(arms, facts@)),
{
    lemma_any_from_effect(arms, 0, facts@, None, Seq::empty(), None);
    assert(effects_of(arms, facts@) =~= effects_from(arms, 0, facts@));
}

/// A fallback composition is decided by its primary when the primary
/// permits; otherwise by its fallback, after the primary's reads.
pub proof fn law_fallback_only_on_denial<O: Lattice>(primary: PolicyNode<O>, fallback: PolicyNode<O>, facts: KnownFacts)
    ensures
        node_eval(primary, facts@).effect is Permit ==> node_eval(
            PolicyNode::OrElse(Box::new(primary), Box::new(fallback)),
            facts@,
        ) == node_eval(primary, facts@),
        node_eval(primary, facts@).effect is Deny ==> {
            let e = node_eval(PolicyNode::OrElse(Box::new(primary), Box::new(fallback)), facts@);
            let f = node_eval(fallback, facts@);
            &&& e.effect == f.effect
            &&& e.obligations == f.obligations
            &&& e.decisive == f.decisive
            &&& e.reads == node_eval(primary, facts@).reads + f.reads
        },
{
}

} // verus!

verus! {

/// An evaluation whose effect agrees with its decisive clause and whose
/// denial carries no obligations.
pub open spec fn eval_consistent<O>(e: EvalView<O>) -> bool {
    &&& (e.effect is Permit) == (e.decisive is Permit)
    &&& e.effect is Deny ==> e.obligations.len() == 0
}

proof fn lemma_node_consistent<O: Lattice>(p: PolicyNode<O>, m: Map<Seq<char>, Presence>)
    ensures
        eval_consistent(node_eval(p, m)),
    decreases p, 0nat,
{
    match p {
        PolicyNode::All(ps) => {
            if ps.len() > 0 {
                lemma_all_consistent(ps, 0, m, None);
            }
        },
        PolicyNode::Any(ps) => {
            if ps.len() > 0 {
                lemma_any_consistent(ps, 0, m, None, Seq::empty(), None);
            }
        },
        PolicyNode::OrElse(primary, fallback) => {
            lemma_node_consistent(*primary, m);
            lemma_node_consistent(*fallback, m);
        },
        _ => {},
    }
}

proof fn lemma_all_consistent<O: Lattice>(ps: Seq<PolicyNode<O>>, i: int, m: Map<Seq<char>, Presence>, st: AllState<O>)
    requires
        st matches Some((o, obs, d)) ==> d is Permit,
    ensures
        eval_consistent(all_from(ps, i, m, st)),
    decreases ps, ps.len() - i,
{
    if 0 <= i < ps.len() {
        let a = node_eval(ps[i], m);
        lemma_node_consistent(ps[i], m);
        if let Effect::Permit(o) = a.effect {
            lemma_all_consistent(ps, i + 1, m, all_step(st, o, a.obligations, a.decisive));
        }
    }
}

proof fn lemma_any_consistent<O: Lattice>(
    ps: Seq<PolicyNode<O>>,
    i: int,
    m: Map<Seq<char>, Presence>,
    win: AnyWin<O>,
    wobs: Seq<Seq<char>>,
    first_deny: Option<DecisiveView<O>>,
)
    requires
        win matches Some((o, d)) ==> d is Permit,
        first_deny matches Some(d) ==> d is Deny,
    ensures
        eval_consistent(any_from(ps, i, m, win, wobs, first_deny)),
    decreases ps, ps.len() - i,
{
    if 0 <= i < ps.len() {
        let a = node_eval(ps[i], m);
        lemma_node_consistent(ps[i], m);
        match a.effect {
            Effect::Deny => {
                lemma_any_consistent(
                    ps,
                    i + 1,
                    m,
                    win,
                    wobs,
                    if first_deny is None {
                        Some(a.decisive)
                    } else {
                        first_deny
                    },
                );
            },
            Effect::Permit(o) => {
                let (w2, obs2) = any_step(win, wobs, o, a.obligations, a.decisive);
                lemma_any_consistent(ps, i + 1, m, w2, obs2, first_deny);
            },
        }
    }
}

/// An evaluated decision's effect agrees with its decisive clause, and a
/// denial carries no obligations; so the audit entry built from it passes
/// its consistency checks.
pub proof fn law_evaluated_decisions_are_consistent<O: Lattice>(policy: Policy<O>, facts: KnownFacts)
    ensures
        decision_consistent(decision_of(node_eval(policy@, facts@))),
{
    lemma_node_consistent(policy@, facts@);
}

} // verus!

verus! {

/// A fallible visitor gives one result for each node value.
pub open spec fn try_deterministic<'a, O: 'a, T, E, F: FnMut(ResidualPolicyNode<'a, O, T>) -> Result<T, E>>(
    f: F,
) -> bool {
    forall|n1: ResidualPolicyNode<'a, O, T>, n2: ResidualPolicyNode<'a, O, T>, r1: Result<T, E>, r2: Result<T, E>|
        #![trigger call_ensures(f, (n1,), r1), call_ensures(f, (n2,), r2)]
        n1.value() == n2.value() && call_ensures(f, (n1,), r1) && call_ensures(f, (n2,), r2) ==> r1 == r2
}

/// A visitor gives one result for each node value.
pub open spec fn deterministic<'a, O: 'a, T, F: FnMut(ResidualPolicyNode<'a, O, T>) -> T>(f: F) -> bool {
    forall|n1: ResidualPolicyNode<'a, O, T>, n2: ResidualPolicyNode<'a, O, T>, r1: T, r2: T|
        #![trigger call_ensures(f, (n1,), r1), call_ensures(f, (n2,), r2)]
        n1.value() == n2.value() && call_ensures(f, (n1,), r1) && call_ensures(f, (n2,), r2) ==> r1 == r2
}

/// A branch predicate that answers `true` for every fallback branch.
pub open spec fn always_descends<'a, O: 'a, D: FnMut(&ResidualPolicyBranch<'a, O>) -> bool>(d: D) -> bool {
    forall|b: ResidualPolicyBranch<'a, O>, go: bool| #[trigger] call_ensures(d, (&b,), go) ==> go
}

/// `g` is `f` with every result wrapped in `Ok`.
pub open spec fn lifts<'a, O: 'a, T, E, F: FnMut(ResidualPolicyNode<'a, O, T>) -> T, G: FnMut(
    ResidualPolicyNode<'a, O, T>,
) -> Result<T, E>>(f: F, g: G) -> bool {
    forall|n: ResidualPolicyNode<'a, O, T>, r: Result<T, E>|
        #[trigger] call_ensures(g, (n,), r) ==> r is Ok && call_ensures(f, (n,), r->Ok_0)
}

proof fn lemma_try_visits_unique<'a, O: 'a, T, E, F: FnMut(ResidualPolicyNode<'a, O, T>) -> Result<T, E>>(
    f: F,
    v: FoldNode<O, T>,
    r1: Result<T, E>,
    r2: Result<T, E>,
)
    requires
        try_deterministic(f),
        try_visits(f, v, r1),
        try_visits(f, v, r2),
    ensures
        r1 == r2,
{
    let n1 = choose|n: ResidualPolicyNode<'a, O, T>| n.value() == v && #[trigger] call_ensures(f, (n,), r1);
    let n2 = choose|n: ResidualPolicyNode<'a, O, T>| n.value() == v && #[trigger] call_ensures(f, (n,), r2);
    assert(call_ensures(f, (n1,), r1) && call_ensures(f, (n2,), r2));
}

proof fn lemma_visits_unique<'a, O: 'a, T, F: FnMut(ResidualPolicyNode<'a, O, T>) -> T>(
    f: F,
    v: FoldNode<O, T>,
    r1: T,
    r2: T,
)
    requires
        deterministic(f),
        visits(f, v, r1),
        visits(f, v, r2),
    ensures
        r1 == r2,
{
    let n1 = choose|n: ResidualPolicyNode<'a, O, T>| n.value() == v && #[trigger] call_ensures(f, (n,), r1);
    let n2 = choose|n: ResidualPolicyNode<'a, O, T>| n.value() == v && #[trigger] call_ensures(f, (n,), r2);
    assert(call_ensures(f, (n1,), r1) && call_ensures(f, (n2,), r2));
}

/// With a deterministic visitor, a fallible fold has one result.
pub proof fn lemma_tried_unique<'a, O: 'a, T, E, F: FnMut(ResidualPolicyNode<'a, O, T>) -> Result<T, E>>(
    p: ResidualPolicy<O>,
    f: F,
    r1: Result<T, E>,
    r2: Result<T, E>,
)
    requires
        try_deterministic(f),
        tried(p, f, r1),
        tried(p, f, r2),
    ensures
        r1 == r2,
    decreases p,
{
    match p {
        ResidualPolicy::All(ps) => {
            let rs1 = choose|rs: Seq<Result<T, E>>|
                #![trigger tried_arms(ps@, f, rs, r1, true)]
                rs.len() <= ps@.len() && (forall|j: int| 0 <= j < rs.len() ==> tried(ps@[j], f, #[trigger] rs[j]))
                    && tried_arms(ps@, f, rs, r1, true);
            let rs2 = choose|rs: Seq<Result<T, E>>|
                #![trigger tried_arms(ps@, f, rs, r2, true)]
                rs.len() <= ps@.len() && (forall|j: int| 0 <= j < rs.len() ==> tried(ps@[j], f, #[trigger] rs[j]))
                    && tried_arms(ps@, f, rs, r2, true);
            lemma_arms_unique(ps@, f, rs1, rs2, r1, r2, true);
        },
        ResidualPolicy::Any(ps) => {
            let rs1 = choose|rs: Seq<Result<T, E>>|
                #![trigger tried_arms(ps@, f, rs, r1, false)]
                rs.len() <= ps@.len() && (forall|j: int| 0 <= j < rs.len() ==> tried(ps@[j], f, #[trigger] rs[j]))
                    && tried_arms(ps@, f, rs, r1, false);
            let rs2 = choose|rs: Seq<Result<T, E>>|
                #![trigger tried_arms(ps@, f, rs, r2, false)]
                rs.len() <= ps@.len() && (forall|j: int| 0 <= j < rs.len() ==> tried(ps@[j], f, #[trigger] rs[j]))
                    && tried_arms(ps@, f, rs, r2, false);
            lemma_arms_unique(ps@, f, rs1, rs2, r1, r2, false);
        },
        ResidualPolicy::OrElse { primary, fallback } => {
            if tried(*primary, f, r1) && r1 is Err {
                if tried(*primary, f, r2) && r2 is Err {
                    lemma_tried_unique(*primary, f, r1, r2);
                } else {
                    let (x2, y2) = choose|x: Result<T, E>, y: Result<T, E>|
                        #![trigger or_else_result(*primary, *fallback, f, x, y, r2)]
                        tried(*primary, f, x) && x is Ok && tried(*fallback, f, y)
                            && or_else_result(*primary, *fallback, f, x, y, r2);
                    lemma_tried_unique(*primary, f, r1, x2);
                }
            } else {
                let (x1, y1) = choose|x: Result<T, E>, y: Result<T, E>|
                    #![trigger or_else_result(*primary, *fallback, f, x, y, r1)]
                    tried(*primary, f, x) && x is Ok && tried(*fallback, f, y)
                        && or_else_result(*primary, *fallback, f, x, y, r1);
                if tried(*primary, f, r2) && r2 is Err {
                    lemma_tried_unique(*primary, f, x1, r2);
                } else {
                    let (x2, y2) = choose|x: Result<T, E>, y: Result<T, E>|
                        #![trigger or_else_result(*primary, *fallback, f, x, y, r2)]
                        tried(*primary, f, x) && x is Ok && tried(*fallback, f, y)
                            && or_else_result(*primary, *fallback, f, x, y, r2);
                    lemma_tried_unique(*primary, f, x1, x2);
                    lemma_tried_unique(*fallback, f, y1, y2);
                    if y1 is Ok {
                        lemma_try_visits_unique(
                            f,
                            FoldNode::OrElse {
                                primary_policy: *primary,
                                fallback_policy: *fallback,
                                primary: x1->Ok_0,
                                fallback: Some(y1->Ok_0),
                            },
                            r1,
                            r2,
                        );
                    }
                }
            }
        },
        _ => {
            lemma_try_visits_unique(f, crate::fold::leaf_node(p)->Some_0, r1, r2);
        },
    }
}

/// Two result sequences of folding the same arms agree, and so do the
/// compositions' results.
proof fn lemma_arms_unique<'a, O: 'a, T, E, F: FnMut(ResidualPolicyNode<'a, O, T>) -> Result<T, E>>(
    ps: Seq<ResidualPolicy<O>>,
    f: F,
    rs1: Seq<Result<T, E>>,
    rs2: Seq<Result<T, E>>,
    r1: Result<T, E>,
    r2: Result<T, E>,
    all: bool,
)
    requires
        try_deterministic(f),
        rs1.len() <= ps.len(),
        rs2.len() <= ps.len(),
        forall|j: int| 0 <= j < rs1.len() ==> tried(ps[j], f, #[trigger] rs1[j]),
        forall|j: int| 0 <= j < rs2.len() ==> tried(ps[j], f, #[trigger] rs2[j]),
        tried_arms(ps, f, rs1, r1, all),
        tried_arms(ps, f, rs2, r2, all),
    ensures
        r1 == r2,
    decreases ps,
{
    assert forall|j: int| 0 <= j < rs1.len() && j < rs2.len() implies rs1[j] == rs2[j] by {
        assert(decreases_to!(ps => ps[j]));
        lemma_tried_unique_arm(ps, j, f, rs1[j], rs2[j]);
    }
    let full1 = rs1.len() == ps.len() && forall|j: int| 0 <= j < rs1.len() ==> rs1[j] is Ok;
    let full2 = rs2.len() == ps.len() && forall|j: int| 0 <= j < rs2.len() ==> rs2[j] is Ok;
    if full1 && full2 {
        assert(rs1 =~= rs2);
        let v = if all {
            FoldNode::All { policies: ps, arms: oks(rs1) }
        } else {
            FoldNode::Any { policies: ps, arms: oks(rs1) }
        };
        lemma_try_visits_unique(f, v, r1, r2);
    } else if full1 {
        assert(rs1[rs2.len() - 1] == rs2[rs2.len() - 1]);
    } else if full2 {
        assert(rs1[rs1.len() - 1] == rs2[rs1.len() - 1]);
    } else {
        if rs1.len() < rs2.len() {
            assert(rs1[rs1.len() - 1] == rs2[rs1.len() - 1]);
        } else if rs2.len() < rs1.len() {
            assert(rs1[rs2.len() - 1] == rs2[rs2.len() - 1]);
        } else {
            assert(rs1[rs1.len() - 1] == rs2[rs1.len() - 1]);
        }
    }
}

proof fn lemma_tried_unique_arm<'a, O: 'a, T, E, F: FnMut(ResidualPolicyNode<'a, O, T>) -> Result<T, E>>(
    ps: Seq<ResidualPolicy<O>>,
    j: int,
    f: F,
    r1: Result<T, E>,
    r2: Result<T, E>,
)
    requires
        0 <= j < ps.len(),
        try_deterministic(f),
        tried(ps[j], f, r1),
        tried(ps[j], f, r2),
    ensures
        r1 == r2,
    decreases ps, 0nat,
{
    lemma_tried_unique(ps[j], f, r1, r2);
}

} // verus!

verus! {

/// A pruned fold whose predicate always descends is a plain fallible fold.
pub proof fn lemma_descending_pruned_is_tried<'a, O: 'a, T, E, D: FnMut(&ResidualPolicyBranch<'a, O>) -> bool, F: FnMut(
    ResidualPolicyNode<'a, O, T>,
) -> Result<T, E>>(p: ResidualPolicy<O>, d: D, f: F, res: Result<T, E>)
    requires
        always_descends(d),
        pruned(p, d, f, res),
    ensures
        tried(p, f, res),
    decreases p,
{
    match p {
        ResidualPolicy::All(ps) => {
            let rs = choose|rs: Seq<Result<T, E>>|
                #![trigger tried_arms(ps@, f, rs, res, true)]
                rs.len() <= ps@.len() && (forall|j: int| 0 <= j < rs.len() ==> pruned(ps@[j], d, f, #[trigger] rs[j]))
                    && tried_arms(ps@, f, rs, res, true);
            assert forall|j: int| 0 <= j < rs.len() implies tried(ps@[j], f, #[trigger] rs[j]) by {
                lemma_descending_pruned_is_tried(ps@[j], d, f, rs[j]);
            }
        },
        ResidualPolicy::Any(ps) => {
            let rs = choose|rs: Seq<Result<T, E>>|
                #![trigger tried_arms(ps@, f, rs, res, false)]
                rs.len() <= ps@.len() && (forall|j: int| 0 <= j < rs.len() ==> pruned(ps@[j], d, f, #[trigger] rs[j]))
                    && tried_arms(ps@, f, rs, res, false);
            assert forall|j: int| 0 <= j < rs.len() implies tried(ps@[j], f, #[trigger] rs[j]) by {
                lemma_descending_pruned_is_tried(ps@[j], d, f, rs[j]);
            }
        },
        ResidualPolicy::OrElse { primary, fallback } => {
            if pruned(*primary, d, f, res) && res is Err {
                lemma_descending_pruned_is_tried(*primary, d, f, res);
            } else {
                let (x, go, y) = choose|x: Result<T, E>, go: bool, y: Result<T, E>|
                    #![trigger pruned_or_else(*primary, *fallback, d, f, x, go, y, res)]
                    pruned(*primary, d, f, x) && (go ==> pruned(*fallback, d, f, y))
                        && pruned_or_else(*primary, *fallback, d, f, x, go, y, res);
                let b = choose|b: ResidualPolicyBranch<'a, O>|
                    crate::fold::branch_pair(b) == (*primary, *fallback) && #[trigger] call_ensures(d, (&b,), go);
                assert(go);
                lemma_descending_pruned_is_tried(*primary, d, f, x);
                lemma_descending_pruned_is_tried(*fallback, d, f, y);
                assert(or_else_result(*primary, *fallback, f, x, y, res));
            }
        },
        _ => {},
    }
}

/// A pruned fold whose predicate descends into every fallback gives the
/// result of `try_fold` with the same visitor: every fallback is folded and
/// reaches the visitor, and with a visitor that gives one result for each
/// node the two results are equal. (The contracts relate results to the
/// visitor's possible outputs; they do not record the order of its calls.)
pub proof fn law_descending_pruned_fold_is_try_fold<'a, O: 'a, T, E, D: FnMut(&ResidualPolicyBranch<'a, O>) -> bool, F: FnMut(
    ResidualPolicyNode<'a, O, T>,
) -> Result<T, E>>(p: ResidualPolicy<O>, d: D, f: F, pruned_result: Result<T, E>, tried_result: Result<T, E>)
    requires
        always_descends(d),
        try_deterministic(f),
        pruned(p, d, f, pruned_result),
        tried(p, f, tried_result),
    ensures
        tried(p, f, pruned_result),
        pruned_result == tried_result,
{
    lemma_descending_pruned_is_tried(p, d, f, pruned_result);
    lemma_tried_unique(p, f, pruned_result, tried_result);
}

/// A fallible fold with a visitor that wraps `f` in `Ok` succeeds with a
/// result of folding with `f`.
pub proof fn lemma_lifted_tried_is_folded<'a, O: 'a, T, E, F: FnMut(ResidualPolicyNode<'a, O, T>) -> T, G: FnMut(
    ResidualPolicyNode<'a, O, T>,
) -> Result<T, E>>(p: ResidualPolicy<O>, f: F, g: G, res: Result<T, E>)
    requires
        lifts(f, g),
        tried(p, g, res),
    ensures
        res is Ok,
        folded(p, f, res->Ok_0),
    decreases p,
{
    match p {
        ResidualPolicy::All(ps) => {
            let rs = choose|rs: Seq<Result<T, E>>|
                #![trigger tried_arms(ps@, g, rs, res, true)]
                rs.len() <= ps@.len() && (forall|j: int| 0 <= j < rs.len() ==> tried(ps@[j], g, #[trigger] rs[j]))
                    && tried_arms(ps@, g, rs, res, true);
            assert forall|j: int| 0 <= j < rs.len() implies rs[j] is Ok && folded(ps@[j], f, #[trigger] rs[j]->Ok_0) by {
                lemma_lifted_tried_is_folded(ps@[j], f, g, rs[j]);
            }
            if rs.len() > 0 {
                assert(rs[rs.len() - 1] is Ok);
            }
            assert(rs.len() == ps@.len() && forall|j: int| 0 <= j < rs.len() ==> rs[j] is Ok);
            let arms = oks(rs);
            assert(arms.len() == ps.len());
            let n = choose|n: ResidualPolicyNode<'a, O, T>|
                n.value() == FoldNode::All { policies: ps@, arms } && #[trigger] call_ensures(g, (n,), res);
            assert(call_ensures(f, (n,), res->Ok_0));
            assert forall|k: int| 0 <= k < ps.len() implies folded(ps[k], f, #[trigger] arms[k]) by {
                assert(folded(ps@[k], f, rs[k]->Ok_0));
            }
            assert(visits(f, FoldNode::All { policies: ps@, arms }, res->Ok_0));
        },
        ResidualPolicy::Any(ps) => {
            let rs = choose|rs: Seq<Result<T, E>>|
                #![trigger tried_arms(ps@, g, rs, res, false)]
                rs.len() <= ps@.len() && (forall|j: int| 0 <= j < rs.len() ==> tried(ps@[j], g, #[trigger] rs[j]))
                    && tried_arms(ps@, g, rs, res, false);
            assert forall|j: int| 0 <= j < rs.len() implies rs[j] is Ok && folded(ps@[j], f, #[trigger] rs[j]->Ok_0) by {
                lemma_lifted_tried_is_folded(ps@[j], f, g, rs[j]);
            }
            if rs.len() > 0 {
                assert(rs[rs.len() - 1] is Ok);
            }
            assert(rs.len() == ps@.len() && forall|j: int| 0 <= j < rs.len() ==> rs[j] is Ok);
            let arms = oks(rs);
            assert(arms.len() == ps.len());
            let n = choose|n: ResidualPolicyNode<'a, O, T>|
                n.value() == FoldNode::Any { policies: ps@, arms } && #[trigger] call_ensures(g, (n,), res);
            assert(call_ensures(f, (n,), res->Ok_0));
            assert forall|k: int| 0 <= k < ps.len() implies folded(ps[k], f, #[trigger] arms[k]) by {
                assert(folded(ps@[k], f, rs[k]->Ok_0));
            }
            assert(visits(f, FoldNode::Any { policies: ps@, arms }, res->Ok_0));
        },
        ResidualPolicy::OrElse { primary, fallback } => {
            if tried(*primary, g, res) && res is Err {
                lemma_lifted_tried_is_folded(*primary, f, g, res);
            } else {
                let (x, y) = choose|x: Result<T, E>, y: Result<T, E>|
                    #![trigger or_else_result(*primary, *fallback, g, x, y, res)]
                    tried(*primary, g, x) && x is Ok && tried(*fallback, g, y)
                        && or_else_result(*primary, *fallback, g, x, y, res);
                lemma_lifted_tried_is_folded(*primary, f, g, x);
                lemma_lifted_tried_is_folded(*fallback, f, g, y);
                let v = FoldNode::OrElse {
                    primary_policy: *primary,
                    fallback_policy: *fallback,
                    primary: x->Ok_0,
                    fallback: Some(y->Ok_0),
                };
                let n = choose|n: ResidualPolicyNode<'a, O, T>| n.value() == v && #[trigger] call_ensures(g, (n,), res);
                assert(call_ensures(f, (n,), res->Ok_0));
                assert(visits(f, v, res->Ok_0));
            }
        },
        _ => {
            let v = crate::fold::leaf_node::<O, T>(p)->Some_0;
            let n = choose|n: ResidualPolicyNode<'a, O, T>| n.value() == v && #[trigger] call_ensures(g, (n,), res);
            assert(call_ensures(f, (n,), res->Ok_0));
            assert(visits(f, v, res->Ok_0));
        },
    }
}

/// With a deterministic visitor, a fold has one result.
pub proof fn lemma_folded_unique<'a, O: 'a, T, F: FnMut(ResidualPolicyNode<'a, O, T>) -> T>(
    p: ResidualPolicy<O>,
    f: F,
    t1: T,
    t2: T,
)
    requires
        deterministic(f),
        folded(p, f, t1),
        folded(p, f, t2),
    ensures
        t1 == t2,
    decreases p,
{
    match p {
        ResidualPolicy::All(ps) => {
            let a1 = choose|arms: Seq<T>|
                arms.len() == ps.len() && (forall|k: int| 0 <= k < ps.len() ==> folded(ps[k], f, #[trigger] arms[k]))
                    && visits(f, FoldNode::All { policies: ps@, arms }, t1);
            let a2 = choose|arms: Seq<T>|
                arms.len() == ps.len() && (forall|k: int| 0 <= k < ps.len() ==> folded(ps[k], f, #[trigger] arms[k]))
                    && visits(f, FoldNode::All { policies: ps@, arms }, t2);
            assert forall|k: int| 0 <= k < ps.len() implies a1[k] == a2[k] by {
                lemma_folded_unique(ps[k], f, a1[k], a2[k]);
            }
            assert(a1 =~= a2);
            lemma_visits_unique(f, FoldNode::All { policies: ps@, arms: a1 }, t1, t2);
        },
        ResidualPolicy::Any(ps) => {
            let a1 = choose|arms: Seq<T>|
                arms.len() == ps.len() && (forall|k: int| 0 <= k < ps.len() ==> folded(ps[k], f, #[trigger] arms[k]))
                    && visits(f, FoldNode::Any { policies: ps@, arms }, t1);
            let a2 = choose|arms: Seq<T>|
                arms.len() == ps.len() && (forall|k: int| 0 <= k < ps.len() ==> folded(ps[k], f, #[trigger] arms[k]))
                    && visits(f, FoldNode::Any { policies: ps@, arms }, t2);
            assert forall|k: int| 0 <= k < ps.len() implies a1[k] == a2[k] by {
                lemma_folded_unique(ps[k], f, a1[k], a2[k]);
            }
            assert(a1 =~= a2);
            lemma_visits_unique(f, FoldNode::Any { policies: ps@, arms: a1 }, t1, t2);
        },
        ResidualPolicy::OrElse { primary, fallback } => {
            let (x1, y1) = choose|a: T, b: T|
                folded(*primary, f, a) && folded(*fallback, f, b) && visits(
                    f,
                    FoldNode::OrElse { primary_policy: *primary, fallback_policy: *fallback, primary: a, fallback: Some(b) },
                    t1,
                );
            let (x2, y2) = choose|a: T, b: T|
                folded(*primary, f, a) && folded(*fallback, f, b) && visits(
                    f,
                    FoldNode::OrElse { primary_policy: *primary, fallback_policy: *fallback, primary: a, fallback: Some(b) },
                    t2,
                );
            lemma_folded_unique(*primary, f, x1, x2);
            lemma_folded_unique(*fallback, f, y1, y2);
            lemma_visits_unique(
                f,
                FoldNode::OrElse { primary_policy: *primary, fallback_policy: *fallback, primary: x1, fallback: Some(y1) },
                t1,
                t2,
            );
        },
        ResidualPolicy::Permit(o) => lemma_visits_unique(f, FoldNode::Permit(o), t1, t2),
        ResidualPolicy::Deny => lemma_visits_unique(f, FoldNode::<O, T>::Deny, t1, t2),
        ResidualPolicy::PermitWithTrace { outcome, obligations, satisfied, label } => lemma_visits_unique(
            f,
            FoldNode::PermitWithTrace { outcome, obligations: obligations@, satisfied: satisfied@, label },
            t1,
            t2,
        ),
        ResidualPolicy::DenyWithTrace { denied, unsatisfied, label, reason, shape } => lemma_visits_unique(
            f,
            FoldNode::DenyWithTrace { denied, unsatisfied: unsatisfied@, label, reason, shape },
            t1,
            t2,
        ),
        ResidualPolicy::Grant { outcome, condition, label, deny_shape, obligations, reason } => lemma_visits_unique(
            f,
            FoldNode::Grant { outcome, condition, label, deny_shape, obligations: obligations@, reason },
            t1,
            t2,
        ),
    }
}

/// `try_fold` with a visitor that wraps `f` in `Ok` succeeds with `fold`'s
/// result: with a visitor that gives one result for each node, the fallible
/// fold's result is `Ok` of the plain fold's.
pub proof fn law_infallible_try_fold_is_fold<'a, O: 'a, T, E, F: FnMut(ResidualPolicyNode<'a, O, T>) -> T, G: FnMut(
    ResidualPolicyNode<'a, O, T>,
) -> Result<T, E>>(p: ResidualPolicy<O>, f: F, g: G, tried_result: Result<T, E>, folded_result: T)
    requires
        lifts(f, g),
        deterministic(f),
        tried(p, g, tried_result),
        folded(p, f, folded_result),
    ensures
        tried_result == Ok::<T, E>(folded_result),
{
    lemma_lifted_tried_is_folded(p, f, g, tried_result);
    lemma_folded_unique(p, f, tried_result->Ok_0, folded_result);
}

/// Building a grant with `grant_clause`, labelling it, giving it a reason,
/// hiding it, adding an obligation and converting it with `into_policy` gives
/// the policy that `grant` and the same steps on `Policy` give: both builders
/// start from the same grant and each step changes it the same way, to the
/// grant with those parts.
pub proof fn law_grant_builder_matches_policy_builder<O>(
    outcome: O,
    condition: ConditionView,
    label: Seq<char>,
    reason: Seq<char>,
    obligation: Seq<char>,
)
    ensures
        with_obligation_id(
            with_hidden(
                with_reason(
                    with_label(grant_node(outcome, condition, None, DenyShape::Forbidden, Seq::empty(), None), label),
                    reason,
                ),
            ),
            obligation,
        ) == grant_node(outcome, condition, Some(label), DenyShape::Hidden, seq![obligation], Some(reason)),
{
    assert(Seq::<Seq<char>>::empty().push(obligation) =~= seq![obligation]);
}

} // verus!

verus! {

/// Every fact of `s` is present or absent in `m`.
pub open spec fn known_on(m: Map<Seq<char>, Presence>, s: Set<Seq<char>>) -> bool {
    forall|f: Seq<char>| s.contains(f) ==> presence_in(m, f) != Presence::Unknown
}

/// A decision carries the effect, obligations and decisive clause of an
/// evaluation.
pub open spec fn same_core<O>(d: DecisionView<O>, e: EvalView<O>) -> bool {
    d.effect == e.effect && d.obligations == e.obligations && d.decisive == e.decisive
}

/// Two evaluations agree on effect, obligations and decisive clause.
pub open spec fn eval_core_eq<O>(a: EvalView<O>, b: EvalView<O>) -> bool {
    a.effect == b.effect && a.obligations == b.obligations && a.decisive == b.decisive
}

/// A permit names its outcome in its decisive clause; a denial has a denying
/// clause and no obligations.
pub open spec fn eval_wf<O>(e: EvalView<O>) -> bool {
    match e.effect {
        Effect::Permit(o) => e.decisive matches DecisiveView::Permit { granted, .. } && granted == o,
        Effect::Deny => e.decisive is Deny && e.obligations.len() == 0,
    }
}

proof fn lemma_reduce_cond_known(c: ConditionView, m: Map<Seq<char>, Presence>)
    requires
        known_on(m, cond_facts(c)),
    ensures
        reduce_cond(c, m) is Known,
    decreases c, 0nat,
{
    match c {
        ConditionView::Has(f) => {
            assert(cond_facts(c).contains(f));
        },
        ConditionView::Not(inner) => {
            lemma_reduce_cond_known(*inner, m);
        },
        ConditionView::All(cs) => {
            if cs.len() > 0 {
                lemma_reduce_cond_all_known(cs, 0, m, Seq::empty());
            }
        },
        ConditionView::Any(cs) => {
            if cs.len() > 0 {
                lemma_reduce_cond_any_known(cs, 0, m, Seq::empty());
            }
        },
        _ => {},
    }
}

proof fn lemma_reduce_cond_all_known(cs: Seq<ConditionView>, i: int, m: Map<Seq<char>, Presence>, consulted: Seq<Read>)
    requires
        0 <= i <= cs.len(),
        known_on(m, conds_facts_from(cs, i)),
    ensures
        reduce_cond_all_from(cs, i, m, consulted, Seq::empty()) is Known,
    decreases cs, cs.len() - i,
{
    if i < cs.len() {
        lemma_reduce_cond_known(cs[i], m);
        match reduce_cond(cs[i], m) {
            ReducedCond::Known(s, c) => {
                if s {
                    lemma_reduce_cond_all_known(cs, i + 1, m, record_all(consulted, c));
                }
            },
            _ => {},
        }
    }
}

proof fn lemma_reduce_cond_any_known(cs: Seq<ConditionView>, i: int, m: Map<Seq<char>, Presence>, consulted: Seq<Read>)
    requires
        0 <= i <= cs.len(),
        known_on(m, conds_facts_from(cs, i)),
    ensures
        reduce_cond_any_from(cs, i, m, consulted, Seq::empty()) is Known,
    decreases cs, cs.len() - i,
{
    if i < cs.len() {
        lemma_reduce_cond_known(cs[i], m);
        match reduce_cond(cs[i], m) {
            ReducedCond::Known(s, c) => {
                if !s {
                    lemma_reduce_cond_any_known(cs, i + 1, m, record_all(consulted, c));
                }
            },
            _ => {},
        }
    }
}

/// Every evaluation is well formed.
pub proof fn lemma_eval_wf<O: Lattice>(p: PolicyNode<O>, m: Map<Seq<char>, Presence>)
    ensures
        eval_wf(node_eval(p, m)),
    decreases p, 0nat,
{
    match p {
        PolicyNode::All(ps) => {
            if ps.len() > 0 {
                lemma_all_wf(ps, 0, m, None);
            }
        },
        PolicyNode::Any(ps) => {
            if ps.len() > 0 {
                lemma_any_wf(ps, 0, m, None, Seq::empty(), None);
            }
        },
        PolicyNode::OrElse(primary, fallback) => {
            lemma_eval_wf(*primary, m);
            lemma_eval_wf(*fallback, m);
        },
        _ => {},
    }
}

proof fn lemma_all_wf<O: Lattice>(ps: Seq<PolicyNode<O>>, i: int, m: Map<Seq<char>, Presence>, st: AllState<O>)
    requires
        st matches Some((o, obs, d)) ==> (d matches DecisiveView::Permit { granted, .. } && granted == o),
    ensures
        eval_wf(all_from(ps, i, m, st)),
    decreases ps, ps.len() - i,
{
    if 0 <= i < ps.len() {
        lemma_eval_wf(ps[i], m);
        let a = node_eval(ps[i], m);
        match a.effect {
            Effect::Deny => {},
            Effect::Permit(o) => {
                lemma_all_wf(ps, i + 1, m, all_step(st, o, a.obligations, a.decisive));
            },
        }
    }
}

proof fn lemma_any_wf<O: Lattice>(
    ps: Seq<PolicyNode<O>>,
    i: int,
    m: Map<Seq<char>, Presence>,
    win: AnyWin<O>,
    wobs: Seq<Seq<char>>,
    first_deny: Option<DecisiveView<O>>,
)
    requires
        win matches Some((o, d)) ==> (d matches DecisiveView::Permit { granted, .. } && granted == o),
        first_deny matches Some(d) ==> d is Deny,
    ensures
        eval_wf(any_from(ps, i, m, win, wobs, first_deny)),
    decreases ps, ps.len() - i,
{
    if 0 <= i < ps.len() {
        lemma_eval_wf(ps[i], m);
        let a = node_eval(ps[i], m);
        match a.effect {
            Effect::Deny => {
                lemma_any_wf(ps, i + 1, m, win, wobs, if first_deny is None { Some(a.decisive) } else { first_deny });
            },
            Effect::Permit(o) => {
                let (w2, obs2) = any_step(win, wobs, o, a.obligations, a.decisive);
                lemma_any_wf(ps, i + 1, m, w2, obs2, first_deny);
            },
        }
    }
}

/// The constant residual of a decision evaluates to the decision's effect,
/// obligations and decisive clause.
proof fn lemma_residual_core<O: Lattice>(d: DecisionView<O>, e: EvalView<O>, m: Map<Seq<char>, Presence>)
    requires
        same_core(d, e),
        eval_wf(e),
    ensures
        eval_core_eq(node_eval(residual_of_decision(d), m), e),
{
    if e.effect is Deny {
        assert(e.obligations =~= Seq::<Seq<char>>::empty());
    }
}

proof fn lemma_all_from_cores<O: Lattice>(
    ps: Seq<PolicyNode<O>>,
    qs: Seq<PolicyNode<O>>,
    i: int,
    m1: Map<Seq<char>, Presence>,
    m2: Map<Seq<char>, Presence>,
    st: AllState<O>,
)
    requires
        ps.len() == qs.len(),
        0 <= i <= ps.len(),
        forall|j: int| i <= j < ps.len() ==> #[trigger] eval_core_eq(node_eval(ps[j], m1), node_eval(qs[j], m2)),
    ensures
        eval_core_eq(all_from(ps, i, m1, st), all_from(qs, i, m2, st)),
    decreases ps.len() - i,
{
    if i < ps.len() {
        assert(eval_core_eq(node_eval(ps[i], m1), node_eval(qs[i], m2)));
        let a = node_eval(ps[i], m1);
        match a.effect {
            Effect::Deny => {},
            Effect::Permit(o) => {
                lemma_all_from_cores(ps, qs, i + 1, m1, m2, all_step(st, o, a.obligations, a.decisive));
            },
        }
    }
}

proof fn lemma_all_first_deny<O: Lattice>(ps: Seq<PolicyNode<O>>, k: int, i: int, m: Map<Seq<char>, Presence>, st: AllState<O>)
    requires
        0 <= k <= i < ps.len(),
        forall|j: int| k <= j < i ==> (#[trigger] node_eval(ps[j], m)).effect is Permit,
        node_eval(ps[i], m).effect is Deny,
    ensures
        eval_core_eq(all_from(ps, k, m, st), node_eval(ps[i], m)),
    decreases i - k,
{
    if k < i {
        let a = node_eval(ps[k], m);
        let o = a.effect->Permit_0;
        lemma_all_first_deny(ps, k + 1, i, m, all_step(st, o, a.obligations, a.decisive));
    }
}

/// State of a join composition after its first `n` arms.
pub open spec fn any_state<O: Lattice>(ps: Seq<PolicyNode<O>>, n: int, m: Map<Seq<char>, Presence>) -> (
    AnyWin<O>,
    Seq<Seq<char>>,
    Option<DecisiveView<O>>,
)
    decreases n,
{
    if n <= 0 {
        (None, Seq::empty(), None)
    } else {
        let st = any_state(ps, n - 1, m);
        let a = node_eval(ps[n - 1], m);
        match a.effect {
            Effect::Deny => (st.0, st.1, if st.2 is None { Some(a.decisive) } else { st.2 }),
            Effect::Permit(x) => {
                let (w2, o2) = any_step(st.0, st.1, x, a.obligations, a.decisive);
                (w2, o2, st.2)
            },
        }
    }
}

proof fn lemma_any_from_state<O: Lattice>(ps: Seq<PolicyNode<O>>, k: int, m: Map<Seq<char>, Presence>)
    requires
        0 <= k <= ps.len(),
    ensures
        eval_core_eq(
            any_from(ps, 0, m, None, Seq::empty(), None),
            any_from(ps, k, m, any_state(ps, k, m).0, any_state(ps, k, m).1, any_state(ps, k, m).2),
        ),
    decreases k,
{
    if k > 0 {
        lemma_any_from_state(ps, k - 1, m);
    }
}

proof fn lemma_any_state_prefix<O: Lattice>(
    ps: Seq<PolicyNode<O>>,
    qs: Seq<PolicyNode<O>>,
    n: int,
    m: Map<Seq<char>, Presence>,
)
    requires
        0 <= n <= ps.len(),
        n <= qs.len(),
        forall|j: int| 0 <= j < n ==> ps[j] == qs[j],
    ensures
        any_state(ps, n, m) == any_state(qs, n, m),
    decreases n,
{
    if n > 0 {
        lemma_any_state_prefix(ps, qs, n - 1, m);
        assert(ps[n - 1] == qs[n - 1]);
    }
}

proof fn lemma_reduce_all_known<O: Lattice>(
    ps: Seq<PolicyNode<O>>,
    i: int,
    m: Map<Seq<char>, Presence>,
    consulted: Seq<Read>,
    permits: Seq<PolicyNode<O>>,
)
    requires
        0 <= i <= ps.len(),
        ps.len() > 0,
        known_on(m, nodes_facts_from(ps, i)),
        permits.len() == i,
        forall|j: int| 0 <= j < i ==> (#[trigger] node_eval(ps[j], known_part(m))).effect is Permit,
        forall|j: int|
            0 <= j < i ==> #[trigger] eval_core_eq(node_eval(permits[j], known_part(m)), node_eval(ps[j], known_part(m))),
    ensures
        reduce_all_from(ps, i, m, consulted, permits, Seq::empty()) matches ResidualView::Resolved(d) && same_core(
            d,
            all_from(ps, 0, known_part(m), None),
        ),
    decreases ps, ps.len() - i,
{
    let km = known_part(m);
    if i < ps.len() {
        lemma_reduce_known(ps[i], m);
        lemma_eval_wf(ps[i], km);
        let d = reduce_node(ps[i], m)->Resolved_0;
        if d.effect is Deny {
            lemma_all_first_deny(ps, 0, i, km, None);
        } else {
            lemma_residual_core(d, node_eval(ps[i], km), km);
            let p2 = permits.push(residual_of_decision(d));
            assert forall|j: int| 0 <= j < i + 1 implies #[trigger] eval_core_eq(
                node_eval(p2[j], km),
                node_eval(ps[j], km),
            ) by {
                if j < i {
                    assert(p2[j] == permits[j]);
                }
            }
            lemma_reduce_all_known(ps, i + 1, m, record_all(consulted, d.consulted), p2);
        }
    } else {
        assert forall|j: int| 0 <= j < permits.len() implies #[trigger] eval_core_eq(
            node_eval(permits[j], km),
            node_eval(ps[j], km),
        ) by {}
        lemma_all_from_cores(permits, ps, 0, km, km, None);
    }
}

proof fn lemma_reduce_any_known<O: Lattice>(
    ps: Seq<PolicyNode<O>>,
    i: int,
    m: Map<Seq<char>, Presence>,
    consulted: Seq<Read>,
    permits: Seq<PolicyNode<O>>,
    first_deny: Option<DecisionView<O>>,
)
    requires
        0 <= i <= ps.len(),
        ps.len() > 0,
        known_on(m, nodes_facts_from(ps, i)),
        forall|j: int| 0 <= j < permits.len() ==> (#[trigger] node_eval(permits[j], known_part(m))).effect is Permit,
        any_state(permits, permits.len() as int, known_part(m)).0 == any_state(ps, i, known_part(m)).0,
        any_state(permits, permits.len() as int, known_part(m)).1 == any_state(ps, i, known_part(m)).1,
        any_state(ps, i, known_part(m)).2 == match first_deny {
            Some(d) => Some(d.decisive),
            None => None::<DecisiveView<O>>,
        },
        first_deny matches Some(d) ==> d.effect is Deny && d.obligations.len() == 0,
        i > 0 ==> (permits.len() > 0 || first_deny is Some),
    ensures
        reduce_any_from(ps, i, m, consulted, permits, Seq::empty(), first_deny) matches ResidualView::Resolved(d)
            && same_core(d, any_from(ps, 0, known_part(m), None, Seq::empty(), None)),
    decreases ps, ps.len() - i,
{
    let km = known_part(m);
    if i < ps.len() {
        lemma_reduce_known(ps[i], m);
        lemma_eval_wf(ps[i], km);
        let d = reduce_node(ps[i], m)->Resolved_0;
        let c = record_all(consulted, d.consulted);
        if d.effect is Permit {
            lemma_residual_core(d, node_eval(ps[i], km), km);
            let p2 = permits.push(residual_of_decision(d));
            lemma_any_state_prefix(permits, p2, permits.len() as int, km);
            assert(p2[permits.len() as int] == residual_of_decision(d));
            assert forall|j: int| 0 <= j < p2.len() implies (#[trigger] node_eval(p2[j], km)).effect is Permit by {
                if j < permits.len() {
                    assert(p2[j] == permits[j]);
                }
            }
            lemma_reduce_any_known(ps, i + 1, m, c, p2, first_deny);
        } else {
            let fd2 = if first_deny is None { Some(d) } else { first_deny };
            lemma_reduce_any_known(ps, i + 1, m, c, permits, fd2);
        }
    } else {
        lemma_any_from_state(ps, ps.len() as int, km);
        if permits.len() == 0 && first_deny is Some {
            assert(first_deny->Some_0.obligations =~= Seq::<Seq<char>>::empty());
        } else {
            let n = permits.len() as int;
            lemma_any_from_state(permits, n, km);
            assert(node_eval(permits[n - 1], km).effect is Permit);
        }
    }
}

/// Partially evaluating a policy whose named facts are all present or absent
/// resolves it, with the effect, obligations and decisive clause that
/// evaluating it with those facts gives.
pub proof fn lemma_reduce_known<O: Lattice>(p: PolicyNode<O>, m: Map<Seq<char>, Presence>)
    requires
        known_on(m, node_facts(p)),
    ensures
        reduce_node(p, m) matches ResidualView::Resolved(d) && same_core(d, node_eval(p, known_part(m))),
    decreases p, 0nat,
{
    match p {
        PolicyNode::Grant { condition, .. } => {
            lemma_reduce_cond_known(condition, m);
        },
        PolicyNode::All(ps) => {
            if ps.len() > 0 {
                lemma_reduce_all_known(ps, 0, m, Seq::empty(), Seq::empty());
            }
        },
        PolicyNode::Any(ps) => {
            if ps.len() > 0 {
                lemma_reduce_any_known(ps, 0, m, Seq::empty(), Seq::empty(), None);
            }
        },
        PolicyNode::OrElse(primary, fallback) => {
            lemma_reduce_known(*primary, m);
            lemma_reduce_known(*fallback, m);
        },
        _ => {},
    }
}

/// Partially evaluating a policy with every fact it names present or absent
/// resolves it, and the decision has the effect, the obligations and the
/// decisive clause of evaluating the policy with any known facts that keep
/// those presences; completing it changes none of them.
pub proof fn law_known_partial_evaluation_is_resolved<O: Lattice>(
    policy: Policy<O>,
    partial: PartialFacts,
    known: KnownFacts,
)
    requires
        known_on(partial@, node_facts(policy@)),
        completes(partial@, known@),
    ensures
        reduce_node(policy@, partial@) matches ResidualView::Resolved(d) && d.effect == node_eval(
            policy@,
            known@,
        ).effect && d.obligations == node_eval(policy@, known@).obligations && d.decisive == node_eval(
            policy@,
            known@,
        ).decisive,
        complete_view(reduce_node(policy@, partial@), known@).effect == node_eval(policy@, known@).effect,
        complete_view(reduce_node(policy@, partial@), known@).obligations == node_eval(policy@, known@).obligations,
{
    lemma_reduce_known(policy@, partial@);
    lemma_known_part_completes(partial@);
    assert(agree_on(known_part(partial@), known@, node_facts(policy@)));
    lemma_node_local(policy@, known_part(partial@), known@);
}

} // verus!

verus! {

/// An evaluated permit's decisive clause grants the permitted outcome, and
/// an evaluated denial has a denying decisive clause and no obligations.
pub proof fn law_evaluated_decisions_are_well_formed<O: Lattice>(policy: Policy<O>, facts: KnownFacts)
    ensures
        match decision_of(node_eval(policy@, facts@)).effect {
            Effect::Permit(o) => decision_of(node_eval(policy@, facts@)).decisive matches DecisiveView::Permit {
                granted,
                ..
            } && granted == o,
            Effect::Deny => decision_of(node_eval(policy@, facts@)).decisive is Deny && decision_of(
                node_eval(policy@, facts@),
            ).obligations.len() == 0,
        },
{
    lemma_eval_wf(policy@, facts@);
}

/// The other effect kind.
pub open spec fn flipped(e: EffectKind) -> EffectKind {
    match e {
        EffectKind::Permit => EffectKind::Deny,
        EffectKind::Deny => EffectKind::Permit,
    }
}

/// The fields of an audit entry taken from an evaluated decision (its effect
/// kind and obligations, its trace, a copy of the trace's decisive clause,
/// and the denial reason `Decision::denial_reason` builds) pass the entry's
/// semantic checks; with only the effect kind flipped they fail with
/// `EffectTraceMismatch`. `outcome` is the serialized outcome of the
/// decisive clause; like every JSON value it compares equal to itself.
pub proof fn law_entry_of_evaluated_decision_is_consistent<O: Lattice>(
    policy: Policy<O>,
    facts: KnownFacts,
    decision: Decision<O>,
    outcome: TraceValue,
    trace: Trace,
    decisive: TraceClause,
    reason: Option<DenialReason>,
)
    requires
        decision@ == decision_of(node_eval(policy@, facts@)),
        json_equal(outcome, outcome),
        trace.consulted.deep_view() == decision@.consulted,
        records_clause(trace.decisive, decision.trace.decisive, outcome),
        clause_copy(decisive, trace.decisive),
        built_reason(decision, outcome, reason),
    ensures
        semantics_check(
            effect_kind_of(decision),
            decision.obligations@,
            trace.consulted.deep_view(),
            decisive,
            reason,
            trace,
        ) == Ok::<(), AuditEntryError>(()),
        semantics_check(
            flipped(effect_kind_of(decision)),
            decision.obligations@,
            trace.consulted.deep_view(),
            decisive,
            reason,
            trace,
        ) == Err::<(), AuditEntryError>(AuditEntryError::EffectTraceMismatch),
{
    lemma_eval_wf(policy@, facts@);
    assert(clause_equal(decisive, trace.decisive));
    match decision.trace.decisive {
        DecisiveClause::Permit { .. } => {
            assert(decision@.decisive is Permit);
            assert(decision@.effect is Permit);
            assert(decisive is Permit);
        },
        DecisiveClause::Deny { denied, unsatisfied, label, reason: code, shape } => {
            assert(decision@.decisive is Deny);
            assert(decision@.effect is Deny);
            assert(decision.obligations@.len() == decision@.obligations.len());
            let d = decisive;
            assert(d is Deny);
            assert(unsatisfied.deep_view().len() == unsatisfied@.len());
            assert(d->Deny_unsatisfied.deep_view() == unsatisfied.deep_view());
            assert(d->Deny_unsatisfied.deep_view().len() == d->Deny_unsatisfied@.len());
            assert forall|k: int| 0 <= k < unsatisfied@.len() implies unsatisfied@[k]@ == d->Deny_unsatisfied@[k]@ by {
                assert(unsatisfied.deep_view()[k] == unsatisfied@[k]@);
                assert(d->Deny_unsatisfied.deep_view()[k] == d->Deny_unsatisfied@[k]@);
            }
            match reason_code_of(decision@.decisive) {
                Some(Ok(text)) => {
                    let rr = reason->Some_0;
                    assert(expected_code(d) == Some(rr.code@)) by {
                        if code is Some {
                            assert(d->Deny_reason.deep_view() == code.deep_view());
                        } else {
                            assert(d->Deny_label.deep_view() == label.deep_view());
                        }
                    }
                    lemma_built_reason_matches(rr, d, unsatisfied@, outcome);
                },
                _ => {
                    assert(expected_code(d) is None) by {
                        assert(d->Deny_reason.deep_view() == code.deep_view());
                        assert(d->Deny_label.deep_view() == label.deep_view());
                    }
                },
            }
            assert(reason_matches(reason, d));
        },
    }
}

} // verus!

verus! {

/// Two evaluations agree on effect and obligations.
pub open spec fn eo_eq<O>(a: EvalView<O>, b: EvalView<O>) -> bool {
    a.effect == b.effect && a.obligations == b.obligations
}

/// A decided permit names its outcome; a decided denial has a denying
/// clause and no obligations.
pub open spec fn dec_wf<O>(d: DecisionView<O>) -> bool {
    match d.effect {
        Effect::Permit(o) => d.decisive matches DecisiveView::Permit { granted, .. } && granted == o,
        Effect::Deny => d.decisive is Deny && d.obligations.len() == 0,
    }
}

/// No arm that partial facts leave undecided comes before a decided arm.
pub open spec fn arms_keep_order<O: Lattice>(ps: Seq<PolicyNode<O>>, m: Map<Seq<char>, Presence>) -> bool {
    forall|j: int, k: int|
        #![trigger reduce_node(ps[j], m), reduce_node(ps[k], m)]
        0 <= j < k < ps.len() && reduce_node(ps[j], m) is Pending ==> reduce_node(ps[k], m) is Pending
}

/// Every composition of `p` has its decided arms ahead of its undecided
/// ones under the partial facts `m`, so partial evaluation keeps the order
/// of the arms.
pub open spec fn keeps_order<O: Lattice>(p: PolicyNode<O>, m: Map<Seq<char>, Presence>) -> bool
    decreases p,
{
    match p {
        PolicyNode::All(ps) => arms_keep_order(ps, m) && forall|j: int| 0 <= j < ps.len() ==> keeps_order(#[trigger] ps[j], m),
        PolicyNode::Any(ps) => arms_keep_order(ps, m) && forall|j: int| 0 <= j < ps.len() ==> keeps_order(#[trigger] ps[j], m),
        PolicyNode::OrElse(primary, fallback) => keeps_order(*primary, m) && keeps_order(*fallback, m),
        _ => true,
    }
}

/// The outcome and obligations of the permitting arms of `xs[i..]`, in order.
pub open spec fn perms_from<O: Lattice>(xs: Seq<PolicyNode<O>>, i: int, m: Map<Seq<char>, Presence>) -> Seq<(O, Seq<Seq<char>>)>
    decreases xs.len() - i,
{
    if 0 <= i < xs.len() {
        let a = node_eval(xs[i], m);
        match a.effect {
            Effect::Permit(o) => seq![(o, a.obligations)] + perms_from(xs, i + 1, m),
            Effect::Deny => perms_from(xs, i + 1, m),
        }
    } else {
        Seq::empty()
    }
}

/// Outcome and obligations of a join after one more permitting arm.
pub open spec fn join_eo<O: Lattice>(w: Option<O>, wobs: Seq<Seq<char>>, o: O, obs: Seq<Seq<char>>) -> (Option<O>, Seq<Seq<char>>) {
    match w {
        None => (Some(o), obs),
        Some(cur) => {
            let j = cur.spec_join(o);
            if j == cur && j == o {
                (Some(cur), crate::evaluate::union_obs(wobs, obs))
            } else if j == o {
                (Some(j), obs)
            } else if j != cur {
                (Some(j), crate::evaluate::union_obs(wobs, obs))
            } else {
                (Some(cur), wobs)
            }
        },
    }
}

/// Outcome and obligations of a join over permitting arms.
pub open spec fn join_fold<O: Lattice>(w: Option<O>, wobs: Seq<Seq<char>>, l: Seq<(O, Seq<Seq<char>>)>) -> (Option<O>, Seq<Seq<char>>)
    decreases l.len(),
{
    if l.len() == 0 {
        (w, wobs)
    } else {
        let st = join_eo(w, wobs, l[0].0, l[0].1);
        join_fold(st.0, st.1, l.drop_first())
    }
}

/// The outcome of a join winner, if any.
pub open spec fn win_outcome<O>(w: AnyWin<O>) -> Option<O> {
    match w {
        Some((o, _)) => Some(o),
        None => None,
    }
}

/// Outcome and obligations of a meet state.
pub open spec fn all_proj<O>(st: AllState<O>) -> Option<(O, Seq<Seq<char>>)> {
    match st {
        Some((o, obs, _)) => Some((o, obs)),
        None => None,
    }
}

proof fn lemma_any_from_perms<O: Lattice>(
    xs: Seq<PolicyNode<O>>,
    i: int,
    m: Map<Seq<char>, Presence>,
    win: AnyWin<O>,
    wobs: Seq<Seq<char>>,
    fd: Option<DecisiveView<O>>,
)
    requires
        0 <= i <= xs.len(),
    ensures
        ({
            let r = join_fold(win_outcome(win), wobs, perms_from(xs, i, m));
            let e = any_from(xs, i, m, win, wobs, fd);
            &&& e.effect == match r.0 {
                Some(o) => Effect::Permit(o),
                None => Effect::Deny,
            }
            &&& e.obligations == if r.0 is Some {
                r.1
            } else {
                Seq::empty()
            }
        }),
    decreases xs.len() - i,
{
    if i < xs.len() {
        let a = node_eval(xs[i], m);
        match a.effect {
            Effect::Deny => {
                lemma_any_from_perms(xs, i + 1, m, win, wobs, if fd is None { Some(a.decisive) } else { fd });
            },
            Effect::Permit(o) => {
                let (w2, obs2) = any_step(win, wobs, o, a.obligations, a.decisive);
                lemma_any_from_perms(xs, i + 1, m, w2, obs2, fd);
                let l = seq![(o, a.obligations)] + perms_from(xs, i + 1, m);
                assert(l.drop_first() =~= perms_from(xs, i + 1, m));
                assert(join_eo(win_outcome(win), wobs, o, a.obligations) == (win_outcome(w2), obs2));
            },
        }
    }
}

proof fn lemma_perms_append<O: Lattice>(a: Seq<PolicyNode<O>>, b: Seq<PolicyNode<O>>, i: int, m: Map<Seq<char>, Presence>)
    requires
        0 <= i <= a.len(),
    ensures
        perms_from(a + b, i, m) == perms_from(a, i, m) + perms_from(b, 0, m),
    decreases a.len() - i,
{
    if i < a.len() {
        lemma_perms_append(a, b, i + 1, m);
        assert((a + b)[i] == a[i]);
        let x = node_eval(a[i], m);
        if x.effect is Permit {
            assert(seq![(x.effect->Permit_0, x.obligations)] + (perms_from(a, i + 1, m) + perms_from(b, 0, m)) =~= (seq![
                (x.effect->Permit_0, x.obligations),
            ] + perms_from(a, i + 1, m)) + perms_from(b, 0, m));
        }
    } else {
        lemma_perms_shift(a, b, 0, m);
        assert(perms_from(a, i, m) =~= Seq::<(O, Seq<Seq<char>>)>::empty());
        assert(Seq::<(O, Seq<Seq<char>>)>::empty() + perms_from(b, 0, m) =~= perms_from(b, 0, m));
    }
}

proof fn lemma_perms_shift<O: Lattice>(a: Seq<PolicyNode<O>>, b: Seq<PolicyNode<O>>, j: int, m: Map<Seq<char>, Presence>)
    requires
        0 <= j <= b.len(),
    ensures
        perms_from(a + b, a.len() + j, m) == perms_from(b, j, m),
    decreases b.len() - j,
{
    if j < b.len() {
        lemma_perms_shift(a, b, j + 1, m);
        assert((a + b)[a.len() + j] == b[j]);
    }
}

proof fn lemma_perms_const<O: Lattice>(xs: Seq<PolicyNode<O>>, i: int, m1: Map<Seq<char>, Presence>, m2: Map<Seq<char>, Presence>)
    requires
        0 <= i <= xs.len(),
        forall|j: int| 0 <= j < xs.len() ==> is_constant(#[trigger] xs[j]),
    ensures
        perms_from(xs, i, m1) == perms_from(xs, i, m2),
    decreases xs.len() - i,
{
    if i < xs.len() {
        assert(is_constant(xs[i]));
        lemma_perms_const(xs, i + 1, m1, m2);
    }
}

proof fn lemma_perms_single_eo<O: Lattice>(x: PolicyNode<O>, y: PolicyNode<O>, m1: Map<Seq<char>, Presence>, m2: Map<Seq<char>, Presence>)
    requires
        eo_eq(node_eval(x, m1), node_eval(y, m2)),
    ensures
        perms_from(seq![x], 0, m1) == perms_from(seq![y], 0, m2),
{
    assert(perms_from(seq![x], 1, m1) =~= Seq::<(O, Seq<Seq<char>>)>::empty());
    assert(perms_from(seq![y], 1, m2) =~= Seq::<(O, Seq<Seq<char>>)>::empty());
}

proof fn lemma_all_from_eo<O: Lattice>(
    ps: Seq<PolicyNode<O>>,
    qs: Seq<PolicyNode<O>>,
    i: int,
    m1: Map<Seq<char>, Presence>,
    m2: Map<Seq<char>, Presence>,
    st1: AllState<O>,
    st2: AllState<O>,
)
    requires
        ps.len() == qs.len(),
        0 <= i <= ps.len(),
        forall|j: int| i <= j < ps.len() ==> #[trigger] eo_eq(node_eval(ps[j], m1), node_eval(qs[j], m2)),
        all_proj(st1) == all_proj(st2),
    ensures
        eo_eq(all_from(ps, i, m1, st1), all_from(qs, i, m2, st2)),
    decreases ps.len() - i,
{
    if i < ps.len() {
        assert(eo_eq(node_eval(ps[i], m1), node_eval(qs[i], m2)));
        let a = node_eval(ps[i], m1);
        let b = node_eval(qs[i], m2);
        match a.effect {
            Effect::Deny => {},
            Effect::Permit(o) => {
                lemma_all_from_eo(
                    ps,
                    qs,
                    i + 1,
                    m1,
                    m2,
                    all_step(st1, o, a.obligations, a.decisive),
                    all_step(st2, o, b.obligations, b.decisive),
                );
            },
        }
    }
}

proof fn lemma_residual_eo<O: Lattice>(d: DecisionView<O>, m: Map<Seq<char>, Presence>)
    requires
        dec_wf(d),
    ensures
        node_eval(residual_of_decision(d), m).effect == d.effect,
        node_eval(residual_of_decision(d), m).obligations == d.obligations,
        is_constant(residual_of_decision(d)),
{
    if d.effect is Deny {
        assert(d.obligations =~= Seq::<Seq<char>>::empty());
    }
}

proof fn lemma_reduce_all_eo<O: Lattice>(
    ps: Seq<PolicyNode<O>>,
    i: int,
    pm: Map<Seq<char>, Presence>,
    km: Map<Seq<char>, Presence>,
    consulted: Seq<Read>,
    permits: Seq<PolicyNode<O>>,
    pending: Seq<PolicyNode<O>>,
)
    requires
        completes(pm, km),
        0 <= i <= ps.len(),
        ps.len() > 0,
        arms_keep_order(ps, pm),
        forall|j: int| 0 <= j < ps.len() ==> keeps_order(#[trigger] ps[j], pm),
        permits.len() + pending.len() == i,
        forall|j: int| 0 <= j < permits.len() ==> is_constant(#[trigger] permits[j]),
        forall|j: int| 0 <= j < permits.len() ==> (#[trigger] node_eval(ps[j], km)).effect is Permit,
        forall|j: int| 0 <= j < i ==> #[trigger] eo_eq(node_eval((permits + pending)[j], km), node_eval(ps[j], km)),
        forall|j: int| permits.len() <= j < i ==> (#[trigger] reduce_node(ps[j], pm)) is Pending,
    ensures
        match reduce_all_from(ps, i, pm, consulted, permits, pending) {
            ResidualView::Resolved(d) => d.effect == all_from(ps, 0, km, None).effect && d.obligations == all_from(
                ps,
                0,
                km,
                None,
            ).obligations && dec_wf(d),
            ResidualView::Pending(r, _) => eo_eq(node_eval(r, km), all_from(ps, 0, km, None)),
        },
    decreases ps, ps.len() - i,
{
    let kp = known_part(pm);
    if i < ps.len() {
        lemma_completion_eo(ps[i], pm, km);
        match reduce_node(ps[i], pm) {
            ResidualView::Resolved(d) => {
                if pending.len() > 0 {
                    let k = permits.len() as int;
                    assert(reduce_node(ps[k], pm) is Pending);
                    assert(reduce_node(ps[i], pm) is Pending);
                }
                assert(permits + pending =~= permits);
                if d.effect is Deny {
                    assert forall|j: int| 0 <= j < i implies (#[trigger] node_eval(ps[j], km)).effect is Permit by {}
                    lemma_all_first_deny(ps, 0, i, km, None);
                } else {
                    lemma_residual_eo(d, km);
                    let p2 = permits.push(residual_of_decision(d));
                    assert(p2 + pending =~= p2);
                    assert forall|j: int| 0 <= j < i + 1 implies #[trigger] eo_eq(
                        node_eval((p2 + pending)[j], km),
                        node_eval(ps[j], km),
                    ) by {
                        if j < i {
                            assert((p2 + pending)[j] == (permits + pending)[j]);
                        }
                    }
                    assert forall|j: int| 0 <= j < p2.len() implies is_constant(#[trigger] p2[j]) by {
                        if j < permits.len() {
                            assert(p2[j] == permits[j]);
                        }
                    }
                    lemma_reduce_all_eo(ps, i + 1, pm, km, record_all(consulted, d.consulted), p2, pending);
                }
            },
            ResidualView::Pending(r, c) => {
                let q2 = pending.push(r);
                assert forall|j: int| 0 <= j < i + 1 implies #[trigger] eo_eq(
                    node_eval((permits + q2)[j], km),
                    node_eval(ps[j], km),
                ) by {
                    if j < i {
                        assert((permits + q2)[j] == (permits + pending)[j]);
                    } else {
                        assert((permits + q2)[j] == r);
                    }
                }
                lemma_reduce_all_eo(ps, i + 1, pm, km, record_all(consulted, c), permits, q2);
            },
        }
    } else {
        if pending.len() == 0 {
            assert(permits + pending =~= permits);
            assert forall|j: int| 0 <= j < permits.len() implies #[trigger] eo_eq(
                node_eval(permits[j], kp),
                node_eval(ps[j], km),
            ) by {
                assert(is_constant(permits[j]));
                assert(eo_eq(node_eval((permits + pending)[j], km), node_eval(ps[j], km)));
            }
            lemma_all_from_eo(permits, ps, 0, kp, km, None, None);
            lemma_eval_wf(PolicyNode::All(permits), kp);
        } else {
            let qs = permits + pending;
            lemma_all_from_eo(qs, ps, 0, km, km, None, None);
        }
    }
}

proof fn lemma_reduce_any_eo<O: Lattice>(
    ps: Seq<PolicyNode<O>>,
    i: int,
    pm: Map<Seq<char>, Presence>,
    km: Map<Seq<char>, Presence>,
    consulted: Seq<Read>,
    permits: Seq<PolicyNode<O>>,
    pending: Seq<PolicyNode<O>>,
    first_deny: Option<DecisionView<O>>,
    first_pending: int,
)
    requires
        completes(pm, km),
        0 <= i <= ps.len(),
        ps.len() > 0,
        arms_keep_order(ps, pm),
        forall|j: int| 0 <= j < ps.len() ==> keeps_order(#[trigger] ps[j], pm),
        forall|j: int| 0 <= j < permits.len() ==> is_constant(#[trigger] permits[j]),
        perms_from(permits + pending, 0, km) == perms_from(ps.take(i), 0, km),
        pending.len() > 0 ==> (0 <= first_pending < i && reduce_node(ps[first_pending], pm) is Pending),
        first_deny matches Some(d) ==> d.effect is Deny && dec_wf(d),
    ensures
        match reduce_any_from(ps, i, pm, consulted, permits, pending, first_deny) {
            ResidualView::Resolved(d) => d.effect == node_eval(PolicyNode::Any(ps), km).effect && d.obligations
                == node_eval(PolicyNode::Any(ps), km).obligations && dec_wf(d),
            ResidualView::Pending(r, _) => eo_eq(node_eval(r, km), node_eval(PolicyNode::Any(ps), km)),
        },
    decreases ps, ps.len() - i,
{
    let kp = known_part(pm);
    if i < ps.len() {
        lemma_completion_eo(ps[i], pm, km);
        let t1 = ps.take(i + 1);
        assert(t1 =~= ps.take(i) + seq![ps[i]]);
        lemma_perms_append(ps.take(i), seq![ps[i]], 0, km);
        match reduce_node(ps[i], pm) {
            ResidualView::Resolved(d) => {
                if pending.len() > 0 {
                    assert(reduce_node(ps[first_pending], pm) is Pending);
                    assert(reduce_node(ps[i], pm) is Pending);
                }
                assert(permits + pending =~= permits);
                let c = record_all(consulted, d.consulted);
                lemma_residual_eo(d, km);
                if d.effect is Permit {
                    let x = residual_of_decision(d);
                    let p2 = permits.push(x);
                    assert(p2 + pending =~= permits + seq![x]);
                    lemma_perms_append(permits, seq![x], 0, km);
                    lemma_perms_single_eo(x, ps[i], km, km);
                    assert forall|j: int| 0 <= j < p2.len() implies is_constant(#[trigger] p2[j]) by {
                        if j < permits.len() {
                            assert(p2[j] == permits[j]);
                        }
                    }
                    lemma_reduce_any_eo(ps, i + 1, pm, km, c, p2, pending, first_deny, first_pending);
                } else {
                    assert(perms_from(seq![ps[i]], 1, km) =~= Seq::<(O, Seq<Seq<char>>)>::empty());
                    assert(perms_from(ps.take(i), 0, km) + perms_from(seq![ps[i]], 0, km) =~= perms_from(
                        ps.take(i),
                        0,
                        km,
                    ));
                    let fd2 = if first_deny is None { Some(d) } else { first_deny };
                    lemma_reduce_any_eo(ps, i + 1, pm, km, c, permits, pending, fd2, first_pending);
                }
            },
            ResidualView::Pending(r, c) => {
                let q2 = pending.push(r);
                assert(permits + q2 =~= (permits + pending) + seq![r]);
                lemma_perms_append(permits + pending, seq![r], 0, km);
                lemma_perms_single_eo(r, ps[i], km, km);
                let fp = if pending.len() > 0 { first_pending } else { i };
                lemma_reduce_any_eo(ps, i + 1, pm, km, record_all(consulted, c), permits, q2, first_deny, fp);
            },
        }
    } else {
        assert(ps.take(i) =~= ps);
        lemma_any_from_perms(ps, 0, km, None, Seq::empty(), None);
        if pending.len() == 0 {
            assert(permits + pending =~= permits);
            if permits.len() == 0 && first_deny is Some {
                assert(perms_from(permits, 0, km) =~= Seq::<(O, Seq<Seq<char>>)>::empty());
                assert(first_deny->Some_0.obligations =~= Seq::<Seq<char>>::empty());
            } else if permits.len() == 0 {
                assert(perms_from(permits, 0, km) =~= Seq::<(O, Seq<Seq<char>>)>::empty());
            } else {
                lemma_perms_const(permits, 0, kp, km);
                lemma_any_from_perms(permits, 0, kp, None, Seq::empty(), None);
                lemma_eval_wf(PolicyNode::Any(permits), kp);
            }
        } else {
            if permits.len() == 0 && first_deny is Some {
                let x = residual_of_decision(first_deny->Some_0);
                let xs = seq![x] + pending;
                lemma_perms_append(seq![x], pending, 0, km);
                assert(perms_from(seq![x], 1, km) =~= Seq::<(O, Seq<Seq<char>>)>::empty());
                assert(perms_from(seq![x], 0, km) =~= Seq::<(O, Seq<Seq<char>>)>::empty());
                assert(permits + pending =~= pending);
                assert(Seq::<(O, Seq<Seq<char>>)>::empty() + perms_from(pending, 0, km) =~= perms_from(pending, 0, km));
                lemma_any_from_perms(xs, 0, km, None, Seq::empty(), None);
            } else {
                lemma_any_from_perms(permits + pending, 0, km, None, Seq::empty(), None);
            }
        }
    }
}

/// Partial evaluation followed by completion keeps the effect and the
/// obligations of each part of a policy whose arms keep their order.
pub proof fn lemma_completion_eo<O: Lattice>(p: PolicyNode<O>, pm: Map<Seq<char>, Presence>, km: Map<Seq<char>, Presence>)
    requires
        completes(pm, km),
        keeps_order(p, pm),
    ensures
        match reduce_node(p, pm) {
            ResidualView::Resolved(d) => d.effect == node_eval(p, km).effect && d.obligations == node_eval(
                p,
                km,
            ).obligations && dec_wf(d),
            ResidualView::Pending(r, _) => eo_eq(node_eval(r, km), node_eval(p, km)),
        },
    decreases p, 0nat,
{
    lemma_known_part_completes(pm);
    let kp = known_part(pm);
    match p {
        PolicyNode::Grant { condition, .. } => {
            lemma_reduce_cond_sound(condition, pm, km);
            lemma_reduce_cond_sound(condition, pm, kp);
            lemma_eval_wf(p, kp);
        },
        PolicyNode::All(ps) => {
            if ps.len() > 0 {
                assert(Seq::<PolicyNode<O>>::empty() + Seq::<PolicyNode<O>>::empty() =~= Seq::<PolicyNode<O>>::empty());
                lemma_reduce_all_eo(ps, 0, pm, km, Seq::empty(), Seq::empty(), Seq::empty());
            }
        },
        PolicyNode::Any(ps) => {
            if ps.len() > 0 {
                assert(Seq::<PolicyNode<O>>::empty() + Seq::<PolicyNode<O>>::empty() =~= Seq::<PolicyNode<O>>::empty());
                assert(ps.take(0) =~= Seq::<PolicyNode<O>>::empty());
                lemma_reduce_any_eo(ps, 0, pm, km, Seq::empty(), Seq::empty(), Seq::empty(), None, 0);
            }
        },
        PolicyNode::OrElse(primary, fallback) => {
            lemma_completion_eo(*primary, pm, km);
            lemma_completion_eo(*fallback, pm, km);
            match reduce_node(*primary, pm) {
                ResidualView::Resolved(d) => {},
                ResidualView::Pending(pr, c) => {
                    match reduce_node(*fallback, pm) {
                        ResidualView::Resolved(d) => {
                            lemma_residual_eo(d, km);
                        },
                        ResidualView::Pending(fr, fc) => {},
                    }
                },
            }
        },
        _ => {},
    }
}

/// Completing a partial evaluation gives the effect and the obligations that
/// evaluating the policy with the completing facts gives, for a policy whose
/// compositions have, under the partial facts, every decided arm ahead of
/// every undecided one. Partial evaluation moves decided arms ahead of
/// undecided ones, and that reordering can change which arm's obligations a
/// meet or join keeps; where no reordering happens, nothing changes.
pub proof fn law_completion_preserves_obligations<O: Lattice>(
    policy: Policy<O>,
    partial: PartialFacts,
    known: KnownFacts,
)
    requires
        completes(partial@, known@),
        keeps_order(policy@, partial@),
    ensures
        complete_view(reduce_node(policy@, partial@), known@).effect == node_eval(policy@, known@).effect,
        complete_view(reduce_node(policy@, partial@), known@).obligations == node_eval(policy@, known@).obligations,
{
    lemma_completion_eo(policy@, partial@, known@);
}

} // verus!

verus! {

/// A negated condition holds exactly when the condition fails, and reads
/// the same facts.
pub proof fn law_not_negates(c: ConditionView, m: Map<Seq<char>, Presence>)
    ensures
        cond_eval(ConditionView::Not(Box::new(c)), m).satisfied == !cond_eval(c, m).satisfied,
        cond_eval(ConditionView::Not(Box::new(c)), m).reads == cond_eval(c, m).reads,
{
}

/// A fact condition holds exactly when the fact is present; an omitted fact
/// counts as absent.
pub proof fn law_has_holds_when_present(f: Seq<char>, m: Map<Seq<char>, Presence>)
    ensures
        cond_eval(ConditionView::Has(f), m).satisfied == (presence_in(m, f) == Presence::Present),
        !m.contains_key(f) ==> !cond_eval(ConditionView::Has(f), m).satisfied,
{
}

/// Partial facts decide a negated condition exactly when they decide the
/// condition, with the opposite value.
pub proof fn law_partial_not_negates(c: ConditionView, m: Map<Seq<char>, Presence>)
    ensures
        reduce_cond(ConditionView::Not(Box::new(c)), m) is Known <==> reduce_cond(c, m) is Known,
        reduce_cond(c, m) matches ReducedCond::Known(s, _) ==> (reduce_cond(ConditionView::Not(Box::new(c)), m)
            matches ReducedCond::Known(t, _) && t == !s),
{
}

/// A `deny_when` guard permits with the top outcome exactly when its
/// condition fails, and otherwise denies with its reason and no
/// obligations.
pub proof fn law_deny_when_permits_iff_condition_fails<O: Lattice>(
    c: ConditionView,
    reason: Seq<char>,
    m: Map<Seq<char>, Presence>,
)
    ensures
        ({
            let e = node_eval(
                crate::policy::grant_node(
                    O::spec_top(),
                    ConditionView::Not(Box::new(c)),
                    None,
                    DenyShape::Forbidden,
                    Seq::empty(),
                    Some(reason),
                ),
                m,
            );
            &&& !cond_eval(c, m).satisfied ==> e.effect == Effect::Permit(O::spec_top())
            &&& cond_eval(c, m).satisfied ==> (e.effect == Effect::<O>::Deny && e.obligations.len() == 0
                && (e.decisive matches DecisiveView::Deny { reason: Some(r), .. } && r == reason))
        }),
{
}

/// A permit's audit entry never carries a denial reason: whatever the other
/// fields, the semantic check of a permit with a reason fails.
pub proof fn law_permit_entries_carry_no_denial_reason(
    obligations: Seq<crate::identity::ObligationId>,
    consulted: Seq<(Seq<char>, Presence)>,
    decisive: TraceClause,
    reason: DenialReason,
    trace: Trace,
)
    ensures
        semantics_check(EffectKind::Permit, obligations, consulted, decisive, Some(reason), trace) is Err,
        decisive is Permit && clause_equal(decisive, trace.decisive) && consulted == trace.consulted.deep_view()
            ==> semantics_check(EffectKind::Permit, obligations, consulted, decisive, Some(reason), trace)
            == Err::<(), AuditEntryError>(AuditEntryError::PermitWithDenialReason),
{
}

/// A denial's audit entry never carries obligations: whatever the other
/// fields, the semantic check of a denial with obligations fails.
pub proof fn law_deny_entries_carry_no_obligations(
    obligations: Seq<crate::identity::ObligationId>,
    consulted: Seq<(Seq<char>, Presence)>,
    decisive: TraceClause,
    reason: Option<DenialReason>,
    trace: Trace,
)
    requires
        obligations.len() > 0,
    ensures
        semantics_check(EffectKind::Deny, obligations, consulted, decisive, reason, trace) is Err,
{
}

/// A durable clause that records a typed clause keeps its facts, label,
/// reason and shape: a permit keeps exactly the facts that satisfied it, a
/// denial exactly the facts that failed it.
pub proof fn law_trace_keeps_clause_facts<O>(t: TraceClause, d: DecisiveClause<O>, outcome: TraceValue)
    requires
        records_clause(t, d, outcome),
    ensures
        d is Permit ==> (t matches TraceClause::Permit { granted, satisfied, label } && granted == outcome
            && satisfied.deep_view() == d->Permit_satisfied.deep_view() && label.deep_view()
            == d->Permit_label.deep_view()),
        d is Deny ==> (t matches TraceClause::Deny { denied, unsatisfied, label, reason, shape }
            && unsatisfied.deep_view() == d->Deny_unsatisfied.deep_view() && label.deep_view()
            == d->Deny_label.deep_view() && reason.deep_view() == d->Deny_reason.deep_view() && shape
            == d->Deny_shape && (denied is Some <==> d->Deny_denied is Some)),
{
}

/// Each consulted fact adds one line to an audit explanation: the fact,
/// then `true` when it was read as present and `false` when read as absent.
pub proof fn law_explanation_line_shows_presence(c: Seq<(Seq<char>, Presence)>, f: Seq<char>, p: Presence)
    ensures
        p == Presence::Present ==> consulted_lines(c.push((f, p))) == consulted_lines(c) + "  "@ + f + ": "@
            + "true"@ + "\n"@,
        p == Presence::Absent ==> consulted_lines(c.push((f, p))) == consulted_lines(c) + "  "@ + f + ": "@
            + "false"@ + "\n"@,
{
    assert(c.push((f, p)).drop_last() =~= c);
}

/// An audit explanation starts with the verdict and then lists the
/// consulted facts in order.
pub proof fn law_audit_explanation_lists_consulted<O>(d: DecisionView<O>)
    ensures
        explanation(d, ExplanationAudience::Audit).subrange(
            0,
            (if d.effect is Permit { 10int } else { 7int }) + consulted_lines(d.consulted).len(),
        ) == (if d.effect is Permit { "permitted\n"@ } else { "denied\n"@ }) + consulted_lines(d.consulted),
{
    reveal_strlit("permitted");
    reveal_strlit("denied");
    reveal_strlit("\n");
    reveal_strlit("permitted\n");
    reveal_strlit("denied\n");
    let head = (if d.effect is Permit { "permitted"@ } else { "denied"@ }) + "\n"@;
    assert(head =~= (if d.effect is Permit { "permitted\n"@ } else { "denied\n"@ }));
    let e = explanation(d, ExplanationAudience::Audit);
    let prefix = head + consulted_lines(d.consulted);
    assert(e.subrange(0, prefix.len() as int) =~= prefix);
}

/// The obligations that grants list.
pub open spec fn granted_obligations(gs: Seq<GrantInfo>) -> Set<Seq<char>> {
    Set::new(|o: Seq<char>| exists|i: int| 0 <= i < gs.len() && (#[trigger] gs[i]).obligations.contains(o))
}

/// Inspecting grants adds exactly the obligations they list to the
/// inventory.
pub proof fn law_inspection_lists_every_obligation(st: InspectView, gs: Seq<GrantInfo>)
    ensures
        inspect_run(st, gs).obligations == st.obligations.union(granted_obligations(gs)),
    decreases gs.len(),
{
    if gs.len() == 0 {
        assert(granted_obligations(gs) =~= Set::<Seq<char>>::empty());
        assert(st.obligations.union(Set::empty()) =~= st.obligations);
    } else {
        let g = gs[0];
        let rest = gs.drop_first();
        let st2 = crate::prepared::inspect_step(st, g);
        law_inspection_lists_every_obligation(st2, rest);
        assert(st.obligations.union(granted_obligations(gs)) =~= st2.obligations.union(granted_obligations(rest))) by {
            assert forall|o: Seq<char>| granted_obligations(gs).contains(o) <==> g.obligations.to_set().contains(o)
                || granted_obligations(rest).contains(o) by {
                if granted_obligations(gs).contains(o) {
                    let i = choose|i: int| 0 <= i < gs.len() && (#[trigger] gs[i]).obligations.contains(o);
                    if i > 0 {
                        assert(rest[i - 1] == gs[i]);
                    }
                }
                if granted_obligations(rest).contains(o) {
                    let i = choose|i: int| 0 <= i < rest.len() && (#[trigger] rest[i]).obligations.contains(o);
                    assert(gs[i + 1] == rest[i]);
                }
                if g.obligations.to_set().contains(o) {
                    assert(gs[0].obligations.contains(o));
                }
            }
        }
    }
}

/// The inventory of a single grant lists exactly that grant's obligations.
pub proof fn law_grant_inventory_lists_its_obligations<O>(
    outcome: O,
    condition: ConditionView,
    label: Option<Seq<char>>,
    deny_shape: DenyShape,
    obligations: Seq<Seq<char>>,
    reason: Option<Seq<char>>,
)
    ensures
        inspect_run(
            empty_inventory(),
            grants_of(crate::policy::grant_node(outcome, condition, label, deny_shape, obligations, reason)),
        ).obligations == obligations.to_set(),
{
    let gs = grants_of(crate::policy::grant_node(outcome, condition, label, deny_shape, obligations, reason));
    law_inspection_lists_every_obligation(empty_inventory(), gs);
    assert(granted_obligations(gs) =~= obligations.to_set()) by {
        assert forall|o: Seq<char>| obligations.to_set().contains(o) implies granted_obligations(gs).contains(o) by {
            assert(gs[0].obligations.contains(o));
        }
    }
    assert(Set::<Seq<char>>::empty().union(obligations.to_set()) =~= obligations.to_set());
}

} // verus!

verus! {

/// A conjunction holds exactly when it has arms and every arm holds; a
/// disjunction holds exactly when some arm holds.
pub proof fn law_all_and_any_conditions(cs: Seq<ConditionView>, m: Map<Seq<char>, Presence>)
    ensures
        cond_eval(ConditionView::All(cs), m).satisfied == (cs.len() > 0 && forall|j: int|
            0 <= j < cs.len() ==> #[trigger] cond_eval(cs[j], m).satisfied),
        cond_eval(ConditionView::Any(cs), m).satisfied == exists|j: int|
            0 <= j < cs.len() && #[trigger] cond_eval(cs[j], m).satisfied,
{
    if cs.len() > 0 {
        lemma_cond_all_from_sat(cs, 0, m);
        lemma_cond_any_from_sat(cs, 0, m);
    }
}

/// A grant permits with its outcome and obligations exactly when its
/// condition holds; otherwise it denies with no obligations, naming its
/// label, reason and disclosure shape and the outcome it withheld.
pub proof fn law_grant_permits_iff_condition<O: Lattice>(
    outcome: O,
    condition: ConditionView,
    label: Option<Seq<char>>,
    deny_shape: DenyShape,
    obligations: Seq<Seq<char>>,
    reason: Option<Seq<char>>,
    m: Map<Seq<char>, Presence>,
)
    ensures
        ({
            let e = node_eval(crate::policy::grant_node(outcome, condition, label, deny_shape, obligations, reason), m);
            &&& cond_eval(condition, m).satisfied ==> (e.effect == Effect::Permit(outcome) && e.obligations
                == obligations)
            &&& !cond_eval(condition, m).satisfied ==> (e.effect == Effect::<O>::Deny && e.obligations.len() == 0
                && e.decisive == DecisiveView::Deny {
                denied: Some(outcome),
                unsatisfied: cond_eval(condition, m).facts,
                label,
                reason,
                shape: deny_shape,
            })
        }),
{
}

/// A public explanation of a hidden denial does not reveal the denial.
pub proof fn law_hidden_denials_read_not_found<O>(d: DecisionView<O>)
    requires
        d.decisive matches DecisiveView::Deny { shape: DenyShape::Hidden, .. },
    ensures
        explanation(d, ExplanationAudience::Public) == "not found"@,
{
}

} // verus!
