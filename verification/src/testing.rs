//! Scenario comparison and finite lattice checks for policy authors.
use vstd::prelude::*;

use crate::decision::{Decision, DecisionView, DecisiveClause, DecisiveView, DenyShape, Effect};
use crate::evaluate::{decision_of, evaluate, node_eval};
use crate::facts::{KnownFacts, Presence};
use crate::identity::{ClauseLabel, FactId, ObligationId, ReasonCode};
use crate::policy_model::{Lattice, Policy};

verus! {

/// What changed for one supplied scenario. This is not a proof of equivalence.
#[derive(Debug)]
pub struct ScenarioComparison<O> {
    /// Previous decision.
    pub before: Decision<O>,
    /// Proposed decision.
    pub after: Decision<O>,
}

/// Disclosure shape of a decisive denial.
pub open spec fn shape_of<O>(d: DecisiveView<O>) -> Option<DenyShape> {
    match d {
        DecisiveView::Deny { shape, .. } => Some(shape),
        DecisiveView::Permit { .. } => None,
    }
}

fn shape<O>(decision: &Decision<O>) -> (s: Option<DenyShape>)
    ensures
        s == shape_of(decision@.decisive),
{
    match &decision.trace.decisive {
        DecisiveClause::Deny { shape, .. } => Some(*shape),
        DecisiveClause::Permit { .. } => None,
    }
}

fn same_effect<O: Lattice>(a: &Effect<O>, b: &Effect<O>) -> (r: bool)
    ensures
        r == (*a == *b),
{
    match (a, b) {
        (Effect::Permit(x), Effect::Permit(y)) => x.same(y),
        (Effect::Deny, Effect::Deny) => true,
        _ => false,
    }
}

fn same_outcome<O: Lattice>(a: &Option<O>, b: &Option<O>) -> (r: bool)
    ensures
        r == (*a == *b),
{
    match (a, b) {
        (Some(x), Some(y)) => x.same(y),
        (None, None) => true,
        _ => false,
    }
}

fn same_obligations(a: &Vec<ObligationId>, b: &Vec<ObligationId>) -> (r: bool)
    ensures
        r == (a.deep_view() == b.deep_view()),
{
    if a.len() != b.len() {
        assert(a.deep_view().len() != b.deep_view().len());
        return false;
    }
    let mut i: usize = 0;
    while i < a.len()
        invariant
            i <= a@.len(),
            a@.len() == b@.len(),
            forall|k: int| 0 <= k < i ==> a.deep_view()[k] == b.deep_view()[k],
        decreases a@.len() - i,
    {
        if !a[i].same(&b[i]) {
            assert(a.deep_view()[i as int] != b.deep_view()[i as int]);
            return false;
        }
        i = i + 1;
    }
    assert(a.deep_view() =~= b.deep_view());
    true
}

fn same_facts(a: &Vec<FactId>, b: &Vec<FactId>) -> (r: bool)
    ensures
        r == (a.deep_view() == b.deep_view()),
{
    if a.len() != b.len() {
        assert(a.deep_view().len() != b.deep_view().len());
        return false;
    }
    let mut i: usize = 0;
    while i < a.len()
        invariant
            i <= a@.len(),
            a@.len() == b@.len(),
            forall|k: int| 0 <= k < i ==> a.deep_view()[k] == b.deep_view()[k],
        decreases a@.len() - i,
    {
        if !a[i].same(&b[i]) {
            assert(a.deep_view()[i as int] != b.deep_view()[i as int]);
            return false;
        }
        i = i + 1;
    }
    assert(a.deep_view() =~= b.deep_view());
    true
}

fn same_reads(a: &Vec<(FactId, Presence)>, b: &Vec<(FactId, Presence)>) -> (r: bool)
    ensures
        r == (a.deep_view() == b.deep_view()),
{
    if a.len() != b.len() {
        assert(a.deep_view().len() != b.deep_view().len());
        return false;
    }
    let mut i: usize = 0;
    while i < a.len()
        invariant
            i <= a@.len(),
            a@.len() == b@.len(),
            forall|k: int| 0 <= k < i ==> a.deep_view()[k] == b.deep_view()[k],
        decreases a@.len() - i,
    {
        if !a[i].0.same(&b[i].0) || a[i].1 != b[i].1 {
            assert(a.deep_view()[i as int] != b.deep_view()[i as int]);
            return false;
        }
        i = i + 1;
    }
    assert(a.deep_view() =~= b.deep_view());
    true
}

fn same_label(a: &Option<ClauseLabel>, b: &Option<ClauseLabel>) -> (r: bool)
    ensures
        r == (a.deep_view() == b.deep_view()),
{
    match (a, b) {
        (Some(x), Some(y)) => x.same(y),
        (None, None) => true,
        _ => false,
    }
}

fn same_reason(a: &Option<ReasonCode>, b: &Option<ReasonCode>) -> (r: bool)
    ensures
        r == (a.deep_view() == b.deep_view()),
{
    match (a, b) {
        (Some(x), Some(y)) => x.same(y),
        (None, None) => true,
        _ => false,
    }
}

fn same_decisive<O: Lattice>(a: &DecisiveClause<O>, b: &DecisiveClause<O>) -> (r: bool)
    ensures
        r == (a@ == b@),
{
    match (a, b) {
        (
            DecisiveClause::Permit { granted: g1, satisfied: s1, label: l1 },
            DecisiveClause::Permit { granted: g2, satisfied: s2, label: l2 },
        ) => g1.same(g2) && same_facts(s1, s2) && same_label(l1, l2),
        (
            DecisiveClause::Deny { denied: d1, unsatisfied: u1, label: l1, reason: r1, shape: h1 },
            DecisiveClause::Deny { denied: d2, unsatisfied: u2, label: l2, reason: r2, shape: h2 },
        ) => same_outcome(d1, d2) && same_facts(u1, u2) && same_label(l1, l2) && same_reason(r1, r2)
            && *h1 == *h2,
        _ => false,
    }
}

impl<O: Lattice> ScenarioComparison<O> {
    /// Whether permission, outcome, obligations or disclosure shape changed.
    pub fn authority_changed(&self) -> (b: bool)
        ensures
            b == (self.before@.effect != self.after@.effect || self.before@.obligations
                != self.after@.obligations || shape_of(self.before@.decisive) != shape_of(
                self.after@.decisive,
            )),
    {
        !same_effect(&self.before.effect, &self.after.effect) || !same_obligations(
            &self.before.obligations,
            &self.after.obligations,
        ) || shape(&self.before) != shape(&self.after)
    }

    /// Whether the recorded explanation changed, independently of authority.
    pub fn explanation_changed(&self) -> (b: bool)
        ensures
            b == (self.before@.consulted != self.after@.consulted || self.before@.decisive
                != self.after@.decisive),
    {
        !same_reads(&self.before.trace.consulted, &self.after.trace.consulted) || !same_decisive(
            &self.before.trace.decisive,
            &self.after.trace.decisive,
        )
    }
}

/// Compares two policy revisions on explicit synthetic observations.
pub fn compare_scenario<O: Lattice>(before: &Policy<O>, after: &Policy<O>, facts: &KnownFacts) -> (c:
    ScenarioComparison<O>)
    ensures
        c.before@ == decision_of(node_eval(before@, facts@)),
        c.after@ == decision_of(node_eval(after@, facts@)),
{
    ScenarioComparison { before: evaluate(before, facts), after: evaluate(after, facts) }
}

/// A law failed for supplied outcomes. Values are intentionally not dumped.
#[derive(Clone, Debug, PartialEq, Eq)]
pub struct LatticeLawFailure {
    /// Name of the failed law.
    pub law: &'static str,
}

/// Whether the listed values hold `o`.
pub open spec fn listed<O>(vs: Seq<O>, o: O) -> bool {
    vs.contains(o)
}

/// First failing law among the triples `(l, r, vs[k..])`, if any.
pub open spec fn associativity_from<O: Lattice>(vs: Seq<O>, l: O, r: O, k: int) -> bool
    decreases vs.len() - k,
{
    if 0 <= k < vs.len() {
        let t = vs[k];
        (l.spec_meet(r.spec_meet(t)) == l.spec_meet(r).spec_meet(t) && l.spec_join(r.spec_join(t))
            == l.spec_join(r).spec_join(t)) && associativity_from(vs, l, r, k + 1)
    } else {
        true
    }
}

/// First failing law for the pair `(l, r)`, if any.
pub open spec fn pair_failure<O: Lattice>(vs: Seq<O>, l: O, r: O) -> Option<&'static str> {
    if !(listed(vs, l.spec_meet(r)) && listed(vs, l.spec_join(r))) {
        Some("closure")
    } else if !(l.spec_meet(r) == r.spec_meet(l) && l.spec_join(r) == r.spec_join(l)) {
        Some("commutativity")
    } else if !(l.spec_meet(l.spec_join(r)) == l && l.spec_join(l.spec_meet(r)) == l) {
        Some("absorption")
    } else if !associativity_from(vs, l, r, 0) {
        Some("associativity")
    } else {
        None
    }
}

/// First failing law for the pairs `(l, vs[j..])`, if any.
pub open spec fn pairs_failure<O: Lattice>(vs: Seq<O>, l: O, j: int) -> Option<&'static str>
    decreases vs.len() - j,
{
    if 0 <= j < vs.len() {
        match pair_failure(vs, l, vs[j]) {
            Some(law) => Some(law),
            None => pairs_failure(vs, l, j + 1),
        }
    } else {
        None
    }
}

/// First failing law for the values `vs[i..]` on the left, if any.
pub open spec fn lefts_failure<O: Lattice>(vs: Seq<O>, i: int) -> Option<&'static str>
    decreases vs.len() - i,
{
    if 0 <= i < vs.len() {
        let l = vs[i];
        if !(l.spec_meet(l) == l && l.spec_join(l) == l) {
            Some("idempotence")
        } else if !(l.spec_meet(O::spec_top()) == l && l.spec_join(O::spec_bottom()) == l) {
            Some("identity")
        } else {
            match pairs_failure(vs, l, 0) {
                Some(law) => Some(law),
                None => lefts_failure(vs, i + 1),
            }
        }
    } else {
        None
    }
}

/// First failing law over a finite outcome list, if any.
pub open spec fn lattice_failure<O: Lattice>(vs: Seq<O>) -> Option<&'static str> {
    if !(listed(vs, O::spec_top()) && listed(vs, O::spec_bottom())) {
        Some("listed bounds")
    } else {
        lefts_failure(vs, 0)
    }
}

fn contains_outcome<O: Lattice>(values: &[O], o: &O) -> (b: bool)
    ensures
        b == listed(values@, *o),
{
    let mut i: usize = 0;
    while i < values.len()
        invariant
            i <= values@.len(),
            forall|k: int| 0 <= k < i ==> values@[k] != *o,
        decreases values@.len() - i,
    {
        if values[i].same(o) {
            assert(values@[i as int] == *o);
            return true;
        }
        i = i + 1;
    }
    false
}

fn ensure(condition: bool, law: &'static str) -> (r: Result<(), LatticeLawFailure>)
    ensures
        condition ==> r is Ok,
        !condition ==> r == Err::<(), LatticeLawFailure>(LatticeLawFailure { law }),
{
    if condition {
        Ok(())
    } else {
        Err(LatticeLawFailure { law })
    }
}

/// Exhaustively checks laws over a caller-supplied finite outcome set.
///
/// Supply every outcome to establish the finite contract. A sample only checks
/// those samples and is not a proof for an infinite or incompletely listed type.
/// Reports missing bounds, closure, idempotence, identity, absorption,
/// commutativity or associativity violations, the first one found.
pub fn check_lattice<O: Lattice>(values: &[O]) -> (r: Result<(), LatticeLawFailure>)
    ensures
        match lattice_failure(values@) {
            Some(law) => r == Err::<(), LatticeLawFailure>(LatticeLawFailure { law }),
            None => r is Ok,
        },
{
    let top = O::top();
    let bottom = O::bottom();
    let bounds = contains_outcome(values, &top) && contains_outcome(values, &bottom);
    if let Err(e) = ensure(bounds, "listed bounds") {
        return Err(e);
    }
    let mut i: usize = 0;
    while i < values.len()
        invariant
            i <= values@.len(),
            lattice_failure(values@) == lefts_failure(values@, i as int),
        decreases values@.len() - i,
    {
        let left = &values[i];
        let idempotent = left.meet(left).same(left) && left.join(left).same(left);
        if let Err(e) = ensure(idempotent, "idempotence") {
            return Err(e);
        }
        let identity = left.meet(&O::top()).same(left) && left.join(&O::bottom()).same(left);
        if let Err(e) = ensure(identity, "identity") {
            return Err(e);
        }
        let mut j: usize = 0;
        while j < values.len()
            invariant
                i < values@.len(),
                j <= values@.len(),
                *left == values@[i as int],
                lattice_failure(values@) == lefts_failure(values@, i as int),
                left.spec_meet(*left) == *left && left.spec_join(*left) == *left,
                left.spec_meet(O::spec_top()) == *left && left.spec_join(O::spec_bottom()) == *left,
                pairs_failure(values@, *left, 0) == pairs_failure(values@, *left, j as int),
            decreases values@.len() - j,
        {
            if let Err(e) = check_pair(values, left, &values[j]) {
                return Err(e);
            }
            j = j + 1;
        }
        i = i + 1;
    }
    Ok(())
}

fn check_pair<O: Lattice>(values: &[O], left: &O, right: &O) -> (r: Result<(), LatticeLawFailure>)
    ensures
        match pair_failure(values@, *left, *right) {
            Some(law) => r == Err::<(), LatticeLawFailure>(LatticeLawFailure { law }),
            None => r is Ok,
        },
{
    let closed = contains_outcome(values, &left.meet(right)) && contains_outcome(
        values,
        &left.join(right),
    );
    if let Err(e) = ensure(closed, "closure") {
        return Err(e);
    }
    let commutative = left.meet(right).same(&right.meet(left)) && left.join(right).same(
        &right.join(left),
    );
    if let Err(e) = ensure(commutative, "commutativity") {
        return Err(e);
    }
    let absorbing = left.meet(&left.join(right)).same(left) && left.join(&left.meet(right)).same(
        left,
    );
    if let Err(e) = ensure(absorbing, "absorption") {
        return Err(e);
    }
    let mut k: usize = 0;
    while k < values.len()
        invariant
            k <= values@.len(),
            listed(values@, left.spec_meet(*right)) && listed(values@, left.spec_join(*right)),
            left.spec_meet(*right) == right.spec_meet(*left) && left.spec_join(*right) == right.spec_join(*left),
            left.spec_meet(left.spec_join(*right)) == *left && left.spec_join(left.spec_meet(*right)) == *left,
            associativity_from(values@, *left, *right, 0) == associativity_from(
                values@,
                *left,
                *right,
                k as int,
            ),
        decreases values@.len() - k,
    {
        let third = &values[k];
        let associative = left.meet(&right.meet(third)).same(&left.meet(right).meet(third))
            && left.join(&right.join(third)).same(&left.join(right).join(third));
        if let Err(e) = ensure(associative, "associativity") {
            assert(!associativity_from(values@, *left, *right, k as int));
            return Err(e);
        }
        k = k + 1;
    }
    Ok(())
}

} // verus!
