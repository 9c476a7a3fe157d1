//! Prepared policies: identity, required facts, metadata inventory and replay.
use vstd::prelude::*;

use crate::audit::{AuditEntry, PolicyAnchor};
use crate::decision::Decision;
use crate::digest::{blake3_hex, blake3_of, hex_text};
use crate::evaluate::{decision_of, evaluate, node_eval, node_facts, required_facts};
use crate::facts::{inserted_all, recorded, KnownFacts, Presence};
use crate::identity::{ClauseLabel, FactId, ObligationId, PolicyHash, PolicyId};
use crate::order::{lemma_lex_total, lemma_lex_transitive, lex_less, str_less, strictly_sorted};
use crate::policy_model::{policy_view, Lattice, Policy, PolicyNode};
use crate::resolution::{observed_presence, FactObservation};

verus! {

impl<O> Policy<O> {
    /// Computes a stable hash of the serialized policy value: the BLAKE3 hash
    /// of `encoded`, the policy's deterministic encoding, in lowercase
    /// hexadecimal.
    pub fn hash(&self, encoded: &[u8]) -> (h: PolicyHash)
        ensures
            h@ == hex_text(blake3_of(encoded@)),
    {
        let text = blake3_hex(encoded);
        PolicyHash::from_trusted(text.as_str())
    }
}

/// Immutable policy with its versioned identity and required facts computed
/// once.
///
/// Preparation does not execute application checks or cache their results.
#[derive(Debug)]
pub struct PreparedPolicy<O> {
    policy: Policy<O>,
    anchor: PolicyAnchor,
    required: Vec<FactId>,
}

impl<O> PreparedPolicy<O> {
    /// The prepared policy.
    pub closed spec fn policy_of(&self) -> Policy<O> {
        self.policy
    }

    /// The prepared identity.
    pub closed spec fn anchor_of(&self) -> PolicyAnchor {
        self.anchor
    }

    /// The required facts, by text.
    pub closed spec fn required_of(&self) -> Seq<Seq<char>> {
        self.required.deep_view()
    }

    /// The required facts are the facts the policy names, strictly ascending.
    #[verifier::type_invariant]
    closed spec fn wf(self) -> bool {
        &&& strictly_sorted(self.required.deep_view())
        &&& self.required.deep_view().to_set() == node_facts(self.policy@)
    }

    /// Prepares a policy for repeated evaluation. `encoded` is the policy's
    /// deterministic encoding, from which its hash is derived.
    pub fn new(id: PolicyId, policy: Policy<O>, encoded: &[u8]) -> (p: Self)
        ensures
            p.policy_of() == policy,
            p.anchor_of().id_of() == id,
            p.anchor_of().hash_of()@ == hex_text(blake3_of(encoded@)),
            p.anchor_of().version_of() == crate::audit::POLICY_HASH_FORMAT_VERSION,
            strictly_sorted(p.required_of()),
            p.required_of().to_set() == node_facts(policy@),
    {
        let hash = policy.hash(encoded);
        let anchor = PolicyAnchor::new(id, hash);
        let required = required_facts(&policy);
        PreparedPolicy { policy, anchor, required }
    }

    /// Borrows the original policy; its semantics and hash format are unchanged.
    pub fn policy(&self) -> (p: &Policy<O>)
        ensures
            *p == self.policy_of(),
    {
        &self.policy
    }

    /// Borrows the prepared policy identity.
    pub fn anchor(&self) -> (a: &PolicyAnchor)
        ensures
            *a == self.anchor_of(),
    {
        &self.anchor
    }

    /// Borrows required identities in deterministic order.
    pub fn required_facts(&self) -> (r: &[FactId])
        ensures
            r@.map_values(|f: FactId| f@) == self.required_of(),
            strictly_sorted(self.required_of()),
            self.required_of().to_set() == node_facts(self.policy_of()@),
    {
        proof {
            use_type_invariant(self);
        }
        self.required.as_slice()
    }
}

/// Metadata of one grant: its label, reason code and obligations.
pub struct GrantInfo {
    pub label: Option<Seq<char>>,
    pub reason: Option<Seq<char>>,
    pub obligations: Seq<Seq<char>>,
}

/// The grants of a policy in traversal order: a composition's children from
/// first to last, a fallback composition's primary before its fallback.
pub open spec fn grants_of<O>(p: PolicyNode<O>) -> Seq<GrantInfo>
    decreases p, 0nat,
{
    match p {
        PolicyNode::Grant { label, reason, obligations, .. } => seq![GrantInfo { label, reason, obligations }],
        PolicyNode::All(ps) => grants_from(ps, 0),
        PolicyNode::Any(ps) => grants_from(ps, 0),
        PolicyNode::OrElse(primary, fallback) => grants_of(*primary) + grants_of(*fallback),
        _ => Seq::empty(),
    }
}

/// The grants of the policies `ps[i..]`, in order.
pub open spec fn grants_from<O>(ps: Seq<PolicyNode<O>>, i: int) -> Seq<GrantInfo>
    decreases ps, ps.len() - i,
{
    if 0 <= i < ps.len() {
        grants_of(ps[i]) + grants_from(ps, i + 1)
    } else {
        Seq::empty()
    }
}

/// Advisory finding, by text.
pub enum AdviceView {
    UnlabeledGrant,
    DuplicateLabel(Seq<char>),
    MissingReason,
}

/// What an inventory holds, by text.
pub struct InspectView {
    pub labels: Set<Seq<char>>,
    pub reasons: Set<Seq<char>>,
    pub obligations: Set<Seq<char>>,
    pub advice: Seq<AdviceView>,
}

/// The advice for a grant's label, given the labels seen before it.
pub open spec fn label_advice(seen: Set<Seq<char>>, label: Option<Seq<char>>) -> Seq<AdviceView> {
    match label {
        None => seq![AdviceView::UnlabeledGrant],
        Some(l) => if seen.contains(l) {
            seq![AdviceView::DuplicateLabel(l)]
        } else {
            Seq::empty()
        },
    }
}

/// The reason a grant explains itself with: its reason code, else its label.
pub open spec fn reason_or_label(g: GrantInfo) -> Option<Seq<char>> {
    match g.reason {
        Some(r) => Some(r),
        None => g.label,
    }
}

/// The inventory after one more grant.
pub open spec fn inspect_step(st: InspectView, g: GrantInfo) -> InspectView {
    InspectView {
        labels: match g.label {
            Some(l) => st.labels.insert(l),
            None => st.labels,
        },
        reasons: match reason_or_label(g) {
            Some(r) => st.reasons.insert(r),
            None => st.reasons,
        },
        obligations: st.obligations.union(g.obligations.to_set()),
        advice: st.advice + label_advice(st.labels, g.label) + if reason_or_label(g) is None {
            seq![AdviceView::MissingReason]
        } else {
            Seq::<AdviceView>::empty()
        },
    }
}

/// The inventory after the grants `gs`, in order.
pub open spec fn inspect_run(st: InspectView, gs: Seq<GrantInfo>) -> InspectView
    decreases gs.len(),
{
    if gs.len() == 0 {
        st
    } else {
        inspect_run(inspect_step(st, gs[0]), gs.drop_first())
    }
}

/// Running over two lists in turn is running over their concatenation.
pub proof fn lemma_inspect_run_concat(st: InspectView, a: Seq<GrantInfo>, b: Seq<GrantInfo>)
    ensures
        inspect_run(st, a + b) == inspect_run(inspect_run(st, a), b),
    decreases a.len(),
{
    if a.len() > 0 {
        assert((a + b).drop_first() =~= a.drop_first() + b);
        lemma_inspect_run_concat(inspect_step(st, a[0]), a.drop_first(), b);
    } else {
        assert(a + b =~= b);
    }
}

/// The empty inventory.
pub open spec fn empty_inventory() -> InspectView {
    InspectView { labels: Set::empty(), reasons: Set::empty(), obligations: Set::empty(), advice: Seq::empty() }
}

/// Advisory authoring issue; it does not change evaluation or invalidate a
/// policy.
#[derive(Clone, Debug, PartialEq, Eq)]
pub enum PolicyAdvice<'a> {
    /// A grant has no stable label for explanations.
    UnlabeledGrant,
    /// More than one grant uses this label.
    DuplicateLabel(&'a ClauseLabel),
    /// A grant has neither a reason nor a label usable as a fallback reason.
    MissingReason,
}

/// The text form of a finding.
pub open spec fn advice_view(a: PolicyAdvice) -> AdviceView {
    match a {
        PolicyAdvice::UnlabeledGrant => AdviceView::UnlabeledGrant,
        PolicyAdvice::DuplicateLabel(l) => AdviceView::DuplicateLabel(l@),
        PolicyAdvice::MissingReason => AdviceView::MissingReason,
    }
}

/// An item of an inventory set, ordered by its text.
pub trait Keyed {
    /// The text by which the item is ordered.
    spec fn key_of(&self) -> Seq<char>;

    /// Returns the text by which the item is ordered.
    fn key(&self) -> (k: &str)
        ensures
            k@ == self.key_of(),
    ;
}

impl<'b> Keyed for &'b ClauseLabel {
    open spec fn key_of(&self) -> Seq<char> {
        (**self)@
    }

    fn key(&self) -> (k: &str) {
        (**self).as_str()
    }
}

impl<'b> Keyed for &'b ObligationId {
    open spec fn key_of(&self) -> Seq<char> {
        (**self)@
    }

    fn key(&self) -> (k: &str) {
        (**self).as_str()
    }
}

impl<'b> Keyed for &'b str {
    open spec fn key_of(&self) -> Seq<char> {
        (*self)@
    }

    fn key(&self) -> (k: &str) {
        *self
    }
}

/// The texts of a list of keyed items.
pub open spec fn keys<K: Keyed>(s: Seq<K>) -> Seq<Seq<char>> {
    Seq::new(s.len(), |i: int| s[i].key_of())
}

/// Inserts an item into a list strictly ordered by text unless one with the
/// same text is there; reports whether it was inserted.
fn insert_key<K: Keyed>(v: &mut Vec<K>, x: K) -> (inserted: bool)
    requires
        strictly_sorted(keys(old(v)@)),
    ensures
        strictly_sorted(keys(final(v)@)),
        keys(final(v)@).to_set() == keys(old(v)@).to_set().insert(x.key_of()),
        inserted == !keys(old(v)@).to_set().contains(x.key_of()),
{
    let ghost s = keys(v@);
    let ghost before = v@;
    let ghost k = x.key_of();
    let mut j: usize = 0;
    while j < v.len() && str_less(v[j].key(), x.key())
        invariant
            j <= v@.len(),
            v@ == before,
            s == keys(before),
            strictly_sorted(s),
            k == x.key_of(),
            forall|i: int| 0 <= i < j ==> lex_less(#[trigger] s[i], k),
        decreases v@.len() - j,
    {
        j = j + 1;
    }
    if j < v.len() && crate::order::str_eq(v[j].key(), x.key()) {
        assert(s[j as int] == k);
        assert(s.to_set().contains(k));
        assert(s.to_set().insert(k) =~= s.to_set());
        return false;
    }
    proof {
        if j < s.len() {
            lemma_lex_total(s[j as int], k);
        }
        if s.to_set().contains(k) {
            let i = choose|i: int| 0 <= i < s.len() && s[i] == k;
            if i < j {
                crate::order::lemma_lex_irreflexive(k);
            } else if i > j {
                lemma_lex_transitive(k, s[j as int], s[i]);
                crate::order::lemma_lex_irreflexive(k);
            }
        }
    }
    let ghost item = x;
    v.insert(j, x);
    proof {
        let t = keys(v@);
        before.insert_ensures(j as int, item);
        assert forall|i: int| 0 <= i < t.len() implies #[trigger] t[i] == (if i < j {
            s[i]
        } else if i == j {
            k
        } else {
            s[i - 1]
        }) by {}
        assert forall|a: int, b: int| 0 <= a < b < t.len() implies lex_less(#[trigger] t[a], #[trigger] t[b]) by {
            if a == j && b - 1 > j {
                lemma_lex_transitive(k, s[j as int], s[b - 1]);
            }
        }
        assert forall|y: Seq<char>| t.to_set().contains(y) == s.to_set().insert(k).contains(y) by {
            if t.contains(y) {
                let i = choose|i: int| 0 <= i < t.len() && t[i] == y;
                if i < j {
                    assert(s[i] == y);
                } else if i > j {
                    assert(s[i - 1] == y);
                }
            }
            if s.contains(y) {
                let i = choose|i: int| 0 <= i < s.len() && s[i] == y;
                if i < j {
                    assert(t[i] == y);
                } else {
                    assert(t[i + 1] == y);
                }
            }
            if y == k {
                assert(t[j as int] == y);
            }
        }
        assert(t.to_set() =~= s.to_set().insert(k));
    }
    true
}

/// Borrowed metadata inventory for tooling and reason-catalog checks.
#[derive(Clone, Debug)]
pub struct PolicyInspection<'a> {
    /// Grant labels, ordered by text, each once.
    pub labels: Vec<&'a ClauseLabel>,
    /// Explicit reason codes and label fallbacks, ordered, each once.
    pub reasons: Vec<&'a str>,
    /// Required application obligations, ordered by text, each once.
    pub obligations: Vec<&'a ObligationId>,
    /// Advisory findings in policy traversal order.
    pub advice: Vec<PolicyAdvice<'a>>,
}

impl<'a> PolicyInspection<'a> {
    /// The inventory, by text.
    pub open spec fn inventory(&self) -> InspectView {
        InspectView {
            labels: keys(self.labels@).to_set(),
            reasons: keys(self.reasons@).to_set(),
            obligations: keys(self.obligations@).to_set(),
            advice: advice_texts(self.advice@),
        }
    }

    /// The three sets are held in strict text order.
    pub open spec fn ordered(&self) -> bool {
        &&& strictly_sorted(keys(self.labels@))
        &&& strictly_sorted(keys(self.reasons@))
        &&& strictly_sorted(keys(self.obligations@))
    }

    fn grant(&mut self, label: Option<&'a ClauseLabel>, reason: Option<&'a str>, obligations: &'a Vec<ObligationId>)
        requires
            old(self).ordered(),
        ensures
            final(self).ordered(),
            final(self).inventory() == inspect_step(
                old(self).inventory(),
                GrantInfo {
                    label: match label {
                        Some(l) => Some(l@),
                        None => None,
                    },
                    reason: match reason {
                        Some(r) => Some(r@),
                        None => None,
                    },
                    obligations: obligations.deep_view(),
                },
            ),
    {
        let ghost st = self.inventory();
        let ghost g = GrantInfo {
            label: match label {
                Some(l) => Some(l@),
                None => None,
            },
            reason: match reason {
                Some(r) => Some(r@),
                None => None,
            },
            obligations: obligations.deep_view(),
        };
        let ghost advice0 = self.advice@;
        match label {
            None => {
                self.advice.push(PolicyAdvice::UnlabeledGrant);
                proof {
                    lemma_advice_push(advice0, PolicyAdvice::UnlabeledGrant);
                }
            },
            Some(l) => {
                let inserted = insert_key(&mut self.labels, l);
                if !inserted {
                    self.advice.push(PolicyAdvice::DuplicateLabel(l));
                    proof {
                        lemma_advice_push(advice0, PolicyAdvice::DuplicateLabel(l));
                    }
                } else {
                    assert(advice_texts(self.advice@) =~= advice_texts(advice0) + label_advice(st.labels, g.label));
                }
            },
        }
        let ghost advice1 = self.advice@;
        assert(advice_texts(advice1) == advice_texts(advice0) + label_advice(st.labels, g.label));
        let explained: Option<&'a str> = match reason {
            Some(r) => Some(r),
            None => match label {
                Some(l) => Some(l.as_str()),
                None => None,
            },
        };
        match explained {
            Some(r) => {
                insert_key(&mut self.reasons, r);
                assert(advice_texts(self.advice@) =~= advice_texts(advice1) + Seq::<AdviceView>::empty());
            },
            None => {
                self.advice.push(PolicyAdvice::MissingReason);
                proof {
                    lemma_advice_push(advice1, PolicyAdvice::MissingReason);
                }
            },
        }
        let ghost labels2 = self.labels@;
        let ghost reasons2 = self.reasons@;
        let ghost advice2 = self.advice@;
        let ghost obligations0 = keys(self.obligations@).to_set();
        let mut i: usize = 0;
        while i < obligations.len()
            invariant
                i <= obligations@.len(),
                self.labels@ == labels2,
                self.reasons@ == reasons2,
                self.advice@ == advice2,
                strictly_sorted(keys(labels2)),
                strictly_sorted(keys(reasons2)),
                strictly_sorted(keys(self.obligations@)),
                keys(self.obligations@).to_set() == obligations0.union(obligations.deep_view().take(i as int).to_set()),
            decreases obligations@.len() - i,
        {
            insert_key(&mut self.obligations, &obligations[i]);
            proof {
                let d = obligations.deep_view();
                lemma_take_next_set(d, i as int);
            }
            i = i + 1;
        }
        assert(obligations.deep_view().take(i as int) =~= obligations.deep_view());
        assert(self.inventory().advice =~= inspect_step(st, g).advice);
        assert(self.inventory().obligations =~= inspect_step(st, g).obligations);
    }
}

/// Findings by text.
pub open spec fn advice_texts<'a>(s: Seq<PolicyAdvice<'a>>) -> Seq<AdviceView> {
    s.map_values(|a: PolicyAdvice<'a>| advice_view(a))
}

proof fn lemma_advice_push<'a>(s: Seq<PolicyAdvice<'a>>, a: PolicyAdvice<'a>)
    ensures
        advice_texts(s.push(a)) == advice_texts(s) + seq![advice_view(a)],
{
    assert(advice_texts(s.push(a)) =~= advice_texts(s) + seq![advice_view(a)]);
}

proof fn lemma_take_next_set(d: Seq<Seq<char>>, i: int)
    requires
        0 <= i < d.len(),
    ensures
        d.take(i + 1).to_set() == d.take(i).to_set().insert(d[i]),
{
    let a = d.take(i + 1);
    let b = d.take(i);
    assert forall|y: Seq<char>| a.to_set().contains(y) == b.to_set().insert(d[i]).contains(y) by {
        if a.contains(y) {
            let k = choose|k: int| 0 <= k < a.len() && a[k] == y;
            if k < i {
                assert(b[k] == y);
            }
        }
        if b.contains(y) {
            let k = choose|k: int| 0 <= k < b.len() && b[k] == y;
            assert(a[k] == y);
        }
        if y == d[i] {
            assert(a[i] == y);
        }
    }
    assert(a.to_set() =~= b.to_set().insert(d[i]));
}

/// Records the grants of a policy into an inventory, in traversal order.
fn inspect_policy<'a, O>(policy: &'a Policy<O>, inspection: &mut PolicyInspection<'a>)
    requires
        old(inspection).ordered(),
    ensures
        final(inspection).ordered(),
        final(inspection).inventory() == inspect_run(old(inspection).inventory(), grants_of(policy@)),
    decreases policy, 0nat,
{
    match policy {
        Policy::Grant { label, reason, obligations, .. } => {
            let ghost st = inspection.inventory();
            inspection.grant(
                label.as_ref(),
                match reason {
                    Some(r) => Some(r.as_str()),
                    None => None,
                },
                obligations,
            );
            proof {
                let gs = grants_of(policy@);
                assert(gs.drop_first() =~= Seq::<GrantInfo>::empty());
                reveal_with_fuel(inspect_run, 2);
            }
        },
        Policy::All(policies) | Policy::Any(policies) => {
            let ghost vs = match policy@ {
                PolicyNode::All(vs) => vs,
                PolicyNode::Any(vs) => vs,
                _ => Seq::empty(),
            };
            inspect_policies(policies, inspection, Ghost(vs));
        },
        Policy::OrElse { primary, fallback } => {
            let ghost st = inspection.inventory();
            inspect_policy(primary, inspection);
            inspect_policy(fallback, inspection);
            proof {
                lemma_inspect_run_concat(st, grants_of(primary@), grants_of(fallback@));
            }
        },
        _ => {},
    }
}

fn inspect_policies<'a, O>(policies: &'a Vec<Policy<O>>, inspection: &mut PolicyInspection<'a>, Ghost(vs): Ghost<Seq<PolicyNode<O>>>)
    requires
        old(inspection).ordered(),
        vs.len() == policies@.len(),
        forall|k: int| 0 <= k < vs.len() ==> vs[k] == #[trigger] policy_view(policies@[k]),
    ensures
        final(inspection).ordered(),
        final(inspection).inventory() == inspect_run(old(inspection).inventory(), grants_from(vs, 0)),
    decreases policies, 1nat,
{
    let ghost st0 = inspection.inventory();
    let mut i: usize = 0;
    while i < policies.len()
        invariant
            i <= policies@.len(),
            vs.len() == policies@.len(),
            forall|k: int| 0 <= k < vs.len() ==> vs[k] == #[trigger] policy_view(policies@[k]),
            inspection.ordered(),
            inspect_run(inspection.inventory(), grants_from(vs, i as int)) == inspect_run(st0, grants_from(vs, 0)),
        decreases policies@.len() - i,
    {
        let ghost before = inspection.inventory();
        assert(vs[i as int] == policy_view(policies@[i as int]));
        inspect_policy(&policies[i], inspection);
        proof {
            lemma_inspect_run_concat(before, grants_of(vs[i as int]), grants_from(vs, i + 1));
        }
        i = i + 1;
    }
}

impl<O> PreparedPolicy<O> {
    /// Inventories metadata without evaluating checks or exposing application
    /// context: every grant's label, reason (or label as fallback) and
    /// obligations, and advice for unlabeled grants, repeated labels and
    /// grants with neither reason nor label, in traversal order.
    pub fn inspect(&self) -> (r: PolicyInspection<'_>)
        ensures
            r.ordered(),
            r.inventory() == inspect_run(empty_inventory(), grants_of(self.policy_of()@)),
    {
        let mut inspection = PolicyInspection {
            labels: Vec::new(),
            reasons: Vec::new(),
            obligations: Vec::new(),
            advice: Vec::new(),
        };
        assert(inspection.inventory() =~= empty_inventory()) by {
            assert(keys(inspection.labels@).to_set() =~= Set::<Seq<char>>::empty());
            assert(keys(inspection.reasons@).to_set() =~= Set::<Seq<char>>::empty());
            assert(keys(inspection.obligations@).to_set() =~= Set::<Seq<char>>::empty());
            assert(advice_texts(inspection.advice@) =~= Seq::<AdviceView>::empty());
        }
        inspect_policy(&self.policy, &mut inspection);
        inspection
    }
}

/// Historical evidence cannot reconstruct the supplied policy's inputs.
#[derive(Clone, Debug, PartialEq, Eq)]
pub enum ReplayError {
    /// Policy identity, content hash or hash format differs.
    PolicyMismatch,
    /// Selected evidence omitted required observations; a digest cannot
    /// recover them.
    MissingObservations(Vec<FactId>),
}

/// The facts that retained observations record, a later observation of a
/// fact replacing an earlier one.
pub open spec fn observed_map(obs: Seq<FactObservation>) -> Map<Seq<char>, Presence> {
    inserted_all(Map::empty(), Seq::new(obs.len(), |i: int| (obs[i].fact_of()@, observed_presence(obs[i].value_of()))))
}

impl<O: Lattice> PreparedPolicy<O> {
    /// Reconstructs a historical decision from explicitly retained
    /// observations.
    ///
    /// Requires the same policy anchor and an observation of every required
    /// fact. Does not query sources, infer omitted negatives or refresh
    /// authority: this is historical analysis, not permission for a new
    /// operation.
    pub fn replay(&self, entry: &AuditEntry) -> (r: Result<Decision<O>, ReplayError>)
        ensures
            !self.anchor_of().same_as(&entry.anchor_of()) ==> r matches Err(ReplayError::PolicyMismatch),
            self.anchor_of().same_as(&entry.anchor_of()) ==> {
                let m = observed_map(entry.evidence_of().observations_of());
                let missing = self.required_of().filter(|f: Seq<char>| !m.contains_key(f));
                &&& missing.len() > 0 ==> (r matches Err(ReplayError::MissingObservations(v)) && v.deep_view() == missing)
                &&& missing.len() == 0 ==> (r matches Ok(d) && d@ == decision_of(node_eval(self.policy_of()@, m)))
            },
    {
        if !self.anchor.same(entry.anchor()) {
            return Err(ReplayError::PolicyMismatch);
        }
        let observations = entry.fact_resolution().observations();
        let ghost obs = observations@;
        let ghost es = Seq::new(obs.len(), |i: int| (obs[i].fact_of()@, observed_presence(obs[i].value_of())));
        let mut facts = KnownFacts::new();
        let mut i: usize = 0;
        while i < observations.len()
            invariant
                i <= obs.len(),
                obs == observations@,
                es == Seq::new(obs.len(), |i: int| (obs[i].fact_of()@, observed_presence(obs[i].value_of()))),
                facts@ == inserted_all(Map::empty(), es.take(i as int)),
            decreases obs.len() - i,
        {
            let presence = if observations[i].value() {
                Presence::Present
            } else {
                Presence::Absent
            };
            facts = facts.insert_known(observations[i].fact().duplicate(), presence);
            proof {
                assert(es.take(i + 1).drop_last() =~= es.take(i as int));
            }
            i = i + 1;
        }
        assert(es.take(i as int) =~= es);
        let ghost m = facts@;
        let ghost req = self.required.deep_view();
        let mut missing: Vec<FactId> = Vec::new();
        let mut j: usize = 0;
        while j < self.required.len()
            invariant
                j <= self.required@.len(),
                req == self.required.deep_view(),
                m == facts@,
                missing.deep_view() == req.take(j as int).filter(|f: Seq<char>| !m.contains_key(f)),
            decreases self.required@.len() - j,
        {
            proof {
                assert(req.take(j + 1).drop_last() =~= req.take(j as int));
                reveal(Seq::filter);
            }
            if facts.observation(&self.required[j]).is_none() {
                missing.push(self.required[j].duplicate());
                proof {
                    assert(missing.deep_view() =~= req.take(j + 1).filter(|f: Seq<char>| !m.contains_key(f)));
                }
            } else {
                proof {
                    assert(missing.deep_view() =~= req.take(j + 1).filter(|f: Seq<char>| !m.contains_key(f)));
                }
            }
            j = j + 1;
        }
        assert(req.take(j as int) =~= req);
        if missing.len() > 0 {
            return Err(ReplayError::MissingObservations(missing));
        }
        Ok(evaluate(&self.policy, &facts))
    }
}

} // verus!
