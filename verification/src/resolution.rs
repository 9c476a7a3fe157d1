//! Fact-resolution envelopes, selected observations and their evidence.
use vstd::prelude::*;

use crate::clock::Timestamp;
use crate::digest::{blake3_digest, blake3_of};
use crate::facts::{recorded, KnownFacts, Presence};
use crate::identity::{chars_of, is_control, is_control_char, utf8_len, FactId};
use crate::order::{lemma_lex_irreflexive, lemma_lex_total, lemma_lex_transitive, lex_less, str_less};
use crate::tenant::{BindingProvenance, EvidenceDigest};

verus! {

/// Maximum selected observations retained by one decision.
pub const MAX_FACT_OBSERVATIONS: usize = 256;

/// Longest fact identity retained as evidence, in UTF-8 bytes.
pub const MAX_OBSERVED_FACT_BYTES: usize = 128;

/// Declares the error type of `postcard`.
#[verifier::external_type_specification]
#[verifier::external_body]
pub struct ExPostcardError(postcard::Error);

/// Invalid or stale freshness information in a resolver envelope.
#[derive(Clone, Debug, PartialEq, Eq)]
pub enum FactResolutionError {
    /// The resolver reported a freshness deadline before its observation time.
    InvalidFreshnessWindow {
        /// Time at which the source observed the fact set.
        observed_at: Timestamp,
        /// Reported freshness deadline.
        fresh_until: Timestamp,
    },
    /// The resolver result expired before the decision boundary consumed it.
    Expired {
        /// Time at which the result was received.
        received_at: Timestamp,
        /// Reported freshness deadline.
        fresh_until: Timestamp,
    },
    /// The source observation is later than the decision boundary consuming it.
    ObservedInFuture {
        /// Time at which the source observed the fact set.
        observed_at: Timestamp,
        /// Time at which the result was received.
        received_at: Timestamp,
    },
}

/// Invalid selected evidence. Errors never include source content.
#[derive(Clone, Debug, PartialEq, Eq)]
pub enum ObservationError {
    /// A fact identity exceeds the evidence bound or contains controls.
    InvalidIdentity,
    /// The event exceeds the selected-observation bound.
    TooMany,
    /// An identity occurs twice, even with the same boolean.
    Duplicate,
    /// Evidence does not match the explicit resolved boolean.
    Mismatch,
    /// An observation has an impossible time or has expired.
    Freshness(FactResolutionError),
}

/// Failure while creating bounded fact-set evidence.
#[derive(Debug)]
pub enum FactResolutionEvidenceError {
    /// Selected evidence conflicts with the supplied resolution.
    Observation(ObservationError),
    /// The deterministic fact representation could not be serialized.
    Serialization(postcard::Error),
}

/// Resolver metadata supplied by an application for one fact-set observation.
#[derive(Clone, Debug, PartialEq, Eq)]
pub struct FactResolutionMetadata {
    source: BindingProvenance,
    revision: Option<BindingProvenance>,
    fresh_until: Option<Timestamp>,
}

impl FactResolutionMetadata {
    /// The source reference.
    pub closed spec fn source_of(&self) -> BindingProvenance {
        self.source
    }

    /// The source revision, if any.
    pub closed spec fn revision_of(&self) -> Option<BindingProvenance> {
        self.revision
    }

    /// The freshness deadline, if any.
    pub closed spec fn deadline(&self) -> Option<Timestamp> {
        self.fresh_until
    }

    /// Creates metadata for one observed fact-set read.
    pub fn new(source: BindingProvenance, revision: Option<BindingProvenance>, fresh_until: Option<Timestamp>) -> (m: Self)
        ensures
            m.source_of() == source,
            m.revision_of() == revision,
            m.deadline() == fresh_until,
    {
        FactResolutionMetadata { source, revision, fresh_until }
    }

    /// Returns the source reference for the resolved fact set.
    pub fn source(&self) -> (s: &BindingProvenance)
        ensures
            *s == self.source_of(),
    {
        &self.source
    }

    /// Returns the optional source revision observed for the fact set.
    pub fn revision(&self) -> (r: Option<&BindingProvenance>)
        ensures
            r == match self.revision_of() {
                Some(v) => Some(&v),
                None => None::<&BindingProvenance>,
            },
    {
        self.revision.as_ref()
    }

    /// Returns the optional freshness deadline supplied by the source.
    pub fn fresh_until(&self) -> (t: Option<Timestamp>)
        ensures
            t == self.deadline(),
    {
        self.fresh_until
    }

    /// Returns an identical copy of this metadata.
    pub fn duplicate(&self) -> (m: Self)
        ensures
            m == *self,
    {
        FactResolutionMetadata {
            source: self.source.duplicate(),
            revision: copy_provenance(&self.revision),
            fresh_until: self.fresh_until,
        }
    }
}

/// A copy of an optional provenance label.
pub(crate) fn copy_provenance(p: &Option<BindingProvenance>) -> (q: Option<BindingProvenance>)
    ensures
        q == *p,
{
    match p {
        Some(v) => Some(v.duplicate()),
        None => None,
    }
}

/// The freshness deadline carried by optional metadata.
pub open spec fn deadline_of(m: Option<FactResolutionMetadata>) -> Option<Timestamp> {
    match m {
        Some(m) => m.deadline(),
        None => None,
    }
}

/// A deadline before the observation is an impossible window.
pub open spec fn window_fault(m: Option<FactResolutionMetadata>, observed_at: Timestamp) -> Option<FactResolutionError> {
    match deadline_of(m) {
        Some(fresh_until) => if fresh_until.instant() < observed_at.instant() {
            Some(FactResolutionError::InvalidFreshnessWindow { observed_at, fresh_until })
        } else {
            None
        },
        None => None,
    }
}

/// A result observed after its receipt, or received at or after its
/// deadline, is refused.
pub open spec fn receipt_fault(
    m: Option<FactResolutionMetadata>,
    observed_at: Timestamp,
    received_at: Timestamp,
) -> Option<FactResolutionError> {
    if observed_at.instant() > received_at.instant() {
        Some(FactResolutionError::ObservedInFuture { observed_at, received_at })
    } else {
        match deadline_of(m) {
            Some(fresh_until) => if received_at.instant() >= fresh_until.instant() {
                Some(FactResolutionError::Expired { received_at, fresh_until })
            } else {
                None
            },
            None => None,
        }
    }
}

/// Checks the deadline against the observation time.
fn check_window(m: &Option<FactResolutionMetadata>, observed_at: Timestamp) -> (r: Option<FactResolutionError>)
    ensures
        r == window_fault(*m, observed_at),
{
    match m {
        Some(m) => match m.fresh_until() {
            Some(fresh_until) => if fresh_until.is_before(&observed_at) {
                Some(FactResolutionError::InvalidFreshnessWindow { observed_at, fresh_until })
            } else {
                None
            },
            None => None,
        },
        None => None,
    }
}

/// Checks the observation and deadline against the receipt time.
fn check_receipt(m: &Option<FactResolutionMetadata>, observed_at: Timestamp, received_at: Timestamp) -> (r: Option<
    FactResolutionError,
>)
    ensures
        r == receipt_fault(*m, observed_at, received_at),
{
    if received_at.is_before(&observed_at) {
        return Some(FactResolutionError::ObservedInFuture { observed_at, received_at });
    }
    match m {
        Some(m) => match m.fresh_until() {
            Some(fresh_until) => if !received_at.is_before(&fresh_until) {
                Some(FactResolutionError::Expired { received_at, fresh_until })
            } else {
                None
            },
            None => None,
        },
        None => None,
    }
}

/// A selected boolean observation and bounded source metadata, never a
/// domain object.
///
/// Source and revision labels are application assertions, not verified
/// credentials. An observation inherits the tenant and resource scope of its
/// enclosing decision.
#[derive(Clone, Debug, PartialEq, Eq)]
pub struct FactObservation {
    fact: FactId,
    value: bool,
    metadata: Option<FactResolutionMetadata>,
    observed_at: Timestamp,
}

/// A fact identity is retained as evidence when it has at most
/// `MAX_OBSERVED_FACT_BYTES` bytes and no control character.
pub open spec fn evidence_identity_ok(s: Seq<char>) -> bool {
    utf8_len(s) <= MAX_OBSERVED_FACT_BYTES && forall|i: int| 0 <= i < s.len() ==> !is_control_char(#[trigger] s[i])
}

/// The presence that a boolean observation records.
pub open spec fn observed_presence(value: bool) -> Presence {
    if value {
        Presence::Present
    } else {
        Presence::Absent
    }
}

impl FactObservation {
    /// The observed fact.
    pub closed spec fn fact_of(&self) -> FactId {
        self.fact
    }

    /// The observed boolean.
    pub closed spec fn value_of(&self) -> bool {
        self.value
    }

    /// The source metadata.
    pub closed spec fn metadata_of(&self) -> Option<FactResolutionMetadata> {
        self.metadata
    }

    /// When the fact was observed.
    pub closed spec fn time_of(&self) -> Timestamp {
        self.observed_at
    }

    /// The outcome of checking this observation at `now`.
    pub open spec fn freshness_at(&self, now: Timestamp) -> Result<(), FactResolutionError> {
        match window_fault(self.metadata_of(), self.time_of()) {
            Some(e) => Err(e),
            None => match receipt_fault(self.metadata_of(), self.time_of(), now) {
                Some(e) => Err(e),
                None => Ok(()),
            },
        }
    }

    /// Records a bounded fact identity, boolean and optional source
    /// provenance; rejects oversized or control-bearing identities, then
    /// impossible freshness windows.
    pub fn new(
        fact: FactId,
        value: bool,
        metadata: Option<FactResolutionMetadata>,
        observed_at: Timestamp,
    ) -> (r: Result<Self, ObservationError>)
        ensures
            !evidence_identity_ok(fact@) ==> r == Err::<Self, ObservationError>(ObservationError::InvalidIdentity),
            evidence_identity_ok(fact@) ==> match window_fault(metadata, observed_at) {
                Some(e) => r == Err::<Self, ObservationError>(ObservationError::Freshness(e)),
                None => r matches Ok(o) && o.fact_of() == fact && o.value_of() == value && o.metadata_of()
                    == metadata && o.time_of() == observed_at,
            },
    {
        let text = fact.as_str();
        if text.len() > MAX_OBSERVED_FACT_BYTES {
            return Err(ObservationError::InvalidIdentity);
        }
        let cs = chars_of(text);
        let mut i: usize = 0;
        while i < cs.len()
            invariant
                cs@ == fact@,
                i <= cs.len(),
                forall|j: int| 0 <= j < i ==> !is_control_char(#[trigger] fact@[j]),
            decreases cs.len() - i,
        {
            if is_control(cs[i]) {
                return Err(ObservationError::InvalidIdentity);
            }
            i = i + 1;
        }
        match check_window(&metadata, observed_at) {
            Some(e) => return Err(ObservationError::Freshness(e)),
            None => {},
        }
        Ok(FactObservation { fact, value, metadata, observed_at })
    }

    /// Stable named check.
    pub fn fact(&self) -> (f: &FactId)
        ensures
            *f == self.fact_of(),
    {
        &self.fact
    }

    /// Observed boolean, including an explicit negative.
    pub fn value(&self) -> (v: bool)
        ensures
            v == self.value_of(),
    {
        self.value
    }

    /// Source-provided metadata; absence makes no provenance claim.
    pub fn metadata(&self) -> (m: Option<&FactResolutionMetadata>)
        ensures
            m == match self.metadata_of() {
                Some(v) => Some(&v),
                None => None::<&FactResolutionMetadata>,
            },
    {
        self.metadata.as_ref()
    }

    /// When this check was observed.
    pub fn observed_at(&self) -> (t: Timestamp)
        ensures
            t == self.time_of(),
    {
        self.observed_at
    }

    /// Checks freshness at enforcement time: rejects impossible windows,
    /// future observations and expired ones.
    pub fn validate_at(&self, now: Timestamp) -> (r: Result<(), FactResolutionError>)
        ensures
            r == self.freshness_at(now),
    {
        match check_window(&self.metadata, self.observed_at) {
            Some(e) => return Err(e),
            None => {},
        }
        match check_receipt(&self.metadata, self.observed_at, now) {
            Some(e) => Err(e),
            None => Ok(()),
        }
    }

    /// Returns an identical copy of this observation.
    pub fn duplicate(&self) -> (o: Self)
        ensures
            o == *self,
    {
        FactObservation {
            fact: self.fact.duplicate(),
            value: self.value,
            metadata: match &self.metadata {
                Some(m) => Some(m.duplicate()),
                None => None,
            },
            observed_at: self.observed_at,
        }
    }
}

/// The fact identities of a list of observations.
pub open spec fn observed_facts(obs: Seq<FactObservation>) -> Seq<Seq<char>> {
    Seq::new(obs.len(), |i: int| obs[i].fact_of()@)
}

/// No two observations name the same fact.
pub open spec fn distinct_facts(obs: Seq<FactObservation>) -> bool {
    forall|i: int, j: int| 0 <= i < j < obs.len() ==> obs[i].fact_of()@ != obs[j].fact_of()@
}

/// The outcome of checking a bundle of observations for size and repeats.
pub open spec fn bundle_check(obs: Seq<FactObservation>) -> Result<(), ObservationError> {
    if obs.len() > MAX_FACT_OBSERVATIONS {
        Err(ObservationError::TooMany)
    } else if !distinct_facts(obs) {
        Err(ObservationError::Duplicate)
    } else {
        Ok(())
    }
}

/// Every observation agrees with the facts that `m` records.
pub open spec fn agrees(obs: Seq<FactObservation>, m: Map<Seq<char>, Presence>) -> bool {
    forall|i: int| 0 <= i < obs.len() ==> recorded(m, #[trigger] obs[i].fact_of()@) == Some(observed_presence(obs[i].value_of()))
}

/// The outcome of matching observations against resolved facts.
pub open spec fn match_check(obs: Seq<FactObservation>, m: Map<Seq<char>, Presence>) -> Result<(), ObservationError> {
    match bundle_check(obs) {
        Err(e) => Err(e),
        Ok(_) => if agrees(obs, m) {
            Ok(())
        } else {
            Err(ObservationError::Mismatch)
        },
    }
}

/// The first freshness failure among observations, in order.
pub open spec fn first_stale(obs: Seq<FactObservation>, now: Timestamp) -> Option<FactResolutionError>
    decreases obs.len(),
{
    if obs.len() == 0 {
        None
    } else {
        match obs[0].freshness_at(now) {
            Err(e) => Some(e),
            Ok(_) => first_stale(obs.drop_first(), now),
        }
    }
}

/// Checks that a bundle is bounded and names each fact once.
pub(crate) fn validate_all(observations: &[FactObservation]) -> (r: Result<(), ObservationError>)
    ensures
        r == bundle_check(observations@),
{
    if observations.len() > MAX_FACT_OBSERVATIONS {
        return Err(ObservationError::TooMany);
    }
    let mut j: usize = 0;
    while j < observations.len()
        invariant
            j <= observations@.len(),
            observations@.len() <= MAX_FACT_OBSERVATIONS,
            forall|a: int, b: int| 0 <= a < b < j ==> observations@[a].fact_of()@ != observations@[b].fact_of()@,
        decreases observations@.len() - j,
    {
        let mut i: usize = 0;
        while i < j
            invariant
                i <= j < observations@.len(),
                observations@.len() <= MAX_FACT_OBSERVATIONS,
                forall|a: int| 0 <= a < i ==> observations@[a].fact_of()@ != observations@[j as int].fact_of()@,
            decreases j - i,
        {
            if observations[i].fact().same(observations[j].fact()) {
                assert(observations@[i as int].fact_of()@ == observations@[j as int].fact_of()@);
                assert(!distinct_facts(observations@));
                return Err(ObservationError::Duplicate);
            }
            i = i + 1;
        }
        j = j + 1;
    }
    Ok(())
}

/// Checks a bundle, then each observation against the resolved facts.
pub(crate) fn match_all(observations: &[FactObservation], facts: &KnownFacts) -> (r: Result<(), ObservationError>)
    ensures
        r == match_check(observations@, facts@),
{
    match validate_all(observations) {
        Err(e) => return Err(e),
        Ok(_) => {},
    }
    let mut i: usize = 0;
    while i < observations.len()
        invariant
            i <= observations@.len(),
            bundle_check(observations@) == Ok::<(), ObservationError>(()),
            forall|a: int| 0 <= a < i ==> recorded(facts@, #[trigger] observations@[a].fact_of()@) == Some(
                observed_presence(observations@[a].value_of()),
            ),
        decreases observations@.len() - i,
    {
        let expected = if observations[i].value() {
            Presence::Present
        } else {
            Presence::Absent
        };
        let found = facts.observation(observations[i].fact());
        if found != Some(expected) {
            assert(recorded(facts@, observations@[i as int].fact_of()@) != Some(
                observed_presence(observations@[i as int].value_of()),
            ));
            assert(!agrees(observations@, facts@));
            return Err(ObservationError::Mismatch);
        }
        i = i + 1;
    }
    Ok(())
}

/// Observations ordered strictly by fact identity.
pub open spec fn sorted_by_fact(s: Seq<FactObservation>) -> bool {
    forall|a: int, b: int| 0 <= a < b < s.len() ==> lex_less(#[trigger] s[a].fact_of()@, #[trigger] s[b].fact_of()@)
}

/// Inserts an observation of a fact not yet present, keeping fact order.
fn insert_by_fact(sorted: &mut Vec<FactObservation>, item: FactObservation)
    requires
        sorted_by_fact(old(sorted)@),
        forall|k: int| 0 <= k < old(sorted)@.len() ==> #[trigger] old(sorted)@[k].fact_of()@ != item.fact_of()@,
    ensures
        sorted_by_fact(final(sorted)@),
        final(sorted)@.len() == old(sorted)@.len() + 1,
        final(sorted)@.to_set() == old(sorted)@.to_set().insert(item),
{
    let ghost before = sorted@;
    let mut j: usize = 0;
    while j < sorted.len() && str_less(sorted[j].fact().as_str(), item.fact().as_str())
        invariant
            j <= sorted@.len(),
            sorted@ == before,
            forall|k: int| 0 <= k < j ==> lex_less(#[trigger] before[k].fact_of()@, item.fact_of()@),
        decreases sorted@.len() - j,
    {
        j = j + 1;
    }
    proof {
        if j < before.len() {
            assert(before[j as int].fact_of()@ != item.fact_of()@);
            lemma_lex_total(before[j as int].fact_of()@, item.fact_of()@);
        }
    }
    let ghost it = item;
    sorted.insert(j, item);
    proof {
        let t = sorted@;
        before.insert_ensures(j as int, it);
        assert forall|k: int| 0 <= k < t.len() implies #[trigger] t[k] == (if k < j {
            before[k]
        } else if k == j {
            it
        } else {
            before[k - 1]
        }) by {}
        assert forall|a: int, b: int| 0 <= a < b < t.len() implies lex_less(
            #[trigger] t[a].fact_of()@,
            #[trigger] t[b].fact_of()@,
        ) by {
            if a == j && b - 1 > j {
                lemma_lex_transitive(it.fact_of()@, before[j as int].fact_of()@, before[b - 1].fact_of()@);
            }
        }
        assert forall|x: FactObservation| t.to_set().contains(x) == before.to_set().insert(it).contains(x) by {
            if t.contains(x) {
                let k = choose|k: int| 0 <= k < t.len() && t[k] == x;
                if k < j {
                    assert(before[k] == x);
                } else if k > j {
                    assert(before[k - 1] == x);
                }
            }
            if before.contains(x) {
                let k = choose|k: int| 0 <= k < before.len() && before[k] == x;
                if k < j {
                    assert(t[k] == x);
                } else {
                    assert(t[k + 1] == x);
                }
            }
            if x == it {
                assert(t[j as int] == x);
            }
        }
        assert(t.to_set() =~= before.to_set().insert(it));
    }
}

/// The last `n` items of `s` as a set, after one more is taken from the front.
proof fn lemma_suffix_set(all: Seq<FactObservation>, n: int)
    requires
        0 < n <= all.len(),
    ensures
        all.subrange(n - 1, all.len() as int).to_set() == all.subrange(n, all.len() as int).to_set().insert(all[n - 1]),
{
    let hi = all.subrange(n - 1, all.len() as int);
    let lo = all.subrange(n, all.len() as int);
    assert forall|x: FactObservation| hi.to_set().contains(x) == lo.to_set().insert(all[n - 1]).contains(x) by {
        if hi.contains(x) {
            let k = choose|k: int| 0 <= k < hi.len() && hi[k] == x;
            if k > 0 {
                assert(lo[k - 1] == x);
            }
        }
        if lo.contains(x) {
            let k = choose|k: int| 0 <= k < lo.len() && lo[k] == x;
            assert(hi[k + 1] == x);
        }
        if x == all[n - 1] {
            assert(hi[0] == x);
        }
    }
    assert(hi.to_set() =~= lo.to_set().insert(all[n - 1]));
}

/// Orders observations by fact identity; the facts must be distinct.
fn sort_by_fact(observations: Vec<FactObservation>) -> (sorted: Vec<FactObservation>)
    requires
        distinct_facts(observations@),
    ensures
        sorted@.len() == observations@.len(),
        sorted@.to_set() == observations@.to_set(),
        sorted_by_fact(sorted@),
{
    let ghost all = observations@;
    let mut rest = observations;
    let mut sorted: Vec<FactObservation> = Vec::new();
    assert(all.subrange(all.len() as int, all.len() as int).to_set() =~= Set::<FactObservation>::empty());
    while rest.len() > 0
        invariant
            sorted@.len() + rest@.len() == all.len(),
            rest@ == all.subrange(0, rest@.len() as int),
            sorted@.to_set() == all.subrange(rest@.len() as int, all.len() as int).to_set(),
            distinct_facts(all),
            sorted_by_fact(sorted@),
            forall|a: int, b: int| 0 <= a < sorted@.len() && 0 <= b < rest@.len() ==> sorted@[a].fact_of()@ != rest@[b].fact_of()@,
        decreases rest@.len(),
    {
        let ghost n: int = rest@.len() as int;
        let ghost before = sorted@;
        let item = rest.pop().unwrap();
        proof {
            assert(item == all[n - 1]);
            assert forall|k: int| 0 <= k < before.len() implies #[trigger] before[k].fact_of()@ != item.fact_of()@ by {
                assert(all.subrange(0, n)[n - 1] == item);
            }
            lemma_suffix_set(all, n);
        }
        insert_by_fact(&mut sorted, item);
        proof {
            let t = sorted@;
            assert(rest@ =~= all.subrange(0, rest@.len() as int));
            assert forall|a: int, b: int| 0 <= a < t.len() && 0 <= b < rest@.len() implies t[a].fact_of()@ != rest@[b].fact_of()@ by {
                assert(rest@[b] == all[b]);
                assert(t.to_set().contains(t[a]));
                assert(before.to_set().insert(item).contains(t[a]));
                if t[a] == item {
                    assert(b < n - 1);
                } else {
                    let k = choose|k: int| 0 <= k < before.len() && before[k] == t[a];
                    assert(all.subrange(0, n)[b] == all[b]);
                }
            }
        }
    }
    assert(all.subrange(0, all.len() as int) =~= all);
    sorted
}

/// One atomic result from a fact resolver.
///
/// Facts and the metadata describing the observation are returned together
/// so an adapter cannot associate metadata from another read with the
/// current fact set.
#[derive(Debug)]
pub struct FactResolution<F> {
    facts: F,
    metadata: Option<FactResolutionMetadata>,
    observed_at: Timestamp,
    observations: Vec<FactObservation>,
}

impl<F> FactResolution<F> {
    /// The resolved facts.
    pub closed spec fn facts_of(&self) -> F {
        self.facts
    }

    /// The resolver metadata.
    pub closed spec fn metadata_of(&self) -> Option<FactResolutionMetadata> {
        self.metadata
    }

    /// When the resolver observed the fact set.
    pub closed spec fn time_of(&self) -> Timestamp {
        self.observed_at
    }

    /// The selected observations.
    pub closed spec fn observations_of(&self) -> Seq<FactObservation> {
        self.observations@
    }

    /// The outcome of checking this result at `received_at`: each selected
    /// observation in order, then the envelope itself.
    pub open spec fn freshness_at(&self, received_at: Timestamp) -> Result<(), FactResolutionError> {
        match first_stale(self.observations_of(), received_at) {
            Some(e) => Err(e),
            None => match receipt_fault(self.metadata_of(), self.time_of(), received_at) {
                Some(e) => Err(e),
                None => Ok(()),
            },
        }
    }

    /// Creates an atomic fact-resolution envelope with no selected
    /// observations. A freshness deadline must be at or after the
    /// observation time.
    pub fn new(facts: F, metadata: Option<FactResolutionMetadata>, observed_at: Timestamp) -> (r: Result<
        Self,
        FactResolutionError,
    >)
        ensures
            match window_fault(metadata, observed_at) {
                Some(e) => r matches Err(e2) && e2 == e,
                None => r matches Ok(res) && res.facts_of() == facts && res.metadata_of() == metadata
                    && res.time_of() == observed_at && res.observations_of() == Seq::<FactObservation>::empty(),
            },
    {
        match check_window(&metadata, observed_at) {
            Some(e) => Err(e),
            None => Ok(FactResolution { facts, metadata, observed_at, observations: Vec::new() }),
        }
    }

    /// Returns the resolved facts.
    pub fn facts(&self) -> (f: &F)
        ensures
            *f == self.facts_of(),
    {
        &self.facts
    }

    /// Returns metadata captured by the resolver for this observation.
    pub fn metadata(&self) -> (m: Option<&FactResolutionMetadata>)
        ensures
            m == match self.metadata_of() {
                Some(v) => Some(&v),
                None => None::<&FactResolutionMetadata>,
            },
    {
        self.metadata.as_ref()
    }

    /// Returns when the resolver observed the fact set.
    pub fn observed_at(&self) -> (t: Timestamp)
        ensures
            t == self.time_of(),
    {
        self.observed_at
    }

    /// Selected bounded observations in stable fact order.
    pub fn observations(&self) -> (o: &[FactObservation])
        ensures
            o@ == self.observations_of(),
    {
        self.observations.as_slice()
    }

    /// Checks that the result is still fresh when it reaches the decision
    /// boundary: every selected observation, then an observation later than
    /// the receipt, then an elapsed deadline. No clock-skew grace applies.
    pub fn validate_at(&self, received_at: Timestamp) -> (r: Result<(), FactResolutionError>)
        ensures
            r == self.freshness_at(received_at),
    {
        let mut i: usize = 0;
        assert(self.observations@.skip(0) =~= self.observations@);
        while i < self.observations.len()
            invariant
                i <= self.observations@.len(),
                first_stale(self.observations@, received_at) == first_stale(self.observations@.skip(i as int), received_at),
            decreases self.observations@.len() - i,
        {
            let ghost s = self.observations@.skip(i as int);
            assert(s.drop_first() =~= self.observations@.skip(i + 1));
            match self.observations[i].validate_at(received_at) {
                Err(e) => return Err(e),
                Ok(_) => {},
            }
            i = i + 1;
        }
        assert(self.observations@.skip(i as int).len() == 0);
        match check_receipt(&self.metadata, self.observed_at, received_at) {
            Some(e) => Err(e),
            None => Ok(()),
        }
    }

    /// Consumes the envelope and returns its facts, metadata and observation
    /// time. Selected per-fact evidence is discarded; retain the envelope for
    /// audit.
    pub fn into_parts(self) -> (parts: (F, Option<FactResolutionMetadata>, Timestamp))
        ensures
            parts == (self.facts_of(), self.metadata_of(), self.time_of()),
    {
        (self.facts, self.metadata, self.observed_at)
    }
}

impl FactResolution<KnownFacts> {
    /// Attaches selected per-fact evidence, checked against the explicit
    /// facts and stored in fact order; rejects oversized bundles, repeated
    /// identities and conflicting values.
    pub fn with_observations(self, observations: Vec<FactObservation>) -> (r: Result<Self, ObservationError>)
        ensures
            match match_check(observations@, self.facts_of()@) {
                Err(e) => r == Err::<Self, ObservationError>(e),
                Ok(_) => r matches Ok(res) && res.facts_of() == self.facts_of() && res.metadata_of()
                    == self.metadata_of() && res.time_of() == self.time_of()
                    && res.observations_of().len() == observations@.len()
                    && res.observations_of().to_set() == observations@.to_set()
                    && sorted_by_fact(res.observations_of()),
            },
    {
        match match_all(observations.as_slice(), &self.facts) {
            Err(e) => return Err(e),
            Ok(_) => {},
        }
        let sorted = sort_by_fact(observations);
        Ok(FactResolution {
            facts: self.facts,
            metadata: self.metadata,
            observed_at: self.observed_at,
            observations: sorted,
        })
    }
}

/// Bounded evidence for the complete resolved fact set used by one decision.
#[derive(Clone, Debug, PartialEq, Eq)]
pub struct FactResolutionEvidence {
    source: Option<BindingProvenance>,
    revision: Option<BindingProvenance>,
    observed_at: Timestamp,
    fresh_until: Option<Timestamp>,
    fact_set_digest: EvidenceDigest,
    observations: Vec<FactObservation>,
}

impl FactResolutionEvidence {
    /// The source reference, if any.
    pub closed spec fn source_of(&self) -> Option<BindingProvenance> {
        self.source
    }

    /// The source revision, if any.
    pub closed spec fn revision_of(&self) -> Option<BindingProvenance> {
        self.revision
    }

    /// When the resolver observed the fact set.
    pub closed spec fn time_of(&self) -> Timestamp {
        self.observed_at
    }

    /// The freshness deadline, if any.
    pub closed spec fn deadline(&self) -> Option<Timestamp> {
        self.fresh_until
    }

    /// The digest of the complete fact set.
    pub closed spec fn digest(&self) -> EvidenceDigest {
        self.fact_set_digest
    }

    /// The selected observations.
    pub closed spec fn observations_of(&self) -> Seq<FactObservation> {
        self.observations@
    }

    /// The outcome of checking the evidence's freshness window.
    pub open spec fn window_check(&self) -> Result<(), FactResolutionError> {
        match self.deadline() {
            Some(fresh_until) => if fresh_until.instant() < self.time_of().instant() {
                Err(FactResolutionError::InvalidFreshnessWindow { observed_at: self.time_of(), fresh_until })
            } else {
                Ok(())
            },
            None => Ok(()),
        }
    }

    /// Checks that the deadline, if any, is not before the observation.
    pub fn validate(&self) -> (r: Result<(), FactResolutionError>)
        ensures
            r == self.window_check(),
    {
        match self.fresh_until {
            Some(fresh_until) => if fresh_until.is_before(&self.observed_at) {
                Err(FactResolutionError::InvalidFreshnessWindow { observed_at: self.observed_at, fresh_until })
            } else {
                Ok(())
            },
            None => Ok(()),
        }
    }

    /// Whether this evidence records `resolution`, whose facts encode to
    /// `encoded_facts`: the digest of the encoding, the observation time, the
    /// selected observations and the source metadata.
    pub open spec fn records(&self, resolution: FactResolution<KnownFacts>, encoded_facts: Seq<u8>) -> bool {
        &&& self.digest()@ == blake3_of(encoded_facts)
        &&& self.time_of() == resolution.time_of()
        &&& self.observations_of() == resolution.observations_of()
        &&& match resolution.metadata_of() {
            Some(m) => self.source_of() == Some(m.source_of()) && self.revision_of() == m.revision_of()
                && self.deadline() == m.deadline(),
            None => self.source_of() is None && self.revision_of() is None && self.deadline() is None,
        }
    }

    /// Digests a complete fact set while retaining only bounded evidence.
    ///
    /// `encoded_facts` is the deterministic encoding of the resolution's
    /// facts; the digest is its BLAKE3 hash. The selected observations are
    /// checked against the facts first. Raw domain objects are never
    /// captured.
    pub fn from_resolution(resolution: &FactResolution<KnownFacts>, encoded_facts: &[u8]) -> (r: Result<
        Self,
        FactResolutionEvidenceError,
    >)
        ensures
            match match_check(resolution.observations_of(), resolution.facts_of()@) {
                Err(e) => r matches Err(FactResolutionEvidenceError::Observation(e2)) && e2 == e,
                Ok(_) => r matches Ok(ev) && ev.records(*resolution, encoded_facts@),
            },
    {
        match match_all(resolution.observations.as_slice(), &resolution.facts) {
            Err(e) => return Err(FactResolutionEvidenceError::Observation(e)),
            Ok(_) => {},
        }
        let fact_set_digest = EvidenceDigest::new(blake3_digest(encoded_facts));
        let (source, revision, fresh_until) = match &resolution.metadata {
            Some(m) => (Some(m.source().duplicate()), copy_provenance(&m.revision), m.fresh_until()),
            None => (None, None, None),
        };
        let mut observations: Vec<FactObservation> = Vec::new();
        let mut i: usize = 0;
        while i < resolution.observations.len()
            invariant
                i <= resolution.observations@.len(),
                observations@ == resolution.observations@.take(i as int),
            decreases resolution.observations@.len() - i,
        {
            observations.push(resolution.observations[i].duplicate());
            i = i + 1;
            assert(observations@ =~= resolution.observations@.take(i as int));
        }
        assert(resolution.observations@.take(i as int) =~= resolution.observations@);
        Ok(FactResolutionEvidence {
            source,
            revision,
            observed_at: resolution.observed_at,
            fresh_until,
            fact_set_digest,
            observations,
        })
    }

    /// Rebuilds recorded evidence from its stored fields. The deadline may
    /// not precede the observation; the selected observations are bounded,
    /// name each fact once, and are kept ordered by fact.
    pub fn from_recorded(
        source: Option<BindingProvenance>,
        revision: Option<BindingProvenance>,
        observed_at: Timestamp,
        fresh_until: Option<Timestamp>,
        fact_set_digest: EvidenceDigest,
        observations: Vec<FactObservation>,
    ) -> (r: Result<Self, ObservationError>)
        ensures
            match fresh_until {
                Some(t) if t.instant() < observed_at.instant() => r == Err::<Self, ObservationError>(
                    ObservationError::Freshness(
                        FactResolutionError::InvalidFreshnessWindow { observed_at, fresh_until: t },
                    ),
                ),
                _ => match bundle_check(observations@) {
                    Err(e) => r == Err::<Self, ObservationError>(e),
                    Ok(_) => r matches Ok(ev) && ev.source_of() == source && ev.revision_of() == revision
                        && ev.time_of() == observed_at && ev.deadline() == fresh_until && ev.digest()
                        == fact_set_digest && ev.observations_of().len() == observations@.len()
                        && ev.observations_of().to_set() == observations@.to_set() && sorted_by_fact(
                        ev.observations_of(),
                    ),
                },
            },
    {
        match fresh_until {
            Some(t) => if t.is_before(&observed_at) {
                return Err(
                    ObservationError::Freshness(
                        FactResolutionError::InvalidFreshnessWindow { observed_at, fresh_until: t },
                    ),
                );
            },
            None => {},
        }
        match validate_all(observations.as_slice()) {
            Err(e) => return Err(e),
            Ok(_) => {},
        }
        let sorted = sort_by_fact(observations);
        Ok(FactResolutionEvidence { source, revision, observed_at, fresh_until, fact_set_digest, observations: sorted })
    }

    /// Selected bounded observations; empty for historical set-only evidence.
    pub fn observations(&self) -> (o: &[FactObservation])
        ensures
            o@ == self.observations_of(),
    {
        self.observations.as_slice()
    }

    /// Returns the source reference for the resolved fact set.
    pub fn source(&self) -> (s: Option<&BindingProvenance>)
        ensures
            s == match self.source_of() {
                Some(v) => Some(&v),
                None => None::<&BindingProvenance>,
            },
    {
        self.source.as_ref()
    }

    /// Returns the optional source revision observed for the fact set.
    pub fn revision(&self) -> (s: Option<&BindingProvenance>)
        ensures
            s == match self.revision_of() {
                Some(v) => Some(&v),
                None => None::<&BindingProvenance>,
            },
    {
        self.revision.as_ref()
    }

    /// Returns when the resolver observed this fact set.
    pub fn observed_at(&self) -> (t: Timestamp)
        ensures
            t == self.time_of(),
    {
        self.observed_at
    }

    /// Returns the optional freshness deadline supplied by the source.
    pub fn fresh_until(&self) -> (t: Option<Timestamp>)
        ensures
            t == self.deadline(),
    {
        self.fresh_until
    }

    /// Returns the fixed-size digest of the complete resolved fact set.
    pub fn fact_set_digest(&self) -> (d: &EvidenceDigest)
        ensures
            *d == self.digest(),
    {
        &self.fact_set_digest
    }

    /// All fields of the evidence.
    pub open spec fn parts(&self) -> (
        Option<BindingProvenance>,
        Option<BindingProvenance>,
        Timestamp,
        Option<Timestamp>,
        EvidenceDigest,
        Seq<FactObservation>,
    ) {
        (self.source_of(), self.revision_of(), self.time_of(), self.deadline(), self.digest(), self.observations_of())
    }

    /// Returns an identical copy of this evidence.
    pub fn duplicate(&self) -> (e: Self)
        ensures
            e.parts() == self.parts(),
    {
        let mut observations: Vec<FactObservation> = Vec::new();
        let mut i: usize = 0;
        while i < self.observations.len()
            invariant
                i <= self.observations@.len(),
                observations@ == self.observations@.take(i as int),
            decreases self.observations@.len() - i,
        {
            observations.push(self.observations[i].duplicate());
            i = i + 1;
            assert(observations@ =~= self.observations@.take(i as int));
        }
        assert(self.observations@.take(i as int) =~= self.observations@);
        FactResolutionEvidence {
            source: copy_provenance(&self.source),
            revision: copy_provenance(&self.revision),
            observed_at: self.observed_at,
            fresh_until: self.fresh_until,
            fact_set_digest: self.fact_set_digest.duplicate(),
            observations,
        }
    }
}

} // verus!
