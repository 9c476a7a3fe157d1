use vstd::prelude::*;

use crate::identity::{Fact, FactId, GatekeepError, GatekeepResult};

verus! {

/// Presence state of a named fact.
#[derive(Clone, Copy, Debug, PartialEq, Eq, Structural)]
pub enum Presence {
    /// Fact is present.
    Present,
    /// Fact is absent.
    Absent,
    /// Fact is intentionally deferred to query lowering.
    Unknown,
}

impl DeepView for Presence {
    type V = Presence;

    open spec fn deep_view(&self) -> Presence {
        *self
    }
}

/// Presence of `id` in a fact map, defaulting to absent when omitted.
pub open spec fn presence_in(m: Map<Seq<char>, Presence>, id: Seq<char>) -> Presence {
    if m.contains_key(id) {
        m[id]
    } else {
        Presence::Absent
    }
}

/// Map view of a list of unique fact entries.
pub open spec fn entries_map(entries: Seq<(FactId, Presence)>) -> Map<Seq<char>, Presence>
    decreases entries.len(),
{
    if entries.len() == 0 {
        Map::empty()
    } else {
        entries_map(entries.drop_last()).insert(entries.last().0@, entries.last().1)
    }
}

/// Looking up a key in the map view of unique entries finds its entry.
pub proof fn lemma_entries_map_lookup(entries: Seq<(FactId, Presence)>, id: Seq<char>)
    requires
        unique_keys(entries),
    ensures
        (exists|j: int| 0 <= j < entries.len() && entries[j].0@ == id) == entries_map(entries).contains_key(id),
        forall|j: int| 0 <= j < entries.len() && entries[j].0@ == id ==> entries_map(entries)[id] == entries[j].1,
    decreases entries.len(),
{
    if entries.len() > 0 {
        let prefix = entries.drop_last();
        assert(unique_keys(prefix)) by {
            assert forall|i: int, j: int|
                0 <= i < prefix.len() && 0 <= j < prefix.len() && i != j implies prefix[i].0@
                != prefix[j].0@ by {
                assert(prefix[i] == entries[i]);
                assert(prefix[j] == entries[j]);
            }
        }
        lemma_entries_map_lookup(prefix, id);
        if exists|j: int| 0 <= j < entries.len() && entries[j].0@ == id {
            let j = choose|j: int| 0 <= j < entries.len() && entries[j].0@ == id;
            if j < entries.len() - 1 {
                assert(prefix[j] == entries[j]);
            }
        }
        assert forall|j: int| 0 <= j < entries.len() && entries[j].0@ == id implies entries_map(
            entries,
        )[id] == entries[j].1 by {
            if j < entries.len() - 1 {
                assert(prefix[j] == entries[j]);
                assert(entries[j].0@ != entries[entries.len() - 1].0@);
            }
        }
    }
}

/// No two entries name the same fact.
pub open spec fn unique_keys(entries: Seq<(FactId, Presence)>) -> bool {
    forall|i: int, j: int|
        0 <= i < entries.len() && 0 <= j < entries.len() && i != j ==> entries[i].0@
            != entries[j].0@
}

/// Fact bundle accepted by full evaluation.
#[derive(Debug)]
pub struct KnownFacts {
    entries: Vec<(FactId, Presence)>,
}

impl KnownFacts {
    #[verifier::type_invariant]
    closed spec fn wf(self) -> bool {
        &&& unique_keys(self.entries@)
        &&& forall|j: int| 0 <= j < self.entries@.len() ==> self.entries@[j].1 != Presence::Unknown
    }
}

impl View for KnownFacts {
    type V = Map<Seq<char>, Presence>;

    closed spec fn view(&self) -> Map<Seq<char>, Presence> {
        entries_map(self.entries@)
    }
}

impl KnownFacts {
    /// Creates an empty fact bundle.
    pub fn new() -> (facts: Self)
        ensures
            facts@ == Map::<Seq<char>, Presence>::empty(),
    {
        KnownFacts { entries: Vec::new() }
    }

    /// Returns a fact's presence, defaulting to absent when omitted.
    pub fn presence(&self, fact: &FactId) -> (p: Presence)
        ensures
            p == presence_in(self@, fact@),
    {
        proof {
            use_type_invariant(self);
        }
        let mut i: usize = 0;
        while i < self.entries.len()
            invariant
                0 <= i <= self.entries@.len(),
                unique_keys(self.entries@),
                forall|j: int| 0 <= j < i ==> self.entries@[j].0@ != fact@,
            decreases self.entries@.len() - i,
        {
            if self.entries[i].0.same(fact) {
                proof {
                    lemma_entries_map_lookup(self.entries@, fact@);
                    assert(self.entries@[i as int].0@ == fact@);
                }
                return self.entries[i].1;
            }
            i = i + 1;
        }
        proof {
            lemma_entries_map_lookup(self.entries@, fact@);
        }
        Presence::Absent
    }
}


/// `m` with every entry of `es` written in order; a later entry for a fact
/// replaces an earlier one.
pub open spec fn inserted_all(m: Map<Seq<char>, Presence>, es: Seq<(Seq<char>, Presence)>) -> Map<Seq<char>, Presence>
    decreases es.len(),
{
    if es.len() == 0 {
        m
    } else {
        inserted_all(m, es.drop_last()).insert(es.last().0, es.last().1)
    }
}

/// The error returned when known facts would hold an unknown presence.
pub open spec fn unknown_in_known() -> GatekeepError {
    GatekeepError::InvalidPolicyRecord { reason: "known facts cannot contain unknown presence" }
}

/// Writes `presence` for `fact`, replacing an entry for the same fact.
fn upsert(entries: &mut Vec<(FactId, Presence)>, fact: FactId, presence: Presence)
    requires
        unique_keys(old(entries)@),
    ensures
        unique_keys(final(entries)@),
        entries_map(final(entries)@) == entries_map(old(entries)@).insert(fact@, presence),
        forall|j: int|
            0 <= j < final(entries)@.len() ==> #[trigger] final(entries)@[j].1 == presence || exists|
                k: int,
            | 0 <= k < old(entries)@.len() && old(entries)@[k].1 == final(entries)@[j].1,
{
    let ghost old_entries = entries@;
    let mut i: usize = 0;
    while i < entries.len()
        invariant
            i <= entries@.len(),
            entries@ == old_entries,
            forall|k: int| 0 <= k < i ==> entries@[k].0@ != fact@,
        ensures
            i <= entries@.len(),
            entries@ == old_entries,
            forall|k: int| 0 <= k < i ==> entries@[k].0@ != fact@,
            i < entries@.len() ==> entries@[i as int].0@ == fact@,
        decreases entries@.len() - i,
    {
        if entries[i].0.same(&fact) {
            break;
        }
        i = i + 1;
    }
    let ghost key = fact@;
    if i < entries.len() {
        entries.set(i, (fact, presence));
        proof {
            let n = entries@;
            assert(unique_keys(n)) by {
                assert forall|a: int, b: int|
                    0 <= a < n.len() && 0 <= b < n.len() && a != b implies n[a].0@ != n[b].0@ by {
                    if a != i && b != i {
                        assert(n[a] == old_entries[a] && n[b] == old_entries[b]);
                    } else if a == i {
                        assert(old_entries[a].0@ == key);
                        assert(n[b] == old_entries[b]);
                    } else {
                        assert(old_entries[b].0@ == key);
                        assert(n[a] == old_entries[a]);
                    }
                }
            }
            assert forall|j: int| 0 <= j < n.len() implies #[trigger] n[j].1 == presence || exists|
                k: int,
            | 0 <= k < old_entries.len() && old_entries[k].1 == n[j].1 by {
                if j != i {
                    assert(n[j] == old_entries[j]);
                }
            }
            lemma_same_keys_insert(old_entries, n, i as int, key, presence);
        }
    } else {
        entries.push((fact, presence));
        proof {
            let n = entries@;
            assert(unique_keys(n)) by {
                assert forall|a: int, b: int|
                    0 <= a < n.len() && 0 <= b < n.len() && a != b implies n[a].0@ != n[b].0@ by {
                    if a < old_entries.len() && b < old_entries.len() {
                        assert(n[a] == old_entries[a] && n[b] == old_entries[b]);
                    } else if a < old_entries.len() {
                        assert(n[a] == old_entries[a]);
                    } else {
                        assert(n[b] == old_entries[b]);
                    }
                }
            }
            assert forall|j: int| 0 <= j < n.len() implies #[trigger] n[j].1 == presence || exists|
                k: int,
            | 0 <= k < old_entries.len() && old_entries[k].1 == n[j].1 by {
                if j < old_entries.len() {
                    assert(n[j] == old_entries[j]);
                }
            }
            assert(n.drop_last() =~= old_entries);
        }
    }
}

/// Replacing the entry at `i`, whose fact is `key`, writes `presence` for `key`.
proof fn lemma_same_keys_insert(
    a: Seq<(FactId, Presence)>,
    b: Seq<(FactId, Presence)>,
    i: int,
    key: Seq<char>,
    presence: Presence,
)
    requires
        unique_keys(a),
        unique_keys(b),
        a.len() == b.len(),
        0 <= i < a.len(),
        a[i].0@ == key,
        b[i].0@ == key,
        b[i].1 == presence,
        forall|j: int| 0 <= j < a.len() && j != i ==> a[j] == b[j],
    ensures
        entries_map(b) == entries_map(a).insert(key, presence),
{
    assert forall|k: Seq<char>| #[trigger] entries_map(b).contains_key(k) == entries_map(a).insert(
        key,
        presence,
    ).contains_key(k) by {
        lemma_entries_map_lookup(a, k);
        lemma_entries_map_lookup(b, k);
        if exists|j: int| 0 <= j < a.len() && a[j].0@ == k {
            let j = choose|j: int| 0 <= j < a.len() && a[j].0@ == k;
            if j != i {
                assert(b[j] == a[j]);
            }
        }
        if exists|j: int| 0 <= j < b.len() && b[j].0@ == k {
            let j = choose|j: int| 0 <= j < b.len() && b[j].0@ == k;
            if j != i {
                assert(b[j] == a[j]);
            }
        }
    }
    assert forall|k: Seq<char>| #[trigger] entries_map(b).contains_key(k) implies entries_map(b)[k]
        == entries_map(a).insert(key, presence)[k] by {
        lemma_entries_map_lookup(a, k);
        lemma_entries_map_lookup(b, k);
        let j = choose|j: int| 0 <= j < b.len() && b[j].0@ == k;
        if j != i {
            assert(b[j] == a[j]);
        }
    }
    assert(entries_map(b) =~= entries_map(a).insert(key, presence));
}

impl KnownFacts {
    /// Builds known facts from explicit entries, rejecting `Presence::Unknown`;
    /// a later entry for a fact replaces an earlier one.
    pub fn from_entries(entries: Vec<(FactId, Presence)>) -> (result: GatekeepResult<Self>)
        ensures
            (exists|j: int| 0 <= j < entries@.len() && #[trigger] entries@[j].1 == Presence::Unknown)
                ==> result == Err::<Self, GatekeepError>(unknown_in_known()),
            !(exists|j: int| 0 <= j < entries@.len() && #[trigger] entries@[j].1 == Presence::Unknown)
                ==> (result matches Ok(f) && f@ == inserted_all(Map::empty(), entries.deep_view())),
    {
        let ghost es = entries.deep_view();
        let mut facts = KnownFacts::new();
        let mut i: usize = 0;
        while i < entries.len()
            invariant
                i <= entries@.len(),
                es == entries.deep_view(),
                forall|k: int| 0 <= k < i ==> entries@[k].1 != Presence::Unknown,
                facts@ == inserted_all(Map::empty(), es.take(i as int)),
            decreases entries@.len() - i,
        {
            let presence = entries[i].1;
            if presence == Presence::Unknown {
                return Err(GatekeepError::InvalidPolicyRecord {
                    reason: "known facts cannot contain unknown presence",
                });
            }
            facts = facts.insert_known(entries[i].0.duplicate(), presence);
            proof {
                assert(es.take(i + 1).drop_last() =~= es.take(i as int));
            }
            i = i + 1;
        }
        assert(es.take(entries@.len() as int) =~= es);
        Ok(facts)
    }

    /// Writes a present or absent fact.
    pub(crate) fn insert_known(self, fact: FactId, presence: Presence) -> (r: Self)
        requires
            presence != Presence::Unknown,
        ensures
            r@ == self@.insert(fact@, presence),
    {
        proof {
            use_type_invariant(&self);
        }
        let mut entries = self.entries;
        upsert(&mut entries, fact, presence);
        KnownFacts { entries }
    }

    /// Marks a typed fact as present.
    pub fn with_present<F: Fact>(self) -> (r: Self)
        ensures
            r@ == self@.insert(F::spec_id(), Presence::Present),
    {
        let id = F::id();
        self.insert_known(FactId::from_trusted(id.as_str()), Presence::Present)
    }

    /// Marks a typed fact as absent.
    pub fn with_absent<F: Fact>(self) -> (r: Self)
        ensures
            r@ == self@.insert(F::spec_id(), Presence::Absent),
    {
        let id = F::id();
        self.insert_known(FactId::from_trusted(id.as_str()), Presence::Absent)
    }

    /// Records a typed boolean observation: present when true, absent when false.
    pub fn with_bool<F: Fact>(self, value: bool) -> (r: Self)
        ensures
            r@ == self@.insert(F::spec_id(), if value { Presence::Present } else { Presence::Absent }),
    {
        let id = F::id();
        let presence = if value {
            Presence::Present
        } else {
            Presence::Absent
        };
        self.insert_known(FactId::from_trusted(id.as_str()), presence)
    }

    /// Adds a runtime fact, rejecting `Presence::Unknown`.
    pub fn try_with_fact(self, fact: FactId, presence: Presence) -> (result: GatekeepResult<Self>)
        ensures
            presence == Presence::Unknown ==> result == Err::<Self, GatekeepError>(unknown_in_known()),
            presence != Presence::Unknown ==> (result matches Ok(f) && f@ == self@.insert(fact@, presence)),
    {
        if presence == Presence::Unknown {
            return Err(GatekeepError::InvalidPolicyRecord {
                reason: "known facts cannot contain unknown presence",
            });
        }
        Ok(self.insert_known(fact, presence))
    }
}

/// Fact bundle accepted by partial evaluation.
#[derive(Debug)]
pub struct PartialFacts {
    entries: Vec<(FactId, Presence)>,
}

impl PartialFacts {
    #[verifier::type_invariant]
    closed spec fn wf(self) -> bool {
        unique_keys(self.entries@)
    }
}

impl View for PartialFacts {
    type V = Map<Seq<char>, Presence>;

    closed spec fn view(&self) -> Map<Seq<char>, Presence> {
        entries_map(self.entries@)
    }
}

/// The present and absent facts of a partial fact map.
pub open spec fn known_part(m: Map<Seq<char>, Presence>) -> Map<Seq<char>, Presence> {
    Map::new(|k: Seq<char>| m.contains_key(k) && m[k] != Presence::Unknown, |k: Seq<char>| m[k])
}

impl PartialFacts {
    /// Creates an empty partial fact bundle.
    pub fn new() -> (facts: Self)
        ensures
            facts@ == Map::<Seq<char>, Presence>::empty(),
    {
        PartialFacts { entries: Vec::new() }
    }

    /// Builds partial facts from explicit entries; a later entry for a fact
    /// replaces an earlier one.
    pub fn from_entries(entries: Vec<(FactId, Presence)>) -> (facts: Self)
        ensures
            facts@ == inserted_all(Map::empty(), entries.deep_view()),
    {
        let ghost es = entries.deep_view();
        let mut facts = PartialFacts::new();
        let mut i: usize = 0;
        while i < entries.len()
            invariant
                i <= entries@.len(),
                es == entries.deep_view(),
                facts@ == inserted_all(Map::empty(), es.take(i as int)),
            decreases entries@.len() - i,
        {
            facts = facts.with_fact(entries[i].0.duplicate(), entries[i].1);
            proof {
                assert(es.take(i + 1).drop_last() =~= es.take(i as int));
            }
            i = i + 1;
        }
        assert(es.take(entries@.len() as int) =~= es);
        facts
    }

    /// Marks a typed fact as present.
    pub fn with_present<F: Fact>(self) -> (r: Self)
        ensures
            r@ == self@.insert(F::spec_id(), Presence::Present),
    {
        let id = F::id();
        self.with_fact(FactId::from_trusted(id.as_str()), Presence::Present)
    }

    /// Marks a typed fact as absent.
    pub fn with_absent<F: Fact>(self) -> (r: Self)
        ensures
            r@ == self@.insert(F::spec_id(), Presence::Absent),
    {
        let id = F::id();
        self.with_fact(FactId::from_trusted(id.as_str()), Presence::Absent)
    }

    /// Marks a typed fact as unknown for query lowering.
    pub fn with_unknown<F: Fact>(self) -> (r: Self)
        ensures
            r@ == self@.insert(F::spec_id(), Presence::Unknown),
    {
        let id = F::id();
        self.with_fact(FactId::from_trusted(id.as_str()), Presence::Unknown)
    }

    /// Adds a runtime fact with any presence state.
    pub fn with_fact(self, fact: FactId, presence: Presence) -> (r: Self)
        ensures
            r@ == self@.insert(fact@, presence),
    {
        proof {
            use_type_invariant(&self);
        }
        let mut entries = self.entries;
        upsert(&mut entries, fact, presence);
        PartialFacts { entries }
    }

    /// Returns a fact's presence, defaulting to absent when omitted.
    pub fn presence(&self, fact: &FactId) -> (p: Presence)
        ensures
            p == presence_in(self@, fact@),
    {
        proof {
            use_type_invariant(self);
        }
        let mut i: usize = 0;
        while i < self.entries.len()
            invariant
                0 <= i <= self.entries@.len(),
                unique_keys(self.entries@),
                forall|j: int| 0 <= j < i ==> self.entries@[j].0@ != fact@,
            decreases self.entries@.len() - i,
        {
            if self.entries[i].0.same(fact) {
                proof {
                    lemma_entries_map_lookup(self.entries@, fact@);
                    assert(self.entries@[i as int].0@ == fact@);
                }
                return self.entries[i].1;
            }
            i = i + 1;
        }
        proof {
            lemma_entries_map_lookup(self.entries@, fact@);
        }
        Presence::Absent
    }

    /// The present and absent facts, as known facts.
    pub(crate) fn to_known(&self) -> (known: KnownFacts)
        ensures
            known@ == known_part(self@),
    {
        proof {
            use_type_invariant(self);
        }
        let mut known = KnownFacts::new();
        let mut i: usize = 0;
        let ghost es = self.entries@;
        while i < self.entries.len()
            invariant
                i <= es.len(),
                es == self.entries@,
                unique_keys(es),
                known@ == known_part(entries_map(es.take(i as int))),
            decreases es.len() - i,
        {
            let presence = self.entries[i].1;
            proof {
                lemma_prefix_unique(es, i + 1);
                lemma_prefix_unique(es, i as int);
                assert(es.take(i + 1).drop_last() =~= es.take(i as int));
                assert(es.take(i + 1).last() == es[i as int]);
            }
            if presence != Presence::Unknown {
                known = known.insert_known(self.entries[i].0.duplicate(), presence);
                proof {
                    let before = entries_map(es.take(i as int));
                    assert(known_part(before.insert(es[i as int].0@, presence)) =~= known_part(before).insert(es[i as int].0@, presence));
                }
            } else {
                proof {
                    let before = entries_map(es.take(i as int));
                    lemma_entries_map_lookup(es.take(i as int), es[i as int].0@);
                    assert(!before.contains_key(es[i as int].0@)) by {
                        if before.contains_key(es[i as int].0@) {
                            let j = choose|j: int| 0 <= j < i && es.take(i as int)[j].0@ == es[i as int].0@;
                            assert(es[j].0@ == es[i as int].0@);
                        }
                    }
                    assert(known_part(before.insert(es[i as int].0@, presence)) =~= known_part(before));
                }
            }
            i = i + 1;
        }
        assert(es.take(es.len() as int) =~= es);
        known
    }
}

/// The recorded presence of `id`, if the map records it.
pub open spec fn recorded(m: Map<Seq<char>, Presence>, id: Seq<char>) -> Option<Presence> {
    if m.contains_key(id) {
        Some(m[id])
    } else {
        None
    }
}

/// Looks up the recorded presence of `fact` among unique entries.
fn lookup(entries: &Vec<(FactId, Presence)>, fact: &FactId) -> (p: Option<Presence>)
    requires
        unique_keys(entries@),
    ensures
        p == recorded(entries_map(entries@), fact@),
{
    let mut i: usize = 0;
    while i < entries.len()
        invariant
            0 <= i <= entries@.len(),
            unique_keys(entries@),
            forall|j: int| 0 <= j < i ==> entries@[j].0@ != fact@,
        decreases entries@.len() - i,
    {
        if entries[i].0.same(fact) {
            proof {
                lemma_entries_map_lookup(entries@, fact@);
                assert(entries@[i as int].0@ == fact@);
            }
            return Some(entries[i].1);
        }
        i = i + 1;
    }
    proof {
        lemma_entries_map_lookup(entries@, fact@);
    }
    None
}

impl KnownFacts {
    /// Returns the recorded presence of a fact, or `None` when it is omitted.
    pub fn observation(&self, fact: &FactId) -> (p: Option<Presence>)
        ensures
            p == recorded(self@, fact@),
    {
        proof {
            use_type_invariant(self);
        }
        lookup(&self.entries, fact)
    }

    /// Returns the recorded entries, each fact once and none of them unknown.
    pub fn entries(&self) -> (e: &[(FactId, Presence)])
        ensures
            entries_map(e@) == self@,
            unique_keys(e@),
            forall|j: int| 0 <= j < e@.len() ==> (#[trigger] e@[j]).1 != Presence::Unknown,
    {
        proof {
            use_type_invariant(self);
        }
        self.entries.as_slice()
    }
}

impl PartialFacts {
    /// Returns the recorded presence of a fact, or `None` when it is omitted.
    pub fn observation(&self, fact: &FactId) -> (p: Option<Presence>)
        ensures
            p == recorded(self@, fact@),
    {
        proof {
            use_type_invariant(self);
        }
        lookup(&self.entries, fact)
    }
}

/// A prefix of entries with unique keys has unique keys.
proof fn lemma_prefix_unique(es: Seq<(FactId, Presence)>, n: int)
    requires
        unique_keys(es),
        0 <= n <= es.len(),
    ensures
        unique_keys(es.take(n)),
{
    assert forall|a: int, b: int| 0 <= a < n && 0 <= b < n && a != b implies es.take(n)[a].0@ != es.take(n)[b].0@ by {
        assert(es.take(n)[a] == es[a]);
        assert(es.take(n)[b] == es[b]);
    }
}

} // verus!
