//! Request-scoped data passed to adapter boundaries.
use vstd::prelude::*;

use crate::clock::{SystemClock, Timestamp};
use crate::identity::{Locale, RequestId, SubjectRef, SubjectSlot, TenantId};
use crate::occurrence::DecisionAuditOccurrence;
use crate::tenant::{ApplicationVerifiedTenantBinding, TenantBinding, TenantBindingError, TrustedServiceBinding};

verus! {

/// Error returned when a request context cannot establish a safe tenant
/// boundary.
#[derive(Clone, Debug, PartialEq, Eq)]
pub enum ContextError {
    /// The context tenant differs from its binding tenant.
    TenantMismatch {
        /// Tenant selected by the application.
        expected: TenantId,
        /// Tenant carried by the binding.
        bound: TenantId,
    },
    /// The binding failed structural or freshness validation.
    Binding(TenantBindingError),
}

/// No two named subjects share a slot.
pub open spec fn unique_slots(s: Seq<(SubjectSlot, SubjectRef)>) -> bool {
    forall|i: int, j: int| 0 <= i < s.len() && 0 <= j < s.len() && i != j ==> s[i].0@ != s[j].0@
}

/// Named subjects as a map from slot text.
pub open spec fn subject_map(s: Seq<(SubjectSlot, SubjectRef)>) -> Map<Seq<char>, SubjectRef>
    decreases s.len(),
{
    if s.len() == 0 {
        Map::empty()
    } else {
        subject_map(s.drop_last()).insert(s.last().0@, s.last().1)
    }
}

/// Looking up a slot among unique subjects finds its entry.
proof fn lemma_subject_lookup(s: Seq<(SubjectSlot, SubjectRef)>, k: Seq<char>)
    requires
        unique_slots(s),
    ensures
        (exists|j: int| 0 <= j < s.len() && s[j].0@ == k) == subject_map(s).contains_key(k),
        forall|j: int| 0 <= j < s.len() && s[j].0@ == k ==> subject_map(s)[k] == s[j].1,
    decreases s.len(),
{
    if s.len() > 0 {
        let p = s.drop_last();
        assert(unique_slots(p)) by {
            assert forall|i: int, j: int| 0 <= i < p.len() && 0 <= j < p.len() && i != j implies p[i].0@ != p[j].0@ by {
                assert(p[i] == s[i] && p[j] == s[j]);
            }
        }
        lemma_subject_lookup(p, k);
        if exists|j: int| 0 <= j < s.len() && s[j].0@ == k {
            let j = choose|j: int| 0 <= j < s.len() && s[j].0@ == k;
            if j < s.len() - 1 {
                assert(p[j] == s[j]);
            }
        }
        assert forall|j: int| 0 <= j < s.len() && s[j].0@ == k implies subject_map(s)[k] == s[j].1 by {
            if j < s.len() - 1 {
                assert(p[j] == s[j]);
                assert(s[j].0@ != s[s.len() - 1].0@);
            }
        }
    }
}

/// Writes `subject` under `slot`, replacing an entry for the same slot.
fn put_subject(subjects: &mut Vec<(SubjectSlot, SubjectRef)>, slot: SubjectSlot, subject: SubjectRef)
    requires
        unique_slots(old(subjects)@),
    ensures
        unique_slots(final(subjects)@),
        subject_map(final(subjects)@) == subject_map(old(subjects)@).insert(slot@, subject),
{
    let ghost before = subjects@;
    let ghost key = slot@;
    let ghost value = subject;
    let mut i: usize = 0;
    while i < subjects.len()
        invariant
            i <= subjects@.len(),
            subjects@ == before,
            before == old(subjects)@,
            unique_slots(before),
            key == slot@,
            value == subject,
            forall|k: int| 0 <= k < i ==> subjects@[k].0@ != slot@,
        decreases subjects@.len() - i,
    {
        if subjects[i].0.same(&slot) {
            subjects.set(i, (slot, subject));
            proof {
                let n = subjects@;
                assert(unique_slots(n)) by {
                    assert forall|a: int, b: int| 0 <= a < n.len() && 0 <= b < n.len() && a != b implies n[a].0@
                        != n[b].0@ by {
                        if a != i {
                            assert(n[a] == before[a]);
                        }
                        if b != i {
                            assert(n[b] == before[b]);
                        }
                    }
                }
                assert forall|k: Seq<char>| #[trigger] subject_map(n).contains_key(k) == subject_map(before).insert(
                    key,
                    value,
                ).contains_key(k) by {
                    lemma_subject_lookup(before, k);
                    lemma_subject_lookup(n, k);
                    if exists|j: int| 0 <= j < before.len() && before[j].0@ == k {
                        let j = choose|j: int| 0 <= j < before.len() && before[j].0@ == k;
                        if j != i {
                            assert(n[j] == before[j]);
                        }
                    }
                    if exists|j: int| 0 <= j < n.len() && n[j].0@ == k {
                        let j = choose|j: int| 0 <= j < n.len() && n[j].0@ == k;
                        if j != i {
                            assert(n[j] == before[j]);
                        }
                    }
                    if k == key {
                        assert(n[i as int].0@ == key);
                    }
                }
                assert forall|k: Seq<char>| #[trigger] subject_map(n).contains_key(k) implies subject_map(n)[k]
                    == subject_map(before).insert(key, value)[k] by {
                    lemma_subject_lookup(before, k);
                    lemma_subject_lookup(n, k);
                    let j = choose|j: int| 0 <= j < n.len() && n[j].0@ == k;
                    if j != i {
                        assert(n[j] == before[j]);
                    }
                }
                assert(subject_map(n) =~= subject_map(before).insert(key, value));
            }
            return;
        }
        i = i + 1;
    }
    subjects.push((slot, subject));
    proof {
        let n = subjects@;
        assert(n.drop_last() =~= before);
        assert(unique_slots(n)) by {
            assert forall|a: int, b: int| 0 <= a < n.len() && 0 <= b < n.len() && a != b implies n[a].0@ != n[b].0@ by {
                if a < before.len() {
                    assert(n[a] == before[a]);
                }
                if b < before.len() {
                    assert(n[b] == before[b]);
                }
            }
        }
    }
}

/// A copy of a list of named subjects.
pub(crate) fn copy_subjects(s: &Vec<(SubjectSlot, SubjectRef)>) -> (r: Vec<(SubjectSlot, SubjectRef)>)
    ensures
        r@ == s@,
{
    let mut r: Vec<(SubjectSlot, SubjectRef)> = Vec::new();
    let mut i: usize = 0;
    while i < s.len()
        invariant
            i <= s@.len(),
            r@ == s@.take(i as int),
        decreases s@.len() - i,
    {
        r.push((s[i].0.duplicate(), s[i].1.duplicate()));
        i = i + 1;
        assert(r@ =~= s@.take(i as int));
    }
    assert(s@.take(i as int) =~= s@);
    r
}

/// Request-scoped data passed to adapter boundaries.
///
/// Fields are private so callers must establish a tenant binding and pass it
/// through one of the explicit constructors. An application-verified binding
/// is checked again at each authorization boundary because a context can
/// outlive its validity window while waiting in a queue.
#[derive(Debug, PartialEq, Eq)]
pub struct Context {
    tenant: TenantId,
    binding: TenantBinding,
    principal: SubjectRef,
    subjects: Vec<(SubjectSlot, SubjectRef)>,
    locale: Locale,
    request_id: Option<RequestId>,
    decision_audit_occurrence: Option<DecisionAuditOccurrence>,
}

impl Context {
    #[verifier::type_invariant]
    closed spec fn wf(self) -> bool {
        &&& unique_slots(self.subjects@)
        &&& self.binding.tenant_of()@ == self.tenant@
    }

    /// The context tenant.
    pub closed spec fn tenant_of(&self) -> TenantId {
        self.tenant
    }

    /// The tenant binding.
    pub closed spec fn binding_of(&self) -> TenantBinding {
        self.binding
    }

    /// The principal.
    pub closed spec fn principal_of(&self) -> SubjectRef {
        self.principal
    }

    /// The named subjects, by slot.
    pub closed spec fn subjects_of(&self) -> Map<Seq<char>, SubjectRef> {
        subject_map(self.subjects@)
    }

    /// The presentation locale.
    pub closed spec fn locale_of(&self) -> Locale {
        self.locale
    }

    /// The request identifier, if any.
    pub closed spec fn request_of(&self) -> Option<RequestId> {
        self.request_id
    }

    /// The retry identity and time, if any.
    pub closed spec fn occurrence_of(&self) -> Option<DecisionAuditOccurrence> {
        self.decision_audit_occurrence
    }

    /// A fresh context with no subjects, request id or occurrence.
    pub open spec fn fresh(&self, tenant: TenantId, binding: TenantBinding, principal: SubjectRef, locale: Locale) -> bool {
        &&& self.tenant_of() == tenant
        &&& self.binding_of() == binding
        &&& self.principal_of() == principal
        &&& self.locale_of() == locale
        &&& self.subjects_of() == Map::<Seq<char>, SubjectRef>::empty()
        &&& self.request_of() is None
        &&& self.occurrence_of() is None
    }

    /// The tenant mismatch that refuses a context, if any.
    pub open spec fn mismatch(tenant: TenantId, binding: TenantBinding) -> Option<ContextError> {
        if tenant@ != binding.tenant_of()@ {
            Some(ContextError::TenantMismatch { expected: tenant, bound: binding.tenant_of() })
        } else {
            None
        }
    }

    /// Constructs a context after checking the expected tenant and binding at
    /// the current wall-clock time.
    ///
    /// A trusted-service binding for the same tenant always succeeds; an
    /// application-verified one succeeds when it is fresh at the moment of
    /// the call.
    pub fn new(tenant: TenantId, binding: TenantBinding, principal: SubjectRef, locale: Locale) -> (r: Result<
        Self,
        ContextError,
    >)
        ensures
            match Context::mismatch(tenant, binding) {
                Some(e) => r == Err::<Self, ContextError>(e),
                None => {
                    ||| r matches Ok(c) && c.fresh(tenant, binding, principal, locale)
                    ||| r matches Err(ContextError::Binding(e)) && binding is ApplicationVerified && exists|now: Timestamp|
                        binding.check_at(now) == Err::<(), TenantBindingError>(e)
                },
            },
            binding is TrustedService && Context::mismatch(tenant, binding) is None ==> r is Ok,
    {
        let now = SystemClock.now_utc();
        let r = Context::new_at(tenant, binding, principal, locale, now);
        let ghost g = r;
        proof {
            if g is Err && g->Err_0 is Binding {
                assert(binding.check_at(now) == Err::<(), TenantBindingError>(g->Err_0->Binding_0));
            }
        }
        r
    }

    /// Constructs a context using an explicit clock for deterministic callers
    /// and tests.
    pub fn new_at(tenant: TenantId, binding: TenantBinding, principal: SubjectRef, locale: Locale, now: Timestamp) -> (r:
        Result<Self, ContextError>)
        ensures
            match Context::mismatch(tenant, binding) {
                Some(e) => r == Err::<Self, ContextError>(e),
                None => match binding.check_at(now) {
                    Err(e) => r == Err::<Self, ContextError>(ContextError::Binding(e)),
                    Ok(_) => r matches Ok(c) && c.fresh(tenant, binding, principal, locale),
                },
            },
    {
        if !tenant.same(binding.tenant()) {
            let bound = binding.tenant().duplicate();
            return Err(ContextError::TenantMismatch { expected: tenant, bound });
        }
        match binding.validate_at(now) {
            Err(e) => return Err(ContextError::Binding(e)),
            Ok(_) => {},
        }
        let c = Context {
            tenant,
            binding,
            principal,
            subjects: Vec::new(),
            locale,
            request_id: None,
            decision_audit_occurrence: None,
        };
        assert(c.subjects_of() =~= Map::<Seq<char>, SubjectRef>::empty());
        Ok(c)
    }

    /// Constructs a context from an application-verified tenant binding,
    /// checked at the current wall-clock time.
    pub fn from_application_verified(binding: ApplicationVerifiedTenantBinding, principal: SubjectRef, locale: Locale) -> (r:
        Result<Self, ContextError>)
        ensures
            r matches Ok(c) ==> c.fresh(
                binding.tenant_of(),
                TenantBinding::ApplicationVerified(binding),
                principal,
                locale,
            ),
            r matches Err(e) ==> e matches ContextError::Binding(b) && exists|now: Timestamp|
                TenantBinding::ApplicationVerified(binding).check_at(now) == Err::<(), TenantBindingError>(b),
    {
        let tenant = binding.tenant().duplicate();
        Context::new(tenant, TenantBinding::ApplicationVerified(binding), principal, locale)
    }

    /// Constructs a context from an explicitly trusted service binding; it
    /// always succeeds, since the binding names its own tenant and carries no
    /// freshness claim.
    pub fn from_trusted_service(binding: TrustedServiceBinding, principal: SubjectRef, locale: Locale) -> (r: Result<
        Self,
        ContextError,
    >)
        ensures
            r matches Ok(c) && c.fresh(binding.tenant_of(), TenantBinding::TrustedService(binding), principal, locale),
    {
        let tenant = binding.tenant().duplicate();
        Context::new(tenant, TenantBinding::TrustedService(binding), principal, locale)
    }

    /// The outcome of rechecking this context at `now`.
    pub open spec fn check_at(&self, now: Timestamp) -> Result<(), ContextError> {
        match Context::mismatch(self.tenant_of(), self.binding_of()) {
            Some(e) => Err(e),
            None => match self.binding_of().check_at(now) {
                Err(e) => Err(ContextError::Binding(e)),
                Ok(_) => Ok(()),
            },
        }
    }

    /// Rechecks tenant agreement and binding freshness before a resolver or
    /// query adapter is allowed to use this context.
    pub fn validate_at(&self, now: Timestamp) -> (r: Result<(), ContextError>)
        ensures
            r == self.check_at(now),
    {
        if !self.tenant.same(self.binding.tenant()) {
            return Err(ContextError::TenantMismatch {
                expected: self.tenant.duplicate(),
                bound: self.binding.tenant().duplicate(),
            });
        }
        match self.binding.validate_at(now) {
            Err(e) => Err(ContextError::Binding(e)),
            Ok(_) => Ok(()),
        }
    }

    /// Returns the context tenant.
    pub fn tenant(&self) -> (t: &TenantId)
        ensures
            *t == self.tenant_of(),
    {
        &self.tenant
    }

    /// Returns the validated tenant binding, which names the context tenant.
    pub fn binding(&self) -> (b: &TenantBinding)
        ensures
            *b == self.binding_of(),
            b.tenant_of()@ == self.tenant_of()@,
    {
        proof {
            use_type_invariant(self);
        }
        &self.binding
    }

    /// Returns the principal selected by the application.
    pub fn principal(&self) -> (p: &SubjectRef)
        ensures
            *p == self.principal_of(),
    {
        &self.principal
    }

    /// Returns additional request-scoped subjects, each slot once.
    pub fn subjects(&self) -> (s: &[(SubjectSlot, SubjectRef)])
        ensures
            unique_slots(s@),
            subject_map(s@) == self.subjects_of(),
    {
        proof {
            use_type_invariant(self);
        }
        self.subjects.as_slice()
    }

    /// Returns the presentation locale.
    pub fn locale(&self) -> (l: &Locale)
        ensures
            *l == self.locale_of(),
    {
        &self.locale
    }

    /// Returns the optional request identifier.
    pub fn request_id(&self) -> (r: Option<&RequestId>)
        ensures
            r == match self.request_of() {
                Some(v) => Some(&v),
                None => None::<&RequestId>,
            },
    {
        self.request_id.as_ref()
    }

    /// Adds a named subject to this request context, replacing one in the
    /// same slot.
    pub fn with_subject(self, slot: SubjectSlot, subject: SubjectRef) -> (c: Self)
        ensures
            c.subjects_of() == self.subjects_of().insert(slot@, subject),
            c.tenant_of() == self.tenant_of(),
            c.binding_of() == self.binding_of(),
            c.principal_of() == self.principal_of(),
            c.locale_of() == self.locale_of(),
            c.request_of() == self.request_of(),
            c.occurrence_of() == self.occurrence_of(),
    {
        proof {
            use_type_invariant(&self);
        }
        let Context { tenant, binding, principal, subjects, locale, request_id, decision_audit_occurrence } = self;
        let mut subjects = subjects;
        put_subject(&mut subjects, slot, subject);
        Context { tenant, binding, principal, subjects, locale, request_id, decision_audit_occurrence }
    }

    /// Supplies a request identifier for audit sinks.
    pub fn with_request_id(self, request_id: RequestId) -> (c: Self)
        ensures
            c.request_of() == Some(request_id),
            c.subjects_of() == self.subjects_of(),
            c.tenant_of() == self.tenant_of(),
            c.binding_of() == self.binding_of(),
            c.principal_of() == self.principal_of(),
            c.locale_of() == self.locale_of(),
            c.occurrence_of() == self.occurrence_of(),
    {
        proof {
            use_type_invariant(&self);
        }
        let Context { tenant, binding, principal, subjects, locale, request_id: _, decision_audit_occurrence } = self;
        Context { tenant, binding, principal, subjects, locale, request_id: Some(request_id), decision_audit_occurrence }
    }

    /// Supplies the stable identity and occurrence time for a retryable
    /// authorization operation.
    pub fn with_decision_audit_occurrence(self, occurrence: DecisionAuditOccurrence) -> (c: Self)
        ensures
            c.occurrence_of() == Some(occurrence),
            c.subjects_of() == self.subjects_of(),
            c.tenant_of() == self.tenant_of(),
            c.binding_of() == self.binding_of(),
            c.principal_of() == self.principal_of(),
            c.locale_of() == self.locale_of(),
            c.request_of() == self.request_of(),
    {
        proof {
            use_type_invariant(&self);
        }
        let Context { tenant, binding, principal, subjects, locale, request_id, decision_audit_occurrence: _ } = self;
        Context {
            tenant,
            binding,
            principal,
            subjects,
            locale,
            request_id,
            decision_audit_occurrence: Some(occurrence),
        }
    }

    /// Returns the optional retry identity and occurrence time.
    pub fn decision_audit_occurrence(&self) -> (o: Option<&DecisionAuditOccurrence>)
        ensures
            o == match self.occurrence_of() {
                Some(v) => Some(&v),
                None => None::<&DecisionAuditOccurrence>,
            },
    {
        self.decision_audit_occurrence.as_ref()
    }
}

} // verus!
