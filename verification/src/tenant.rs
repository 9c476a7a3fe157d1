//! Explicit tenant bindings carried by authorization contexts.
use vstd::prelude::*;

use crate::clock::Timestamp;
use crate::identity::{blank, chars_of, is_blank, is_control, is_control_char, TenantId};

verus! {

/// Longest provenance label, in characters.
pub const MAX_PROVENANCE_CHARS: usize = 128;

/// A provenance label is non-blank, has no control character and at most
/// `MAX_PROVENANCE_CHARS` characters.
pub open spec fn provenance_ok(s: Seq<char>) -> bool {
    &&& !blank(s)
    &&& forall|i: int| 0 <= i < s.len() ==> !is_control_char(#[trigger] s[i])
    &&& s.len() <= MAX_PROVENANCE_CHARS
}

/// Bounded application-supplied provenance for a tenant or resolver binding.
#[derive(Clone, Debug, PartialEq, Eq, PartialOrd, Ord, Hash)]
pub struct BindingProvenance(String);

impl View for BindingProvenance {
    type V = Seq<char>;

    closed spec fn view(&self) -> Seq<char> {
        self.0@
    }
}

impl BindingProvenance {
    /// Creates a bounded, non-empty provenance label.
    ///
    /// The label records how the application established a binding. It is not
    /// a token, key, or assertion and is not verified here.
    pub fn new(value: &str) -> (r: Result<Self, TenantBindingError>)
        ensures
            provenance_ok(value@) ==> (r matches Ok(p) && p@ == value@),
            !provenance_ok(value@) ==> (r matches Err(TenantBindingError::InvalidProvenance { value: v })
                && v@ == value@),
    {
        let cs = chars_of(value);
        let mut ok = !is_blank(value) && cs.len() <= MAX_PROVENANCE_CHARS;
        let mut i: usize = 0;
        while i < cs.len()
            invariant
                cs@ == value@,
                i <= cs.len(),
                ok ==> forall|j: int| 0 <= j < i ==> !is_control_char(#[trigger] value@[j]),
                ok ==> !blank(value@) && value@.len() <= MAX_PROVENANCE_CHARS,
                !ok ==> !provenance_ok(value@),
            decreases cs.len() - i,
        {
            if is_control(cs[i]) {
                ok = false;
            }
            i = i + 1;
        }
        if ok {
            Ok(BindingProvenance(value.to_owned()))
        } else {
            Err(TenantBindingError::InvalidProvenance { value: value.to_owned() })
        }
    }

    /// Returns the provenance label.
    pub fn as_str(&self) -> (s: &str)
        ensures
            s@ == self@,
    {
        self.0.as_str()
    }

    /// Returns an identical copy of this label.
    pub fn duplicate(&self) -> (p: Self)
        ensures
            p == *self,
    {
        BindingProvenance(self.0.clone())
    }
}

/// Fixed-size digest carried as evidence without retaining raw claims or
/// tokens.
#[derive(Clone, Debug, PartialEq, Eq)]
pub struct EvidenceDigest([u8; 32]);

impl View for EvidenceDigest {
    type V = Seq<u8>;

    closed spec fn view(&self) -> Seq<u8> {
        self.0@
    }
}

impl EvidenceDigest {
    /// Constructs a digest from exactly 32 bytes.
    pub fn new(bytes: [u8; 32]) -> (d: Self)
        ensures
            d@ == bytes@,
    {
        EvidenceDigest(bytes)
    }

    /// Returns the digest bytes.
    pub fn as_bytes(&self) -> (b: &[u8; 32])
        ensures
            b@ == self@,
    {
        &self.0
    }

    /// Returns an identical copy of this digest.
    pub fn duplicate(&self) -> (d: Self)
        ensures
            d == *self,
    {
        EvidenceDigest(self.0)
    }
}

/// Authority metadata supplied by the application that verified a binding.
///
/// The labels identify the verification authority and optional signing key;
/// they never contain raw issuer tokens, claims, or credentials.
#[derive(Clone, Debug, PartialEq, Eq)]
pub enum BindingAuthority {
    /// An issuer-backed identity assertion.
    Issuer {
        /// Issuer or authority reference.
        issuer: BindingProvenance,
        /// Optional provider key identifier used for verification.
        key_id: Option<BindingProvenance>,
    },
    /// A provider-backed directory or service assertion.
    Provider {
        /// Provider or authority reference.
        provider: BindingProvenance,
        /// Optional provider key identifier used for verification.
        key_id: Option<BindingProvenance>,
    },
}

impl BindingAuthority {
    /// Returns an identical copy of this authority.
    pub fn duplicate(&self) -> (a: Self)
        ensures
            a == *self,
    {
        match self {
            BindingAuthority::Issuer { issuer, key_id } => BindingAuthority::Issuer {
                issuer: issuer.duplicate(),
                key_id: match key_id {
                    Some(k) => Some(k.duplicate()),
                    None => None,
                },
            },
            BindingAuthority::Provider { provider, key_id } => BindingAuthority::Provider {
                provider: provider.duplicate(),
                key_id: match key_id {
                    Some(k) => Some(k.duplicate()),
                    None => None,
                },
            },
        }
    }
}

/// Bounded evidence for an application-verified tenant binding.
#[derive(Clone, Debug, PartialEq, Eq)]
pub struct TenantBindingEvidence {
    authority: BindingAuthority,
    authenticated_at: Timestamp,
    claims_digest: EvidenceDigest,
}

impl TenantBindingEvidence {
    /// The authority reference.
    pub closed spec fn authority_of(&self) -> BindingAuthority {
        self.authority
    }

    /// When the application authenticated the binding.
    pub closed spec fn authenticated(&self) -> Timestamp {
        self.authenticated_at
    }

    /// The digest of the authenticated claims.
    pub closed spec fn digest(&self) -> EvidenceDigest {
        self.claims_digest
    }

    /// Creates evidence without retaining raw claims or tokens.
    pub fn new(authority: BindingAuthority, authenticated_at: Timestamp, claims_digest: EvidenceDigest) -> (e: Self)
        ensures
            e.authority_of() == authority,
            e.authenticated() == authenticated_at,
            e.digest() == claims_digest,
    {
        TenantBindingEvidence { authority, authenticated_at, claims_digest }
    }

    /// Returns the authority reference used by the application.
    pub fn authority(&self) -> (a: &BindingAuthority)
        ensures
            *a == self.authority_of(),
    {
        &self.authority
    }

    /// Returns the time at which the application authenticated the binding.
    pub fn authenticated_at(&self) -> (t: Timestamp)
        ensures
            t == self.authenticated(),
    {
        self.authenticated_at
    }

    /// Returns the fixed-size digest of the authenticated claims/binding.
    pub fn claims_digest(&self) -> (d: &EvidenceDigest)
        ensures
            *d == self.digest(),
    {
        &self.claims_digest
    }

    /// Returns an identical copy of this evidence.
    pub fn duplicate(&self) -> (e: Self)
        ensures
            e == *self,
    {
        TenantBindingEvidence {
            authority: self.authority.duplicate(),
            authenticated_at: self.authenticated_at,
            claims_digest: self.claims_digest.duplicate(),
        }
    }
}

/// Errors returned when constructing or validating a tenant binding.
#[derive(Clone, Debug, PartialEq, Eq)]
pub enum TenantBindingError {
    /// Provenance was empty, contained controls, or exceeded its bound.
    InvalidProvenance {
        /// Rejected provenance value.
        value: String,
    },
    /// The validity window was empty, inverted, or inconsistent with evidence.
    InvalidWindow,
    /// The binding is not active yet.
    NotYetValid {
        /// Start of the binding validity window.
        valid_from: Timestamp,
        /// Clock time at which validation was attempted.
        now: Timestamp,
    },
    /// The binding is no longer active.
    Stale {
        /// End of the binding validity window.
        valid_until: Timestamp,
        /// Clock time at which validation was attempted.
        now: Timestamp,
    },
    /// The application authentication evidence is from the future relative
    /// to the clock used at this authorization boundary.
    AuthenticatedInFuture {
        /// Time recorded by the application verifier.
        authenticated_at: Timestamp,
        /// Clock time at which validation was attempted.
        now: Timestamp,
    },
}

/// An application-verified tenant binding with an explicit validity window.
///
/// The application must establish the tenant association before constructing
/// this value. The binding records bounded verification evidence and checks
/// the window; it does not verify tokens, issuers, or directory data.
#[derive(Clone, Debug, PartialEq, Eq)]
pub struct ApplicationVerifiedTenantBinding {
    tenant: TenantId,
    evidence: TenantBindingEvidence,
    valid_from: Timestamp,
    valid_until: Timestamp,
}

/// A window is usable when it is non-empty and the evidence was
/// authenticated no later than its end.
pub open spec fn window_ok(evidence: TenantBindingEvidence, valid_from: Timestamp, valid_until: Timestamp) -> bool {
    valid_from.instant() < valid_until.instant() && evidence.authenticated().instant() <= valid_until.instant()
}

/// The outcome of checking an application-verified binding at `now`.
pub open spec fn window_check(
    evidence: TenantBindingEvidence,
    valid_from: Timestamp,
    valid_until: Timestamp,
    now: Timestamp,
) -> Result<(), TenantBindingError> {
    if evidence.authenticated().instant() > now.instant() {
        Err(TenantBindingError::AuthenticatedInFuture { authenticated_at: evidence.authenticated(), now })
    } else if now.instant() < valid_from.instant() {
        Err(TenantBindingError::NotYetValid { valid_from, now })
    } else if now.instant() >= valid_until.instant() {
        Err(TenantBindingError::Stale { valid_until, now })
    } else {
        Ok(())
    }
}

impl ApplicationVerifiedTenantBinding {
    /// The tenant covered by the binding.
    pub closed spec fn tenant_of(&self) -> TenantId {
        self.tenant
    }

    /// The evidence supplied by the application verifier.
    pub closed spec fn evidence_of(&self) -> TenantBindingEvidence {
        self.evidence
    }

    /// Inclusive start of the validity window.
    pub closed spec fn from_of(&self) -> Timestamp {
        self.valid_from
    }

    /// Exclusive end of the validity window.
    pub closed spec fn until_of(&self) -> Timestamp {
        self.valid_until
    }

    /// Creates an application-verified binding.
    ///
    /// The validity window must be ordered and the evidence must not be
    /// authenticated after the window ends. Its lifetime is an application
    /// policy: no portable maximum is imposed.
    pub fn new(
        tenant: TenantId,
        evidence: TenantBindingEvidence,
        valid_from: Timestamp,
        valid_until: Timestamp,
    ) -> (r: Result<Self, TenantBindingError>)
        ensures
            window_ok(evidence, valid_from, valid_until) ==> (r matches Ok(b) && b.tenant_of() == tenant
                && b.evidence_of() == evidence && b.from_of() == valid_from && b.until_of() == valid_until),
            !window_ok(evidence, valid_from, valid_until) ==> r matches Err(TenantBindingError::InvalidWindow),
    {
        if !valid_from.is_before(&valid_until) || valid_until.is_before(&evidence.authenticated_at()) {
            return Err(TenantBindingError::InvalidWindow);
        }
        Ok(ApplicationVerifiedTenantBinding { tenant, evidence, valid_from, valid_until })
    }

    /// Returns the tenant covered by the binding.
    pub fn tenant(&self) -> (t: &TenantId)
        ensures
            *t == self.tenant_of(),
    {
        &self.tenant
    }

    /// Returns structured evidence supplied by the application verifier.
    pub fn evidence(&self) -> (e: &TenantBindingEvidence)
        ensures
            *e == self.evidence_of(),
    {
        &self.evidence
    }

    /// Returns the inclusive start of the validity window.
    pub fn valid_from(&self) -> (t: Timestamp)
        ensures
            t == self.from_of(),
    {
        self.valid_from
    }

    /// Returns the exclusive end of the validity window.
    pub fn valid_until(&self) -> (t: Timestamp)
        ensures
            t == self.until_of(),
    {
        self.valid_until
    }

    /// Checks whether this binding is usable at `now`, with no clock-skew
    /// grace period.
    pub fn validate_at(&self, now: Timestamp) -> (r: Result<(), TenantBindingError>)
        ensures
            r == window_check(self.evidence_of(), self.from_of(), self.until_of(), now),
    {
        let authenticated_at = self.evidence.authenticated_at();
        if now.is_before(&authenticated_at) {
            return Err(TenantBindingError::AuthenticatedInFuture { authenticated_at, now });
        }
        if now.is_before(&self.valid_from) {
            return Err(TenantBindingError::NotYetValid { valid_from: self.valid_from, now });
        }
        if !now.is_before(&self.valid_until) {
            return Err(TenantBindingError::Stale { valid_until: self.valid_until, now });
        }
        Ok(())
    }

    /// Returns an identical copy of this binding.
    pub fn duplicate(&self) -> (b: Self)
        ensures
            b == *self,
    {
        ApplicationVerifiedTenantBinding {
            tenant: self.tenant.duplicate(),
            evidence: self.evidence.duplicate(),
            valid_from: self.valid_from,
            valid_until: self.valid_until,
        }
    }
}

/// A separately named binding for an explicitly trusted internal service.
///
/// This does not assert that an end-user identity was verified. It is meant
/// for controlled service-to-service or maintenance boundaries where the
/// caller already owns that trust decision.
#[derive(Clone, Debug, PartialEq, Eq)]
pub struct TrustedServiceBinding {
    tenant: TenantId,
    service: BindingProvenance,
}

impl TrustedServiceBinding {
    /// The tenant covered by the binding.
    pub closed spec fn tenant_of(&self) -> TenantId {
        self.tenant
    }

    /// The trusted service label.
    pub closed spec fn service_of(&self) -> BindingProvenance {
        self.service
    }

    /// Creates a trusted-service tenant binding; the service label must be a
    /// valid provenance label.
    pub fn new(tenant: TenantId, service: &str) -> (r: Result<Self, TenantBindingError>)
        ensures
            provenance_ok(service@) ==> (r matches Ok(b) && b.tenant_of() == tenant && b.service_of()@ == service@),
            !provenance_ok(service@) ==> (r matches Err(TenantBindingError::InvalidProvenance { value: v })
                && v@ == service@),
    {
        match BindingProvenance::new(service) {
            Ok(service) => Ok(TrustedServiceBinding { tenant, service }),
            Err(e) => Err(e),
        }
    }

    /// Returns the tenant covered by the binding.
    pub fn tenant(&self) -> (t: &TenantId)
        ensures
            *t == self.tenant_of(),
    {
        &self.tenant
    }

    /// Returns the trusted service label.
    pub fn service(&self) -> (s: &BindingProvenance)
        ensures
            *s == self.service_of(),
    {
        &self.service
    }

    /// Returns an identical copy of this binding.
    pub fn duplicate(&self) -> (b: Self)
        ensures
            b == *self,
    {
        TrustedServiceBinding { tenant: self.tenant.duplicate(), service: self.service.duplicate() }
    }
}

/// The binding authority carried by a request context.
#[derive(Clone, Debug, PartialEq, Eq)]
pub enum TenantBinding {
    /// An application-verified binding with bounded freshness.
    ApplicationVerified(ApplicationVerifiedTenantBinding),
    /// An explicitly trusted internal-service binding.
    TrustedService(TrustedServiceBinding),
}

impl TenantBinding {
    /// The tenant covered by a binding.
    pub open spec fn tenant_of(&self) -> TenantId {
        match self {
            TenantBinding::ApplicationVerified(b) => b.tenant_of(),
            TenantBinding::TrustedService(b) => b.tenant_of(),
        }
    }

    /// The outcome of checking a binding at `now`: trusted-service bindings
    /// carry no freshness claim.
    pub open spec fn check_at(&self, now: Timestamp) -> Result<(), TenantBindingError> {
        match self {
            TenantBinding::ApplicationVerified(b) => window_check(b.evidence_of(), b.from_of(), b.until_of(), now),
            TenantBinding::TrustedService(_) => Ok(()),
        }
    }

    /// Returns the tenant covered by this binding.
    pub fn tenant(&self) -> (t: &TenantId)
        ensures
            *t == self.tenant_of(),
    {
        match self {
            TenantBinding::ApplicationVerified(binding) => binding.tenant(),
            TenantBinding::TrustedService(binding) => binding.tenant(),
        }
    }

    /// Validates freshness when this binding has a bounded validity window;
    /// trusted-service bindings always pass.
    pub fn validate_at(&self, now: Timestamp) -> (r: Result<(), TenantBindingError>)
        ensures
            r == self.check_at(now),
    {
        match self {
            TenantBinding::ApplicationVerified(binding) => binding.validate_at(now),
            TenantBinding::TrustedService(_) => Ok(()),
        }
    }

    /// Returns an identical copy of this binding.
    pub fn duplicate(&self) -> (b: Self)
        ensures
            b == *self,
    {
        match self {
            TenantBinding::ApplicationVerified(b) => TenantBinding::ApplicationVerified(b.duplicate()),
            TenantBinding::TrustedService(b) => TenantBinding::TrustedService(b.duplicate()),
        }
    }
}

} // verus!
