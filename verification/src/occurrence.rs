//! Retry-stable identity and time of one decision.
use vstd::prelude::*;

use crate::clock::Timestamp;
use crate::identity::{has_legacy_prefix, starts_with_legacy, DecisionAuditId};

verus! {

/// Last second of 9999-12-31 UTC, in Unix seconds: the end of the portable
/// instant range.
pub const MAX_PORTABLE_UNIX_SECONDS: i64 = 253_402_300_799;

/// Validation failure for a decision occurrence crossing the SQL audit
/// boundary.
#[derive(Clone, Copy, Debug, PartialEq, Eq)]
pub enum DecisionAuditOccurrenceError {
    /// Imported legacy identities cannot be used for new occurrences.
    ReservedLegacyIdentity,
    /// The occurrence is outside the portable instant range.
    OutOfRange,
    /// The occurrence was not normalized through the validating constructor.
    NonCanonical,
}

/// `t` truncated to whole microseconds and written in UTC.
pub open spec fn normalized(t: Timestamp) -> Timestamp {
    Timestamp {
        unix_seconds: t.unix_seconds,
        nanosecond: (t.nanosecond - t.nanosecond % 1000) as u32,
        offset_seconds: 0,
    }
}

/// The outcome of validating an occurrence of `id` at `t`: the normalized
/// time, or why the pair is refused.
pub open spec fn occurrence_check(id: Seq<char>, t: Timestamp) -> Result<Timestamp, DecisionAuditOccurrenceError> {
    if has_legacy_prefix(id) {
        Err(DecisionAuditOccurrenceError::ReservedLegacyIdentity)
    } else if t.unix_seconds < 0 || t.unix_seconds > MAX_PORTABLE_UNIX_SECONDS {
        Err(DecisionAuditOccurrenceError::OutOfRange)
    } else if normalized(t).nanosecond >= 1_000_000_000 {
        Err(DecisionAuditOccurrenceError::OutOfRange)
    } else {
        Ok(normalized(t))
    }
}

/// Stable identity and normalized time of one decision occurrence.
///
/// Applications may construct and retain this value at their authorization
/// boundary. Reusing it for an ambiguous retry keeps both the identity and
/// the recorded occurrence time unchanged.
#[derive(Clone, Debug, PartialEq, Eq)]
pub struct DecisionAuditOccurrence {
    decision_audit_id: DecisionAuditId,
    occurred_at: Timestamp,
}

impl DecisionAuditOccurrence {
    /// The stable identity.
    pub closed spec fn id_of(&self) -> DecisionAuditId {
        self.decision_audit_id
    }

    /// The recorded occurrence time.
    pub closed spec fn time_of(&self) -> Timestamp {
        self.occurred_at
    }

    /// Validates and normalizes a decision occurrence.
    ///
    /// The portable instant range starts at the Unix epoch and ends at the
    /// final microsecond of 9999-12-31. Sub-microsecond values are truncated
    /// once, so a retry cannot silently change the durable event bytes.
    pub fn new(decision_audit_id: DecisionAuditId, occurred_at: Timestamp) -> (r: Result<Self, DecisionAuditOccurrenceError>)
        ensures
            match occurrence_check(decision_audit_id@, occurred_at) {
                Ok(t) => r matches Ok(o) && o.id_of() == decision_audit_id && o.time_of() == t,
                Err(e) => r == Err::<Self, DecisionAuditOccurrenceError>(e),
            },
    {
        if starts_with_legacy(decision_audit_id.as_str()) {
            return Err(DecisionAuditOccurrenceError::ReservedLegacyIdentity);
        }
        let seconds = occurred_at.unix_seconds;
        if seconds < 0 || seconds > MAX_PORTABLE_UNIX_SECONDS {
            return Err(DecisionAuditOccurrenceError::OutOfRange);
        }
        let nanosecond = occurred_at.nanosecond;
        let normalized_nanosecond = nanosecond - nanosecond % 1000;
        if normalized_nanosecond >= 1_000_000_000 {
            return Err(DecisionAuditOccurrenceError::OutOfRange);
        }
        Ok(DecisionAuditOccurrence {
            decision_audit_id,
            occurred_at: Timestamp { unix_seconds: seconds, nanosecond: normalized_nanosecond, offset_seconds: 0 },
        })
    }

    /// Returns the stable identity of this decision occurrence.
    pub fn decision_audit_id(&self) -> (id: &DecisionAuditId)
        ensures
            *id == self.id_of(),
    {
        &self.decision_audit_id
    }

    /// Returns the normalized UTC occurrence time.
    pub fn occurred_at(&self) -> (t: Timestamp)
        ensures
            t == self.time_of(),
    {
        self.occurred_at
    }

    /// Revalidates that this value retains its constructor invariants: the
    /// constructor's checks, then UTC at exact microsecond precision.
    pub fn validate(&self) -> (r: Result<(), DecisionAuditOccurrenceError>)
        ensures
            r == occurrence_validation(self.id_of(), self.time_of()),
    {
        match DecisionAuditOccurrence::new(self.decision_audit_id.duplicate(), self.occurred_at) {
            Err(e) => return Err(e),
            Ok(_) => {},
        }
        if self.occurred_at.offset_seconds != 0 || self.occurred_at.nanosecond % 1000 != 0 {
            return Err(DecisionAuditOccurrenceError::NonCanonical);
        }
        Ok(())
    }

    pub(crate) fn into_parts(self) -> (parts: (DecisionAuditId, Timestamp))
        ensures
            parts == (self.id_of(), self.time_of()),
    {
        (self.decision_audit_id, self.occurred_at)
    }

    pub(crate) fn from_parts(decision_audit_id: DecisionAuditId, occurred_at: Timestamp) -> (o: Self)
        ensures
            o.id_of() == decision_audit_id,
            o.time_of() == occurred_at,
    {
        DecisionAuditOccurrence { decision_audit_id, occurred_at }
    }

    /// Returns an identical copy of this occurrence.
    pub fn duplicate(&self) -> (o: Self)
        ensures
            o == *self,
    {
        DecisionAuditOccurrence { decision_audit_id: self.decision_audit_id.duplicate(), occurred_at: self.occurred_at }
    }
}

/// The outcome of revalidating a stored occurrence.
pub open spec fn occurrence_validation(id: DecisionAuditId, t: Timestamp) -> Result<(), DecisionAuditOccurrenceError> {
    match occurrence_check(id@, t) {
        Err(e) => Err(e),
        Ok(_) => if t.offset_seconds != 0 || t.nanosecond % 1000 != 0 {
            Err(DecisionAuditOccurrenceError::NonCanonical)
        } else {
            Ok(())
        },
    }
}

/// A character of the hyphenated lowercase text of a UUID.
pub open spec fn uuid_text_char(c: char) -> bool {
    ('0' <= c && c <= '9') || ('a' <= c && c <= 'f') || c == '-'
}

impl DecisionAuditId {
    /// Generates a time-ordered identity for a new decision occurrence: the
    /// text of a fresh version 7 UUID. Its value depends on the clock and on
    /// chance; it is never blank and never in the reserved `legacy-` space.
    pub fn generate() -> (id: Self)
        ensures
            id@.len() == 36,
            forall|i: int| 0 <= i < id@.len() ==> uuid_text_char(#[trigger] id@[i]),
            !has_legacy_prefix(id@),
    {
        let text = new_v7_uuid_text();
        let id = DecisionAuditId::from_trusted(text.as_str());
        proof {
            if has_legacy_prefix(id@) {
                assert(id@.subrange(0, 7)[0] == 'l');
                assert(uuid_text_char(id@[0]));
            }
        }
        id
    }
}

/// Text of `uuid::Uuid::now_v7()`: its `Display` form is the hyphenated
/// lowercase encoding, 36 characters of hexadecimal digits and `-`. Which
/// UUID comes out depends on the clock and on chance and is not stated.
#[verifier::external_body]
fn new_v7_uuid_text() -> (s: String)
    ensures
        s@.len() == 36,
        forall|i: int| 0 <= i < s@.len() ==> uuid_text_char(#[trigger] s@[i]),
{
    uuid::Uuid::now_v7().to_string()
}

} // verus!
