use vstd::prelude::*;

verus! {

/// A point in time as plain values: whole seconds since the Unix epoch, the
/// nanoseconds within that second, and the UTC offset it was expressed in.
///
/// Two timestamps are ordered by the instant they name; the offset only
/// records how the instant was written.
#[derive(Clone, Copy, Debug, Eq)]
pub struct Timestamp {
    /// Whole seconds since 1970-01-01T00:00:00Z.
    pub unix_seconds: i64,
    /// Nanoseconds within the second, below one billion.
    pub nanosecond: u32,
    /// Offset from UTC, in seconds.
    pub offset_seconds: i32,
}

/// Nanoseconds in one second.
pub const NANOS_PER_SECOND: u32 = 1_000_000_000;

impl Timestamp {
    /// The instant, in nanoseconds since the Unix epoch.
    pub open spec fn instant(self) -> int {
        self.unix_seconds * 1_000_000_000 + self.nanosecond
    }

    /// A timestamp in UTC.
    pub fn utc(unix_seconds: i64, nanosecond: u32) -> (t: Self)
        ensures
            t.unix_seconds == unix_seconds,
            t.nanosecond == nanosecond,
            t.offset_seconds == 0,
    {
        Timestamp { unix_seconds, nanosecond, offset_seconds: 0 }
    }

    fn nanos(&self) -> (n: i128)
        ensures
            n == self.instant(),
    {
        assert(-0x8000_0000_0000_0000 * 1_000_000_000 <= self.unix_seconds * 1_000_000_000
            <= 0x7fff_ffff_ffff_ffff * 1_000_000_000) by (nonlinear_arith)
            requires
                -0x8000_0000_0000_0000 <= self.unix_seconds <= 0x7fff_ffff_ffff_ffff,
        ;
        (self.unix_seconds as i128) * 1_000_000_000 + (self.nanosecond as i128)
    }

    /// Whether this instant is strictly earlier than `other`.
    pub fn is_before(&self, other: &Self) -> (b: bool)
        ensures
            b == (self.instant() < other.instant()),
    {
        self.nanos() < other.nanos()
    }
}

impl PartialEq for Timestamp {
    fn eq(&self, other: &Self) -> (b: bool) {
        self.nanos() == other.nanos()
    }
}

impl vstd::std_specs::cmp::PartialEqSpecImpl for Timestamp {
    open spec fn obeys_eq_spec() -> bool {
        true
    }

    open spec fn eq_spec(&self, other: &Self) -> bool {
        self.instant() == other.instant()
    }
}

/// Clock implementation that reads the system UTC wall clock.
#[derive(Clone, Copy, Debug, Default)]
pub struct SystemClock;

impl SystemClock {
    /// Returns the current instant in UTC.
    pub fn now_utc(&self) -> (t: Timestamp)
        ensures
            t.offset_seconds == 0,
            t.nanosecond < NANOS_PER_SECOND,
    {
        system_now_utc()
    }
}

/// Reads `time::OffsetDateTime::now_utc`, which documents a UTC result. The
/// instant itself depends on the machine's clock and is left unstated.
#[verifier::external_body]
fn system_now_utc() -> (t: Timestamp)
    ensures
        t.offset_seconds == 0,
        t.nanosecond < NANOS_PER_SECOND,
{
    let now = time::OffsetDateTime::now_utc();
    Timestamp {
        unix_seconds: now.unix_timestamp(),
        nanosecond: now.nanosecond(),
        offset_seconds: now.offset().whole_seconds(),
    }
}

} // verus!
