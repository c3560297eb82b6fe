use vstd::prelude::*;
use crate::protocol::timestamp_accepted;
use crate::text::text;

verus! {

/// Why a time or a message id could not be taken.
#[derive(Debug, PartialEq, Eq, Structural, Clone, Copy)]
pub enum StampError {
    /// The system clock is before 1970, or beyond what the runtime can represent.
    ClockUnavailable,
    /// The operating system gave no random bytes.
    RandomnessUnavailable,
}

/// The text of a stamp error.
pub open spec fn stamp_error_text(e: StampError) -> Seq<char> {
    match e {
        StampError::ClockUnavailable => "system time is not usable"@,
        StampError::RandomnessUnavailable => "could not retrieve random bytes for a message id"@,
    }
}

impl StampError {
    /// The error's text.
    pub fn message(&self) -> (m: String)
        ensures
            m@ == stamp_error_text(*self),
    {
        match self {
            StampError::ClockUnavailable => text("system time is not usable"),
            StampError::RandomnessUnavailable => text("could not retrieve random bytes for a message id"),
        }
    }
}

/// The last second whose RFC 3339 form has a four-digit year (9999-12-31T23:59:59Z).
pub const LAST_FOUR_DIGIT_YEAR_SECOND: u64 = 253_402_300_799;

/// The time elapsed since the Unix epoch, as whole seconds and the nanoseconds beyond them;
/// calls `SystemTime::elapsed` on `UNIX_EPOCH`. Claims only that the nanoseconds are below a
/// billion, as `Duration::subsec_nanos` documents; `None` when the clock is before 1970.
#[verifier::external_body]
fn time_since_epoch() -> (r: Option<(u64, u32)>)
    ensures
        r matches Some((_, nanos)) ==> nanos < 1_000_000_000,
{
    match std::time::SystemTime::UNIX_EPOCH.elapsed() {
        Ok(d) => Some((d.as_secs(), d.subsec_nanos())),
        Err(_) => None,
    }
}

/// What `chrono` writes for the instant `secs` seconds and `nanos` nanoseconds after the Unix
/// epoch, in RFC 3339 with `Z` and as many fraction digits as needed; `None` when `chrono`
/// has no such instant.
pub uninterp spec fn rfc3339_written(secs: i64, nanos: u32) -> Option<Seq<char>>;

/// Writes an instant as RFC 3339 text; calls `DateTime::<Utc>::from_timestamp` and
/// `to_rfc3339_opts(SecondsFormat::AutoSi, true)`. Claims that the text is a function of the
/// instant, that an instant from 1970 to the end of year 9999 has one, and that `chrono`
/// reads that text back as a UTC timestamp.
#[verifier::external_body]
fn rfc3339_text(secs: i64, nanos: u32) -> (r: Option<String>)
    ensures
        match r {
            Some(t) => rfc3339_written(secs, nanos) == Some(t@)
                && (0 <= secs <= LAST_FOUR_DIGIT_YEAR_SECOND && nanos < 1_000_000_000 ==> timestamp_accepted(t@)),
            None => rfc3339_written(secs, nanos) is None
                && !(0 <= secs <= LAST_FOUR_DIGIT_YEAR_SECOND && nanos < 1_000_000_000),
        },
{
    chrono::DateTime::<chrono::Utc>::from_timestamp(secs, nanos)
        .map(|t| t.to_rfc3339_opts(chrono::SecondsFormat::AutoSi, true))
}

/// An instant: microseconds since the Unix epoch and its RFC 3339 text.
#[derive(Debug)]
pub struct Moment {
    pub micros: i64,
    pub rfc3339: String,
}

/// The last microsecond of year 9999.
pub const LAST_FOUR_DIGIT_YEAR_MICRO: i64 = 253_402_300_799_999_999;

/// The instant `secs` seconds and `nanos` nanoseconds after the Unix epoch, as whole
/// microseconds and RFC 3339 text; `None` when the microseconds do not fit in an `i64` or
/// `chrono` has no such instant.
pub open spec fn moment_spec(secs: u64, nanos: u32) -> Option<(int, Seq<char>)> {
    let micros = secs * 1_000_000 + nanos / 1000;
    if micros <= i64::MAX {
        match rfc3339_written(secs as i64, nanos) {
            Some(t) => Some((micros, t)),
            None => None,
        }
    } else {
        None
    }
}

/// Whether `t` is the RFC 3339 text of an instant that the clock can give, one that `chrono`
/// reads back as a UTC timestamp when it falls before the end of year 9999.
pub open spec fn clock_text(t: Seq<char>) -> bool {
    exists|secs: u64, nanos: u32, micros: int|
        nanos < 1_000_000_000 && moment_spec(secs, nanos) == Some((micros, t))
            && (micros <= LAST_FOUR_DIGIT_YEAR_MICRO ==> timestamp_accepted(t))
}

/// The moment of a clock reading: `secs` seconds and `nanos` nanoseconds after the Unix epoch.
pub fn moment_from(secs: u64, nanos: u32) -> (r: Result<Moment, StampError>)
    requires
        nanos < 1_000_000_000,
    ensures
        match r {
            Ok(m) => {
                &&& moment_spec(secs, nanos) == Some((m.micros as int, m.rfc3339@))
                &&& m.micros >= 0
                &&& (m.micros <= LAST_FOUR_DIGIT_YEAR_MICRO ==> timestamp_accepted(m.rfc3339@))
            },
            Err(e) => e == StampError::ClockUnavailable && moment_spec(secs, nanos) is None,
        },
{
    let total: u128 = secs as u128 * 1_000_000 + (nanos / 1000) as u128;
    if total > i64::MAX as u128 {
        return Err(StampError::ClockUnavailable);
    }
    let micros: i64 = total as i64;
    let s: i64 = secs as i64;
    match rfc3339_text(s, nanos) {
        Some(t) => {
            proof {
                if micros <= LAST_FOUR_DIGIT_YEAR_MICRO {
                    assert(secs <= LAST_FOUR_DIGIT_YEAR_SECOND) by (nonlinear_arith)
                        requires
                            micros == secs * 1_000_000 + nanos / 1000,
                            micros <= LAST_FOUR_DIGIT_YEAR_MICRO,
                            nanos / 1000 >= 0;
                }
            }
            Ok(Moment { micros, rfc3339: t })
        },
        None => Err(StampError::ClockUnavailable),
    }
}

/// The current time; the clock is unavailable when it is before 1970 or beyond what an `i64`
/// of microseconds and `chrono` can hold.
pub fn now() -> (r: Result<Moment, StampError>)
    ensures
        match r {
            Ok(m) => {
                &&& exists|secs: u64, nanos: u32| nanos < 1_000_000_000
                    && moment_spec(secs, nanos) == Some((m.micros as int, m.rfc3339@))
                &&& m.micros >= 0
                &&& (m.micros <= LAST_FOUR_DIGIT_YEAR_MICRO ==> timestamp_accepted(m.rfc3339@))
                &&& clock_text(m.rfc3339@)
            },
            Err(e) => e == StampError::ClockUnavailable,
        },
{
    match time_since_epoch() {
        Some((secs, nanos)) => moment_from(secs, nanos),
        None => Err(StampError::ClockUnavailable),
    }
}

/// Sixteen random bytes from the operating system, read as one number; calls
/// `getrandom::fill`. Nothing is claimed of the value; `None` when the system gives no bytes.
#[verifier::external_body]
fn random_u128() -> (r: Option<u128>) {
    let mut bytes = [0u8; 16];
    match getrandom::fill(&mut bytes) {
        Ok(()) => Some(u128::from_ne_bytes(bytes)),
        Err(_) => None,
    }
}

/// The version-4 UUID that `uuid::Builder::from_random_bytes` makes of random bits (taken in
/// big-endian order): the bits with the version nibble set to 4 and the RFC 4122 variant
/// (`10`) in the two bits after the third group.
pub open spec fn uuid_v4_from(bits: u128) -> u128 {
    (bits & 0xFFFF_FFFF_FFFF_0FFF_3FFF_FFFF_FFFF_FFFFu128) | 0x0000_0000_0000_4000_8000_0000_0000_0000u128
}

/// Makes a version-4 UUID of random bits; calls `Builder::from_random_bytes` and
/// `Builder::into_uuid`. Claims that the id is the bits with the version and variant set, as
/// `with_version` and `with_variant` do.
#[verifier::external_body]
fn uuid_v4(bits: u128) -> (id: u128)
    ensures
        id == uuid_v4_from(bits),
{
    uuid::Builder::from_random_bytes(bits.to_be_bytes()).into_uuid().as_u128()
}

/// A fresh random (version-4) message id, or the error when no random bytes are available.
pub fn new_message_id() -> (r: Result<u128, StampError>)
    ensures
        match r {
            Ok(id) => exists|bits: u128| id == uuid_v4_from(bits),
            Err(e) => e == StampError::RandomnessUnavailable,
        },
{
    match random_u128() {
        Some(bits) => Ok(uuid_v4(bits)),
        None => Err(StampError::RandomnessUnavailable),
    }
}

} // verus!
