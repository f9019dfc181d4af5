//! Instants and lifetimes, counted in nanoseconds.

use vstd::prelude::*;

verus! {

/// An instant: nanoseconds since the Unix epoch.
pub type Timestamp = i128;

/// Nanoseconds in one second.
pub const NANOS_PER_SECOND: u64 = 1_000_000_000;

/// How long a token lives when the store is not told otherwise: five minutes.
pub const DEFAULT_LIFETIME: u64 = 5 * 60 * NANOS_PER_SECOND;

/// The instant `lifetime` nanoseconds after `now`, held at the latest instant
/// a `Timestamp` can name.
pub open spec fn deadline(now: int, lifetime: int) -> int {
    if now + lifetime > i128::MAX {
        i128::MAX as int
    } else {
        now + lifetime
    }
}

/// The instant that lies `subsec_nanos` nanoseconds after the whole second
/// `secs`.
pub open spec fn instant(secs: int, subsec_nanos: int) -> int {
    secs * 1_000_000_000 + subsec_nanos
}

/// Computes the deadline of something that starts at `now` and lives for
/// `lifetime` nanoseconds.
pub fn expiry_after(now: Timestamp, lifetime: u64) -> (expiry: Timestamp)
    ensures
        expiry == deadline(now as int, lifetime as int),
        expiry >= now,
{
    let span: i128 = lifetime as i128;
    if now > i128::MAX - span {
        i128::MAX
    } else {
        now + span
    }
}

/// Builds a timestamp from whole seconds since the epoch and the nanoseconds
/// past that second.
pub fn timestamp_from_parts(secs: i64, subsec_nanos: u32) -> (t: Timestamp)
    ensures
        t == instant(secs as int, subsec_nanos as int),
{
    let whole: i128 = secs as i128;
    let part: i128 = subsec_nanos as i128;
    whole * 1_000_000_000 + part
}

/// The whole seconds since the epoch that have passed at the instant `t`;
/// before the epoch they are negative.
pub open spec fn whole_seconds(t: int) -> int {
    t / 1_000_000_000
}

/// The nanoseconds by which the instant `t` lies after its whole second.
pub open spec fn subsec_nanos(t: int) -> int {
    t % 1_000_000_000
}

/// Splits a timestamp into whole seconds since the epoch and the nanoseconds
/// past that second; `None` where the seconds do not fit into 64 bits.
pub fn timestamp_parts(t: Timestamp) -> (parts: Option<(i64, u32)>)
    ensures
        match parts {
            Some((secs, nanos)) => secs == whole_seconds(t as int) && nanos == subsec_nanos(
                t as int,
            ) && instant(secs as int, nanos as int) == t,
            None => whole_seconds(t as int) < i64::MIN || whole_seconds(t as int) > i64::MAX,
        },
{
    let second: i128 = 1_000_000_000;
    let (whole, part): (i128, i128) = if t >= 0 {
        (t / second, t % second)
    } else {
        let below: i128 = -(t + 1);
        (-(below / second) - 1, second - 1 - below % second)
    };
    if whole < i64::MIN as i128 || whole > i64::MAX as i128 {
        None
    } else {
        Some((whole as i64, part as u32))
    }
}

/// Reads the system clock through `chrono::Utc::now`, and hands back what
/// `DateTime::timestamp` and `DateTime::timestamp_subsec_nanos` say of that
/// instant. Nothing is claimed of the reading: it is whatever the clock shows.
#[verifier::external_body]
fn clock_reading() -> (parts: (i64, u32)) {
    let t = chrono::Utc::now();
    (t.timestamp(), t.timestamp_subsec_nanos())
}

/// Whether `t` is an instant that a reading of the clock can name: whole
/// seconds that fit into 64 bits, and a count of nanoseconds of 32 bits on
/// top.
pub open spec fn is_clock_reading(t: int) -> bool {
    i64::MIN * 1_000_000_000 <= t <= i64::MAX * 1_000_000_000 + u32::MAX
}

/// The current instant by the system clock.
pub fn now() -> (t: Timestamp)
    ensures
        is_clock_reading(t as int),
{
    let (secs, subsec_nanos) = clock_reading();
    timestamp_from_parts(secs, subsec_nanos)
}

} // verus!
