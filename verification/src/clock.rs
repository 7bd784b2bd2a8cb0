//! Clock readings.

use std::time::Instant;
use vstd::prelude::*;

verus! {

/// `std::time::Instant`, a reading of the monotonic clock.
#[verifier::external_type_specification]
#[verifier::external_body]
pub struct ExInstant(std::time::Instant);

/// A span of time: whole seconds, and the nanoseconds beyond them.
#[derive(Clone, Copy)]
pub struct Span {
    pub secs: u64,
    pub nanos: u32,
}

/// `SystemTime::elapsed` of the Unix epoch tells how long ago that was, or
/// fails if the clock is set to before it. The nanoseconds of a span are fewer
/// than a second has.
#[verifier::external_body]
fn since_unix_epoch() -> (r: Option<Span>)
    ensures
        r matches Some(span) ==> span.nanos < 1_000_000_000,
{
    match std::time::UNIX_EPOCH.elapsed() {
        Ok(d) => Some(Span { secs: d.as_secs(), nanos: d.subsec_nanos() }),
        Err(_) => None,
    }
}

/// `Instant::elapsed` tells how much time has passed since a reading. The
/// nanoseconds of a span are fewer than a second has.
#[verifier::external_body]
fn since(started: Instant) -> (r: Span)
    ensures
        r.nanos < 1_000_000_000,
{
    let d = started.elapsed();
    Span { secs: d.as_secs(), nanos: d.subsec_nanos() }
}

/// Whole seconds since the Unix epoch, and zero for a time before it.
pub open spec fn whole_seconds(since_epoch: Option<Span>) -> u64 {
    match since_epoch {
        Some(span) => span.secs,
        None => 0,
    }
}

/// Whole seconds since the Unix epoch, and zero for a time before it.
pub fn unix_seconds(since_epoch: Option<Span>) -> (r: u64)
    ensures
        r == whole_seconds(since_epoch),
{
    match since_epoch {
        Some(span) => span.secs,
        None => 0,
    }
}

/// Is this what the system clock gave when it was asked how long ago the Unix
/// epoch was? Which readings these are is not known.
pub closed spec fn is_system_reading(reading: Option<Span>) -> bool {
    call_ensures(since_unix_epoch, (), reading)
}

/// Are these the whole seconds of a reading of the system clock?
pub open spec fn is_unix_time(now: u64) -> bool {
    exists|reading: Option<Span>| #[trigger]
        is_system_reading(reading) && now == whole_seconds(reading)
}

/// The current time in whole seconds since the Unix epoch: those of a reading
/// of the system clock, and zero if it is set to before the epoch.
pub fn now_unix() -> (r: u64)
    ensures
        is_unix_time(r),
{
    let reading = since_unix_epoch();
    proof {
        assert(is_system_reading(reading));
    }
    unix_seconds(reading)
}

/// The whole microseconds of a span.
pub open spec fn span_micros(span: Span) -> nat {
    (span.secs * 1_000_000 + span.nanos / 1_000) as nat
}

/// The whole microseconds of a span, and the largest number there is for
/// spans that are longer.
pub open spec fn capped_micros(span: Span) -> u64 {
    if span_micros(span) <= u64::MAX {
        span_micros(span) as u64
    } else {
        u64::MAX
    }
}

/// The whole microseconds of a span, and the largest number there is for
/// spans that are longer.
pub fn micros(span: Span) -> (r: u64)
    ensures
        r == capped_micros(span),
{
    let us: u128 = span.secs as u128 * 1_000_000 + (span.nanos / 1_000) as u128;
    if us <= u64::MAX as u128 {
        us as u64
    } else {
        u64::MAX
    }
}

/// Is this what the monotonic clock gave when it was asked how much time has
/// passed since a reading? Which spans these are is not known.
pub closed spec fn is_elapsed(started: Instant, span: Span) -> bool {
    call_ensures(since, (started,), span)
}

/// Are these the whole microseconds of a span that the monotonic clock gave
/// for the time since a reading?
pub open spec fn is_micros_since(started: Instant, us: u64) -> bool {
    exists|span: Span| #[trigger] is_elapsed(started, span) && us == capped_micros(span)
}

/// The whole microseconds since a clock reading: those of the span that the
/// clock gives for it, or the largest number there is if they are more.
pub fn elapsed_us(started: Instant) -> (r: u64)
    ensures
        is_micros_since(started, r),
{
    let span = since(started);
    proof {
        assert(is_elapsed(started, span));
    }
    micros(span)
}

/// The microseconds of a span are all that fit into it, and the seconds of a
/// time are its whole ones; a time before the epoch has none.
pub proof fn law_time_units(span: Span)
    requires
        span.nanos < 1_000_000_000,
    ensures
        ({
            let nanos = span.secs * 1_000_000_000 + span.nanos;
            let us = capped_micros(span);
            &&& us * 1_000 <= nanos
            &&& us < u64::MAX ==> nanos < (us + 1) * 1_000
        }),
        whole_seconds(Some(span)) == span.secs,
        whole_seconds(None) == 0,
{
}

/// The current time is the whole seconds of what the system clock gave, and a time
/// since a reading is the microseconds of what the monotonic clock gave for it.
pub proof fn law_clock_is_read(now: u64, started: Instant, us: u64)
    ensures
        is_unix_time(now) <==> exists|reading: Option<Span>| #[trigger]
            is_system_reading(reading) && now == (match reading {
                Some(span) => span.secs,
                None => 0,
            }),
        is_micros_since(started, us) <==> exists|span: Span| #[trigger]
            is_elapsed(started, span) && {
                let whole = span.secs * 1_000_000 + span.nanos / 1_000;
                us == whole || (us == u64::MAX && whole > u64::MAX)
            },
{
    if is_unix_time(now) {
        let reading = choose|reading: Option<Span>| #[trigger]
            is_system_reading(reading) && now == whole_seconds(reading);
        assert(is_system_reading(reading));
    }
    if is_micros_since(started, us) {
        let span = choose|span: Span| #[trigger]
            is_elapsed(started, span) && us == capped_micros(span);
        assert(is_elapsed(started, span));
    }
}

} // verus!
