//! Points in time and the spans between them, counted in nanoseconds.
//!
//! The daemon's decisions only ever compare how far apart two moments are, so
//! a moment is a count of nanoseconds since some fixed origin: whoever runs the
//! daemon picks the origin once and reads its clock against it.

use vstd::prelude::*;

verus! {

/// Nanoseconds in a second.
pub const NANOS_PER_SEC: u128 = 1_000_000_000;

/// Nanoseconds in a millisecond.
pub const NANOS_PER_MILLI: u128 = 1_000_000;

/// A span of time.
#[derive(Debug, Clone, Copy, PartialEq, Eq, Structural)]
pub struct Duration {
    /// How long it is, in nanoseconds.
    pub nanos: u128,
}

/// A moment of a monotonic clock.
#[derive(Debug, Clone, Copy, PartialEq, Eq, Structural)]
pub struct Instant {
    /// Nanoseconds since the clock's origin.
    pub nanos: u128,
}

/// The span of that many whole seconds.
pub open spec fn seconds(secs: u64) -> Duration {
    Duration { nanos: (secs * NANOS_PER_SEC) as u128 }
}

/// The shorter of two spans.
pub open spec fn shorter(a: Duration, b: Duration) -> Duration {
    if a.nanos <= b.nanos {
        a
    } else {
        b
    }
}

/// The time from `earlier` to `later`, and none at all if they are the other
/// way round.
pub open spec fn elapsed(earlier: Instant, later: Instant) -> Duration {
    if later.nanos <= earlier.nanos {
        Duration { nanos: 0 }
    } else {
        Duration { nanos: (later.nanos - earlier.nanos) as u128 }
    }
}

/// How the standard library writes a span of that many seconds and nanoseconds
/// for people to read.
pub uninterp spec fn duration_text(secs: u64, nanos: u32) -> Seq<char>;

/// The `Debug` text of `std::time::Duration`, as `format!` writes it. The
/// contract only gives that text a name: the same span is always written the
/// same way. How it is written is left unsaid.
#[verifier::external_body]
fn debug_text(secs: u64, nanos: u32) -> (said: String)
    requires
        nanos < 1_000_000_000,
    ensures
        said@ == duration_text(secs, nanos),
{
    format!("{:?}", std::time::Duration::new(secs, nanos))
}

impl Duration {
    /// Whether the span is one the standard library can hold: its whole seconds
    /// fit in 64 bits.
    pub open spec fn is_writable(self) -> bool {
        self.nanos / NANOS_PER_SEC <= u64::MAX
    }

    /// The span as people read it.
    pub open spec fn written(self) -> Seq<char> {
        duration_text((self.nanos / NANOS_PER_SEC) as u64, (self.nanos % NANOS_PER_SEC) as u32)
    }

    /// Writes the span for people to read, for example `60s`.
    pub fn describe(self) -> (said: String)
        requires
            self.is_writable(),
        ensures
            said@ == self.written(),
    {
        debug_text((self.nanos / NANOS_PER_SEC) as u64, (self.nanos % NANOS_PER_SEC) as u32)
    }

    /// The whole seconds of the span, as far as a signed 64-bit number counts
    /// them, and the nanoseconds left over: what `poll(2)` takes for a timeout.
    pub fn timespec(self) -> (parts: (i64, i64))
        ensures
            parts.0 == (if self.nanos / NANOS_PER_SEC <= i64::MAX {
                self.nanos / NANOS_PER_SEC
            } else {
                i64::MAX as u128
            }),
            parts.1 == self.nanos % NANOS_PER_SEC,
            0 <= parts.1 < 1_000_000_000,
            self.nanos / 1_000_000_000 <= i64::MAX ==> parts.0 * 1_000_000_000 + parts.1
                == self.nanos,
    {
        let secs: u128 = self.nanos / NANOS_PER_SEC;
        let whole: i64 = if secs <= i64::MAX as u128 {
            secs as i64
        } else {
            i64::MAX
        };
        (whole, (self.nanos % NANOS_PER_SEC) as i64)
    }

    /// No time at all.
    pub fn zero() -> (span: Duration)
        ensures
            span == (Duration { nanos: 0 }),
    {
        Duration { nanos: 0 }
    }

    /// Longer than anything a clock will ever measure.
    pub fn longest() -> (span: Duration)
        ensures
            span == (Duration { nanos: u128::MAX }),
    {
        Duration { nanos: u128::MAX }
    }

    /// A span of whole seconds.
    pub fn from_secs(secs: u64) -> (span: Duration)
        ensures
            span == seconds(secs),
            span.nanos == secs * NANOS_PER_SEC,
            span.nanos == secs * 1_000_000_000,
    {
        Duration { nanos: secs as u128 * NANOS_PER_SEC }
    }

    /// A span of whole milliseconds.
    pub fn from_millis(millis: u64) -> (span: Duration)
        ensures
            span.nanos == millis * NANOS_PER_MILLI,
            span.nanos == millis * 1_000_000,
    {
        Duration { nanos: millis as u128 * NANOS_PER_MILLI }
    }

    /// The shorter of the two.
    pub fn min(self, other: Duration) -> (span: Duration)
        ensures
            span == shorter(self, other),
    {
        if self.nanos <= other.nanos {
            self
        } else {
            other
        }
    }
}

impl Instant {
    /// How long ago `earlier` was; zero if it is still to come.
    pub fn duration_since(self, earlier: Instant) -> (span: Duration)
        ensures
            span == elapsed(earlier, self),
    {
        if self.nanos <= earlier.nanos {
            Duration { nanos: 0 }
        } else {
            Duration { nanos: self.nanos - earlier.nanos }
        }
    }

    /// How long ago `earlier` was, unless it is still to come.
    pub fn checked_duration_since(self, earlier: Instant) -> (span: Option<Duration>)
        ensures
            span is Some <==> earlier.nanos <= self.nanos,
            span matches Some(d) ==> d == elapsed(earlier, self),
    {
        if earlier.nanos <= self.nanos {
            Some(Duration { nanos: self.nanos - earlier.nanos })
        } else {
            None
        }
    }

    /// The moment `span` after this one, unless the clock cannot count that far.
    pub fn checked_add(self, span: Duration) -> (moment: Option<Instant>)
        ensures
            moment is Some <==> self.nanos + span.nanos <= u128::MAX,
            moment matches Some(t) ==> t.nanos == self.nanos + span.nanos,
    {
        match self.nanos.checked_add(span.nanos) {
            Some(nanos) => Some(Instant { nanos }),
            None => None,
        }
    }

    /// The moment `span` before this one, unless that is before the origin.
    pub fn checked_sub(self, span: Duration) -> (moment: Option<Instant>)
        ensures
            moment is Some <==> span.nanos <= self.nanos,
            moment matches Some(t) ==> t.nanos == self.nanos - span.nanos,
    {
        match self.nanos.checked_sub(span.nanos) {
            Some(nanos) => Some(Instant { nanos }),
            None => None,
        }
    }
}

/// A second is a thousand million nanoseconds, and a span of seconds is that
/// many of them.
pub proof fn law_seconds_add_up(secs: u64, more: u64)
    requires
        secs + more <= u64::MAX,
    ensures
        seconds((secs + more) as u64).nanos == seconds(secs).nanos + seconds(more).nanos,
        seconds(secs).nanos == secs * 1_000_000_000,
{
}

/// The time that has passed since a moment is what must be added to it to come
/// to the present, and none if the moment is still to come.
pub proof fn law_elapsed_time_leads_to_the_present(earlier: Instant, later: Instant)
    ensures
        earlier.nanos <= later.nanos ==> earlier.nanos + elapsed(earlier, later).nanos
            == later.nanos,
        earlier.nanos >= later.nanos ==> elapsed(earlier, later).nanos == 0,
{
}

/// The shorter of two spans is one of them, and longer than neither.
pub proof fn law_shorter_is_one_of_the_two(a: Duration, b: Duration)
    ensures
        shorter(a, b) == a || shorter(a, b) == b,
        shorter(a, b).nanos <= a.nanos,
        shorter(a, b).nanos <= b.nanos,
{
}

/// A span is written by its whole seconds and the nanoseconds left over.
pub proof fn law_span_is_written_by_its_parts(secs: u64, nanos: u32, span: Duration)
    requires
        nanos < 1_000_000_000,
        span.nanos == secs * 1_000_000_000 + nanos,
    ensures
        span.is_writable(),
        span.written() == duration_text(secs, nanos),
{
    assert(span.nanos / 1_000_000_000 == secs && span.nanos % 1_000_000_000 == nanos);
}

} // verus!
