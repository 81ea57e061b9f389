//! Lengths of time and the two clocks.

use vstd::prelude::*;

verus! {

/// The monotonic instant of the standard library.
#[verifier::external_type_specification]
#[verifier::external_body]
pub struct ExInstant(std::time::Instant);

/// The wall-clock instant of the standard library.
#[verifier::external_type_specification]
#[verifier::external_body]
pub struct ExSystemTime(std::time::SystemTime);

/// What `SystemTime::duration_since` returns when the other instant lies later.
#[verifier::external_type_specification]
#[verifier::external_body]
pub struct ExSystemTimeError(std::time::SystemTimeError);

/// `Instant::now`: the current instant. It depends on the time, so nothing is claimed of it.
pub assume_specification[ std::time::Instant::now ]() -> (r: std::time::Instant)
;

/// `Instant::elapsed`: the time since the instant. It depends on the time, so nothing is claimed
/// of it.
pub assume_specification[ std::time::Instant::elapsed ](i: &std::time::Instant) -> (r:
    std::time::Duration)
;

/// `Duration::as_millis`: whole milliseconds. A duration is opaque here and comes from a clock, so
/// nothing is claimed of the number.
pub assume_specification[ std::time::Duration::as_millis ](d: &std::time::Duration) -> (r: u128)
;

/// `Duration::as_micros`: whole microseconds. A duration is opaque here and comes from a clock, so
/// nothing is claimed of the number.
pub assume_specification[ std::time::Duration::as_micros ](d: &std::time::Duration) -> (r: u128)
;

/// `Duration::as_nanos`: nanoseconds. A duration is opaque here and comes from a clock, so nothing
/// is claimed of the number.
pub assume_specification[ std::time::Duration::as_nanos ](d: &std::time::Duration) -> (r: u128)
;

/// `Duration::as_secs`: whole seconds. A duration is opaque here and comes from a clock, so nothing
/// is claimed of the number.
pub assume_specification[ std::time::Duration::as_secs ](d: &std::time::Duration) -> (r: u64)
;

/// `SystemTime::now`: the current instant. It depends on the time, so nothing is claimed of it.
pub assume_specification[ std::time::SystemTime::now ]() -> (r: std::time::SystemTime)
;

/// `SystemTime::duration_since`: the time between two instants, and an error when the other one
/// lies later. An instant is opaque here and comes from a clock, so nothing is claimed of the
/// result.
pub assume_specification[ std::time::SystemTime::duration_since ](
    t: &std::time::SystemTime,
    earlier: std::time::SystemTime,
) -> (r: Result<std::time::Duration, std::time::SystemTimeError>)
;

/// `std::time::UNIX_EPOCH`. An instant is opaque here, so nothing is claimed of it.
#[verifier::external_body]
fn unix_epoch() -> (r: std::time::SystemTime)
{
    std::time::UNIX_EPOCH
}

/// Whether `now` is a reading of the wall clock in seconds: what `Duration::as_secs` gave of the
/// time that `SystemTime::duration_since` gave between the epoch and what `SystemTime::now` gave;
/// zero when it gave an error, for the clock stands before the epoch.
pub closed spec fn reads_wall_secs(now: u64) -> bool {
    exists|
        t: std::time::SystemTime,
        epoch: std::time::SystemTime,
        r: Result<std::time::Duration, std::time::SystemTimeError>,
    |
        call_ensures(std::time::SystemTime::now, (), t) && call_ensures(unix_epoch, (), epoch)
            && #[trigger] call_ensures(std::time::SystemTime::duration_since, (&t, epoch), r)
            && match r {
            Ok(d) => call_ensures(std::time::Duration::as_secs, (&d,), now),
            Err(_) => now == 0,
        }
}

/// Wall-clock seconds since the Unix epoch; zero when the clock stands before it.
pub fn now_secs() -> (now: u64)
    ensures
        reads_wall_secs(now),
{
    let t = std::time::SystemTime::now();
    let epoch = unix_epoch();
    let r = t.duration_since(epoch);
    assert(call_ensures(std::time::SystemTime::duration_since, (&t, epoch), r));
    match r {
        Ok(d) => d.as_secs(),
        Err(_) => 0,
    }
}

/// A length of time.
#[derive(Clone, Copy, Debug, PartialEq, Eq, Structural)]
pub struct Duration {
    pub secs: u64,
    pub nanos: u32,
}

impl Duration {
    /// Whole seconds.
    pub fn from_secs(secs: u64) -> (d: Duration)
        ensures
            d == (Duration { secs, nanos: 0 }),
    {
        Duration { secs, nanos: 0 }
    }

    /// Whole milliseconds.
    pub fn from_millis(millis: u64) -> (d: Duration)
        ensures
            d.millis() == millis,
            d.nanos < 1_000_000_000,
            d.nanos % 1_000_000 == 0,
    {
        Duration { secs: millis / 1000, nanos: (millis % 1000) as u32 * 1_000_000 }
    }

    /// The length in whole milliseconds.
    pub open spec fn millis(self) -> int {
        self.secs * 1000 + self.nanos / 1_000_000
    }

    /// The length in nanoseconds.
    pub open spec fn nanoseconds(self) -> int {
        self.secs * 1_000_000_000 + self.nanos
    }

    /// Nanoseconds of this length.
    pub fn as_nanos(&self) -> (ns: u128)
        ensures
            ns == self.nanoseconds(),
    {
        self.secs as u128 * 1_000_000_000 + self.nanos as u128
    }

    /// Whole seconds of this length.
    pub fn as_secs(&self) -> (s: u64)
        ensures
            s == self.secs,
    {
        self.secs
    }

    /// Whole milliseconds of this length.
    pub fn as_millis(&self) -> (ms: u128)
        ensures
            ms == self.millis(),
    {
        self.secs as u128 * 1000 + (self.nanos / 1_000_000) as u128
    }
}

/// A monotonic clock that counts from the moment it was started.
#[derive(Clone, Copy, Debug)]
pub struct Clock {
    start: std::time::Instant,
}

impl Clock {
    /// The instant from which the clock counts.
    pub closed spec fn origin(self) -> std::time::Instant {
        self.start
    }

    /// Whether the clock counts from what `Instant::now` gave.
    pub open spec fn started(self) -> bool {
        call_ensures(std::time::Instant::now, (), self.origin())
    }

    /// Whether `now` is a reading in milliseconds: what `Duration::as_millis` gave of what
    /// `Instant::elapsed` gave of the instant from which the clock counts, in 64 bits.
    pub open spec fn reads_ms(self, now: u64) -> bool {
        exists|d: std::time::Duration, ms: u128|
            call_ensures(std::time::Instant::elapsed, (&self.origin(),), d)
                && #[trigger] call_ensures(std::time::Duration::as_millis, (&d,), ms) && now
                == ms as u64
    }

    /// Whether `now` is a reading in microseconds: what `Duration::as_micros` gave of what
    /// `Instant::elapsed` gave of the instant from which the clock counts, in 64 bits.
    pub open spec fn reads_us(self, now: u64) -> bool {
        exists|d: std::time::Duration, us: u128|
            call_ensures(std::time::Instant::elapsed, (&self.origin(),), d)
                && #[trigger] call_ensures(std::time::Duration::as_micros, (&d,), us) && now
                == us as u64
    }

    /// Whether `now` is a reading in nanoseconds: what `Duration::as_nanos` gave of what
    /// `Instant::elapsed` gave of the instant from which the clock counts.
    pub open spec fn reads_ns(self, now: u128) -> bool {
        exists|d: std::time::Duration|
            call_ensures(std::time::Instant::elapsed, (&self.origin(),), d)
                && #[trigger] call_ensures(std::time::Duration::as_nanos, (&d,), now)
    }

    /// Whether `now` is a reading in whole seconds.
    pub open spec fn reads_secs(self, now: u64) -> bool {
        exists|ms: u64| #[trigger] self.reads_ms(ms) && now == ms / 1000
    }

    /// A clock that starts now.
    pub fn start() -> (c: Clock)
        ensures
            c.started(),
    {
        Clock { start: std::time::Instant::now() }
    }

    /// Milliseconds since the clock was started.
    pub fn now_ms(&self) -> (now: u64)
        ensures
            self.reads_ms(now),
    {
        let d = self.start.elapsed();
        let ms: u128 = d.as_millis();
        assert(call_ensures(std::time::Duration::as_millis, (&d,), ms));
        ms as u64
    }

    /// Microseconds since the clock was started.
    pub fn now_us(&self) -> (now: u64)
        ensures
            self.reads_us(now),
    {
        let d = self.start.elapsed();
        let us: u128 = d.as_micros();
        assert(call_ensures(std::time::Duration::as_micros, (&d,), us));
        us as u64
    }

    /// Nanoseconds since the clock was started.
    pub fn now_ns(&self) -> (now: u128)
        ensures
            self.reads_ns(now),
    {
        let d = self.start.elapsed();
        let ns: u128 = d.as_nanos();
        assert(call_ensures(std::time::Duration::as_nanos, (&d,), ns));
        ns
    }
}

/// Whole microseconds of a reading in nanoseconds, in 64 bits.
#[verifier::allow_in_spec]
pub fn us_of(ns: u128) -> (us: u64)
    returns
        (ns / 1000) as u64,
{
    (ns / 1000) as u64
}

/// Whole milliseconds of a reading in nanoseconds, in 64 bits.
#[verifier::allow_in_spec]
pub fn ms_of(ns: u128) -> (ms: u64)
    returns
        (ns / 1_000_000) as u64,
{
    (ns / 1_000_000) as u64
}

/// Microseconds and milliseconds of a reading are whole ones, rounded down, as far as 64 bits go.
pub proof fn law_readings_are_rounded_down(ns: u128)
    ensures
        ns / 1000 <= u64::MAX ==> us_of(ns) * 1000 <= ns < us_of(ns) * 1000 + 1000,
        ns / 1_000_000 <= u64::MAX ==> ms_of(ns) * 1_000_000 <= ns < ms_of(ns) * 1_000_000
            + 1_000_000,
{
}

/// Later readings never give fewer microseconds or milliseconds, as far as 64 bits go.
pub proof fn law_readings_keep_their_order(a: u128, b: u128)
    requires
        a <= b,
        b / 1000 <= u64::MAX,
    ensures
        us_of(a) <= us_of(b),
        ms_of(a) <= ms_of(b),
{
}

/// The units of a length of time agree: its milliseconds are those that are whole.
pub proof fn law_units_agree(d: Duration)
    requires
        d.nanos < 1_000_000_000,
    ensures
        d.millis() * 1_000_000 <= d.nanoseconds() < d.millis() * 1_000_000 + 1_000_000,
        d.secs * 1_000_000_000 <= d.nanoseconds() < d.secs * 1_000_000_000 + 1_000_000_000,
{
}

} // verus!
