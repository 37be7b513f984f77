//! A nanosecond clock anchored once to the wall clock and paced by a
//! monotonic counter, so that reading it never asks the system for the date.
use vstd::prelude::*;

verus! {

/// Added to the wall-clock anchor so that no reading appears to precede it.
pub const ANCHOR_SKEW_NANOS: u64 = 10;

#[verifier::external_type_specification]
#[verifier::external_body]
pub struct ExClock(quanta::Clock);

/// Relies on quanta's `Clock::new`: a clock over the fastest counter of the machine.
#[verifier::external_body]
fn new_counter() -> quanta::Clock {
    quanta::Clock::new()
}

/// Relies on quanta's `Clock::raw`: the counter's current raw reading.
#[verifier::external_body]
fn raw_reading(clock: &quanta::Clock) -> u64 {
    clock.raw()
}

/// Relies on quanta's `Clock::delta_as_nanos`: nanoseconds between two raw
/// readings, zero when `end` is not after `start`.
#[verifier::external_body]
fn nanos_between(clock: &quanta::Clock, start: u64, end: u64) -> (r: u64)
    ensures
        end <= start ==> r == 0,
{
    clock.delta_as_nanos(start, end)
}

pub struct UnixClock {
    counter: quanta::Clock,
    raw_anchor: u64,
    epoch_anchor: u64,
}

/// The wall-clock anchor for a wall-clock reading of `wall_nanos`.
pub open spec fn anchor_of(wall_nanos: u64) -> int {
    let a = wall_nanos as int + ANCHOR_SKEW_NANOS as int;
    if a > u64::MAX { u64::MAX as int } else { a }
}

/// The reading of a clock anchored at `anchor` after `elapsed` nanoseconds.
pub open spec fn reading(anchor: u64, elapsed: u64) -> int {
    let a = anchor as int + elapsed as int;
    if a > u64::MAX { u64::MAX as int } else { a }
}

impl UnixClock {
    pub closed spec fn anchor(&self) -> u64 {
        self.epoch_anchor
    }

    /// A clock anchored at `wall_nanos`, the wall clock's nanoseconds since
    /// the Unix epoch read just before.
    pub fn new(wall_nanos: u64) -> (r: UnixClock)
        ensures
            r.anchor() == anchor_of(wall_nanos),
    {
        let counter = new_counter();
        let raw_anchor = raw_reading(&counter);
        UnixClock { counter, raw_anchor, epoch_anchor: wall_nanos.saturating_add(ANCHOR_SKEW_NANOS) }
    }

    /// The time that `elapsed` nanoseconds after the anchor stands for.
    pub fn at(&self, elapsed: u64) -> (r: u64)
        ensures
            r == reading(self.anchor(), elapsed),
    {
        self.epoch_anchor.saturating_add(elapsed)
    }

    /// Nanoseconds since the Unix epoch: the anchor plus the time the counter
    /// has measured since the clock was made.
    pub fn now(&self) -> (r: u64)
        ensures
            r >= self.anchor(),
            exists|elapsed: u64| r == reading(self.anchor(), elapsed),
    {
        let elapsed = nanos_between(&self.counter, self.raw_anchor, raw_reading(&self.counter));
        self.at(elapsed)
    }
}

} // verus!
