//! The driver's clock: one monotonic origin, read as elapsed milliseconds.

use std::time::Duration;
use std::time::Instant;
use vstd::prelude::*;

verus! {

/// Makes `std::time::Instant` known as an opaque type: a value of it can be
/// kept and handed on, and nothing is known of what it holds.
#[verifier::external_type_specification]
#[verifier::external_body]
pub struct ExInstant(Instant);

/// The number of distinct tick values; ticks wrap around at this many
/// milliseconds.
pub open spec fn tick_modulus() -> int {
    0x1_0000_0000
}

/// The tick that stands for a reading of elapsed whole milliseconds.
pub open spec fn tick_of(elapsed: u128) -> int {
    elapsed as int % tick_modulus()
}

/// Reduces a reading of elapsed milliseconds to the 32-bit tick that the engine
/// takes.
pub fn tick(elapsed: u128) -> (t: u32)
    ensures
        t == tick_of(elapsed),
{
    let low: u128 = elapsed % 0x1_0000_0000u128;
    low as u32
}

/// Wraps `Instant::now`, which reads the monotonic clock. Nothing is claimed of
/// the instant that comes back.
#[verifier::external_body]
fn instant_now() -> (origin: Instant) {
    Instant::now()
}

/// Wraps `Instant::elapsed`, which measures the time that has passed since
/// `origin`. The result depends on the moment of the call, so nothing is
/// claimed of it.
#[verifier::external_body]
fn instant_elapsed(origin: &Instant) -> (elapsed: Duration) {
    origin.elapsed()
}

/// Wraps `Duration::as_millis`, which counts the whole milliseconds in `span`.
/// A span is opaque here, so nothing is claimed of the count.
#[verifier::external_body]
fn duration_as_millis(span: &Duration) -> (millis: u128) {
    span.as_millis()
}

/// A monotonic origin, captured once and handed to every role.
#[derive(Clone, Copy, Debug)]
pub struct Clock {
    origin: Instant,
}

impl Clock {
    /// Captures the origin: the moment of this call.
    pub fn start() -> (clock: Clock) {
        Clock { origin: instant_now() }
    }

    /// The whole milliseconds elapsed since the origin, as the monotonic clock
    /// of the machine shows them at the moment of this call.
    pub fn elapsed(&self) -> (millis: u128) {
        let span = instant_elapsed(&self.origin);
        duration_as_millis(&span)
    }

    /// The current tick: the milliseconds elapsed at the moment of this call,
    /// reduced to 32 bits as [`tick`] reduces them.
    pub fn now(&self) -> (t: u32) {
        tick(self.elapsed())
    }
}

/// Ticks do not decrease as long as the clock has not wrapped around.
pub proof fn lemma_ticks_follow_time(earlier: u128, later: u128)
    requires
        earlier <= later,
        later < tick_modulus(),
    ensures
        tick_of(earlier) <= tick_of(later),
        tick_of(earlier) == earlier,
        tick_of(later) == later,
{
}

} // verus!
