use crate::buffer::{utilization_of, RingBuffer};
use std::sync::atomic::{AtomicBool, Ordering};
use std::sync::Arc;
use vstd::arithmetic::power2::{lemma2_to64, pow2};
use vstd::bits::lemma_u32_shl_is_mul;
use vstd::prelude::*;

verus! {

/// Calls `Arc::clone`: a second handle to the same shared flag.
#[verifier::external_body]
pub(crate) fn share_flag(flag: &Arc<AtomicBool>) -> (r: Arc<AtomicBool>)
    ensures
        r == *flag,
{
    Arc::clone(flag)
}

/// Writes the state to the shared flag that observers read.
fn publish(flag: &AtomicBool, active: bool) {
    flag.store(active, Ordering::Relaxed);
}

/// Reads the shared flag.
fn observe(flag: &AtomicBool) -> bool {
    flag.load(Ordering::Relaxed)
}

/// A read-only handle to a controller's backpressure state, for observers
/// in other threads. Only the controller writes the state, so a handle reads
/// the value the controller last published.
pub struct BackpressureSignal {
    flag: Arc<AtomicBool>,
}

impl BackpressureSignal {
    /// The shared flag the handle reads.
    pub closed spec fn flag_spec(&self) -> AtomicBool {
        *self.flag
    }

    /// Whether backpressure is active, as the controller last published it.
    /// The value is written by the controller, possibly from another thread.
    pub fn is_active(&self) -> bool {
        observe(&self.flag)
    }
}

/// A watermark clamped to at most 100 percent.
pub open spec fn clamp_percent(w: u32) -> u32 {
    if w < 100 {
        w
    } else {
        100
    }
}

/// The backpressure state after observing a utilization: an active
/// controller stays active until the utilization drops below the low
/// watermark; an inactive one becomes active once the utilization reaches the
/// high watermark.
pub open spec fn next_active(was_active: bool, utilization: u32, high: u32, low: u32) -> bool {
    if was_active {
        utilization >= low
    } else {
        utilization >= high
    }
}

/// The pause between two polls of an active controller, in microseconds:
/// `2^i` with `i` capped at 10, and the result capped at 1000.
pub open spec fn backoff_micros_spec(i: u32) -> u32 {
    let e: nat = if i < 10 {
        i as nat
    } else {
        10
    };
    if pow2(e) < 1000 {
        pow2(e) as u32
    } else {
        1000
    }
}

/// Watermark-based flow control with hysteresis. When the utilization of a
/// downstream buffer reaches the high watermark, backpressure becomes active
/// and upstream should slow down; it is released once the utilization drops
/// below the low watermark.
pub struct BackpressureController {
    /// Threshold at which backpressure is triggered (percentage).
    high_watermark: u32,
    /// Threshold at which backpressure is released (percentage).
    low_watermark: u32,
    /// Whether backpressure is currently active.
    active: bool,
    /// A flag that other threads can observe; it is written whenever the
    /// state changes.
    flag: Arc<AtomicBool>,
}

impl BackpressureController {
    /// The high watermark, in percent.
    pub closed spec fn high_spec(&self) -> u32 {
        self.high_watermark
    }

    /// The low watermark, in percent.
    pub closed spec fn low_spec(&self) -> u32 {
        self.low_watermark
    }

    /// Whether backpressure is active.
    pub closed spec fn active_spec(&self) -> bool {
        self.active
    }

    /// The shared flag handed out by `signal`.
    pub closed spec fn flag_spec(&self) -> AtomicBool {
        *self.flag
    }

    /// Creates a controller with the default watermarks, 80% and 40%,
    /// inactive.
    pub fn new() -> (c: Self)
        ensures
            c.high_spec() == 80,
            c.low_spec() == 40,
            !c.active_spec(),
    {
        BackpressureController {
            high_watermark: 80,
            low_watermark: 40,
            active: false,
            flag: Arc::new(AtomicBool::new(false)),
        }
    }

    /// Creates an inactive controller with the given watermarks, each
    /// clamped to at most 100.
    pub fn with_watermarks(high: u32, low: u32) -> (c: Self)
        ensures
            c.high_spec() == clamp_percent(high),
            c.low_spec() == clamp_percent(low),
            !c.active_spec(),
    {
        let high = if high < 100 {
            high
        } else {
            100
        };
        let low = if low < 100 {
            low
        } else {
            100
        };
        BackpressureController {
            high_watermark: high,
            low_watermark: low,
            active: false,
            flag: Arc::new(AtomicBool::new(false)),
        }
    }

    /// Observes the buffer's utilization and updates the state; returns
    /// whether backpressure is now active.
    pub fn check_and_update(&mut self, buffer: &RingBuffer) -> (now_active: bool)
        requires
            buffer.wf(),
            buffer.items().len() * 100 <= u32::MAX,
            buffer.capacity_spec() as u32 != 0,
        ensures
            now_active == next_active(
                old(self).active_spec(),
                utilization_of(buffer.items().len(), buffer.capacity_spec() as usize),
                old(self).high_spec(),
                old(self).low_spec(),
            ),
            final(self).active_spec() == now_active,
            final(self).high_spec() == old(self).high_spec(),
            final(self).low_spec() == old(self).low_spec(),
            final(self).flag_spec() == old(self).flag_spec(),
    {
        let utilization = buffer.utilization();
        let was_active = self.active;
        let is_now_active = if was_active {
            utilization >= self.low_watermark
        } else {
            utilization >= self.high_watermark
        };
        if is_now_active != was_active {
            self.active = is_now_active;
            publish(&self.flag, is_now_active);
        }
        is_now_active
    }

    /// Whether backpressure is currently active.
    pub fn is_active(&self) -> (b: bool)
        ensures
            b == self.active_spec(),
    {
        self.active
    }

    /// A read-only handle to the state, for observers in other threads; the
    /// controller publishes every change of state to it.
    pub fn signal(&self) -> (s: BackpressureSignal)
        ensures
            s.flag_spec() == self.flag_spec(),
    {
        BackpressureSignal { flag: share_flag(&self.flag) }
    }

    /// Releases backpressure.
    pub fn reset(&mut self)
        ensures
            !final(self).active_spec(),
            final(self).high_spec() == old(self).high_spec(),
            final(self).low_spec() == old(self).low_spec(),
            final(self).flag_spec() == old(self).flag_spec(),
    {
        self.active = false;
        publish(&self.flag, false);
    }

    /// The high watermark, in percent.
    pub fn high_watermark(&self) -> (w: u32)
        ensures
            w == self.high_spec(),
    {
        self.high_watermark
    }

    /// The low watermark, in percent.
    pub fn low_watermark(&self) -> (w: u32)
        ensures
            w == self.low_spec(),
    {
        self.low_watermark
    }
}

impl Default for BackpressureController {
    fn default() -> (c: Self)
        ensures
            c.high_spec() == 80,
            c.low_spec() == 40,
            !c.active_spec(),
    {
        Self::new()
    }
}

/// Hysteresis of the controller: from inactive it activates once the
/// utilization reaches the high watermark; from active it is released once
/// the utilization drops below the low watermark; a utilization from the low
/// watermark up to, but not reaching, the high one keeps the state as it is.
pub proof fn lemma_hysteresis(was_active: bool, utilization: u32, high: u32, low: u32)
    ensures
        !was_active && utilization >= high ==> next_active(was_active, utilization, high, low),
        !was_active && utilization < high ==> !next_active(was_active, utilization, high, low),
        was_active && utilization < low ==> !next_active(was_active, utilization, high, low),
        was_active && utilization >= low ==> next_active(was_active, utilization, high, low),
        low <= utilization < high ==> next_active(was_active, utilization, high, low)
            == was_active,
{
}

/// No oscillation: when the low watermark is not above the high one,
/// observing the same utilization again leaves the state where the first
/// observation put it.
pub proof fn lemma_no_oscillation(was_active: bool, utilization: u32, high: u32, low: u32)
    requires
        low <= high,
    ensures
        next_active(next_active(was_active, utilization, high, low), utilization, high, low)
            == next_active(was_active, utilization, high, low),
{
}

/// The pause grows with the number of polls: it never shrinks from one
/// poll to a later one.
pub proof fn lemma_backoff_monotonic(i: u32, j: u32)
    requires
        i <= j,
    ensures
        backoff_micros_spec(i) <= backoff_micros_spec(j),
{
    let ei: nat = if i < 10 {
        i as nat
    } else {
        10
    };
    let ej: nat = if j < 10 {
        j as nat
    } else {
        10
    };
    if ei < ej {
        vstd::arithmetic::power2::lemma_pow2_strictly_increases(ei, ej);
    }
}

/// After a reset, the next observation activates backpressure exactly when
/// the utilization reaches the high watermark.
pub proof fn lemma_reset_then_observe(utilization: u32, high: u32, low: u32)
    ensures
        next_active(false, utilization, high, low) == (utilization >= high),
{
}

/// The pause, in microseconds, before the `i`-th poll of an active
/// controller while a producer waits for backpressure to be released.
pub fn backoff_micros(i: u32) -> (us: u32)
    ensures
        us == backoff_micros_spec(i),
        1 <= us <= 1000,
{
    let e: u32 = if i < 10 {
        i
    } else {
        10
    };
    proof {
        lemma2_to64();
        lemma_u32_shl_is_mul(1, e);
        if e < 10 {
            vstd::arithmetic::power2::lemma_pow2_strictly_increases(e as nat, 10);
        }
        vstd::arithmetic::power2::lemma_pow2_pos(e as nat);
    }
    let b: u32 = 1u32 << e;
    if b < 1000 {
        b
    } else {
        1000
    }
}

} // verus!
