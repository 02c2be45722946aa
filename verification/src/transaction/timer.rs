//! SIP timer values and identifiers per RFC 3261 Section 17.

use crate::time::{max_nanos, Duration};
use vstd::prelude::*;

verus! {

/// RFC 3261 timer values.
#[derive(Debug, Clone, Copy)]
pub struct TimerValues {
    /// T1: RTT estimate (default 500ms).
    pub t1: Duration,
    /// T2: Maximum retransmit interval for non-INVITE (default 4s).
    pub t2: Duration,
    /// T4: Maximum network transit time (default 5s).
    pub t4: Duration,
}

impl Default for TimerValues {
    fn default() -> (tv: Self)
        ensures
            tv.t1.nanos == 500_000_000,
            tv.t2.nanos == 4_000_000_000,
            tv.t4.nanos == 5_000_000_000,
    {
        TimerValues { t1: Duration::from_millis(500), t2: Duration::from_secs(4), t4: Duration::from_secs(5) }
    }
}

impl TimerValues {
    /// Timer values with a custom T1 and the default T2 and T4.
    pub fn with_t1(t1_ms: u64) -> (tv: Self)
        ensures
            tv.t1.nanos == t1_ms * 1_000_000,
            tv.t2.nanos == 4_000_000_000,
            tv.t4.nanos == 5_000_000_000,
    {
        TimerValues { t1: Duration::from_millis(t1_ms), t2: Duration::from_secs(4), t4: Duration::from_secs(5) }
    }

    /// Timer A: INVITE retransmit for unreliable transport (initially T1).
    pub fn timer_a(&self) -> (d: Duration)
        ensures
            d == self.t1,
    {
        self.t1
    }

    /// Timer B: INVITE transaction timeout (64 * T1).
    pub fn timer_b(&self) -> (d: Duration)
        requires
            self.t1.nanos * 64 <= max_nanos(),
        ensures
            d.nanos == self.t1.nanos * 64,
    {
        self.t1.times(64)
    }

    /// Timer C: Proxy INVITE transaction timeout (181 s).
    pub fn timer_c(&self) -> (d: Duration)
        ensures
            d.nanos == 181_000_000_000,
    {
        Duration::from_secs(180).plus(&Duration::from_secs(1))
    }

    /// Timer D: Wait time in Completed state for unreliable transport (33 s).
    pub fn timer_d(&self) -> (d: Duration)
        ensures
            d.nanos == 33_000_000_000,
    {
        Duration::from_secs(32).plus(&Duration::from_secs(1))
    }

    /// Timer E: Non-INVITE retransmit for unreliable transport (initially T1).
    pub fn timer_e(&self) -> (d: Duration)
        ensures
            d == self.t1,
    {
        self.t1
    }

    /// Timer F: Non-INVITE transaction timeout (64 * T1).
    pub fn timer_f(&self) -> (d: Duration)
        requires
            self.t1.nanos * 64 <= max_nanos(),
        ensures
            d.nanos == self.t1.nanos * 64,
    {
        self.t1.times(64)
    }

    /// Timer G: INVITE response retransmit (initially T1).
    pub fn timer_g(&self) -> (d: Duration)
        ensures
            d == self.t1,
    {
        self.t1
    }

    /// Timer H: Wait for ACK timeout (64 * T1).
    pub fn timer_h(&self) -> (d: Duration)
        requires
            self.t1.nanos * 64 <= max_nanos(),
        ensures
            d.nanos == self.t1.nanos * 64,
    {
        self.t1.times(64)
    }

    /// Timer I: Wait in Confirmed state for unreliable transport (T4).
    pub fn timer_i(&self) -> (d: Duration)
        ensures
            d == self.t4,
    {
        self.t4
    }

    /// Timer J: Wait in Completed state for non-INVITE (64 * T1 unreliable, 0 reliable).
    pub fn timer_j(&self, reliable: bool) -> (d: Duration)
        requires
            !reliable ==> self.t1.nanos * 64 <= max_nanos(),
        ensures
            d.nanos == if reliable { 0 } else { self.t1.nanos * 64 },
    {
        if reliable {
            Duration::zero()
        } else {
            self.t1.times(64)
        }
    }

    /// Timer K: Wait in Completed state for client non-INVITE (T4 unreliable, 0 reliable).
    pub fn timer_k(&self, reliable: bool) -> (d: Duration)
        ensures
            d.nanos == if reliable { 0 } else { self.t4.nanos },
    {
        if reliable {
            Duration::zero()
        } else {
            self.t4
        }
    }

    /// The next retransmit interval: `current` doubled, capped at T2.
    pub fn next_retransmit(&self, current: Duration) -> (d: Duration)
        requires
            current.nanos * 2 <= max_nanos(),
        ensures
            d.nanos == if current.nanos * 2 <= self.t2.nanos { current.nanos * 2 } else { self.t2.nanos as int },
    {
        let doubled = current.times(2);
        doubled.shorter(&self.t2)
    }
}

/// Timer identifier for transaction state machines.
#[derive(Debug, Clone, Copy, PartialEq, Eq, Hash, Structural)]
pub enum Timer {
    /// Timer A: INVITE request retransmit.
    A,
    /// Timer B: INVITE transaction timeout.
    B,
    /// Timer C: Proxy INVITE transaction timeout.
    C,
    /// Timer D: Wait time in Completed state.
    D,
    /// Timer E: Non-INVITE request retransmit.
    E,
    /// Timer F: Non-INVITE transaction timeout.
    F,
    /// Timer G: INVITE response retransmit.
    G,
    /// Timer H: Wait for ACK receipt.
    H,
    /// Timer I: Wait in Confirmed state.
    I,
    /// Timer J: Wait in Completed state (non-INVITE server).
    J,
    /// Timer K: Wait in Completed state (non-INVITE client).
    K,
}

impl Timer {
    /// The timer's name, as it is displayed ("Timer A" .. "Timer K").
    pub fn as_str(&self) -> (s: &'static str)
        ensures
            s@ == timer_name(*self),
    {
        match self {
            Timer::A => "Timer A",
            Timer::B => "Timer B",
            Timer::C => "Timer C",
            Timer::D => "Timer D",
            Timer::E => "Timer E",
            Timer::F => "Timer F",
            Timer::G => "Timer G",
            Timer::H => "Timer H",
            Timer::I => "Timer I",
            Timer::J => "Timer J",
            Timer::K => "Timer K",
        }
    }
}

/// The displayed name of a timer.
pub open spec fn timer_name(t: Timer) -> Seq<char> {
    match t {
        Timer::A => "Timer A"@,
        Timer::B => "Timer B"@,
        Timer::C => "Timer C"@,
        Timer::D => "Timer D"@,
        Timer::E => "Timer E"@,
        Timer::F => "Timer F"@,
        Timer::G => "Timer G"@,
        Timer::H => "Timer H"@,
        Timer::I => "Timer I"@,
        Timer::J => "Timer J"@,
        Timer::K => "Timer K"@,
    }
}

/// An active timer with its deadline.
#[derive(Debug, Clone, Copy)]
pub struct ActiveTimer {
    /// Which timer this is.
    pub timer: Timer,
    /// When the timer fires (absolute time in microseconds from some epoch).
    pub deadline_us: u64,
}

impl ActiveTimer {
    /// Create a new active timer.
    pub fn new(timer: Timer, deadline_us: u64) -> (t: Self)
        ensures
            t.timer == timer,
            t.deadline_us == deadline_us,
    {
        ActiveTimer { timer, deadline_us }
    }

    /// Whether the timer has expired at time `now_us`.
    pub fn is_expired(&self, now_us: u64) -> (b: bool)
        ensures
            b == (now_us >= self.deadline_us),
    {
        now_us >= self.deadline_us
    }
}

} // verus!
