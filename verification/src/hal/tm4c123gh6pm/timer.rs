//! Timer configuration model for the TM4C123GH6PM.
//!
//! Supports both standard and wide timers; only the periodic and one-shot
//! modes have a configuration sequence so far.

use vstd::prelude::*;

use crate::hal::tm4c123gh6pm::io::RegOp;
use crate::hal::tm4c123gh6pm::sysctl::Periph;

verus! {

/// There are 6 standard 16/32-bit timers and 6 "wide" 32/64-bit timers.
#[derive(Clone, Copy, PartialEq, Eq, Structural, Debug)]
pub enum TimerId {
    Timer0,
    Timer1,
    Timer2,
    Timer3,
    Timer4,
    Timer5,
    TimerW0,
    TimerW1,
    TimerW2,
    TimerW3,
    TimerW4,
    TimerW5,
}

/// Timer modes.
#[derive(Clone, Copy, PartialEq, Eq, Structural, Debug)]
pub enum Mode {
    /// Loops and restarts once the timeout is reached.
    Periodic,
    /// Disabled once the timeout is reached.
    OneShot,
    /// Based on the 32.768 kHz clock, ticking at 1 Hz.
    RTC,
    /// Counts edge events on an external pin.
    EdgeCount,
    /// Measures the time until an edge event occurs.
    EdgeTime,
    /// Generates a configurable square wave.
    PWM,
}

// Register offsets from a timer base.
pub const CFG_OFFSET: u32 = 0x000;
pub const AMR_OFFSET: u32 = 0x004;
pub const CTL_OFFSET: u32 = 0x00C;
pub const TAILR_OFFSET: u32 = 0x028;
pub const APR_OFFSET: u32 = 0x038;
pub const TAV_OFFSET: u32 = 0x050;

impl TimerId {
    /// Base address of this timer's register block.
    pub open spec fn spec_base(self) -> u32 {
        match self {
            TimerId::Timer0 => 0x40030000,
            TimerId::Timer1 => 0x40031000,
            TimerId::Timer2 => 0x40032000,
            TimerId::Timer3 => 0x40033000,
            TimerId::Timer4 => 0x40034000,
            TimerId::Timer5 => 0x40035000,
            TimerId::TimerW0 => 0x40036000,
            TimerId::TimerW1 => 0x40037000,
            TimerId::TimerW2 => 0x4003C000,
            TimerId::TimerW3 => 0x4003D000,
            TimerId::TimerW4 => 0x4003E000,
            TimerId::TimerW5 => 0x4003F000,
        }
    }

    pub fn base(self) -> (r: u32)
        ensures
            r == self.spec_base(),
    {
        match self {
            TimerId::Timer0 => 0x40030000,
            TimerId::Timer1 => 0x40031000,
            TimerId::Timer2 => 0x40032000,
            TimerId::Timer3 => 0x40033000,
            TimerId::Timer4 => 0x40034000,
            TimerId::Timer5 => 0x40035000,
            TimerId::TimerW0 => 0x40036000,
            TimerId::TimerW1 => 0x40037000,
            TimerId::TimerW2 => 0x4003C000,
            TimerId::TimerW3 => 0x4003D000,
            TimerId::TimerW4 => 0x4003E000,
            TimerId::TimerW5 => 0x4003F000,
        }
    }

    /// True for the wide 32/64-bit timers.
    pub open spec fn spec_wide(self) -> bool {
        match self {
            TimerId::TimerW0 => true,
            TimerId::TimerW1 => true,
            TimerId::TimerW2 => true,
            TimerId::TimerW3 => true,
            TimerId::TimerW4 => true,
            TimerId::TimerW5 => true,
            _ => false,
        }
    }

    pub fn wide(self) -> (r: bool)
        ensures
            r == self.spec_wide(),
    {
        match self {
            TimerId::TimerW0 => true,
            TimerId::TimerW1 => true,
            TimerId::TimerW2 => true,
            TimerId::TimerW3 => true,
            TimerId::TimerW4 => true,
            TimerId::TimerW5 => true,
            _ => false,
        }
    }

    /// The system-control peripheral gating this timer's clock.
    pub fn periph(self) -> (r: Periph)
        ensures
            r.class == (if self.spec_wide() {
                0x5cu8
            } else {
                4u8
            }),
    {
        match self {
            TimerId::Timer0 => Periph { class: 4, id: 0 },
            TimerId::Timer1 => Periph { class: 4, id: 1 },
            TimerId::Timer2 => Periph { class: 4, id: 2 },
            TimerId::Timer3 => Periph { class: 4, id: 3 },
            TimerId::Timer4 => Periph { class: 4, id: 4 },
            TimerId::Timer5 => Periph { class: 4, id: 5 },
            TimerId::TimerW0 => Periph { class: 0x5c, id: 0 },
            TimerId::TimerW1 => Periph { class: 0x5c, id: 1 },
            TimerId::TimerW2 => Periph { class: 0x5c, id: 2 },
            TimerId::TimerW3 => Periph { class: 0x5c, id: 3 },
            TimerId::TimerW4 => Periph { class: 0x5c, id: 4 },
            TimerId::TimerW5 => Periph { class: 0x5c, id: 5 },
        }
    }
}

/// One timer counter (standard or wide).
#[derive(Clone, Copy, PartialEq, Eq, Structural, Debug)]
pub struct Timer {
    /// Base address for this counter.
    pub base: u32,
    /// True if the counter is a wide 32/64-bit one.
    pub wide: bool,
    /// Current timer mode.
    pub mode: Mode,
}

/// The exact write sequence that configures one timer: disable, select
/// half-width so the prescaler applies, program the mode (counting down),
/// the maximum timeout and the prescale value, then enable.  Modes other
/// than periodic and one-shot have no sequence yet: the timer is left
/// disabled and half-width configured.
pub open spec fn spec_timer_configure(base: u32, mode: Mode, prescale: u16) -> Seq<RegOp> {
    let head = seq![
        RegOp::BitbandWrite { addr: (base + CTL_OFFSET) as u32, bit: 0, set: false },
        RegOp::Write32 { addr: (base + CFG_OFFSET) as u32, val: 0x4 },
    ];
    let amr: u32 = match mode {
        Mode::OneShot => 0x1,
        Mode::Periodic => 0x2,
        _ => 0,
    };
    if amr == 0 {
        head
    } else {
        head + seq![
            RegOp::Write32 { addr: (base + AMR_OFFSET) as u32, val: amr },
            RegOp::Write32 { addr: (base + TAILR_OFFSET) as u32, val: 0xffffffff },
            RegOp::Write32 { addr: (base + APR_OFFSET) as u32, val: prescale as u32 },
            RegOp::BitbandWrite { addr: (base + CTL_OFFSET) as u32, bit: 0, set: true },
        ]
    }
}

impl Timer {
    /// Model a timer and compute its configuration writes.  The caller also
    /// enables the timer's clock first (see `TimerId::periph`).
    pub fn new(tid: TimerId, mode: Mode, prescale: u16) -> (r: (Timer, Vec<RegOp>))
        ensures
            r.0.base == tid.spec_base(),
            r.0.wide == tid.spec_wide(),
            r.0.mode == mode,
            r.1@ == spec_timer_configure(tid.spec_base(), mode, prescale),
    {
        let timer = Timer { base: tid.base(), wide: tid.wide(), mode };
        let ops = timer.configure(prescale);
        (timer, ops)
    }

    /// The write sequence that configures this timer.
    pub fn configure(&self, prescale: u16) -> (ops: Vec<RegOp>)
        requires
            self.base <= 0xFFFF_0000,
        ensures
            ops@ == spec_timer_configure(self.base, self.mode, prescale),
    {
        let mut ops: Vec<RegOp> = Vec::new();
        ops.push(RegOp::BitbandWrite { addr: self.base + CTL_OFFSET, bit: 0, set: false });
        ops.push(RegOp::Write32 { addr: self.base + CFG_OFFSET, val: 0x4 });
        let amr: u32 = match self.mode {
            Mode::OneShot => 0x1,
            Mode::Periodic => 0x2,
            _ => {
                proof {
                    assert(ops@ =~= spec_timer_configure(self.base, self.mode, prescale));
                }
                return ops;
            },
        };
        ops.push(RegOp::Write32 { addr: self.base + AMR_OFFSET, val: amr });
        ops.push(RegOp::Write32 { addr: self.base + TAILR_OFFSET, val: 0xffffffff });
        ops.push(RegOp::Write32 { addr: self.base + APR_OFFSET, val: prescale as u32 });
        ops.push(RegOp::BitbandWrite { addr: self.base + CTL_OFFSET, bit: 0, set: true });
        proof {
            assert(ops@ =~= spec_timer_configure(self.base, self.mode, prescale));
        }
        ops
    }

    /// The counter counts down; complement the raw register value so callers
    /// see an increasing counter.
    pub fn get_counter(&self, raw: u32) -> (r: u32)
        ensures
            r == !raw,
    {
        !raw
    }
}

} // verus!
