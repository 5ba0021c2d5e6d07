//! Low level system control model (clock gating) for the TM4C123GH6PM.

use vstd::prelude::*;

use crate::hal::tm4c123gh6pm::io::{Reg, RegOp};

verus! {

/// SysCtl base address.
pub const BASE: u32 = 0x400FE000;

/// Run-mode clock gating control offset.
pub const RMCGC_OFFSET: u32 = 0x600;

/// One peripheral's slot in the run-mode clock gating control block.
#[derive(Clone, Copy, PartialEq, Eq, Structural, Debug)]
pub struct Periph {
    /// Register offset of this peripheral class within the block.
    pub class: u8,
    /// Bit offset of this peripheral within the class register.
    pub id: u8,
}

impl Periph {
    /// GPIO port peripheral (ports are numbered 0 for A through 5 for F).
    pub fn gpio_port(i: u8) -> (r: Periph)
        requires
            i < 6,
        ensures
            r.class == 8 && r.id == i,
    {
        Periph { class: 8, id: i }
    }

    /// The clock gating control register for this peripheral class.
    pub fn clock_gating_reg(&self) -> (r: Reg)
        ensures
            r.addr == BASE + RMCGC_OFFSET + self.class,
    {
        Reg::new(BASE + RMCGC_OFFSET + (self.class as u32))
    }

    /// The operation that enables this peripheral's clock.  The manual also
    /// asks for a short settling delay after the write, which belongs to the
    /// hardware-access code performing the operation.
    pub fn enable(&self) -> (op: RegOp)
        ensures
            op == (RegOp::BitbandWrite {
                addr: (BASE + RMCGC_OFFSET + self.class) as u32,
                bit: self.id,
                set: true,
            }),
    {
        let cgr = self.clock_gating_reg();
        RegOp::BitbandWrite { addr: cgr.addr, bit: self.id, set: true }
    }

    /// Decide from the clock gating register's current value whether this
    /// peripheral still needs enabling.
    pub fn ensure_enabled(&self, cgr_value: u32) -> (r: bool)
        requires
            self.id < 32,
        ensures
            r == ((cgr_value & (1u32 << self.id)) == 0),
    {
        (cgr_value & (1u32 << self.id)) == 0
    }
}

} // verus!
