//! Pin configuration model for the TM4C123GH6PM.
//!
//! Allows GPIO configuration; the volatile register accesses are hardware
//! effects, so each operation here computes the exact register writes it
//! performs.

use vstd::prelude::*;

use crate::hal::pin::{GPIODirection, GPIOLevel};
use crate::hal::tm4c123gh6pm::io::{Reg, RegOp};
use crate::hal::tm4c123gh6pm::sysctl::Periph;

verus! {

/// The pins are accessed through ports of 8 pins each, identified by a
/// letter.
#[derive(Clone, Copy, PartialEq, Eq, Structural, Debug)]
pub enum PortID {
    PortA,
    PortB,
    PortC,
    PortD,
    PortE,
    PortF,
}

// Register offsets from a port base.
pub const DATA_OFFSET: u32 = 0x000;
pub const DIR_OFFSET: u32 = 0x400;
pub const AFSEL_OFFSET: u32 = 0x420;
pub const DR2R_OFFSET: u32 = 0x500;
pub const DEN_OFFSET: u32 = 0x51C;

impl PortID {
    /// Base address of this port's register block.
    pub open spec fn spec_base(self) -> u32 {
        match self {
            PortID::PortA => 0x40004000,
            PortID::PortB => 0x40005000,
            PortID::PortC => 0x40006000,
            PortID::PortD => 0x40007000,
            PortID::PortE => 0x40024000,
            PortID::PortF => 0x40025000,
        }
    }

    pub fn base(self) -> (r: u32)
        ensures
            r == self.spec_base(),
    {
        match self {
            PortID::PortA => 0x40004000,
            PortID::PortB => 0x40005000,
            PortID::PortC => 0x40006000,
            PortID::PortD => 0x40007000,
            PortID::PortE => 0x40024000,
            PortID::PortF => 0x40025000,
        }
    }

    /// The system-control peripheral gating this port's clock.
    pub fn periph(self) -> (r: Periph)
        ensures
            r.class == 8,
    {
        let i: u8 = match self {
            PortID::PortA => 0,
            PortID::PortB => 1,
            PortID::PortC => 2,
            PortID::PortD => 3,
            PortID::PortE => 4,
            PortID::PortF => 5,
        };
        Periph::gpio_port(i)
    }
}

/// One hardware pin: its port's register base and its index in the port.
#[derive(Clone, Copy, PartialEq, Eq, Structural, Debug)]
pub struct Pin {
    /// Base address of the owning port's register block.
    pub port_base: u32,
    /// Pin index in the port.
    pub index: u8,
}

/// The exact write sequence that configures one pin: disable it during
/// reconfiguration, set its direction, route it to GPIO, select 2 mA drive
/// strength, then enable it again.
pub open spec fn spec_pin_configure(base: u32, index: u8, dir: GPIODirection) -> Seq<RegOp> {
    seq![
        RegOp::BitbandWrite { addr: (base + DEN_OFFSET) as u32, bit: index, set: false },
        RegOp::BitbandWrite {
            addr: (base + DIR_OFFSET) as u32,
            bit: index,
            set: dir == GPIODirection::Out,
        },
        RegOp::BitbandWrite { addr: (base + AFSEL_OFFSET) as u32, bit: index, set: false },
        RegOp::BitbandWrite { addr: (base + DR2R_OFFSET) as u32, bit: index, set: true },
        RegOp::BitbandWrite { addr: (base + DEN_OFFSET) as u32, bit: index, set: true },
    ]
}

impl Pin {
    /// Model a pin and compute its configuration writes.  The caller also
    /// enables the port's clock first (see `PortID::periph`).
    pub fn new(pid: PortID, pin_index: u8, dir: GPIODirection) -> (r: (Pin, Vec<RegOp>))
        requires
            pin_index < 8,
        ensures
            r.0.port_base == pid.spec_base(),
            r.0.index == pin_index,
            r.1@ == spec_pin_configure(pid.spec_base(), pin_index, dir),
    {
        let base = pid.base();
        let pin = Pin { port_base: base, index: pin_index };
        let ops = pin.configure(dir);
        (pin, ops)
    }

    /// The write sequence that configures this pin.
    pub fn configure(&self, dir: GPIODirection) -> (ops: Vec<RegOp>)
        requires
            self.index < 8,
            self.port_base <= 0xFFFF_0000,
        ensures
            ops@ == spec_pin_configure(self.port_base, self.index, dir),
    {
        let base = self.port_base;
        let index = self.index;
        let mut ops: Vec<RegOp> = Vec::new();
        ops.push(RegOp::BitbandWrite { addr: base + DEN_OFFSET, bit: index, set: false });
        ops.push(self.set_direction(dir));
        ops.push(RegOp::BitbandWrite { addr: base + AFSEL_OFFSET, bit: index, set: false });
        ops.push(RegOp::BitbandWrite { addr: base + DR2R_OFFSET, bit: index, set: true });
        ops.push(RegOp::BitbandWrite { addr: base + DEN_OFFSET, bit: index, set: true });
        proof {
            assert(ops@ =~= spec_pin_configure(self.port_base, self.index, dir));
        }
        ops
    }

    /// The register whose address reads and writes only this pin's level:
    /// bits [9:2] of a port data address mask the pins it touches.
    pub fn data_reg(&self) -> (r: Reg)
        requires
            self.index < 8,
            self.port_base <= 0xFFFF_0000,
        ensures
            r.addr == self.port_base + DATA_OFFSET + (1u32 << ((self.index + 2) as u32)),
    {
        let off: u32 = 1u32 << ((self.index + 2) as u32);
        proof {
            let i = self.index;
            assert(i < 8 ==> (1u32 << ((i + 2) as u32)) <= 0x200) by (bit_vector);
        }
        Reg::new(self.port_base + DATA_OFFSET + off)
    }

    /// The write that sets this pin high.
    pub fn set_high(&self) -> (op: RegOp)
        requires
            self.index < 8,
            self.port_base <= 0xFFFF_0000,
        ensures
            op == (RegOp::Write32 {
                addr: (self.port_base + DATA_OFFSET + (1u32 << ((self.index + 2) as u32))) as u32,
                val: 0xff,
            }),
    {
        let r = self.data_reg();
        RegOp::Write32 { addr: r.addr, val: 0xff }
    }

    /// The write that sets this pin low.
    pub fn set_low(&self) -> (op: RegOp)
        requires
            self.index < 8,
            self.port_base <= 0xFFFF_0000,
        ensures
            op == (RegOp::Write32 {
                addr: (self.port_base + DATA_OFFSET + (1u32 << ((self.index + 2) as u32))) as u32,
                val: 0x00,
            }),
    {
        let r = self.data_reg();
        RegOp::Write32 { addr: r.addr, val: 0x00 }
    }

    /// Decode this pin's level from its data register value.
    pub fn level(&self, data_value: u32) -> (r: GPIOLevel)
        ensures
            r == (if data_value == 0 {
                GPIOLevel::Low
            } else {
                GPIOLevel::High
            }),
    {
        if data_value == 0 {
            GPIOLevel::Low
        } else {
            GPIOLevel::High
        }
    }

    /// The write that sets this pin's direction.
    pub fn set_direction(&self, dir: GPIODirection) -> (op: RegOp)
        requires
            self.port_base <= 0xFFFF_0000,
        ensures
            op == (RegOp::BitbandWrite {
                addr: (self.port_base + DIR_OFFSET) as u32,
                bit: self.index,
                set: dir == GPIODirection::Out,
            }),
    {
        let out = match dir {
            GPIODirection::In => false,
            GPIODirection::Out => true,
        };
        RegOp::BitbandWrite { addr: self.port_base + DIR_OFFSET, bit: self.index, set: out }
    }
}

} // verus!
