//! Pin configuration model for the Tiva C.
//!
//! Allows GPIO configuration; the volatile register accesses are hardware
//! effects, so each operation here computes the exact register writes it
//! performs.

use vstd::prelude::*;

use crate::hal::pin::{GPIODirection, GPIOLevel};
use crate::hal::tm4c123gh6pm::io::RegOp;
use crate::hal::tiva_c::sysctl::Periph;

verus! {

/// The pins are accessed through ports of 8 pins each, identified by a
/// letter.
#[derive(Clone, Copy, PartialEq, Eq, Structural, Debug)]
pub enum PortID {
    PortA,
    PortB,
    PortC,
    PortD,
    PortE,
    PortF,
}

// Register offsets from a port base.
pub const DATA_OFFSET: u32 = 0x3FC;
pub const DIR_OFFSET: u32 = 0x400;
pub const AFSEL_OFFSET: u32 = 0x420;
pub const DR2R_OFFSET: u32 = 0x500;
pub const DR4R_OFFSET: u32 = 0x504;
pub const DR8R_OFFSET: u32 = 0x508;
pub const ODR_OFFSET: u32 = 0x50C;
pub const PUR_OFFSET: u32 = 0x510;
pub const PDR_OFFSET: u32 = 0x514;
pub const DEN_OFFSET: u32 = 0x51C;
pub const PCTL_OFFSET: u32 = 0x52C;

impl PortID {
    /// Base address of this port's register block.
    pub open spec fn spec_base(self) -> u32 {
        match self {
            PortID::PortA => 0x40004000,
            PortID::PortB => 0x40005000,
            PortID::PortC => 0x40006000,
            PortID::PortD => 0x40007000,
            PortID::PortE => 0x40024000,
            PortID::PortF => 0x40025000,
        }
    }

    pub fn base(self) -> (r: u32)
        ensures
            r == self.spec_base(),
    {
        match self {
            PortID::PortA => 0x40004000,
            PortID::PortB => 0x40005000,
            PortID::PortC => 0x40006000,
            PortID::PortD => 0x40007000,
            PortID::PortE => 0x40024000,
            PortID::PortF => 0x40025000,
        }
    }

    /// Index of this port in the clock gating control register.
    pub open spec fn spec_periph_id(self) -> u8 {
        match self {
            PortID::PortA => 0,
            PortID::PortB => 1,
            PortID::PortC => 2,
            PortID::PortD => 3,
            PortID::PortE => 4,
            PortID::PortF => 5,
        }
    }

    /// The system-control peripheral gating this port's clock.
    pub fn periph(self) -> (r: Periph)
        ensures
            r.class == 8 && r.id == self.spec_periph_id(),
    {
        let i: u8 = match self {
            PortID::PortA => 0,
            PortID::PortB => 1,
            PortID::PortC => 2,
            PortID::PortD => 3,
            PortID::PortE => 4,
            PortID::PortF => 5,
        };
        Periph::gpio_port(i)
    }
}

/// One hardware pin: its port's register base and its index in the port.
#[derive(Clone, Copy, PartialEq, Eq, Structural, Debug)]
pub struct Pin {
    /// Base address of the owning port's register block.
    pub port_base: u32,
    /// Pin index in the port.
    pub index: u8,
}

/// The exact write sequence that configures one pin: disable it during
/// reconfiguration, set its direction, route it to GPIO or to an alternate
/// function, select 2 mA drive strength, clear open drain and the pulls,
/// then enable it again.
pub open spec fn spec_pin_configure(base: u32, index: u8, dir: GPIODirection, function: u8) -> Seq<
    RegOp,
> {
    seq![
        RegOp::BitbandWrite { addr: (base + DEN_OFFSET) as u32, bit: index, set: false },
        RegOp::BitbandWrite {
            addr: (base + DIR_OFFSET) as u32,
            bit: index,
            set: dir == GPIODirection::Out,
        },
    ] + (if function == 0 {
        seq![
            RegOp::BitbandWrite { addr: (base + AFSEL_OFFSET) as u32, bit: index, set: false },
        ]
    } else {
        seq![
            RegOp::BitbandWrite { addr: (base + AFSEL_OFFSET) as u32, bit: index, set: true },
            RegOp::FieldWrite {
                addr: (base + PCTL_OFFSET) as u32,
                shift: (4 * index) as u8,
                width: 4,
                val: function as u32,
            },
        ]
    }) + seq![
        RegOp::BitbandWrite { addr: (base + DR2R_OFFSET) as u32, bit: index, set: true },
        RegOp::BitbandWrite { addr: (base + DR4R_OFFSET) as u32, bit: index, set: false },
        RegOp::BitbandWrite { addr: (base + DR8R_OFFSET) as u32, bit: index, set: false },
        RegOp::BitbandWrite { addr: (base + ODR_OFFSET) as u32, bit: index, set: false },
        RegOp::BitbandWrite { addr: (base + PUR_OFFSET) as u32, bit: index, set: false },
        RegOp::BitbandWrite { addr: (base + PDR_OFFSET) as u32, bit: index, set: false },
        RegOp::BitbandWrite { addr: (base + DEN_OFFSET) as u32, bit: index, set: true },
    ]
}

impl Pin {
    /// Model a pin and compute its configuration writes.  The caller also
    /// enables the port's clock first (see `PortID::periph`).
    pub fn new(pid: PortID, pin_index: u8, dir: GPIODirection, function: u8) -> (r: (
        Pin,
        Vec<RegOp>,
    ))
        requires
            pin_index < 8,
        ensures
            r.0.port_base == pid.spec_base(),
            r.0.index == pin_index,
            r.1@ == spec_pin_configure(pid.spec_base(), pin_index, dir, function),
    {
        let base = pid.base();
        let pin = Pin { port_base: base, index: pin_index };
        let ops = pin.configure(dir, function);
        (pin, ops)
    }

    /// The write sequence that configures this pin.
    pub fn configure(&self, dir: GPIODirection, function: u8) -> (ops: Vec<RegOp>)
        requires
            self.index < 8,
            self.port_base <= 0xFFFF_0000,
        ensures
            ops@ == spec_pin_configure(self.port_base, self.index, dir, function),
    {
        let base = self.port_base;
        let index = self.index;
        let mut ops: Vec<RegOp> = Vec::new();
        ops.push(RegOp::BitbandWrite { addr: base + DEN_OFFSET, bit: index, set: false });
        ops.push(self.set_direction(dir));
        if function == 0 {
            ops.push(RegOp::BitbandWrite { addr: base + AFSEL_OFFSET, bit: index, set: false });
        } else {
            ops.push(RegOp::BitbandWrite { addr: base + AFSEL_OFFSET, bit: index, set: true });
            ops.push(
                RegOp::FieldWrite {
                    addr: base + PCTL_OFFSET,
                    shift: 4 * index,
                    width: 4,
                    val: function as u32,
                },
            );
        }
        ops.push(RegOp::BitbandWrite { addr: base + DR2R_OFFSET, bit: index, set: true });
        ops.push(RegOp::BitbandWrite { addr: base + DR4R_OFFSET, bit: index, set: false });
        ops.push(RegOp::BitbandWrite { addr: base + DR8R_OFFSET, bit: index, set: false });
        ops.push(RegOp::BitbandWrite { addr: base + ODR_OFFSET, bit: index, set: false });
        ops.push(RegOp::BitbandWrite { addr: base + PUR_OFFSET, bit: index, set: false });
        ops.push(RegOp::BitbandWrite { addr: base + PDR_OFFSET, bit: index, set: false });
        ops.push(RegOp::BitbandWrite { addr: base + DEN_OFFSET, bit: index, set: true });
        proof {
            assert(ops@ =~= spec_pin_configure(self.port_base, self.index, dir, function));
        }
        ops
    }

    /// The write that drives this pin to `level`.
    pub fn set_level(&self, level: bool) -> (op: RegOp)
        requires
            self.port_base <= 0xFFFF_0000,
        ensures
            op == (RegOp::BitbandWrite {
                addr: (self.port_base + DATA_OFFSET) as u32,
                bit: self.index,
                set: level,
            }),
    {
        RegOp::BitbandWrite { addr: self.port_base + DATA_OFFSET, bit: self.index, set: level }
    }

    /// The write that sets this pin high.
    pub fn set_high(&self) -> (op: RegOp)
        requires
            self.port_base <= 0xFFFF_0000,
        ensures
            op == (RegOp::BitbandWrite {
                addr: (self.port_base + DATA_OFFSET) as u32,
                bit: self.index,
                set: true,
            }),
    {
        self.set_level(true)
    }

    /// The write that sets this pin low.
    pub fn set_low(&self) -> (op: RegOp)
        requires
            self.port_base <= 0xFFFF_0000,
        ensures
            op == (RegOp::BitbandWrite {
                addr: (self.port_base + DATA_OFFSET) as u32,
                bit: self.index,
                set: false,
            }),
    {
        self.set_level(false)
    }

    /// Decode this pin's level from the port's data register value.
    pub fn level(&self, data_value: u32) -> (r: GPIOLevel)
        requires
            self.index < 32,
        ensures
            r == (if (data_value & (1u32 << self.index)) != 0 {
                GPIOLevel::High
            } else {
                GPIOLevel::Low
            }),
    {
        if (data_value & (1u32 << self.index)) != 0 {
            GPIOLevel::High
        } else {
            GPIOLevel::Low
        }
    }

    /// The write that sets this pin's direction.
    pub fn set_direction(&self, dir: GPIODirection) -> (op: RegOp)
        requires
            self.port_base <= 0xFFFF_0000,
        ensures
            op == (RegOp::BitbandWrite {
                addr: (self.port_base + DIR_OFFSET) as u32,
                bit: self.index,
                set: dir == GPIODirection::Out,
            }),
    {
        let out = match dir {
            GPIODirection::In => false,
            GPIODirection::Out => true,
        };
        RegOp::BitbandWrite { addr: self.port_base + DIR_OFFSET, bit: self.index, set: out }
    }
}

} // verus!
