//! UART configuration model for the Tiva C.
//!
//! The baud-rate divisor arithmetic is the logic worth checking here; the
//! volatile register accesses are hardware effects, so configuration is
//! computed as an exact operation sequence.

use vstd::prelude::*;

use crate::hal::tiva_c::sysctl::Periph;
use crate::hal::tm4c123gh6pm::io::RegOp;

verus! {

/// There are 8 UART instances in total.
#[derive(Clone, Copy, PartialEq, Eq, Structural, Debug)]
pub enum UARTID {
    UART0,
    UART1,
    UART2,
    UART3,
    UART4,
    UART5,
    UART6,
    UART7,
}

// Register offsets from a UART base.
pub const DATA_OFFSET: u32 = 0x00;
pub const FR_OFFSET: u32 = 0x18;
pub const IBRD_OFFSET: u32 = 0x24;
pub const FBRD_OFFSET: u32 = 0x28;
pub const CRH_OFFSET: u32 = 0x2C;
pub const CTL_OFFSET: u32 = 0x30;

/// The system clock frequency the divisor is computed from.
pub const SYSCLK: u32 = 16_000_000;

impl UARTID {
    /// Base address of this UART's register block.
    pub open spec fn spec_base(self) -> u32 {
        match self {
            UARTID::UART0 => 0x4000C000,
            UARTID::UART1 => 0x4000D000,
            UARTID::UART2 => 0x4000E000,
            UARTID::UART3 => 0x4000F000,
            UARTID::UART4 => 0x40010000,
            UARTID::UART5 => 0x40011000,
            UARTID::UART6 => 0x40012000,
            UARTID::UART7 => 0x40013000,
        }
    }

    pub fn base(self) -> (r: u32)
        ensures
            r == self.spec_base(),
    {
        match self {
            UARTID::UART0 => 0x4000C000,
            UARTID::UART1 => 0x4000D000,
            UARTID::UART2 => 0x4000E000,
            UARTID::UART3 => 0x4000F000,
            UARTID::UART4 => 0x40010000,
            UARTID::UART5 => 0x40011000,
            UARTID::UART6 => 0x40012000,
            UARTID::UART7 => 0x40013000,
        }
    }

    /// Index of this UART in the clock gating control register.
    pub open spec fn spec_periph_id(self) -> u8 {
        match self {
            UARTID::UART0 => 0,
            UARTID::UART1 => 1,
            UARTID::UART2 => 2,
            UARTID::UART3 => 3,
            UARTID::UART4 => 4,
            UARTID::UART5 => 5,
            UARTID::UART6 => 6,
            UARTID::UART7 => 7,
        }
    }

    /// The system-control peripheral gating this UART's clock.
    pub fn periph(self) -> (r: Periph)
        ensures
            r.class == 0x18 && r.id == self.spec_periph_id(),
    {
        let i: u8 = match self {
            UARTID::UART0 => 0,
            UARTID::UART1 => 1,
            UARTID::UART2 => 2,
            UARTID::UART3 => 3,
            UARTID::UART4 => 4,
            UARTID::UART5 => 5,
            UARTID::UART6 => 6,
            UARTID::UART7 => 7,
        };
        Periph::uart(i)
    }
}

/// One UART, modelled by the base address of its register block.
#[derive(Clone, Copy, PartialEq, Eq, Structural, Debug)]
pub struct UART {
    /// Base address for this UART.
    pub base: u32,
}

/// The 22.6 fixed-point baud-rate divisor, rounded to the nearest: the
/// integer part lands in IBRD and the fractional part in FBRD.
pub open spec fn spec_brd(baudrate: u32) -> int {
    ((SYSCLK / 16) * 64 + baudrate / 2) as int / baudrate as int
}

impl UART {
    /// The exact operation sequence that configures this UART: disable it,
    /// route transmit, program the divisor, set the frame format, and
    /// enable it again.
    pub fn configure(&self, baudrate: u32) -> (ops: Vec<RegOp>)
        requires
            1 <= baudrate,
            self.base <= 0xFFFF_0000,
        ensures
            ops@.len() == 9,
            ops@[0] == (RegOp::BitbandWrite { addr: (self.base + CTL_OFFSET) as u32, bit: 0, set: false }),
            ops@[1] == (RegOp::BitbandWrite { addr: (self.base + CTL_OFFSET) as u32, bit: 8, set: true }),
            ops@[2] == (RegOp::BitbandWrite { addr: (self.base + CTL_OFFSET) as u32, bit: 9, set: false }),
            ops@[3] == (RegOp::BitbandWrite { addr: (self.base + CTL_OFFSET) as u32, bit: 5, set: false }),
            ops@[4] == (RegOp::Write32 { addr: (self.base + CTL_OFFSET) as u32, val: 0x301 }),
            ops@[5] == (RegOp::Write32 {
                addr: (self.base + IBRD_OFFSET) as u32,
                val: (spec_brd(baudrate) / 64) as u32,
            }),
            ops@[6] == (RegOp::Write32 {
                addr: (self.base + FBRD_OFFSET) as u32,
                val: (spec_brd(baudrate) % 64) as u32,
            }),
            ops@[7] == (RegOp::Write32 { addr: (self.base + CRH_OFFSET) as u32, val: 0x70 }),
            ops@[8] == (RegOp::Write32 { addr: (self.base + CTL_OFFSET) as u32, val: 0x301 }),
    {
        let brd64: u64 = (((SYSCLK / 16) as u64 * 64) + (baudrate / 2) as u64) / baudrate as u64;
        proof {
            let x = ((SYSCLK / 16) as u64 * 64) as int + (baudrate / 2) as int;
            vstd::arithmetic::div_mod::lemma_div_is_ordered_by_denominator(x, 1, baudrate as int);
            assert(brd64 <= x);
        }
        let brd: u32 = brd64 as u32;
        let mut ops: Vec<RegOp> = Vec::new();
        ops.push(RegOp::BitbandWrite { addr: self.base + CTL_OFFSET, bit: 0, set: false });
        ops.push(RegOp::BitbandWrite { addr: self.base + CTL_OFFSET, bit: 8, set: true });
        ops.push(RegOp::BitbandWrite { addr: self.base + CTL_OFFSET, bit: 9, set: false });
        ops.push(RegOp::BitbandWrite { addr: self.base + CTL_OFFSET, bit: 5, set: false });
        ops.push(RegOp::Write32 { addr: self.base + CTL_OFFSET, val: 0x301 });
        ops.push(RegOp::Write32 { addr: self.base + IBRD_OFFSET, val: brd / 64 });
        ops.push(RegOp::Write32 { addr: self.base + FBRD_OFFSET, val: brd % 64 });
        ops.push(RegOp::Write32 { addr: self.base + CRH_OFFSET, val: 0x70 });
        ops.push(RegOp::Write32 { addr: self.base + CTL_OFFSET, val: 0x301 });
        ops
    }

    /// Model a UART and compute its configuration sequence.  The caller also
    /// enables the UART's clock first (see `UARTID::periph`).
    pub fn new(id: UARTID, baudrate: u32) -> (r: (UART, Vec<RegOp>))
        requires
            1 <= baudrate,
        ensures
            r.0.base == id.spec_base(),
            r.1@.len() == 9,
            r.1@[5] == (RegOp::Write32 {
                addr: (id.spec_base() + IBRD_OFFSET) as u32,
                val: (spec_brd(baudrate) / 64) as u32,
            }),
            r.1@[6] == (RegOp::Write32 {
                addr: (id.spec_base() + FBRD_OFFSET) as u32,
                val: (spec_brd(baudrate) % 64) as u32,
            }),
    {
        let uart = UART { base: id.base() };
        let ops = uart.configure(baudrate);
        (uart, ops)
    }

    /// Transmit one byte: wait for room in the transmit FIFO, then write.
    pub fn putc(&self, value: u8) -> (ops: Vec<RegOp>)
        requires
            self.base <= 0xFFFF_0000,
        ensures
            ops@.len() == 2,
            ops@[0] == (RegOp::WaitBitClear { addr: (self.base + FR_OFFSET) as u32, mask: (1u32
                << 5) }),
            ops@[1] == (RegOp::Write32 { addr: (self.base + DATA_OFFSET) as u32, val: value as u32 }),
    {
        let mut ops: Vec<RegOp> = Vec::new();
        ops.push(RegOp::WaitBitClear { addr: self.base + FR_OFFSET, mask: 1u32 << 5 });
        ops.push(RegOp::Write32 { addr: self.base + DATA_OFFSET, val: value as u32 });
        ops
    }
}

} // verus!
