//! Low level system control model (PLL, clock gating) for the Tiva C.
//!
//! The register reads, writes and lock polls are hardware effects; this
//! module computes the exact operation sequence a clock configuration
//! performs, from the value the run-mode clock configuration register held.

use vstd::prelude::*;

use crate::hal::tm4c123gh6pm::io::{Reg, RegOp};

verus! {

/// SysCtl base address.
pub const BASE: u32 = 0x400FE000;

/// Raw interrupt status register offset.
pub const RIS_OFFSET: u32 = 0x50;

/// Masked interrupt status and clear register offset.
pub const MISC_OFFSET: u32 = 0x58;

/// Run-mode clock configuration register offset.
pub const RCC_OFFSET: u32 = 0x60;

/// Run-mode clock configuration 2 register offset.
pub const RCC2_OFFSET: u32 = 0x70;

/// PLL status register offset.
pub const PLLSTAT_OFFSET: u32 = 0x168;

/// Run-mode clock gating control offset.
pub const RMCGC_OFFSET: u32 = 0x600;

/// Clock sources available on the system; `encoding` gives the RCC/RCC2
/// OSCSRC field value.
#[derive(Clone, Copy, PartialEq, Eq, Structural, Debug)]
pub enum ClockSource {
    /// The main oscillator, an external crystal on the OSC pins.
    MOSC,
    /// The precision internal oscillator at 16 MHz.
    PIOSC,
    /// The precision internal oscillator divided by 4.
    PIOSC4MHz,
    /// The low-frequency internal oscillator at 30 kHz.
    LFIOSC,
    /// The hibernation oscillator at 32.768 kHz.
    HOSC,
}

impl ClockSource {
    /// RCC/RCC2 OSCSRC field encoding.
    pub open spec fn spec_encoding(self) -> u32 {
        match self {
            ClockSource::MOSC => 0,
            ClockSource::PIOSC => 1,
            ClockSource::PIOSC4MHz => 2,
            ClockSource::LFIOSC => 3,
            ClockSource::HOSC => 7,
        }
    }

    pub fn encoding(self) -> (r: u32)
        ensures
            r == self.spec_encoding(),
    {
        match self {
            ClockSource::MOSC => 0,
            ClockSource::PIOSC => 1,
            ClockSource::PIOSC4MHz => 2,
            ClockSource::LFIOSC => 3,
            ClockSource::HOSC => 7,
        }
    }
}

/// Crystal frequencies the PLL accepts for the main oscillator; `encoding`
/// gives the RCC XTAL field value.
#[allow(non_camel_case_types)]
#[derive(Clone, Copy, PartialEq, Eq, Structural, Debug)]
pub enum MOSCFreq {
    X5_0MHz,
    X5_12MHz,
    X6_0MHz,
    X6_144MHz,
    X7_3728MHz,
    X8_0MHz,
    X8_192MHz,
    X10_0MHz,
    X12_0MHz,
    X12_288MHz,
    X13_56MHz,
    X14_318MHz,
    X16_0MHz,
    X16_384MHz,
    X18MHz,
    X20MHz,
    X24MHz,
}

impl MOSCFreq {
    /// RCC XTAL field encoding.
    pub open spec fn spec_encoding(self) -> u32 {
        match self {
            MOSCFreq::X5_0MHz => 0x09,
            MOSCFreq::X5_12MHz => 0x0A,
            MOSCFreq::X6_0MHz => 0x0B,
            MOSCFreq::X6_144MHz => 0x0C,
            MOSCFreq::X7_3728MHz => 0x0D,
            MOSCFreq::X8_0MHz => 0x0E,
            MOSCFreq::X8_192MHz => 0x0F,
            MOSCFreq::X10_0MHz => 0x10,
            MOSCFreq::X12_0MHz => 0x11,
            MOSCFreq::X12_288MHz => 0x12,
            MOSCFreq::X13_56MHz => 0x13,
            MOSCFreq::X14_318MHz => 0x14,
            MOSCFreq::X16_0MHz => 0x15,
            MOSCFreq::X16_384MHz => 0x16,
            MOSCFreq::X18MHz => 0x17,
            MOSCFreq::X20MHz => 0x18,
            MOSCFreq::X24MHz => 0x19,
        }
    }

    pub fn encoding(self) -> (r: u32)
        ensures
            r == self.spec_encoding(),
    {
        match self {
            MOSCFreq::X5_0MHz => 0x09,
            MOSCFreq::X5_12MHz => 0x0A,
            MOSCFreq::X6_0MHz => 0x0B,
            MOSCFreq::X6_144MHz => 0x0C,
            MOSCFreq::X7_3728MHz => 0x0D,
            MOSCFreq::X8_0MHz => 0x0E,
            MOSCFreq::X8_192MHz => 0x0F,
            MOSCFreq::X10_0MHz => 0x10,
            MOSCFreq::X12_0MHz => 0x11,
            MOSCFreq::X12_288MHz => 0x12,
            MOSCFreq::X13_56MHz => 0x13,
            MOSCFreq::X14_318MHz => 0x14,
            MOSCFreq::X16_0MHz => 0x15,
            MOSCFreq::X16_384MHz => 0x16,
            MOSCFreq::X18MHz => 0x17,
            MOSCFreq::X20MHz => 0x18,
            MOSCFreq::X24MHz => 0x19,
        }
    }
}

/// The clock bring-up state machine, as an operation sequence: bypass the
/// PLL, enable and wait for the main oscillator when it is requested but
/// off, select the source (and crystal), program the divisor, and - when
/// the PLL is in use - wait for its lock before removing the bypass.
/// `rcc_in` is the value read from the run-mode clock configuration
/// register before the sequence starts.
pub open spec fn spec_sysclk_plan(
    source: ClockSource,
    mosc_source: Option<MOSCFreq>,
    use_pll: bool,
    div: Option<u32>,
    rcc_in: u32,
) -> Seq<RegOp> {
    let rcc_a = (rcc_in | (1u32 << 11)) & !(1u32 << 22);
    let rcc2_a = rcc_in | (1u32 << 11);
    let mosc_wait = source == ClockSource::MOSC && (rcc_a & 1) != 0;
    let rcc_b = if mosc_wait {
        rcc_a & !1u32
    } else {
        rcc_a
    };
    let rcc_c = (rcc_b & !((3u32 << 4) | (0x1fu32 << 6))) | (source.spec_encoding() << 4);
    let rcc2_c = (rcc2_a & !(7u32 << 4)) | (source.spec_encoding() << 4);
    let rcc_d = if source == ClockSource::MOSC {
        rcc_c | (mosc_xtal(mosc_source) << 6)
    } else {
        rcc_c & !1u32
    };
    let rcc2_d = rcc2_c | (1u32 << 31) | (1u32 << 30);
    let rcc_e = if use_pll {
        rcc_d & !(1u32 << 13)
    } else {
        rcc_d | (1u32 << 13)
    };
    let rcc2_e = if use_pll {
        rcc2_d & !(1u32 << 13)
    } else {
        rcc2_d | (1u32 << 13)
    };
    let rcc_f = match div {
        Some(_) => rcc_e | (1u32 << 22),
        None => rcc_e,
    };
    let rcc2_f = match div {
        Some(d) => (rcc2_e & !(0x7fu32 << 22)) | ((d & 0x7f) << 22),
        None => rcc2_e,
    };
    let rcc_g = if use_pll {
        rcc_f & !(1u32 << 11)
    } else {
        rcc_f
    };
    let rcc2_g = if use_pll {
        rcc2_f & !(1u32 << 11)
    } else {
        rcc2_f
    };
    seq![
        RegOp::Write32 { addr: (BASE + RCC_OFFSET) as u32, val: rcc_a },
        RegOp::Write32 { addr: (BASE + RCC2_OFFSET) as u32, val: rcc2_a },
    ] + (if mosc_wait {
        seq![
            RegOp::BitbandWrite { addr: (BASE + MISC_OFFSET) as u32, bit: 8, set: true },
            RegOp::Write32 { addr: (BASE + RCC_OFFSET) as u32, val: rcc_b },
            RegOp::WaitBitSet { addr: (BASE + RIS_OFFSET) as u32, mask: (1u32 << 8) },
        ]
    } else {
        Seq::<RegOp>::empty()
    }) + seq![
        RegOp::Write32 { addr: (BASE + RCC_OFFSET) as u32, val: rcc_e },
        RegOp::Write32 { addr: (BASE + RCC2_OFFSET) as u32, val: rcc2_e },
    ] + (if use_pll {
        seq![
            RegOp::BitbandWrite { addr: (BASE + MISC_OFFSET) as u32, bit: 6, set: true },
            RegOp::WaitBitSet { addr: (BASE + PLLSTAT_OFFSET) as u32, mask: 1 },
        ]
    } else {
        Seq::<RegOp>::empty()
    }) + seq![
        RegOp::Write32 { addr: (BASE + RCC_OFFSET) as u32, val: rcc_g },
        RegOp::Write32 { addr: (BASE + RCC2_OFFSET) as u32, val: rcc2_g },
    ]
}

/// XTAL encoding of the requested crystal, or zero when none was given.
pub open spec fn mosc_xtal(mosc_source: Option<MOSCFreq>) -> u32 {
    match mosc_source {
        Some(m) => m.spec_encoding(),
        None => 0,
    }
}

/// Configure the system clock: compute the exact sequence of register
/// operations (writes and lock waits) the bring-up performs, given the
/// value read from the run-mode clock configuration register.  The lock
/// waits carry no timeout, as the underlying design gives none.  Selecting
/// the main oscillator demands a crystal choice: there is no XTAL encoding
/// for "none".
pub fn sysclk_configure(
    source: ClockSource,
    mosc_source: Option<MOSCFreq>,
    use_pll: bool,
    div: Option<u32>,
    rcc_in: u32,
) -> (ops: Vec<RegOp>)
    requires
        source == ClockSource::MOSC ==> mosc_source is Some,
    ensures
        ops@ == spec_sysclk_plan(source, mosc_source, use_pll, div, rcc_in),
{
    let mut ops: Vec<RegOp> = Vec::new();
    let mut rcc_val: u32 = (rcc_in | (1u32 << 11)) & !(1u32 << 22);
    let mut rcc2_val: u32 = rcc_in | (1u32 << 11);
    ops.push(RegOp::Write32 { addr: BASE + RCC_OFFSET, val: rcc_val });
    ops.push(RegOp::Write32 { addr: BASE + RCC2_OFFSET, val: rcc2_val });
    let mosc = match source {
        ClockSource::MOSC => true,
        _ => false,
    };
    if mosc && (rcc_val & 1) != 0 {
        ops.push(RegOp::BitbandWrite { addr: BASE + MISC_OFFSET, bit: 8, set: true });
        rcc_val = rcc_val & !1u32;
        ops.push(RegOp::Write32 { addr: BASE + RCC_OFFSET, val: rcc_val });
        ops.push(RegOp::WaitBitSet { addr: BASE + RIS_OFFSET, mask: 1u32 << 8 });
    }
    rcc_val = rcc_val & !((3u32 << 4) | (0x1fu32 << 6));
    rcc2_val = rcc2_val & !(7u32 << 4);
    rcc_val = rcc_val | (source.encoding() << 4);
    rcc2_val = rcc2_val | (source.encoding() << 4);
    if mosc {
        let xtal = match mosc_source {
            Some(m) => m.encoding(),
            None => 0,
        };
        rcc_val = rcc_val | (xtal << 6);
    } else {
        rcc_val = rcc_val & !1u32;
    }
    rcc2_val = rcc2_val | (1u32 << 31);
    rcc2_val = rcc2_val | (1u32 << 30);
    if use_pll {
        rcc_val = rcc_val & !(1u32 << 13);
        rcc2_val = rcc2_val & !(1u32 << 13);
    } else {
        rcc_val = rcc_val | (1u32 << 13);
        rcc2_val = rcc2_val | (1u32 << 13);
    }
    ops.push(RegOp::Write32 { addr: BASE + RCC_OFFSET, val: rcc_val });
    ops.push(RegOp::Write32 { addr: BASE + RCC2_OFFSET, val: rcc2_val });
    match div {
        Some(d) => {
            rcc2_val = (rcc2_val & !(0x7fu32 << 22)) | ((d & 0x7f) << 22);
            rcc_val = rcc_val | (1u32 << 22);
        },
        None => {},
    }
    if use_pll {
        ops.push(RegOp::BitbandWrite { addr: BASE + MISC_OFFSET, bit: 6, set: true });
        ops.push(RegOp::WaitBitSet { addr: BASE + PLLSTAT_OFFSET, mask: 1 });
        rcc_val = rcc_val & !(1u32 << 11);
        rcc2_val = rcc2_val & !(1u32 << 11);
    }
    ops.push(RegOp::Write32 { addr: BASE + RCC_OFFSET, val: rcc_val });
    ops.push(RegOp::Write32 { addr: BASE + RCC2_OFFSET, val: rcc2_val });
    proof {
        assert(ops@ =~= spec_sysclk_plan(source, mosc_source, use_pll, div, rcc_in));
    }
    ops
}

/// One peripheral's slot in the run-mode clock gating control block.
#[derive(Clone, Copy, PartialEq, Eq, Structural, Debug)]
pub struct Periph {
    /// Register offset of this peripheral class within the block.
    pub class: u8,
    /// Bit offset of this peripheral within the class register.
    pub id: u8,
}

impl Periph {
    /// GPIO port peripheral (ports are numbered 0 for A through 5 for F).
    pub fn gpio_port(i: u8) -> (r: Periph)
        requires
            i < 6,
        ensures
            r.class == 8 && r.id == i,
    {
        Periph { class: 8, id: i }
    }

    /// Standard timer peripheral.
    pub fn timer(i: u8) -> (r: Periph)
        requires
            i < 6,
        ensures
            r.class == 4 && r.id == i,
    {
        Periph { class: 4, id: i }
    }

    /// Wide timer peripheral.
    pub fn timer_w(i: u8) -> (r: Periph)
        requires
            i < 6,
        ensures
            r.class == 0x5c && r.id == i,
    {
        Periph { class: 0x5c, id: i }
    }

    /// UART peripheral.
    pub fn uart(i: u8) -> (r: Periph)
        requires
            i < 8,
        ensures
            r.class == 0x18 && r.id == i,
    {
        Periph { class: 0x18, id: i }
    }

    /// The clock gating control register for this peripheral class.
    pub fn clock_gating_reg(&self) -> (r: Reg)
        ensures
            r.addr == BASE + RMCGC_OFFSET + self.class,
    {
        Reg::new(BASE + RMCGC_OFFSET + (self.class as u32))
    }

    /// The operation that enables this peripheral's clock.  The manual also
    /// asks for a short settling delay after the write, which belongs to the
    /// hardware-access code performing the operation.
    pub fn enable(&self) -> (op: RegOp)
        ensures
            op == (RegOp::BitbandWrite {
                addr: (BASE + RMCGC_OFFSET + self.class) as u32,
                bit: self.id,
                set: true,
            }),
    {
        let cgr = self.clock_gating_reg();
        RegOp::BitbandWrite { addr: cgr.addr, bit: self.id, set: true }
    }

    /// Decide from the clock gating register's current value whether this
    /// peripheral still needs enabling.
    pub fn ensure_enabled(&self, cgr_value: u32) -> (r: bool)
        requires
            self.id < 32,
        ensures
            r == ((cgr_value & (1u32 << self.id)) == 0),
    {
        (cgr_value & (1u32 << self.id)) == 0
    }
}

} // verus!
