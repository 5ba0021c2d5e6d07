//! UART configuration model for the LPC17xx.
//!
//! The register writes themselves are hardware effects; this module computes
//! the exact values a configuration writes (divisor latch, line control,
//! FIFO control) as a sequence of register operations.

use vstd::prelude::*;

use crate::hal::tm4c123gh6pm::io::RegOp;
use crate::hal::uart::Parity;
use vstd::arithmetic::div_mod::{
    lemma_div_is_ordered, lemma_div_is_ordered_by_denominator, lemma_div_multiples_vanish,
};

verus! {

/// Available UART peripherals.
#[derive(Clone, Copy, PartialEq, Eq, Structural, Debug)]
pub enum UARTPeripheral {
    UART0,
    UART2,
    UART3,
}

/// Peripheral clock selectors for the UARTs.
#[derive(Clone, Copy, PartialEq, Eq, Structural, Debug)]
pub enum PeripheralClock {
    UART0Clock,
    UART2Clock,
    UART3Clock,
}

/// UART word length (LCR field encoding).
#[derive(Clone, Copy, PartialEq, Eq, Structural, Debug)]
pub enum WordLen {
    WordLen5bits,
    WordLen6bits,
    WordLen7bits,
    WordLen8bits,
}

/// Stop bits configuration (LCR field encoding).
#[derive(Clone, Copy, PartialEq, Eq, Structural, Debug)]
pub enum StopBit {
    StopBit1bit,
    StopBit2bits,
}

pub open spec fn spec_word_len(val: u8) -> WordLen {
    if val == 5 {
        WordLen::WordLen5bits
    } else if val == 6 {
        WordLen::WordLen6bits
    } else if val == 7 {
        WordLen::WordLen7bits
    } else {
        WordLen::WordLen8bits
    }
}

pub open spec fn spec_stop_bit(val: u8) -> StopBit {
    if val == 1 {
        StopBit::StopBit1bit
    } else {
        StopBit::StopBit2bits
    }
}

impl WordLen {
    /// The word lengths a frame can carry; any other request is a caller bug.
    pub fn from_u8(val: u8) -> (r: WordLen)
        requires
            5 <= val <= 8,
        ensures
            r == spec_word_len(val),
    {
        if val == 5 {
            WordLen::WordLen5bits
        } else if val == 6 {
            WordLen::WordLen6bits
        } else if val == 7 {
            WordLen::WordLen7bits
        } else {
            WordLen::WordLen8bits
        }
    }

    /// LCR word-length field value.
    pub open spec fn spec_bits(self) -> u8 {
        match self {
            WordLen::WordLen5bits => 0,
            WordLen::WordLen6bits => 1,
            WordLen::WordLen7bits => 2,
            WordLen::WordLen8bits => 3,
        }
    }

    pub fn bits(self) -> (r: u8)
        ensures
            r == self.spec_bits(),
    {
        match self {
            WordLen::WordLen5bits => 0,
            WordLen::WordLen6bits => 1,
            WordLen::WordLen7bits => 2,
            WordLen::WordLen8bits => 3,
        }
    }
}

impl StopBit {
    /// One or two stop bits; any other request is a caller bug.
    pub fn from_u8(val: u8) -> (r: StopBit)
        requires
            val == 1 || val == 2,
        ensures
            r == spec_stop_bit(val),
    {
        if val == 1 {
            StopBit::StopBit1bit
        } else {
            StopBit::StopBit2bits
        }
    }

    /// LCR stop-bit field value.
    pub open spec fn spec_bits(self) -> u8 {
        match self {
            StopBit::StopBit1bit => 0b000,
            StopBit::StopBit2bits => 0b100,
        }
    }

    pub fn bits(self) -> (r: u8)
        ensures
            r == self.spec_bits(),
    {
        match self {
            StopBit::StopBit1bit => 0b000,
            StopBit::StopBit2bits => 0b100,
        }
    }
}

/// LCR parity field value (enable bit and select bits together).
pub open spec fn spec_parity_bits(parity: Parity) -> u8 {
    match parity {
        Parity::Disabled => 0b000_0_00,
        Parity::Odd => 0b001_000,
        Parity::Even => 0b011_000,
        Parity::Forced1 => 0b101_000,
        Parity::Forced0 => 0b111_000,
    }
}

pub fn parity_bits(parity: Parity) -> (r: u8)
    ensures
        r == spec_parity_bits(parity),
{
    match parity {
        Parity::Disabled => 0b000_0_00,
        Parity::Odd => 0b001_000,
        Parity::Even => 0b011_000,
        Parity::Forced1 => 0b101_000,
        Parity::Forced0 => 0b111_000,
    }
}

impl UARTPeripheral {
    /// Base address of this UART's register block.
    pub open spec fn spec_reg(self) -> u32 {
        match self {
            UARTPeripheral::UART0 => 0x4000C000,
            UARTPeripheral::UART2 => 0x40098000,
            UARTPeripheral::UART3 => 0x4009C000,
        }
    }

    /// Base address of this UART's register block.
    pub fn reg(self) -> (r: u32)
        ensures
            r == self.spec_reg(),
    {
        match self {
            UARTPeripheral::UART0 => 0x4000C000,
            UARTPeripheral::UART2 => 0x40098000,
            UARTPeripheral::UART3 => 0x4009C000,
        }
    }

    /// The peripheral clock feeding this UART.
    pub fn peripheral_clock(self) -> (r: PeripheralClock)
        ensures
            r == (match self {
                UARTPeripheral::UART0 => PeripheralClock::UART0Clock,
                UARTPeripheral::UART2 => PeripheralClock::UART2Clock,
                UARTPeripheral::UART3 => PeripheralClock::UART3Clock,
            }),
    {
        match self {
            UARTPeripheral::UART0 => PeripheralClock::UART0Clock,
            UARTPeripheral::UART2 => PeripheralClock::UART2Clock,
            UARTPeripheral::UART3 => PeripheralClock::UART3Clock,
        }
    }
}

// Register offsets from the UART base.
pub const DLL_OFFSET: u32 = 0x00;
pub const THR_OFFSET: u32 = 0x00;
pub const DLM_OFFSET: u32 = 0x04;
pub const FCR_OFFSET: u32 = 0x08;
pub const LCR_OFFSET: u32 = 0x0C;
pub const LSR_OFFSET: u32 = 0x14;
pub const FDR_OFFSET: u32 = 0x28;

/// LSR bit: transmitter holding register empty.
pub const LSR_THR_EMPTY: u32 = 0x20;

/// One UART, modelled by its peripheral and the peripheral clock frequency
/// it runs from.
pub struct UART {
    pub peripheral: UARTPeripheral,
    pub pclk: u32,
}

// ---- baud-rate divisor search ----

/// Divisor a fractional candidate `(mul, add)` implies, clamped away from
/// the values the divider hardware cannot take.
pub open spec fn cand_dl(pclk: int, baud: int, mv: int, dav: int) -> int {
    let d0 = ((4 * mv * pclk) / (baud * (dav + mv)) / 32 + 1) / 2;
    let d1 = if d0 == 0 {
        1int
    } else {
        d0
    };
    if dav > 0 && d1 < 2 {
        2int
    } else {
        d1
    }
}

/// Absolute error between the requested baud rate and the one the candidate
/// achieves.
pub open spec fn cand_err(pclk: int, baud: int, mv: int, dav: int) -> int {
    let dl = cand_dl(pclk, baud, mv, dav);
    let b = (pclk * mv / (dl * (dav + mv) * 8) + 1) / 2;
    if b >= baud {
        b - baud
    } else {
        baud - b
    }
}

/// Exhaustive search over `mul` in `[1,16)` and `add` in `[0,mul)`, in that
/// order, keeping the first candidate of minimum error and short-circuiting
/// on an exact match.
pub open spec fn spec_search(
    pclk: int,
    baud: int,
    mv: int,
    dav: int,
    best: (int, int, int),
    err_best: int,
) -> (int, int, int)
    decreases 16 - mv, mv - dav,
{
    if mv < 1 || dav < 0 {
        best
    } else if mv >= 16 {
        best
    } else if dav >= mv {
        spec_search(pclk, baud, mv + 1, 0, best, err_best)
    } else {
        let e = cand_err(pclk, baud, mv, dav);
        if e < err_best {
            if e == 0 {
                (cand_dl(pclk, baud, mv, dav), dav, mv)
            } else {
                spec_search(pclk, baud, mv, dav + 1, (cand_dl(pclk, baud, mv, dav), dav, mv), e)
            }
        } else {
            spec_search(pclk, baud, mv, dav + 1, best, err_best)
        }
    }
}

/// The divisor triple `(dl, add, mul)` for a peripheral clock and a target
/// baud rate: the exact closed form when the clock divides evenly, else the
/// best candidate of the exhaustive search.
pub open spec fn spec_divisors(pclk: int, baud: int) -> (int, int, int) {
    let dl = pclk / (16 * baud);
    if pclk % (16 * baud) == 0 {
        (dl, 0, 1)
    } else {
        spec_search(pclk, baud, 1, 0, (dl, 0, 1), baud)
    }
}

/// Candidate divisors and errors stay well inside `u32`.
proof fn lemma_cand_bounds(pclk: int, baud: int, mv: int, dav: int)
    requires
        0 <= pclk <= u32::MAX,
        1 <= baud,
        1 <= mv < 16,
        0 <= dav < mv,
    ensures
        1 <= cand_dl(pclk, baud, mv, dav) <= pclk / 16 + 2,
        0 <= cand_err(pclk, baud, mv, dav) <= if baud >= pclk { baud } else { pclk },
{
    let x = 4 * mv * pclk;
    let den = baud * (dav + mv);
    assert(x == 4 * mv * pclk && den == baud * (dav + mv));
    assert(baud * (dav + mv) >= mv && 4 * mv * pclk >= 0) by (nonlinear_arith)
        requires
            baud >= 1 && dav >= 0 && mv >= 1 && pclk >= 0,
    ;
    lemma_div_is_ordered_by_denominator(x, mv, den);
    assert(4 * mv * pclk == mv * (4 * pclk)) by (nonlinear_arith);
    lemma_div_multiples_vanish(4 * pclk, mv);
    assert(x / mv == 4 * pclk);
    assert(x / den <= 4 * pclk);
    assert(x / den >= 0) by (nonlinear_arith)
        requires
            x >= 0 && den >= 1,
    ;
    lemma_div_is_ordered(x / den, 4 * pclk, 32);
    assert(4 * pclk / 32 == pclk / 8) by (nonlinear_arith)
        requires
            pclk >= 0,
    ;
    let q = x / den / 32;
    assert(x / den / 32 >= 0) by (nonlinear_arith)
        requires
            x / den >= 0,
    ;
    let d0 = (q + 1) / 2;
    assert(0 <= (q + 1) / 2 && (q + 1) / 2 <= pclk / 16 + 1) by (nonlinear_arith)
        requires
            0 <= q <= pclk / 8 && pclk >= 0,
    ;
    let dl = cand_dl(pclk, baud, mv, dav);
    assert(1 <= dl <= pclk / 16 + 2);
    // the implied baud rate is nonnegative and at most pclk
    let div2 = dl * (dav + mv) * 8;
    assert(dl * (dav + mv) * 8 >= 8) by (nonlinear_arith)
        requires
            dl >= 1 && dav + mv >= 1,
    ;
    let pm = pclk * mv;
    assert(pclk * mv >= 0) by (nonlinear_arith)
        requires
            pclk >= 0 && mv >= 1,
    ;
    lemma_div_is_ordered_by_denominator(pm, 8, div2);
    assert(pclk * mv / 8 <= pclk * 2) by (nonlinear_arith)
        requires
            0 <= pclk && 1 <= mv < 16,
    ;
    let bb = (pm / div2 + 1) / 2;
    assert(pm / div2 >= 0) by (nonlinear_arith)
        requires
            pm >= 0 && div2 >= 8,
    ;
    assert(0 <= (pm / div2 + 1) / 2 && (pm / div2 + 1) / 2 <= pclk) by (nonlinear_arith)
        requires
            0 <= pm / div2 <= pclk * 2 && pclk >= 0,
    ;
    assert(cand_err(pclk, baud, mv, dav) == if bb >= baud { bb - baud } else { baud - bb });
}

impl UART {
    /// Peripheral clock frequency this UART runs from.
    pub fn uart_clock(&self) -> (r: u32)
        ensures
            r == self.pclk,
    {
        self.pclk
    }

    /// Compute the divisor latch value `dl` and the fractional divider pair
    /// `(add, mul)` for a target baud rate, so that the effective rate is as
    /// close as possible to the request.  When `pclk` is an exact multiple
    /// of `16 * baud` the closed form is returned with no search.
    pub fn calculate_divisors(&self, baud_rate: u32) -> (r: (u32, u32, u32))
        requires
            1 <= baud_rate,
        ensures
            (r.0 as int, r.1 as int, r.2 as int) == spec_divisors(
                self.pclk as int,
                baud_rate as int,
            ),
            r.1 <= 14,
            1 <= r.2 <= 15,
            self.pclk as int % (16 * baud_rate as int) == 0 ==> (r.0 as int == self.pclk as int / (
            16 * baud_rate as int) && r.1 == 0 && r.2 == 1),
    {
        let pclk = self.pclk as u64;
        let baud = baud_rate as u64;
        let dl0: u64 = pclk / (16 * baud);
        proof {
            assert(pclk as int / (16 * baud as int) <= pclk as int) by (nonlinear_arith)
                requires
                    baud >= 1 && pclk >= 0,
            ;
        }
        if pclk % (16 * baud) == 0 {
            return (dl0 as u32, 0, 1);
        }
        let ghost pclk_i = self.pclk as int;
        let ghost baud_i = baud_rate as int;
        let mut best_dl: u64 = dl0;
        let mut best_dav: u64 = 0;
        let mut best_mv: u64 = 1;
        let mut err_best: u64 = baud;
        let mut mv: u64 = 1;
        while mv < 16
            invariant
                pclk == self.pclk,
                baud == baud_rate,
                1 <= baud,
                pclk_i == self.pclk as int,
                baud_i == baud_rate as int,
                1 <= mv <= 16,
                best_dl <= u32::MAX,
                best_dav <= 14,
                1 <= best_mv <= 15,
                err_best <= baud,
                spec_search(
                    pclk_i,
                    baud_i,
                    mv as int,
                    0,
                    (best_dl as int, best_dav as int, best_mv as int),
                    err_best as int,
                ) == spec_divisors(pclk_i, baud_i),
            decreases 16 - mv,
        {
            let mut dav: u64 = 0;
            while dav < mv
                invariant
                    pclk == self.pclk,
                    baud == baud_rate,
                    1 <= baud,
                    pclk_i == self.pclk as int,
                    baud_i == baud_rate as int,
                    1 <= mv <= 15,
                    0 <= dav <= mv,
                    best_dl <= u32::MAX,
                    best_dav <= 14,
                    1 <= best_mv <= 15,
                    err_best <= baud,
                    spec_search(
                        pclk_i,
                        baud_i,
                        mv as int,
                        dav as int,
                        (best_dl as int, best_dav as int, best_mv as int),
                        err_best as int,
                    ) == spec_divisors(pclk_i, baud_i),
                decreases mv - dav,
            {
                proof {
                    lemma_cand_bounds(pclk_i, baud_i, mv as int, dav as int);
                    assert(4 * mv as int * pclk as int <= 60 * 0xffff_ffffint) by (nonlinear_arith)
                        requires
                            1 <= mv <= 15 && 0 <= pclk <= 0xffff_ffff,
                    ;
                    assert(baud as int * (dav as int + mv as int) <= 0xffff_ffffint * 30)
                        by (nonlinear_arith)
                        requires
                            1 <= baud <= 0xffff_ffff && 0 <= dav < mv <= 15,
                    ;
                    assert(baud as int * (dav as int + mv as int) >= 1) by (nonlinear_arith)
                        requires
                            baud >= 1 && dav >= 0 && mv >= 1,
                    ;
                }
                let x: u64 = 4 * mv * pclk;
                let den: u64 = baud * (dav + mv);
                let d0: u64 = (x / den / 32 + 1) / 2;
                let d1: u64 = if d0 == 0 {
                    1
                } else {
                    d0
                };
                let dlv: u64 = if dav > 0 && d1 < 2 {
                    2
                } else {
                    d1
                };
                proof {
                    assert(dlv as int == cand_dl(pclk_i, baud_i, mv as int, dav as int));
                }
                proof {
                    assert(pclk as int * mv as int <= 0xffff_ffffint * 15) by (nonlinear_arith)
                        requires
                            0 <= pclk <= 0xffff_ffff && 1 <= mv <= 15,
                    ;
                    assert(dlv as int * (dav as int + mv as int) * 8 <= 0x1_0000_0000int * 30 * 8)
                        by (nonlinear_arith)
                        requires
                            1 <= dlv <= 0x1_0000_0000 && 0 <= dav < mv <= 15,
                    ;
                    assert(dlv as int * (dav as int + mv as int) * 8 >= 8) by (nonlinear_arith)
                        requires
                            dlv >= 1 && dav as int + mv as int >= 1,
                    ;
                }
                let implied: u64 = (pclk * mv / (dlv * (dav + mv) * 8) + 1) / 2;
                let e: u64 = if implied >= baud {
                    implied - baud
                } else {
                    baud - implied
                };
                proof {
                    assert(e as int == cand_err(pclk_i, baud_i, mv as int, dav as int));
                }
                if e < err_best {
                    best_dl = dlv;
                    best_dav = dav;
                    best_mv = mv;
                    err_best = e;
                    if e == 0 {
                        return (best_dl as u32, best_dav as u32, best_mv as u32);
                    }
                }
                dav += 1;
            }
            mv += 1;
        }
        (best_dl as u32, best_dav as u32, best_mv as u32)
    }
}


// FIFO control field values.
pub const FIFO_RESET_RX: u8 = 0b10;
pub const FIFO_RESET_TX: u8 = 0b100;

/// LCR mask of the mode fields (word length, stop bits, parity).
pub const LCR_MODE_MASK: u8 = 0b111_1_1_11;

impl UART {
    /// The register writes that program a baud rate: open the divisor
    /// latch, set the divisor and the fractional divider, close the latch.
    pub fn set_baud_rate(&self, baud_rate: u32) -> (ops: Vec<RegOp>)
        requires
            1 <= baud_rate,
        ensures
            ({
                let d = spec_divisors(self.pclk as int, baud_rate as int);
                let dl = d.0;
                let dav = d.1;
                let mv = d.2;
                let base = self.peripheral.spec_reg();
                &&& ops@.len() == 5
                &&& ops@[0] == (RegOp::Write32 { addr: (base + LCR_OFFSET) as u32, val: 0x80 })
                &&& ops@[1] == (RegOp::Write32 {
                    addr: (base + DLM_OFFSET) as u32,
                    val: ((dl / 0x100) % 0x100) as u32,
                })
                &&& ops@[2] == (RegOp::Write32 {
                    addr: (base + DLL_OFFSET) as u32,
                    val: (dl % 0x100) as u32,
                })
                &&& ops@[3] == (RegOp::Write32 {
                    addr: (base + FDR_OFFSET) as u32,
                    val: (dav + 16 * mv) as u32,
                })
                &&& ops@[4] == (RegOp::Write32 { addr: (base + LCR_OFFSET) as u32, val: 3 })
            }),
    {
        let base = self.peripheral.reg();
        let r = self.calculate_divisors(baud_rate);
        let dl = r.0;
        let dav = r.1;
        let mv = r.2;
        let mut ops: Vec<RegOp> = Vec::new();
        ops.push(RegOp::Write32 { addr: base + LCR_OFFSET, val: 0x80 });
        ops.push(RegOp::Write32 { addr: base + DLM_OFFSET, val: (dl / 0x100) % 0x100 });
        ops.push(RegOp::Write32 { addr: base + DLL_OFFSET, val: dl % 0x100 });
        ops.push(RegOp::Write32 { addr: base + FDR_OFFSET, val: dav + 16 * mv });
        ops.push(RegOp::Write32 { addr: base + LCR_OFFSET, val: 3 });
        ops
    }

    /// The LCR value that selects a word length, parity and stop-bit count,
    /// keeping the divisor-latch bit of the current value.
    pub fn set_mode(&self, lcr: u8, word_len: WordLen, parity: Parity, stop_bits: StopBit) -> (r:
        u8)
        ensures
            r == (lcr & !LCR_MODE_MASK) | (word_len.spec_bits() | stop_bits.spec_bits()
                | spec_parity_bits(parity)),
    {
        let computed: u8 = word_len.bits() | stop_bits.bits() | parity_bits(parity);
        (lcr & !LCR_MODE_MASK) | computed
    }

    /// The FCR value that enables or disables the FIFOs.
    pub fn set_fifo_enabled(&self, enabled: bool, reset: bool) -> (r: u8)
        ensures
            r == ((if enabled {
                1u8
            } else {
                0u8
            }) | (if reset {
                FIFO_RESET_TX & FIFO_RESET_RX
            } else {
                0u8
            })),
    {
        let e: u8 = if enabled {
            1
        } else {
            0
        };
        let rst: u8 = if reset {
            FIFO_RESET_TX & FIFO_RESET_RX
        } else {
            0
        };
        e | rst
    }

    /// Create a UART model and compute its whole bring-up sequence: baud
    /// rate first, then frame mode, then FIFO control.
    pub fn new(
        peripheral: UARTPeripheral,
        baudrate: u32,
        word_len: u8,
        parity: Parity,
        stop_bits: u8,
        pclk: u32,
    ) -> (r: (UART, Vec<RegOp>))
        requires
            1 <= baudrate,
            5 <= word_len <= 8,
            stop_bits == 1 || stop_bits == 2,
        ensures
            r.0.peripheral == peripheral,
            r.0.pclk == pclk,
            ({
                let d = spec_divisors(pclk as int, baudrate as int);
                let dl = d.0;
                let dav = d.1;
                let mv = d.2;
                let base = peripheral.spec_reg();
                let mode = (3u8 & !LCR_MODE_MASK) | (spec_word_len(word_len).spec_bits()
                    | spec_stop_bit(stop_bits).spec_bits() | spec_parity_bits(parity));
                &&& r.1@.len() == 7
                &&& r.1@[0] == (RegOp::Write32 { addr: (base + LCR_OFFSET) as u32, val: 0x80 })
                &&& r.1@[1] == (RegOp::Write32 {
                    addr: (base + DLM_OFFSET) as u32,
                    val: ((dl / 0x100) % 0x100) as u32,
                })
                &&& r.1@[2] == (RegOp::Write32 {
                    addr: (base + DLL_OFFSET) as u32,
                    val: (dl % 0x100) as u32,
                })
                &&& r.1@[3] == (RegOp::Write32 {
                    addr: (base + FDR_OFFSET) as u32,
                    val: (dav + 16 * mv) as u32,
                })
                &&& r.1@[4] == (RegOp::Write32 { addr: (base + LCR_OFFSET) as u32, val: 3 })
                &&& r.1@[5] == (RegOp::Write32 {
                    addr: (base + LCR_OFFSET) as u32,
                    val: mode as u32,
                })
                &&& r.1@[6] == (RegOp::Write32 { addr: (base + FCR_OFFSET) as u32, val: 1 })
            }),
    {
        let uart = UART { peripheral, pclk };
        let mut ops = uart.set_baud_rate(baudrate);
        proof {
            assert(uart.pclk == pclk);
            assert(uart.peripheral == peripheral);
            let s1 = spec_divisors(uart.pclk as int, baudrate as int);
            let s2 = spec_divisors(pclk as int, baudrate as int);
            assert(s1 == s2);
            assert(ops@.len() == 5);
            assert(ops@[3] == (RegOp::Write32 {
                addr: (uart.peripheral.spec_reg() + FDR_OFFSET) as u32,
                val: (s1.1 + 16 * s1.2) as u32,
            }));
        }
        let ghost ops5 = ops@;
        let base = peripheral.reg();
        let mode = uart.set_mode(
            3,
            WordLen::from_u8(word_len),
            parity,
            StopBit::from_u8(stop_bits),
        );
        ops.push(RegOp::Write32 { addr: base + LCR_OFFSET, val: mode as u32 });
        let fcr = uart.set_fifo_enabled(true, true);
        proof {
            assert((FIFO_RESET_TX & FIFO_RESET_RX) == 0) by (bit_vector);
            assert((1u8 | 0u8) == 1u8) by (bit_vector);
            assert(fcr == 1);
        }
        ops.push(RegOp::Write32 { addr: base + FCR_OFFSET, val: fcr as u32 });
        proof {
            assert(ops@.take(5) =~= ops5);
            assert(ops@[3] == ops5[3]);
        }
        (uart, ops)
    }

    /// Transmit one byte: wait for the holding register to drain, then
    /// write the byte.
    pub fn putc(&self, value: u8) -> (ops: Vec<RegOp>)
        ensures
            ops@.len() == 2,
            ops@[0] == (RegOp::WaitBitSet {
                addr: (self.peripheral.spec_reg() + LSR_OFFSET) as u32,
                mask: LSR_THR_EMPTY,
            }),
            ops@[1] == (RegOp::Write32 {
                addr: (self.peripheral.spec_reg() + THR_OFFSET) as u32,
                val: value as u32,
            }),
    {
        let base = self.peripheral.reg();
        let mut ops: Vec<RegOp> = Vec::new();
        ops.push(RegOp::WaitBitSet { addr: base + LSR_OFFSET, mask: LSR_THR_EMPTY });
        ops.push(RegOp::Write32 { addr: base + THR_OFFSET, val: value as u32 });
        ops
    }
}

} // verus!
