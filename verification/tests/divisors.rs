//! The UART baud-rate arithmetic.

use platformtree::hal::lpc17xx::uart::{
    parity_bits, StopBit, UARTPeripheral, WordLen, UART,
};
use platformtree::hal::tm4c123gh6pm::io::RegOp;
use platformtree::hal::uart::Parity;

#[test]
fn exact_divisor_uses_the_closed_form() {
    // 16 MHz splits evenly by 16 * 125000, so the closed form applies
    let uart = UART { peripheral: UARTPeripheral::UART0, pclk: 16_000_000 };
    let (dl, add, mul) = uart.calculate_divisors(125_000);
    assert_eq!(dl, 8);
    assert_eq!(add, 0);
    assert_eq!(mul, 1);
}

#[test]
fn fractional_divisor_stays_close_to_the_request() {
    // 115200 baud from a 16 MHz clock has no exact divisor; the search must
    // land within half a percent
    let pclk: u64 = 16_000_000;
    let uart = UART { peripheral: UARTPeripheral::UART0, pclk: pclk as u32 };
    let (dl, add, mul) = uart.calculate_divisors(115_200);
    assert!(dl >= 1);
    assert!(add < mul && mul < 16);
    // effective baud = pclk * mul / (16 * dl * (mul + add))
    let effective = pclk * mul as u64 / (16 * dl as u64 * (mul as u64 + add as u64));
    let err = if effective >= 115_200 { effective - 115_200 } else { 115_200 - effective };
    assert!(err * 200 <= 115_200, "effective {} too far from 115200", effective);
}

#[test]
fn divisors_are_deterministic() {
    let uart = UART { peripheral: UARTPeripheral::UART2, pclk: 25_000_000 };
    assert_eq!(uart.calculate_divisors(9_600), uart.calculate_divisors(9_600));
}

#[test]
fn baud_rate_register_writes() {
    let uart = UART { peripheral: UARTPeripheral::UART0, pclk: 16_000_000 };
    let ops = uart.set_baud_rate(125_000);
    let base = 0x4000C000u32;
    assert_eq!(
        ops,
        vec![
            RegOp::Write32 { addr: base + 0x0C, val: 0x80 },
            RegOp::Write32 { addr: base + 0x04, val: 0 },
            RegOp::Write32 { addr: base + 0x00, val: 8 },
            RegOp::Write32 { addr: base + 0x28, val: 16 },
            RegOp::Write32 { addr: base + 0x0C, val: 3 },
        ]
    );
}

#[test]
fn mode_value_keeps_the_latch_bit() {
    let uart = UART { peripheral: UARTPeripheral::UART0, pclk: 16_000_000 };
    // 8n1: word length 3, one stop bit, no parity
    assert_eq!(uart.set_mode(3, WordLen::WordLen8bits, Parity::Disabled, StopBit::StopBit1bit), 3);
    assert_eq!(
        uart.set_mode(0x80, WordLen::WordLen8bits, Parity::Even, StopBit::StopBit2bits),
        0x80 | 3 | 0b100 | 0b011_000
    );
}

#[test]
fn word_len_and_stop_bits_round_trip() {
    assert_eq!(WordLen::from_u8(5), WordLen::WordLen5bits);
    assert_eq!(WordLen::from_u8(8), WordLen::WordLen8bits);
    assert_eq!(WordLen::from_u8(7).bits(), 2);
    assert_eq!(StopBit::from_u8(1), StopBit::StopBit1bit);
    assert_eq!(StopBit::from_u8(2).bits(), 0b100);
    assert_eq!(parity_bits(Parity::Odd), 0b001_000);
    assert_eq!(parity_bits(Parity::Forced0), 0b111_000);
}

#[test]
fn peripheral_addresses_and_clocks() {
    assert_eq!(UARTPeripheral::UART0.reg(), 0x4000C000);
    assert_eq!(UARTPeripheral::UART2.reg(), 0x40098000);
    assert_eq!(UARTPeripheral::UART3.reg(), 0x4009C000);
    let uart = UART { peripheral: UARTPeripheral::UART3, pclk: 12_000_000 };
    assert_eq!(uart.uart_clock(), 12_000_000);
}

#[test]
fn full_bring_up_sequence() {
    let (uart, ops) = UART::new(
        UARTPeripheral::UART0,
        125_000,
        8,
        Parity::Disabled,
        1,
        16_000_000,
    );
    assert_eq!(uart.pclk, 16_000_000);
    assert_eq!(ops.len(), 7);
    // the final two writes select the frame format and enable the FIFO
    assert_eq!(ops[5], RegOp::Write32 { addr: 0x4000C00C, val: 3 });
    assert_eq!(ops[6], RegOp::Write32 { addr: 0x4000C008, val: 1 });
}

#[test]
fn putc_waits_then_writes() {
    let uart = UART { peripheral: UARTPeripheral::UART0, pclk: 16_000_000 };
    let ops = uart.putc(b'z');
    assert_eq!(
        ops,
        vec![
            RegOp::WaitBitSet { addr: 0x4000C014, mask: 0x20 },
            RegOp::Write32 { addr: 0x4000C000, val: b'z' as u32 },
        ]
    );
}
