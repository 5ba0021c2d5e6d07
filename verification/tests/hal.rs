//! The chip models: pins, clock bring-up, timers and register addressing.

use platformtree::hal::pin::{GPIODirection, GPIOLevel};
use platformtree::hal::tiva_c::pin::{Pin, PortID};
use platformtree::hal::tiva_c::sysctl::{sysclk_configure, ClockSource, MOSCFreq, Periph};
use platformtree::hal::tiva_c::uart::{UARTID, UART};
use platformtree::hal::tm4c123gh6pm::io::{Reg, RegOp};
use platformtree::hal::tm4c123gh6pm::pin as tm4c_pin;
use platformtree::hal::tm4c123gh6pm::sysctl as tm4c_sysctl;
use platformtree::hal::tm4c123gh6pm::timer::{Mode, Timer, TimerId};

#[test]
fn pin_configuration_writes() {
    let (pin, ops) = Pin::new(PortID::PortA, 1, GPIODirection::Out, 0);
    assert_eq!(pin.port_base, 0x40004000);
    assert_eq!(pin.index, 1);
    assert_eq!(ops.len(), 10);
    assert_eq!(ops[0], RegOp::BitbandWrite { addr: 0x40004000 + 0x51C, bit: 1, set: false });
    assert_eq!(ops[1], RegOp::BitbandWrite { addr: 0x40004000 + 0x400, bit: 1, set: true });
    assert_eq!(ops[2], RegOp::BitbandWrite { addr: 0x40004000 + 0x420, bit: 1, set: false });
    assert_eq!(ops[9], RegOp::BitbandWrite { addr: 0x40004000 + 0x51C, bit: 1, set: true });
}

#[test]
fn pin_alternate_function_routes_through_pctl() {
    let (_pin, ops) = Pin::new(PortID::PortF, 2, GPIODirection::In, 3);
    assert_eq!(ops.len(), 11);
    assert_eq!(ops[2], RegOp::BitbandWrite { addr: 0x40025000 + 0x420, bit: 2, set: true });
    assert_eq!(
        ops[3],
        RegOp::FieldWrite { addr: 0x40025000 + 0x52C, shift: 8, width: 4, val: 3 }
    );
}

#[test]
fn pin_levels_and_direction() {
    let pin = Pin { port_base: 0x40025000, index: 2 };
    assert_eq!(
        pin.set_high(),
        RegOp::BitbandWrite { addr: 0x40025000 + 0x3FC, bit: 2, set: true }
    );
    assert_eq!(
        pin.set_low(),
        RegOp::BitbandWrite { addr: 0x40025000 + 0x3FC, bit: 2, set: false }
    );
    assert_eq!(pin.level(0b100), GPIOLevel::High);
    assert_eq!(pin.level(0b011), GPIOLevel::Low);
    assert_eq!(
        pin.set_direction(GPIODirection::In),
        RegOp::BitbandWrite { addr: 0x40025000 + 0x400, bit: 2, set: false }
    );
}

#[test]
fn sysclk_plan_for_a_running_mosc_without_pll() {
    // the main oscillator is already running (bit 0 clear): no enable wait
    let ops = sysclk_configure(
        ClockSource::MOSC,
        Some(MOSCFreq::X16_0MHz),
        false,
        None,
        0x078E3AD1 & !1,
    );
    // two bypass writes, two source writes, two final writes
    assert_eq!(ops.len(), 6);
    assert!(matches!(ops[0], RegOp::Write32 { addr: 0x400FE060, .. }));
    assert!(matches!(ops[1], RegOp::Write32 { addr: 0x400FE070, .. }));
    assert!(matches!(ops[5], RegOp::Write32 { addr: 0x400FE070, .. }));
    // without a PLL the bypass stays: bit 11 is set in the last RCC write
    match ops[4] {
        RegOp::Write32 { addr, val } => {
            assert_eq!(addr, 0x400FE060);
            assert_ne!(val & (1 << 11), 0);
            // the crystal selection landed in the XTAL field
            assert_eq!((val >> 6) & 0x1f, 0x15);
        },
        _ => panic!("expected a register write"),
    }
}

#[test]
fn sysclk_plan_with_pll_waits_for_lock() {
    // the oscillator is off (bit 0 set): it is enabled and awaited first
    let ops = sysclk_configure(
        ClockSource::MOSC,
        Some(MOSCFreq::X16_0MHz),
        true,
        Some(5),
        1,
    );
    assert_eq!(ops.len(), 11);
    assert_eq!(ops[2], RegOp::BitbandWrite { addr: 0x400FE058, bit: 8, set: true });
    assert!(matches!(ops[3], RegOp::Write32 { addr: 0x400FE060, .. }));
    assert_eq!(ops[4], RegOp::WaitBitSet { addr: 0x400FE050, mask: 1 << 8 });
    assert_eq!(ops[7], RegOp::BitbandWrite { addr: 0x400FE058, bit: 6, set: true });
    assert_eq!(ops[8], RegOp::WaitBitSet { addr: 0x400FE168, mask: 1 });
    // the bypass is removed in the final writes
    match ops[9] {
        RegOp::Write32 { addr, val } => {
            assert_eq!(addr, 0x400FE060);
            assert_eq!(val & (1 << 11), 0);
            // the divisor request also set the USESYSDIV bit
            assert_ne!(val & (1 << 22), 0);
        },
        _ => panic!("expected a register write"),
    }
    match ops[10] {
        RegOp::Write32 { addr, val } => {
            assert_eq!(addr, 0x400FE070);
            // DIV400, USERCC2 and the divisor field
            assert_ne!(val & (1 << 30), 0);
            assert_ne!(val & (1 << 31), 0);
            assert_eq!((val >> 22) & 0x7f, 5);
        },
        _ => panic!("expected a register write"),
    }
}

#[test]
fn periph_gating_and_enable() {
    let port_f = Periph::gpio_port(5);
    assert_eq!(port_f.clock_gating_reg().addr, 0x400FE608);
    assert_eq!(
        port_f.enable(),
        RegOp::BitbandWrite { addr: 0x400FE608, bit: 5, set: true }
    );
    // bit 5 clear: needs enabling; bit 5 set: already running
    assert!(port_f.ensure_enabled(0));
    assert!(!port_f.ensure_enabled(1 << 5));
    let wide_timer = Periph::timer_w(0);
    assert_eq!((wide_timer.class, wide_timer.id), (0x5c, 0));
    assert_eq!(Periph::timer(3).class, 4);
    assert_eq!(Periph::uart(7).id, 7);
    let tm4c = tm4c_sysctl::Periph::gpio_port(0);
    assert_eq!(tm4c.clock_gating_reg().addr, 0x400FE608);
    assert!(tm4c.ensure_enabled(0b10));
    assert!(!tm4c.ensure_enabled(0b01));
}

#[test]
fn uart_configure_programs_the_divisor() {
    // 115200 baud from the 16 MHz system clock: IBRD 8, FBRD 44
    let (uart, ops) = UART::new(UARTID::UART0, 115_200);
    assert_eq!(uart.base, 0x4000C000);
    assert_eq!(ops.len(), 9);
    assert_eq!(ops[5], RegOp::Write32 { addr: 0x4000C024, val: 8 });
    assert_eq!(ops[6], RegOp::Write32 { addr: 0x4000C028, val: 44 });
    assert_eq!(ops[8], RegOp::Write32 { addr: 0x4000C030, val: 0x301 });
    assert_eq!(
        uart.putc(b'A'),
        vec![
            RegOp::WaitBitClear { addr: 0x4000C018, mask: 1 << 5 },
            RegOp::Write32 { addr: 0x4000C000, val: 65 },
        ]
    );
}

#[test]
fn register_addressing() {
    let r = Reg::new(0x400FE060);
    assert_eq!(r.addr, 0x400FE060);
    // the documented bit-band alias formula
    let alias = r.bitband_addr(3);
    assert_eq!(alias, 0x40000000 | 0x02000000 | ((0x400FE060 & 0xFFFFF) << 5) | (3 << 2));
}

#[test]
fn tm4c_pin_data_register_masks_one_pin() {
    let (pin, ops) = tm4c_pin::Pin::new(tm4c_pin::PortID::PortF, 2, GPIODirection::Out);
    assert_eq!(ops.len(), 5);
    assert_eq!(pin.data_reg().addr, 0x40025000 + (1 << 4));
    assert_eq!(pin.set_high(), RegOp::Write32 { addr: 0x40025000 + 16, val: 0xff });
    assert_eq!(pin.set_low(), RegOp::Write32 { addr: 0x40025000 + 16, val: 0x00 });
    assert_eq!(pin.level(0), GPIOLevel::Low);
    assert_eq!(pin.level(4), GPIOLevel::High);
}

#[test]
fn timer_configuration_writes() {
    let (timer, ops) = Timer::new(TimerId::TimerW0, Mode::Periodic, 80);
    assert_eq!(timer.base, 0x40036000);
    assert!(timer.wide);
    assert_eq!(ops.len(), 6);
    assert_eq!(ops[0], RegOp::BitbandWrite { addr: 0x4003600C, bit: 0, set: false });
    assert_eq!(ops[1], RegOp::Write32 { addr: 0x40036000, val: 4 });
    assert_eq!(ops[2], RegOp::Write32 { addr: 0x40036004, val: 2 });
    assert_eq!(ops[3], RegOp::Write32 { addr: 0x40036028, val: 0xffffffff });
    assert_eq!(ops[4], RegOp::Write32 { addr: 0x40036038, val: 80 });
    assert_eq!(ops[5], RegOp::BitbandWrite { addr: 0x4003600C, bit: 0, set: true });
    // unsupported modes stop after the half-width selection
    let (_t2, ops2) = Timer::new(TimerId::Timer1, Mode::PWM, 1);
    assert_eq!(ops2.len(), 2);
    // the raw count-down value is complemented into an increasing counter
    assert_eq!(timer.get_counter(0xFFFF_FFFF), 0);
    assert_eq!(timer.get_counter(0xFFFF_FF00), 0xFF);
}
