//! HAL model for the TI Tiva C family (TM4C123GH6PM on the launchpad).

pub mod clock_pt;
pub mod pin;
pub mod pin_pt;
pub mod sysctl;
pub mod timer_pt;
pub mod uart;
pub mod uart_pt;
