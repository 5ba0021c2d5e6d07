//! HAL model for the NXP LPC17xx family.

pub mod uart;
