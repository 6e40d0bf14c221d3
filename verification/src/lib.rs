//! Polled peripheral drivers for a BCM2837 board: the GPIO controller and the
//! PL011 UART, written against an abstract register window so that every
//! register access a driver makes is stated in its contract.

pub mod gpio;
pub mod mmio;
pub mod uart;
