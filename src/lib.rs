//! Bring-up layer for the F1C100S/F1C200S system-on-chip: clock tree
//! programming and DDR1 controller initialisation with geometry detection and
//! read-pipeline calibration, together with GPIO drivers, serial line settings
//! and interrupt numbering. Every driver works over an abstract 32-bit register
//! bus whose accesses are recorded in a ghost trace, which the contracts speak
//! of.

pub mod bus;
pub mod debug;
pub mod delay;
pub mod dram;
pub mod gpio;
pub mod interrupt;
pub mod rcc;
pub mod spi;
pub mod usart;
