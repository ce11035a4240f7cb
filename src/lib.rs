//! A driver for the AT24C32/64 family of serial EEPROMs on a two-wire bus.
//!
//! The library frames every bus transaction that the chip expects and decides,
//! one bus outcome at a time, when a write cycle has finished. Running the
//! transactions on a real bus is left to the caller.
pub mod address;
pub mod chip;
pub mod cycle;
pub mod driver;

pub use address::Address;
pub use chip::{chip_read, chip_write, valid_memory};
pub use cycle::{Action, WriteCycle};
pub use driver::{AT24Cx, Frame, ReadRequest, PAGE_SIZE};
