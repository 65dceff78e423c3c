//! Driver for the STUSB4500 USB Power Delivery sink controller over a two-wire bus: status and
//! alert registers, sink power data objects, the negotiated request data object, and
//! programming of the non-volatile memory that holds the power-on configuration.
//!
//! Every transfer the driver hands to the bus is recorded in a ghost log
//! (`STUSB4500::transfers`), and the contracts of the driver's operations say which register
//! writes each one issues, in which order, and where it stops when the bus fails.


pub mod bits;
pub mod bus;
pub mod driver;
pub mod nvm;
pub mod pdo;
pub mod rdo;
pub mod registers;

pub use bus::I2cBus;
pub use driver::{Address, Error, PdoChannel, STUSB4500, STUSB4500_ADDR, DEFAULT_POLL_LIMIT};
pub use nvm::STUSB4500Nvm;

