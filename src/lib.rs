//! Driver for a 16-channel, 12-bit PWM controller of the PCA9685 kind, used
//! to position servo motors over an I2C bus.
//!
//! The bus is supplied by the user through [`I2cBus`], whose contract keeps
//! a record of every call it receives; [`RecordingBus`] is one with no
//! hardware behind it. The contracts state exactly which calls each
//! operation hands to the bus and how a failure that the bus reports is
//! passed on. Angles are whole millidegrees.

pub mod bus;
pub mod driver;
pub mod motor;

pub use bus::{BusCall, BusError, Call, I2cBus, RecordingBus, RegWrite};
pub use driver::{Driver, DriverView};
pub use motor::{Motor, MotorView, MAX_ANGLE, MAX_VALUE, MIN_VALUE};
