//! A mock serial port for exercising framed request/response protocols
//! without hardware.
//!
//! A test scripts the frames the "device" will answer with, and the code under
//! test reads them back one byte at a time, each frame ending at a configured
//! stop byte.

pub mod builder;
pub mod failure;
pub mod laws;
pub mod model;
pub mod port;

pub use builder::MockableSerialBuilder;
pub use port::{MockableSerial, SerialMock};
