//! Feetech STS/SCS serial bus servos: the packet codec, the calibration
//! model and the range-finding procedure, with their contracts.

pub mod calibration;
pub mod cli;
pub mod protocol;
pub mod rangefinder;
