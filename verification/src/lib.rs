//! Driver core for the TMC2209 stepper-motor driver chip.
//!
//! The chip is configured over a half-duplex serial bus with fixed-length
//! frames protected by an 8-bit checksum. This crate holds the wire protocol:
//! the checksum, the frame layouts, the validation of replies, and the
//! register operations expressed as state machines that tell their driver
//! which byte to offer to the transport next and what to make of its answer.
//! The transport itself is never touched here, so every function is total
//! and carries a contract over the byte sequences involved.

pub mod config;
pub mod errors;
pub mod packet;
pub mod registers;
pub mod reply;
pub mod transfer;
pub mod workflow;

pub use config::MotorConfig;
pub use errors::TmcError;
