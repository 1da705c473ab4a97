//! Decoding and link handling for the WitMotion WT901 family of motion sensors.
//!
//! The sensor streams fixed 11-byte frames over a serial line. This crate
//! validates and decodes single frames, reassembles frames from a byte stream
//! that may start mid-frame or carry noise, and drives the decisions of the
//! handshake, the baud-rate search and the liveness check. The serial port
//! itself is left to the caller.

pub mod baud;
pub mod device;
pub mod frame;
pub mod handshake;
pub mod liveness;
pub mod scale;
pub mod stream;

pub use frame::{checksum_valid, parse_frame, FrameType, WitmotionFrame, WIT_ACC, WIT_ANGLE, WIT_GYRO};
pub use stream::extract_frames;
