//! Reader and writer for the point-cloud interchange format: a textual
//! key-value header followed by a point body in one of three encodings
//! (plain text, flat binary, or length-prefixed compressed binary).
//!
//! The library works on in-memory byte buffers and carries floating-point
//! values as IEEE 754 bit patterns; the thin adapters around it supply file
//! and memory-mapped sources and plain float views.

pub mod binary;
pub mod error;
pub mod header;
pub mod layout;
pub mod lebytes;
pub mod storage;

pub use error::PcdError;
pub use header::{DataFormat, PcdHeader, ValueType};
