//! A mirrored circular byte buffer and the decision logic of a
//! pseudo-terminal session: capacity rounding, overwrite-oldest buffering,
//! session lifecycle and the names of the pipes that carry its bytes.
pub mod capacity;
pub mod ring;
pub mod session;
pub mod pipe;

pub use capacity::{realized_capacity, ALLOCATION_GRANULARITY};
pub use ring::{BufferError, CircularBuffer};
