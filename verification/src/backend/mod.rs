//! The model at the other end.
pub mod protocol;
pub mod ratelimit;
pub mod stream;
pub mod wire;
pub mod process;
