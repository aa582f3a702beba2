//! Sockets.

pub mod laws;
mod poll_at;
pub mod raw;
mod waker;

pub use poll_at::PollAt;
pub use waker::WakerRegistration;
