//! Bounded containers over storage that the user provides.

pub mod laws;
mod managed;
mod packet_buffer;
pub mod packet_queue;
pub mod ring_buffer;

pub use managed::Storage;
pub use packet_buffer::{Empty, Full, PacketBuffer, PacketMetadata};
pub use ring_buffer::RingBuffer;
