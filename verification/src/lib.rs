//! A raw IP socket over bounded packet buffers.

pub mod iface;
pub mod octets;
pub mod phy;
pub mod socket;
pub mod storage;
pub mod wire;
