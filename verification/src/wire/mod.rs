//! The format of IP packets.

pub mod checksum;
mod error;
pub mod ip;
pub mod ipv4;
pub mod ipv6;
pub mod laws;
pub mod protocol;

pub use error::Error;
pub use ip::{IpRepr, IpVersion};
pub use ipv4::{Ipv4Address, Ipv4Repr};
pub use ipv6::{Ipv6Address, Ipv6Repr};
pub use protocol::IpProtocol;
