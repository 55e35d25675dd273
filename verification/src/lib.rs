//! Pinging a host through a chosen gateway on a chosen interface, without
//! touching the kernel's routing table: the frames that travel on the wire,
//! how the answers to them are recognised, and the decisions taken while
//! waiting for them.

pub mod addr;
pub mod arp;
pub mod bytes;
pub mod checksum;
pub mod echo;
mod entropy;
pub mod error;
pub mod ping;
pub mod session;
pub mod span;

pub use addr::{Ipv4, MacAddr};
pub use span::Span;
