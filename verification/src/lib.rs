//! An identity-addressed message tunnel: the address codec, the connection
//! cache, the inbound dispatch rules and the tunnel lifecycle, each stated
//! as a contract and proved.

pub mod cache;
pub mod error;
pub mod identity;
pub mod protocol;
pub mod tunnel;

pub use crate::cache::{Connection, ConnectionCache};
pub use crate::error::TunnelError;
pub use crate::identity::{ParseError, PublicKey};
pub use crate::protocol::{DataHandler, TunnelProtocol, ALPN};
pub use crate::tunnel::Tunnel;
