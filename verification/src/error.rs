//! The ways in which a tunnel operation fails.

use vstd::prelude::*;

verus! {

/// Why a tunnel operation did not succeed.
#[derive(Clone, Copy, Debug, PartialEq, Eq, Structural)]
pub enum TunnelError {
    /// An endpoint could not be bound while the tunnel was built.
    Creation,
    /// The transport could not establish a connection to the address.
    Connect,
    /// The peer stopped the stream; `code` is the stop code it gave.
    Send { code: u64 },
    /// The tunnel was destroyed before the operation was asked for.
    Destroyed,
}

} // verus!
