//! Ledger account addresses, modeled as plain values: an established
//! account carries its identifier, and the internal addresses cover the
//! accounts this library's logic reads — the multitoken account itself,
//! the bridge module, and bridged tokens carried over it.

use vstd::prelude::*;

verus! {

/// An internal, runtime-owned ledger account.
#[derive(Clone, Copy, Debug, PartialEq, Eq, Structural)]
pub enum InternalAddress {
    /// The multitoken account, which owns every token's balance,
    /// minted-supply and minter keys.
    Multitoken,
    /// The bridge module, the only address allowed to mint bridged
    /// tokens.
    Ibc,
    /// A token bridged from another chain, identified by the hash of its
    /// denomination.
    IbcToken(u64),
}

/// A ledger account address.
#[derive(Clone, Copy, Debug, PartialEq, Eq, Structural)]
pub enum Address {
    /// An on-chain established account, identified by its hash.
    Established(u64),
    /// An internal, runtime-owned account.
    Internal(InternalAddress),
}

} // verus!
