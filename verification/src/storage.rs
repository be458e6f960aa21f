//! Storage key paths, modeled by what the multitoken predicate reads out
//! of them: the token (and account) a key belongs to and which kind of
//! record it addresses.

use vstd::prelude::*;

use crate::address::Address;

verus! {

/// A storage key path touched by a transaction, as the multitoken
/// predicate classifies it.
#[derive(Clone, Copy, Debug, PartialEq, Eq, Structural)]
pub enum Key {
    /// The balance of `owner` in token `token`.
    Balance { token: Address, owner: Address },
    /// The recorded total minted supply of `token`.
    MintedBalance { token: Address },
    /// The minter assigned to `token`.
    Minter { token: Address },
    /// A parameter of `token`, changeable only through governance.
    TokenParameter { token: Address },
    /// Any other key under the multitoken account's own namespace.
    InternalOther(u64),
    /// A key outside the multitoken account's namespace.
    Foreign(u64),
}

/// The balance key of `owner` for `token`.
pub fn balance_key(token: &Address, owner: &Address) -> (r: Key)
    ensures
        r == (Key::Balance { token: *token, owner: *owner }),
{
    Key::Balance { token: *token, owner: *owner }
}

/// The minted-supply key of `token`.
pub fn minted_balance_key(token: &Address) -> (r: Key)
    ensures
        r == (Key::MintedBalance { token: *token }),
{
    Key::MintedBalance { token: *token }
}

/// The minter key of `token`.
pub fn minter_key(token: &Address) -> (r: Key)
    ensures
        r == (Key::Minter { token: *token }),
{
    Key::Minter { token: *token }
}

} // verus!
