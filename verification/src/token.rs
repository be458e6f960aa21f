//! Token amounts: unsigned quantities with overflow-checked arithmetic,
//! in the smallest denomination of the token.

use vstd::prelude::*;

verus! {

/// How many units of the smallest denomination make one whole unit of
/// the native token.
pub const NATIVE_SCALE: u64 = 1_000_000;

/// An amount of a token, in its smallest denomination.
#[derive(Clone, Copy, Debug, PartialEq, Eq, Structural)]
pub struct Amount(pub u64);

impl Amount {
    /// The zero amount.
    pub fn zero() -> (r: Amount)
        ensures
            r.0 == 0,
    {
        Amount(0)
    }

    /// Checked addition: `None` exactly when the sum does not fit in 64
    /// bits.
    pub fn checked_add(&self, other: Amount) -> (r: Option<Amount>)
        ensures
            self.0 + other.0 <= u64::MAX ==> r == Some(Amount((self.0 + other.0) as u64)),
            self.0 + other.0 > u64::MAX ==> r is None,
    {
        match self.0.checked_add(other.0) {
            Some(v) => Some(Amount(v)),
            None => None,
        }
    }

    /// Checked subtraction: `None` exactly when the subtrahend is larger.
    pub fn checked_sub(&self, other: Amount) -> (r: Option<Amount>)
        ensures
            self.0 >= other.0 ==> r == Some(Amount((self.0 - other.0) as u64)),
            self.0 < other.0 ==> r is None,
    {
        match self.0.checked_sub(other.0) {
            Some(v) => Some(Amount(v)),
            None => None,
        }
    }

    /// An amount of whole native tokens, scaled to the smallest
    /// denomination.
    pub fn native_whole(amount: u64) -> (r: Amount)
        requires
            amount * NATIVE_SCALE <= u64::MAX,
        ensures
            r.0 == amount * NATIVE_SCALE,
    {
        Amount(amount * NATIVE_SCALE)
    }
}

impl From<u64> for Amount {
    /// An amount directly from a count of smallest-denomination units.
    fn from(raw: u64) -> (r: Amount) {
        Amount(raw)
    }
}

impl vstd::std_specs::convert::FromSpecImpl<u64> for Amount {
    open spec fn obeys_from_spec() -> bool {
        true
    }

    open spec fn from_spec(raw: u64) -> Amount {
        Amount(raw)
    }
}

} // verus!
