//! The gas-related face of a wrapper transaction: the fee quote, and the
//! gas limit that is granted only in whole multiples of a fixed
//! resolution, with its rounding and refund rules.

use vstd::prelude::*;

use crate::address::Address;
use crate::token::Amount;

verus! {

/// Errors relating to a wrapper transaction and its payload.
#[derive(Debug)]
pub enum WrapperTxErr {
    /// The hash of the decrypted payload does not match the commitment.
    DecryptedHash,
    /// The decryption did not produce a valid transaction.
    InvalidTx,
    /// The given transaction data did not contain a valid wrapper.
    InvalidWrapperTx,
    /// A signing key differs from the public key in the wrapper.
    InvalidKeyPair,
    /// The provided unshielding transaction is invalid.
    InvalidUnshield(String),
    /// The transaction fee amount overflowed.
    OverflowingFee,
}

/// A fee is an amount of a specified token, per unit of gas.
#[derive(Clone, Copy, Debug, PartialEq, Eq, Structural)]
pub struct Fee {
    /// Amount of fee per gas unit.
    pub amount_per_gas_unit: Amount,
    /// Address of the token the fee is paid in.
    pub token: Address,
}

/// Gas limits must be multiples of `GAS_LIMIT_RESOLUTION`. This is done
/// to minimize the amount of information leaked by a wrapper transaction
/// about its real usage: the larger the resolution, the less is leaked.
pub const GAS_LIMIT_RESOLUTION: u64 = 1_000_000;

/// A granted gas limit. Only the multiple of `GAS_LIMIT_RESOLUTION` is
/// stored, not the raw amount.
#[derive(Clone, Copy, Debug, PartialEq, Eq, Structural)]
pub struct GasLimit {
    /// How many whole resolution units the limit grants.
    pub multiplier: u64,
}

/// The multiplier granted for a raw requested amount: the amount divided
/// by the resolution, rounded up to the next whole multiple.
pub open spec fn spec_round_up_multiplier(amount: u64) -> u64 {
    if amount % GAS_LIMIT_RESOLUTION == 0 {
        (amount / GAS_LIMIT_RESOLUTION) as u64
    } else {
        (amount / GAS_LIMIT_RESOLUTION + 1) as u64
    }
}

impl GasLimit {
    /// The refund owed for `used_gas` under this limit: one whole
    /// resolution unit at most, the unused remainder otherwise, and
    /// nothing when the limit was underestimated.
    pub open spec fn spec_refund_amount(&self, used_gas: u64) -> int {
        if used_gas < self.multiplier * GAS_LIMIT_RESOLUTION - GAS_LIMIT_RESOLUTION {
            GAS_LIMIT_RESOLUTION as int
        } else if used_gas >= self.multiplier * GAS_LIMIT_RESOLUTION {
            0
        } else {
            self.multiplier * GAS_LIMIT_RESOLUTION - used_gas
        }
    }

    /// The raw gas amount this limit grants.
    pub fn raw_amount(&self) -> (r: u64)
        requires
            self.multiplier * GAS_LIMIT_RESOLUTION <= u64::MAX,
        ensures
            r == self.multiplier * GAS_LIMIT_RESOLUTION,
    {
        self.multiplier * GAS_LIMIT_RESOLUTION
    }

    /// We refund unused gas, up to one whole `GAS_LIMIT_RESOLUTION`.
    pub fn refund_amount(&self, used_gas: u64) -> (r: Amount)
        requires
            1 <= self.multiplier,
            self.multiplier * GAS_LIMIT_RESOLUTION <= u64::MAX,
        ensures
            r.0 == self.spec_refund_amount(used_gas),
    {
        let raw = self.raw_amount();
        let refund: u64 = if used_gas < raw - GAS_LIMIT_RESOLUTION {
            // we refund only up to GAS_LIMIT_RESOLUTION
            GAS_LIMIT_RESOLUTION
        } else if used_gas >= raw {
            // the gas limit was underestimated, no refund
            0
        } else {
            raw - used_gas
        };
        Amount(refund)
    }
}

/// Round the input number up to the next highest multiple of
/// `GAS_LIMIT_RESOLUTION`.
impl From<u64> for GasLimit {
    fn from(amount: u64) -> (r: GasLimit) {
        proof {
            vstd::arithmetic::div_mod::lemma_fundamental_div_mod(
                amount as int,
                GAS_LIMIT_RESOLUTION as int,
            );
            vstd::arithmetic::div_mod::lemma_mod_bound(amount as int, GAS_LIMIT_RESOLUTION as int);
        }
        if GAS_LIMIT_RESOLUTION * (amount / GAS_LIMIT_RESOLUTION) < amount {
            GasLimit { multiplier: (amount / GAS_LIMIT_RESOLUTION) + 1 }
        } else {
            GasLimit { multiplier: (amount / GAS_LIMIT_RESOLUTION) }
        }
    }
}

impl vstd::std_specs::convert::FromSpecImpl<u64> for GasLimit {
    open spec fn obeys_from_spec() -> bool {
        true
    }

    open spec fn from_spec(amount: u64) -> GasLimit {
        GasLimit { multiplier: spec_round_up_multiplier(amount) }
    }
}

/// The granted raw limit covers the requested amount, exceeds it by less
/// than one resolution unit, and equals it exactly when the request was
/// already a whole multiple of the resolution.
pub proof fn lemma_round_up_to_resolution(amount: u64)
    ensures
        spec_round_up_multiplier(amount) * GAS_LIMIT_RESOLUTION >= amount,
        spec_round_up_multiplier(amount) * GAS_LIMIT_RESOLUTION < amount + GAS_LIMIT_RESOLUTION,
        amount % GAS_LIMIT_RESOLUTION == 0 ==> spec_round_up_multiplier(amount)
            * GAS_LIMIT_RESOLUTION == amount,
{
    vstd::arithmetic::div_mod::lemma_fundamental_div_mod(
        amount as int,
        GAS_LIMIT_RESOLUTION as int,
    );
    vstd::arithmetic::div_mod::lemma_mod_bound(amount as int, GAS_LIMIT_RESOLUTION as int);
    assert((amount / GAS_LIMIT_RESOLUTION + 1) * GAS_LIMIT_RESOLUTION == (amount
        / GAS_LIMIT_RESOLUTION) * GAS_LIMIT_RESOLUTION + GAS_LIMIT_RESOLUTION) by (nonlinear_arith);
}

/// The refund never exceeds one resolution unit, and is zero whenever the
/// actual usage meets or exceeds the granted limit.
pub proof fn lemma_refund_bounded(limit: GasLimit, used_gas: u64)
    requires
        1 <= limit.multiplier,
        limit.multiplier * GAS_LIMIT_RESOLUTION <= u64::MAX,
    ensures
        0 <= limit.spec_refund_amount(used_gas) <= GAS_LIMIT_RESOLUTION,
        used_gas >= limit.multiplier * GAS_LIMIT_RESOLUTION ==> limit.spec_refund_amount(used_gas)
            == 0,
{
    assert(limit.multiplier * GAS_LIMIT_RESOLUTION >= GAS_LIMIT_RESOLUTION) by (nonlinear_arith)
        requires
            1 <= limit.multiplier,
    ;
}

impl Fee {
    /// The fee owed by a wrapper granted `gas_limit`: the raw limit times
    /// the fee per gas unit, or an error when that overflows.
    pub fn get_tx_fee(&self, gas_limit: &GasLimit) -> (r: Result<Amount, WrapperTxErr>)
        requires
            gas_limit.multiplier * GAS_LIMIT_RESOLUTION <= u64::MAX,
        ensures
            ({
                let fee = gas_limit.multiplier * GAS_LIMIT_RESOLUTION
                    * self.amount_per_gas_unit.0;
                &&& (fee <= u64::MAX ==> r == Ok::<Amount, WrapperTxErr>(Amount(fee as u64)))
                &&& (fee > u64::MAX ==> r == Err::<Amount, WrapperTxErr>(
                    WrapperTxErr::OverflowingFee,
                ))
            }),
    {
        let raw = gas_limit.raw_amount();
        match raw.checked_mul(self.amount_per_gas_unit.0) {
            Some(fee) => Ok(Amount(fee)),
            None => Err(WrapperTxErr::OverflowingFee),
        }
    }
}

} // verus!
