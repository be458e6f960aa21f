//! The context a native validity predicate runs in: a transaction's
//! payload, the pre- and post-state values of the keys it may read, and
//! the predicate's own gas meter, which every storage read charges in
//! proportion to the bytes read.

use vstd::prelude::*;

use crate::address::{Address, InternalAddress};
use crate::gas;
use crate::gas::{GasMetering, VpGasMeter};
use crate::storage::Key;
use crate::token::Amount;

verus! {

/// An error raised while a native validity predicate ran: distinct from
/// the predicate rejecting the transaction, and always propagated.
#[derive(Clone, Copy, Debug, PartialEq, Eq, Structural)]
pub enum Error {
    /// A storage read exhausted or overflowed the predicate's gas.
    GasError(gas::Error),
    /// A balance-change accumulation overflowed 64 bits.
    ArithmeticOverflow,
}

/// A transaction as a predicate sees it: an opaque data payload.
#[derive(Clone, Debug)]
pub struct Tx {
    /// The transaction's data section, if it carries one.
    pub data: Option<Vec<u8>>,
}

/// The serialized length of a stored token amount, in bytes.
pub const AMOUNT_ENCODED_LEN: u64 = 8;

/// The serialized length of a stored address, in bytes: a tag byte plus
/// the payload where the variant carries one.
pub open spec fn spec_addr_encoded_len(a: Address) -> u64 {
    match a {
        Address::Established(_) => 9u64,
        Address::Internal(InternalAddress::Multitoken) => 1u64,
        Address::Internal(InternalAddress::Ibc) => 1u64,
        Address::Internal(InternalAddress::IbcToken(_)) => 9u64,
    }
}

/// The bytes a read of an optional amount returns.
pub open spec fn spec_amount_read_len(v: Option<Amount>) -> u64 {
    match v {
        Some(_) => AMOUNT_ENCODED_LEN,
        None => 0u64,
    }
}

/// The bytes a read of an optional address returns.
pub open spec fn spec_addr_read_len(v: Option<Address>) -> u64 {
    match v {
        Some(a) => spec_addr_encoded_len(a),
        None => 0u64,
    }
}

/// Token amounts stored under keys, looked up by exact key; a key not
/// present holds nothing.
#[derive(Clone, Debug)]
pub struct AmountStore {
    /// The stored entries; of entries sharing a key, the earliest wins.
    pub entries: Vec<(Key, Amount)>,
}

/// The first value stored for `k` in `s`, if any.
pub open spec fn seq_get_amount(s: Seq<(Key, Amount)>, k: Key) -> Option<Amount>
    decreases s.len(),
{
    if s.len() == 0 {
        None
    } else if s[0].0 == k {
        Some(s[0].1)
    } else {
        seq_get_amount(s.drop_first(), k)
    }
}

impl AmountStore {
    /// The value stored under `k`, if any.
    pub open spec fn spec_get(&self, k: Key) -> Option<Amount> {
        seq_get_amount(self.entries@, k)
    }

    /// An empty store.
    pub fn new() -> (r: Self)
        ensures
            forall|k: Key| r.spec_get(k) is None,
    {
        AmountStore { entries: Vec::new() }
    }

    /// Look the key up.
    pub fn get(&self, k: &Key) -> (r: Option<Amount>)
        ensures
            r == self.spec_get(*k),
    {
        let n = self.entries.len();
        let mut i: usize = 0;
        proof {
            assert(self.entries@.skip(0) =~= self.entries@);
        }
        while i < n
            invariant
                0 <= i <= n,
                n == self.entries@.len(),
                seq_get_amount(self.entries@.skip(i as int), *k) == self.spec_get(*k),
            decreases n - i,
        {
            proof {
                assert(self.entries@.skip(i as int)[0] == self.entries@[i as int]);
                assert(self.entries@.skip(i as int).drop_first() =~= self.entries@.skip(
                    i as int + 1,
                ));
            }
            if self.entries[i].0 == *k {
                return Some(self.entries[i].1);
            }
            i += 1;
        }
        proof {
            assert(self.entries@.skip(n as int) =~= Seq::<(Key, Amount)>::empty());
        }
        None
    }

    /// Store `v` under `k`, replacing what was there.
    pub fn write(&mut self, k: Key, v: Amount)
        ensures
            final(self).spec_get(k) == Some(v),
            forall|k2: Key| k2 != k ==> final(self).spec_get(k2) == old(self).spec_get(k2),
    {
        self.entries.insert(0, (k, v));
        proof {
            assert(self.entries@.drop_first() =~= old(self).entries@);
        }
    }
}

/// Minter addresses recorded per token, looked up by the token's address.
#[derive(Clone, Debug)]
pub struct MinterStore {
    /// The stored entries; of entries sharing a token, the earliest wins.
    pub entries: Vec<(Address, Address)>,
}

/// The first minter stored for token `t` in `s`, if any.
pub open spec fn seq_get_minter(s: Seq<(Address, Address)>, t: Address) -> Option<Address>
    decreases s.len(),
{
    if s.len() == 0 {
        None
    } else if s[0].0 == t {
        Some(s[0].1)
    } else {
        seq_get_minter(s.drop_first(), t)
    }
}

impl MinterStore {
    /// The minter recorded for token `t`, if any.
    pub open spec fn spec_get(&self, t: Address) -> Option<Address> {
        seq_get_minter(self.entries@, t)
    }

    /// An empty store.
    pub fn new() -> (r: Self)
        ensures
            forall|t: Address| r.spec_get(t) is None,
    {
        MinterStore { entries: Vec::new() }
    }

    /// Look the token's minter up.
    pub fn get(&self, t: &Address) -> (r: Option<Address>)
        ensures
            r == self.spec_get(*t),
    {
        let n = self.entries.len();
        let mut i: usize = 0;
        proof {
            assert(self.entries@.skip(0) =~= self.entries@);
        }
        while i < n
            invariant
                0 <= i <= n,
                n == self.entries@.len(),
                seq_get_minter(self.entries@.skip(i as int), *t) == self.spec_get(*t),
            decreases n - i,
        {
            proof {
                assert(self.entries@.skip(i as int)[0] == self.entries@[i as int]);
                assert(self.entries@.skip(i as int).drop_first() =~= self.entries@.skip(
                    i as int + 1,
                ));
            }
            if self.entries[i].0 == *t {
                return Some(self.entries[i].1);
            }
            i += 1;
        }
        proof {
            assert(self.entries@.skip(n as int) =~= Seq::<(Address, Address)>::empty());
        }
        None
    }

    /// Record `minter` for token `t`, replacing what was there.
    pub fn write(&mut self, t: Address, minter: Address)
        ensures
            final(self).spec_get(t) == Some(minter),
            forall|t2: Address| t2 != t ==> final(self).spec_get(t2) == old(self).spec_get(t2),
    {
        self.entries.insert(0, (t, minter));
        proof {
            assert(self.entries@.drop_first() =~= old(self).entries@);
        }
    }
}

/// What a native predicate can see of the host while it validates one
/// transaction: committed pre-state, staged post-state, the post-state
/// minter assignments, the governance module's verdict on this
/// transaction's payload, and the predicate's own gas meter.
#[derive(Clone, Debug)]
pub struct Ctx {
    /// Committed amounts, before the transaction.
    pub pre: AmountStore,
    /// Staged amounts, after the transaction's writes.
    pub post: AmountStore,
    /// Minter assignments in the staged post-state.
    pub post_minters: MinterStore,
    /// Whether governance accepts this transaction's payload as an
    /// accepted proposal.
    pub proposal_accepted: bool,
    /// The predicate's gas meter; every read charges it.
    pub gas_meter: VpGasMeter,
}

impl Ctx {
    /// Read an amount from the committed pre-state, charging storage
    /// access gas for the bytes read.
    pub fn read_pre(&mut self, key: &Key) -> (r: Result<Option<Amount>, Error>)
        ensures
            final(self).pre == old(self).pre,
            final(self).post == old(self).post,
            final(self).post_minters == old(self).post_minters,
            final(self).proposal_accepted == old(self).proposal_accepted,
            ({
                let v = old(self).pre.spec_get(*key);
                let (m, cr) = old(self).gas_meter.consume_model(spec_amount_read_len(v));
                &&& final(self).gas_meter == m
                &&& match cr {
                    Ok(_) => r == Ok::<Option<Amount>, Error>(v),
                    Err(e) => r == Err::<Option<Amount>, Error>(Error::GasError(e)),
                }
            }),
    {
        let v = self.pre.get(key);
        let charge = match v {
            Some(_) => AMOUNT_ENCODED_LEN,
            None => 0,
        };
        match self.gas_meter.consume(charge) {
            Ok(_) => Ok(v),
            Err(e) => Err(Error::GasError(e)),
        }
    }

    /// Read an amount from the staged post-state, charging storage access
    /// gas for the bytes read.
    pub fn read_post(&mut self, key: &Key) -> (r: Result<Option<Amount>, Error>)
        ensures
            final(self).pre == old(self).pre,
            final(self).post == old(self).post,
            final(self).post_minters == old(self).post_minters,
            final(self).proposal_accepted == old(self).proposal_accepted,
            ({
                let v = old(self).post.spec_get(*key);
                let (m, cr) = old(self).gas_meter.consume_model(spec_amount_read_len(v));
                &&& final(self).gas_meter == m
                &&& match cr {
                    Ok(_) => r == Ok::<Option<Amount>, Error>(v),
                    Err(e) => r == Err::<Option<Amount>, Error>(Error::GasError(e)),
                }
            }),
    {
        let v = self.post.get(key);
        let charge = match v {
            Some(_) => AMOUNT_ENCODED_LEN,
            None => 0,
        };
        match self.gas_meter.consume(charge) {
            Ok(_) => Ok(v),
            Err(e) => Err(Error::GasError(e)),
        }
    }

    /// Read a token's minter from the staged post-state, charging storage
    /// access gas for the bytes read.
    pub fn read_post_minter(&mut self, token: &Address) -> (r: Result<Option<Address>, Error>)
        ensures
            final(self).pre == old(self).pre,
            final(self).post == old(self).post,
            final(self).post_minters == old(self).post_minters,
            final(self).proposal_accepted == old(self).proposal_accepted,
            ({
                let v = old(self).post_minters.spec_get(*token);
                let (m, cr) = old(self).gas_meter.consume_model(spec_addr_read_len(v));
                &&& final(self).gas_meter == m
                &&& match cr {
                    Ok(_) => r == Ok::<Option<Address>, Error>(v),
                    Err(e) => r == Err::<Option<Address>, Error>(Error::GasError(e)),
                }
            }),
    {
        let v = self.post_minters.get(token);
        let charge = match v {
            Some(a) => match a {
                Address::Established(_) => 9,
                Address::Internal(InternalAddress::Multitoken) => 1,
                Address::Internal(InternalAddress::Ibc) => 1,
                Address::Internal(InternalAddress::IbcToken(_)) => 9,
            },
            None => 0,
        };
        match self.gas_meter.consume(charge) {
            Ok(_) => Ok(v),
            Err(e) => Err(Error::GasError(e)),
        }
    }
}

} // verus!
