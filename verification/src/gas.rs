//! Gas accounting for transactions and for the validity predicates they
//! trigger: both meter kinds share the `GasMetering` capability, charge
//! with overflow-checked arithmetic, and keep billing even when a charge
//! pushes the running total over the limit, so that fees reflect the gas
//! actually burned.

use vstd::prelude::*;

verus! {

use vstd::multiset::Multiset;

/// The ways a gas operation can fail.
#[derive(Clone, Copy, Debug, PartialEq, Eq, Structural)]
pub enum Error {
    /// The running total crossed the transaction gas limit.
    TransactionGasExceededError,
    /// The running total crossed the block gas limit.
    BlockGasExceeded,
    /// A gas addition or multiplication overflowed 64 bits.
    GasOverflow,
    /// A byte length could not be represented as a gas amount.
    ConversionError,
}

/// Gas charged per byte of transaction occupying block space.
pub const TX_SIZE_GAS_PER_BYTE: u64 = 10;
/// Gas charged per byte of wasm code compiled.
pub const COMPILE_GAS_PER_BYTE: u64 = 1;
/// Divisor applied to the non-critical-path share of parallel predicate gas.
pub const PARALLEL_GAS_DIVIDER: u64 = 10;
/// The cost of accessing the storage, per byte.
pub const STORAGE_ACCESS_GAS_PER_BYTE: u64 = 1;
/// The cost of writing to storage, per byte.
pub const STORAGE_WRITE_GAS_PER_BYTE: u64 = 100;
/// The cost of verifying the signature of a transaction.
pub const VERIFY_TX_SIG_GAS_COST: u64 = 10;
/// The cost of validating wasm vp code, per byte.
pub const WASM_VALIDATION_GAS_PER_BYTE: u64 = 1;
/// The cost of accessing the wasm memory, per byte.
pub const VM_MEMORY_ACCESS_GAS_PER_BYTE: u64 = 1;

/// Shared gas operations for transactions and validity predicates.
///
/// `spec_used` is the total that counts against the limit (for a
/// predicate meter this includes the transaction baseline), `spec_tx_gas`
/// is the transaction-level share alone, and `consume_model` is the exact
/// mathematical description of what one `consume` call does.
pub trait GasMetering: Sized {
    /// The gas limit this meter enforces.
    spec fn spec_limit(&self) -> u64;

    /// The transaction-level gas this meter carries (for a predicate
    /// meter, the baseline snapshotted at its creation).
    spec fn spec_tx_gas(&self) -> u64;

    /// The total gas counted against the limit.
    spec fn spec_used(&self) -> int;

    /// The meter state and outcome produced by charging `gas`.
    spec fn consume_model(&self, gas: u64) -> (Self, Result<(), Error>);

    /// What every meter's `consume_model` guarantees: the limit and the
    /// transaction baseline never change; absent 64-bit overflow the
    /// total grows by exactly the charge and the call succeeds if and
    /// only if the new total is within the limit; on overflow the call
    /// fails with `GasOverflow`.
    proof fn lemma_consume_model(&self, gas: u64)
        ensures
            ({
                let (m, r) = self.consume_model(gas);
                &&& m.spec_limit() == self.spec_limit()
                &&& (self.spec_used() + gas <= u64::MAX ==> {
                    &&& m.spec_used() == self.spec_used() + gas
                    &&& (r is Ok <==> self.spec_used() + gas <= self.spec_limit())
                    &&& (r is Err ==> r == Err::<(), Error>(Error::TransactionGasExceededError))
                })
                &&& (self.spec_used() + gas > u64::MAX ==> {
                    &&& r == Err::<(), Error>(Error::GasOverflow)
                    &&& (m == *self || m.spec_used() == self.spec_used() + gas)
                })
                &&& (self.spec_used() >= 0 ==> m.spec_used() >= 0)
            }),
    ;

    /// Add a gas cost. It returns an error when the consumed gas exceeds
    /// the transaction gas limit, but the state is still updated; only a
    /// 64-bit overflow leaves the addition unapplied.
    fn consume(&mut self, gas: u64) -> (r: Result<(), Error>)
        ensures
            ({
                let (m, rr) = old(self).consume_model(gas);
                *final(self) == m && r == rr
            }),
    ;

    /// Get the gas consumed by the transaction alone.
    fn get_tx_gas(&self) -> (r: u64)
        ensures
            r == self.spec_tx_gas(),
    ;

    /// Get the gas limit.
    fn get_gas_limit(&self) -> (r: u64)
        ensures
            r == self.spec_limit(),
    ;

    /// Add the compiling cost proportionate to the code length.
    fn add_compiling_gas(&mut self, bytes_len: u64) -> (r: Result<(), Error>)
        ensures
            bytes_len * COMPILE_GAS_PER_BYTE > u64::MAX ==> {
                &&& *final(self) == *old(self)
                &&& r == Err::<(), Error>(Error::GasOverflow)
            },
            bytes_len * COMPILE_GAS_PER_BYTE <= u64::MAX ==> ({
                let (m, rr) = old(self).consume_model((bytes_len * COMPILE_GAS_PER_BYTE) as u64);
                *final(self) == m && r == rr
            }),
    {
        match bytes_len.checked_mul(COMPILE_GAS_PER_BYTE) {
            Some(gas) => self.consume(gas),
            None => Err(Error::GasOverflow),
        }
    }

    /// Add the gas for loading the wasm code from storage.
    fn add_wasm_load_from_storage_gas(&mut self, bytes_len: u64) -> (r: Result<(), Error>)
        ensures
            bytes_len * STORAGE_ACCESS_GAS_PER_BYTE > u64::MAX ==> {
                &&& *final(self) == *old(self)
                &&& r == Err::<(), Error>(Error::GasOverflow)
            },
            bytes_len * STORAGE_ACCESS_GAS_PER_BYTE <= u64::MAX ==> ({
                let (m, rr) = old(self).consume_model(
                    (bytes_len * STORAGE_ACCESS_GAS_PER_BYTE) as u64,
                );
                *final(self) == m && r == rr
            }),
    {
        match bytes_len.checked_mul(STORAGE_ACCESS_GAS_PER_BYTE) {
            Some(gas) => self.consume(gas),
            None => Err(Error::GasOverflow),
        }
    }
}

/// Gas metering in a transaction.
#[derive(Clone, Copy, Debug, PartialEq, Eq, Structural)]
pub struct TxGasMeter {
    /// The gas limit for a transaction.
    pub tx_gas_limit: u64,
    /// The gas consumed so far by the transaction.
    pub transaction_gas: u64,
}

impl GasMetering for TxGasMeter {
    open spec fn spec_limit(&self) -> u64 {
        self.tx_gas_limit
    }

    open spec fn spec_tx_gas(&self) -> u64 {
        self.transaction_gas
    }

    open spec fn spec_used(&self) -> int {
        self.transaction_gas as int
    }

    open spec fn consume_model(&self, gas: u64) -> (Self, Result<(), Error>) {
        if self.transaction_gas + gas > u64::MAX {
            (*self, Err(Error::GasOverflow))
        } else {
            let m = TxGasMeter {
                tx_gas_limit: self.tx_gas_limit,
                transaction_gas: (self.transaction_gas + gas) as u64,
            };
            if m.transaction_gas > self.tx_gas_limit {
                (m, Err(Error::TransactionGasExceededError))
            } else {
                (m, Ok(()))
            }
        }
    }

    proof fn lemma_consume_model(&self, gas: u64) {
    }

    fn consume(&mut self, gas: u64) -> (r: Result<(), Error>) {
        self.transaction_gas = match self.transaction_gas.checked_add(gas) {
            Some(g) => g,
            None => {
                return Err(Error::GasOverflow);
            },
        };
        if self.transaction_gas > self.tx_gas_limit {
            return Err(Error::TransactionGasExceededError);
        }
        Ok(())
    }

    fn get_tx_gas(&self) -> u64 {
        self.transaction_gas
    }

    fn get_gas_limit(&self) -> u64 {
        self.tx_gas_limit
    }
}

impl TxGasMeter {
    /// Initialize a new transaction gas meter with the gas limit for the
    /// specific transaction.
    pub fn new(tx_gas_limit: u64) -> (r: Self)
        ensures
            r.tx_gas_limit == tx_gas_limit,
            r.transaction_gas == 0,
    {
        Self { tx_gas_limit, transaction_gas: 0 }
    }

    /// Add the gas for the space that the transaction requires in the
    /// block, at `TX_SIZE_GAS_PER_BYTE` per byte.
    pub fn add_tx_size_gas(&mut self, tx_bytes: &[u8]) -> (r: Result<(), Error>)
        ensures
            tx_bytes@.len() * TX_SIZE_GAS_PER_BYTE > u64::MAX ==> {
                &&& *final(self) == *old(self)
                &&& r == Err::<(), Error>(Error::GasOverflow)
            },
            tx_bytes@.len() * TX_SIZE_GAS_PER_BYTE <= u64::MAX ==> ({
                let (m, rr) = old(self).consume_model(
                    (tx_bytes@.len() * TX_SIZE_GAS_PER_BYTE) as u64,
                );
                *final(self) == m && r == rr
            }),
    {
        let bytes_len: u64 = tx_bytes.len() as u64;
        match bytes_len.checked_mul(TX_SIZE_GAS_PER_BYTE) {
            Some(gas) => self.consume(gas),
            None => Err(Error::GasOverflow),
        }
    }

    /// Add the gas billed for the validity predicates of the current
    /// transaction, as computed by the aggregator.
    pub fn add_vps_gas(&mut self, vps_gas: &VpsGas) -> (r: Result<(), Error>)
        ensures
            seq_sum(vps_gas.rest@) > u64::MAX || vps_gas.spec_billed() > u64::MAX ==> {
                &&& *final(self) == *old(self)
                &&& r == Err::<(), Error>(Error::GasOverflow)
            },
            seq_sum(vps_gas.rest@) <= u64::MAX && vps_gas.spec_billed() <= u64::MAX ==> ({
                let (m, rr) = old(self).consume_model(vps_gas.spec_billed() as u64);
                *final(self) == m && r == rr
            }),
    {
        proof {
            lemma_seq_sum_nonneg(vps_gas.rest@);
        }
        match vps_gas.get_current_gas() {
            Ok(gas) => self.consume(gas),
            Err(e) => Err(e),
        }
    }

    /// Get the total gas used in the current transaction.
    pub fn get_current_transaction_gas(&self) -> (r: u64)
        ensures
            r == self.transaction_gas,
    {
        self.transaction_gas
    }
}

/// Gas metering in a validity predicate.
#[derive(Clone, Copy, Debug, PartialEq, Eq, Structural)]
pub struct VpGasMeter {
    /// The transaction gas limit.
    pub tx_gas_limit: u64,
    /// The gas used in the transaction before the predicate ran.
    pub initial_gas: u64,
    /// The current gas usage in the predicate.
    pub current_gas: u64,
}

impl GasMetering for VpGasMeter {
    open spec fn spec_limit(&self) -> u64 {
        self.tx_gas_limit
    }

    open spec fn spec_tx_gas(&self) -> u64 {
        self.initial_gas
    }

    open spec fn spec_used(&self) -> int {
        self.initial_gas + self.current_gas
    }

    open spec fn consume_model(&self, gas: u64) -> (Self, Result<(), Error>) {
        if self.current_gas + gas > u64::MAX {
            (*self, Err(Error::GasOverflow))
        } else {
            let m = VpGasMeter {
                tx_gas_limit: self.tx_gas_limit,
                initial_gas: self.initial_gas,
                current_gas: (self.current_gas + gas) as u64,
            };
            if self.initial_gas + m.current_gas > u64::MAX {
                (m, Err(Error::GasOverflow))
            } else if self.initial_gas + m.current_gas > self.tx_gas_limit {
                (m, Err(Error::TransactionGasExceededError))
            } else {
                (m, Ok(()))
            }
        }
    }

    proof fn lemma_consume_model(&self, gas: u64) {
    }

    fn consume(&mut self, gas: u64) -> (r: Result<(), Error>) {
        self.current_gas = match self.current_gas.checked_add(gas) {
            Some(g) => g,
            None => {
                return Err(Error::GasOverflow);
            },
        };
        let current_total = match self.initial_gas.checked_add(self.current_gas) {
            Some(g) => g,
            None => {
                return Err(Error::GasOverflow);
            },
        };
        if current_total > self.tx_gas_limit {
            return Err(Error::TransactionGasExceededError);
        }
        Ok(())
    }

    fn get_tx_gas(&self) -> u64 {
        self.initial_gas
    }

    fn get_gas_limit(&self) -> u64 {
        self.tx_gas_limit
    }
}

impl VpGasMeter {
    /// Initialize a new predicate gas meter from the transaction meter,
    /// snapshotting the gas already consumed as the baseline.
    pub fn new_from_tx_meter(tx_gas_meter: &TxGasMeter) -> (r: Self)
        ensures
            r.tx_gas_limit == tx_gas_meter.tx_gas_limit,
            r.initial_gas == tx_gas_meter.transaction_gas,
            r.current_gas == 0,
    {
        Self {
            tx_gas_limit: tx_gas_meter.tx_gas_limit,
            initial_gas: tx_gas_meter.transaction_gas,
            current_gas: 0,
        }
    }
}

/// The sum of a sequence of gas amounts, as an unbounded integer.
pub open spec fn seq_sum(s: Seq<u64>) -> int
    decreases s.len(),
{
    if s.len() == 0 {
        0
    } else {
        seq_sum(s.drop_last()) + s.last()
    }
}

/// The largest element of a sequence of gas amounts (zero when empty).
pub open spec fn seq_max(s: Seq<u64>) -> u64
    decreases s.len(),
{
    if s.len() == 0 {
        0u64
    } else if s.last() > seq_max(s.drop_last()) {
        s.last()
    } else {
        seq_max(s.drop_last())
    }
}

/// A sequence sum is never negative.
pub proof fn lemma_seq_sum_nonneg(s: Seq<u64>)
    ensures
        seq_sum(s) >= 0,
    decreases s.len(),
{
    if s.len() > 0 {
        lemma_seq_sum_nonneg(s.drop_last());
    }
}

/// Extending a prefix by one element adds that element to the prefix sum.
pub proof fn lemma_seq_sum_take_step(s: Seq<u64>, i: int)
    requires
        0 <= i < s.len(),
    ensures
        seq_sum(s.take(i + 1)) == seq_sum(s.take(i)) + s[i],
{
    assert(s.take(i + 1).drop_last() =~= s.take(i));
    assert(s.take(i + 1).last() == s[i]);
}

/// A prefix sum never exceeds the sum of the whole sequence.
pub proof fn lemma_seq_sum_take_bound(s: Seq<u64>, i: int)
    requires
        0 <= i <= s.len(),
    ensures
        seq_sum(s.take(i)) <= seq_sum(s),
    decreases s.len() - i,
{
    if i == s.len() {
        assert(s.take(i) =~= s);
    } else {
        lemma_seq_sum_take_step(s, i);
        lemma_seq_sum_take_bound(s, i + 1);
    }
}

/// Removing one element lowers the sum by exactly that element.
pub proof fn lemma_seq_sum_remove(s: Seq<u64>, i: int)
    requires
        0 <= i < s.len(),
    ensures
        seq_sum(s) == s[i] + seq_sum(s.remove(i)),
    decreases s.len(),
{
    if i == s.len() - 1 {
        assert(s.remove(i) =~= s.drop_last());
    } else {
        assert(s.remove(i).drop_last() =~= s.drop_last().remove(i));
        assert(s.remove(i).last() == s.last());
        lemma_seq_sum_remove(s.drop_last(), i);
    }
}

/// Two sequences holding the same values with the same multiplicities
/// have the same sum: summing is order-independent.
pub proof fn lemma_seq_sum_multiset(s1: Seq<u64>, s2: Seq<u64>)
    requires
        s1.to_multiset() == s2.to_multiset(),
    ensures
        seq_sum(s1) == seq_sum(s2),
    decreases s1.len(),
{
    broadcast use vstd::seq_lib::group_to_multiset_ensures;
    broadcast use vstd::multiset::group_multiset_axioms;

    if s1.len() == 0 {
        assert(s1.to_multiset().len() == 0);
        assert(s2.to_multiset().len() == s2.len());
        assert(s2.len() == 0);
    } else {
        let x = s1.last();
        let i1 = s1.len() - 1;
        assert(s1.remove(i1) =~= s1.drop_last());
        assert(s1.contains(x));
        assert(s2.to_multiset().count(x) > 0);
        assert(s2.contains(x));
        let i2 = choose|i: int| 0 <= i < s2.len() && s2[i] == x;
        lemma_seq_sum_remove(s2, i2);
        assert(s1.remove(i1).to_multiset() == s2.remove(i2).to_multiset());
        lemma_seq_sum_multiset(s1.drop_last(), s2.remove(i2));
    }
}

/// The largest element of a non-empty sequence occurs in it and bounds
/// every element.
pub proof fn lemma_seq_max_props(s: Seq<u64>)
    requires
        s.len() > 0,
    ensures
        s.contains(seq_max(s)),
        forall|i: int| 0 <= i < s.len() ==> s[i] <= seq_max(s),
    decreases s.len(),
{
    if s.len() == 1 {
        assert(seq_max(s.drop_last()) == 0);
        assert(s[0] == seq_max(s));
        assert(s.contains(seq_max(s)));
    } else {
        lemma_seq_max_props(s.drop_last());
        assert forall|i: int| 0 <= i < s.len() implies s[i] <= seq_max(s) by {
            if i < s.len() - 1 {
                assert(s.drop_last()[i] == s[i]);
            }
        }
        if s.last() > seq_max(s.drop_last()) {
            assert(s[s.len() - 1] == seq_max(s));
            assert(s.contains(seq_max(s)));
        } else {
            let j = choose|j: int|
                0 <= j < s.drop_last().len() && s.drop_last()[j] == seq_max(s.drop_last());
            assert(s[j] == seq_max(s));
            assert(s.contains(seq_max(s)));
        }
    }
}

/// Gas accounting for the validity predicates of one transaction, which
/// may have run in parallel: the largest single usage is kept apart as
/// the critical path and billed in full, every other usage goes into
/// `rest` and is billed at a tenth.
#[derive(Clone, Debug)]
pub struct VpsGas {
    /// The largest single predicate usage seen so far.
    pub max: Option<u64>,
    /// Every other predicate usage seen so far.
    pub rest: Vec<u64>,
}

impl Default for VpsGas {
    /// An empty aggregator: no predicate usage recorded yet.
    fn default() -> (r: Self)
        ensures
            r.max is None,
            r.rest@.len() == 0,
    {
        VpsGas { max: None, rest: Vec::new() }
    }
}

impl VpsGas {
    /// The multiset of all predicate usages this aggregator has recorded.
    pub open spec fn usages(&self) -> Multiset<u64> {
        match self.max {
            Some(m) => self.rest@.to_multiset().insert(m),
            None => self.rest@.to_multiset(),
        }
    }

    /// Well-formed aggregator state: `max` is absent only while nothing
    /// was recorded, and it bounds every usage kept in `rest`.
    pub open spec fn wf(&self) -> bool {
        match self.max {
            None => self.rest@.len() == 0,
            Some(m) => forall|i: int| 0 <= i < self.rest@.len() ==> self.rest@[i] <= m,
        }
    }

    /// The critical-path usage, or zero when nothing was recorded.
    pub open spec fn spec_max_or_zero(&self) -> u64 {
        match self.max {
            Some(m) => m,
            None => 0u64,
        }
    }

    /// The total billed for the recorded usages: the critical path in
    /// full, plus a tenth (rounded down) of everything else.
    pub open spec fn spec_billed(&self) -> int {
        self.spec_max_or_zero() + seq_sum(self.rest@) / (PARALLEL_GAS_DIVIDER as int)
    }

    /// The outcome of validating this aggregator's bill against a meter's
    /// baseline and limit.
    pub open spec fn check_limit_model<G: GasMetering>(&self, g: &G) -> Result<(), Error> {
        if seq_sum(self.rest@) > u64::MAX || self.spec_billed() > u64::MAX || g.spec_tx_gas()
            + self.spec_billed() > u64::MAX {
            Err(Error::GasOverflow)
        } else if g.spec_tx_gas() + self.spec_billed() > g.spec_limit() {
            Err(Error::TransactionGasExceededError)
        } else {
            Ok(())
        }
    }

    /// Set the gas cost from a single predicate run, which must be the
    /// first recorded in this aggregator, then re-validate against the
    /// limit.
    pub fn set(&mut self, vp_gas_meter: VpGasMeter) -> (r: Result<(), Error>)
        requires
            old(self).max is None,
            old(self).rest@.len() == 0,
        ensures
            final(self).max == Some(vp_gas_meter.current_gas),
            final(self).rest@ == old(self).rest@,
            final(self).wf(),
            final(self).usages() == Multiset::empty().insert(vp_gas_meter.current_gas),
            r == final(self).check_limit_model(&vp_gas_meter),
    {
        self.max = Some(vp_gas_meter.current_gas);
        proof {
            broadcast use vstd::seq_lib::group_to_multiset_ensures;
            broadcast use vstd::multiset::group_multiset_axioms;

            assert(self.rest@.to_multiset() =~= Multiset::empty());
        }
        self.check_limit(&vp_gas_meter)
    }

    /// Merge the gas of two aggregators from parallel predicate runs: the
    /// larger critical path wins, the smaller is demoted to `rest`, and
    /// the combined bill is re-validated against the transaction meter.
    /// The recorded usages of the result are exactly the two inputs'
    /// usages taken together.
    pub fn merge(&mut self, other: &mut VpsGas, tx_gas_meter: &TxGasMeter) -> (r: Result<
        (),
        Error,
    >)
        requires
            old(self).wf(),
            old(other).wf(),
        ensures
            final(self).wf(),
            final(self).usages() == old(self).usages().add(old(other).usages()),
            final(other).rest@.len() == 0,
            r == final(self).check_limit_model(tx_gas_meter),
    {
        let ghost self0 = *self;
        let ghost other0 = *other;
        match (self.max, other.max) {
            (None, Some(_)) => {
                self.max = other.max;
            },
            (Some(this_max), Some(other_max)) => {
                if this_max < other_max {
                    self.rest.push(this_max);
                    self.max = other.max;
                } else {
                    self.rest.push(other_max);
                }
            },
            _ => {},
        }
        self.rest.append(&mut other.rest);
        proof {
            broadcast use vstd::seq_lib::group_to_multiset_ensures;
            broadcast use vstd::multiset::group_multiset_axioms;

            vstd::seq_lib::lemma_multiset_commutative(self0.rest@, other0.rest@);
            vstd::seq_lib::lemma_multiset_commutative(self0.rest@.push(self0.spec_max_or_zero()), other0.rest@);
            vstd::seq_lib::lemma_multiset_commutative(self0.rest@.push(other0.spec_max_or_zero()), other0.rest@);
            match (self0.max, other0.max) {
                (None, Some(om)) => {
                    assert(self0.rest@ =~= Seq::<u64>::empty());
                    assert(self.rest@ =~= other0.rest@);
                    assert(self.usages() =~= self0.usages().add(other0.usages()));
                },
                (Some(tm), Some(om)) => {
                    if tm < om {
                        assert(self.rest@ =~= self0.rest@.push(tm) + other0.rest@);
                        assert(self.usages() =~= self0.usages().add(other0.usages()));
                    } else {
                        assert(self.rest@ =~= self0.rest@.push(om) + other0.rest@);
                        assert(self.usages() =~= self0.usages().add(other0.usages()));
                    }
                },
                (None, None) => {
                    assert(other0.rest@ =~= Seq::<u64>::empty());
                    assert(self.rest@ =~= self0.rest@);
                    assert(self.usages() =~= self0.usages().add(other0.usages()));
                },
                (Some(tm), None) => {
                    assert(other0.rest@ =~= Seq::<u64>::empty());
                    assert(self.rest@ =~= self0.rest@);
                    assert(self.usages() =~= self0.usages().add(other0.usages()));
                },
            }
        }
        self.check_limit(tx_gas_meter)
    }

    /// Validate the billed total against a meter's baseline and limit,
    /// without changing any state.
    pub fn check_limit<G: GasMetering>(&self, gas_meter: &G) -> (r: Result<(), Error>)
        ensures
            r == self.check_limit_model(gas_meter),
    {
        proof {
            lemma_seq_sum_nonneg(self.rest@);
        }
        let current = match self.get_current_gas() {
            Ok(g) => g,
            Err(e) => {
                return Err(e);
            },
        };
        let total = match gas_meter.get_tx_gas().checked_add(current) {
            Some(t) => t,
            None => {
                return Err(Error::GasOverflow);
            },
        };
        if total > gas_meter.get_gas_limit() {
            return Err(Error::TransactionGasExceededError);
        }
        Ok(())
    }

    /// Get the gas billed for the parallelized predicate runs: the
    /// critical path plus a tenth of the rest.
    pub fn get_current_gas(&self) -> (r: Result<u64, Error>)
        ensures
            seq_sum(self.rest@) <= u64::MAX && self.spec_billed() <= u64::MAX ==> r == Ok::<
                u64,
                Error,
            >(self.spec_billed() as u64),
            seq_sum(self.rest@) > u64::MAX || self.spec_billed() > u64::MAX ==> r == Err::<
                u64,
                Error,
            >(Error::GasOverflow),
    {
        let mut parallel: u64 = 0;
        let mut i: usize = 0;
        let n = self.rest.len();
        while i < n
            invariant
                0 <= i <= n,
                n == self.rest@.len(),
                parallel == seq_sum(self.rest@.take(i as int)),
            decreases n - i,
        {
            proof {
                lemma_seq_sum_take_step(self.rest@, i as int);
            }
            parallel = match parallel.checked_add(self.rest[i]) {
                Some(p) => p,
                None => {
                    proof {
                        lemma_seq_sum_take_bound(self.rest@, i + 1);
                    }
                    return Err(Error::GasOverflow);
                },
            };
            i += 1;
        }
        proof {
            assert(self.rest@.take(n as int) =~= self.rest@);
        }
        let parallel_gas = parallel / PARALLEL_GAS_DIVIDER;
        let max_gas = match self.max {
            Some(m) => m,
            None => 0,
        };
        match max_gas.checked_add(parallel_gas) {
            Some(total) => Ok(total),
            None => Err(Error::GasOverflow),
        }
    }
}

/// The billed total of an aggregator depends only on the multiset of
/// usages it recorded, never on the order in which `set` and `merge`
/// built it up: two well-formed aggregators holding the same usages bill
/// the same total.
pub proof fn lemma_billed_order_independent(a: &VpsGas, b: &VpsGas)
    requires
        a.wf(),
        b.wf(),
        a.usages() == b.usages(),
    ensures
        a.spec_billed() == b.spec_billed(),
{
    broadcast use vstd::seq_lib::group_to_multiset_ensures;
    broadcast use vstd::multiset::group_multiset_axioms;

    match (a.max, b.max) {
        (None, None) => {
        },
        (Some(m1), Some(m2)) => {
            assert(a.usages().count(m1) > 0);
            assert(b.usages().count(m2) > 0);
            if m1 != m2 {
                assert(b.rest@.to_multiset().count(m1) > 0);
                assert(b.rest@.contains(m1));
                let i = choose|i: int| 0 <= i < b.rest@.len() && b.rest@[i] == m1;
                assert(m1 <= m2);
                assert(a.rest@.to_multiset().count(m2) > 0);
                assert(a.rest@.contains(m2));
                let j = choose|j: int| 0 <= j < a.rest@.len() && a.rest@[j] == m2;
                assert(m2 <= m1);
            }
            assert forall|v: u64|
                a.rest@.to_multiset().count(v) == b.rest@.to_multiset().count(v) by {
                assert(a.usages().count(v) == b.usages().count(v));
                assert(a.usages().count(v) == a.rest@.to_multiset().count(v)
                    + Multiset::singleton(m1).count(v));
                assert(b.usages().count(v) == b.rest@.to_multiset().count(v)
                    + Multiset::singleton(m2).count(v));
            }
            assert(a.rest@.to_multiset() =~= b.rest@.to_multiset());
            lemma_seq_sum_multiset(a.rest@, b.rest@);
        },
        (None, Some(m2)) => {
            assert(a.usages().len() == a.rest@.len());
            assert(b.usages().len() == b.rest@.len() + 1);
        },
        (Some(m1), None) => {
            assert(a.usages().len() == a.rest@.len() + 1);
            assert(b.usages().len() == b.rest@.len());
        },
    }
}

/// The closed form of the aggregator's bill: however the usages were
/// folded in, a well-formed aggregator whose recorded usages are listed
/// by a sequence `s` bills the largest usage in full plus a tenth of the
/// sum of all the others.
pub proof fn lemma_billed_formula(v: &VpsGas, s: Seq<u64>)
    requires
        v.wf(),
        s.to_multiset() == v.usages(),
        s.len() > 0,
    ensures
        v.spec_billed() == seq_max(s) + (seq_sum(s) - seq_max(s)) / (PARALLEL_GAS_DIVIDER as int),
{
    broadcast use vstd::seq_lib::group_to_multiset_ensures;
    broadcast use vstd::multiset::group_multiset_axioms;

    assert(s.to_multiset().len() == s.len());
    match v.max {
        None => {
            assert(v.usages().len() == 0);
            assert(false);
        },
        Some(m) => {
            lemma_seq_max_props(s);
            assert(seq_max(s) == m) by {
                assert(s.to_multiset().count(seq_max(s)) > 0);
                if seq_max(s) != m {
                    assert(v.rest@.to_multiset().count(seq_max(s)) > 0);
                    assert(v.rest@.contains(seq_max(s)));
                    let i = choose|i: int|
                        0 <= i < v.rest@.len() && v.rest@[i] == seq_max(s);
                    assert(seq_max(s) <= m);
                }
                assert(v.usages().count(m) > 0);
                assert(s.contains(m));
                let j = choose|j: int| 0 <= j < s.len() && s[j] == m;
                assert(m <= seq_max(s));
            }
            assert(s.to_multiset() =~= v.rest@.push(m).to_multiset());
            lemma_seq_sum_multiset(s, v.rest@.push(m));
            assert(v.rest@.push(m).drop_last() =~= v.rest@);
            assert(seq_sum(s) == seq_sum(v.rest@) + m);
        },
    }
}

/// Charging one amount and then another leaves a meter with the same
/// total as charging their sum at once, and all three charges succeed,
/// provided the combined total fits in 64 bits and stays within the
/// limit.
pub proof fn lemma_consume_additive<G: GasMetering>(m: G, g1: u64, g2: u64)
    requires
        m.spec_used() >= 0,
        m.spec_used() + g1 + g2 <= u64::MAX,
        m.spec_used() + g1 + g2 <= m.spec_limit(),
    ensures
        ({
            let (ma, r1) = m.consume_model(g1);
            let (mb, r2) = ma.consume_model(g2);
            let (mc, r3) = m.consume_model((g1 + g2) as u64);
            &&& r1 is Ok
            &&& r2 is Ok
            &&& r3 is Ok
            &&& mb.spec_used() == mc.spec_used()
            &&& mb.spec_limit() == mc.spec_limit()
        }),
{
    let (ma, r1) = m.consume_model(g1);
    m.lemma_consume_model(g1);
    ma.lemma_consume_model(g2);
    m.lemma_consume_model((g1 + g2) as u64);
}

} // verus!
