//! The multitoken conservation predicate: one pass over the changed keys
//! accumulates, per token, the balance increases and decreases and the
//! minted-supply increases and decreases; minted-supply and minter keys
//! additionally demand a valid minter; and the transaction is accepted
//! only if, for every token independently, the net balance change equals
//! the net minted-supply change.

use vstd::prelude::*;

use crate::address::{Address, InternalAddress};
use crate::gas::{GasMetering, VpGasMeter};
use crate::native_vp;
use crate::native_vp::{AmountStore, Ctx, MinterStore, Tx};
use crate::storage::Key;
use crate::token::Amount;

verus! {

/// Multitoken predicate errors.
#[derive(Clone, Copy, Debug, PartialEq, Eq, Structural)]
pub enum Error {
    /// An error of the predicate context: gas exhaustion or arithmetic
    /// overflow, always propagated rather than treated as a rejection.
    NativeVpError(native_vp::Error),
}

/// A per-token running total, zero for a token never touched.
pub open spec fn get0(m: Map<Address, int>, t: Address) -> int {
    if m.dom().contains(t) {
        m[t]
    } else {
        0
    }
}

/// The amount a read returned, with absence reading as zero.
pub open spec fn amount_or_zero(v: Option<Amount>) -> u64 {
    match v {
        Some(a) => a.0,
        None => 0u64,
    }
}

/// The state of the key scan after some prefix of the changed keys: the
/// predicate's gas meter, the four per-token running totals, and the
/// early result, if one of the keys already settled the scan.
pub struct ScanState {
    /// The predicate's gas meter.
    pub meter: VpGasMeter,
    /// Per-token balance increases.
    pub inc_changes: Map<Address, int>,
    /// Per-token balance decreases.
    pub dec_changes: Map<Address, int>,
    /// Per-token minted-supply increases.
    pub inc_mints: Map<Address, int>,
    /// Per-token minted-supply decreases.
    pub dec_mints: Map<Address, int>,
    /// The scan's result, once a key settled it early.
    pub outcome: Option<Result<bool, Error>>,
}

/// The scan state before any key was processed.
pub open spec fn init_scan(meter: VpGasMeter) -> ScanState {
    ScanState {
        meter,
        inc_changes: Map::empty(),
        dec_changes: Map::empty(),
        inc_mints: Map::empty(),
        dec_mints: Map::empty(),
        outcome: None,
    }
}

/// What processing one balance-like key does: read the pre and post
/// amounts (each charging gas), then add the delta to the increase or
/// decrease total of its token, failing on gas exhaustion or on a total
/// outgrowing 64 bits.
pub open spec fn delta_model(
    pre: AmountStore,
    post: AmountStore,
    meter: VpGasMeter,
    key: Key,
    token: Address,
    inc: Map<Address, int>,
    dec: Map<Address, int>,
) -> (VpGasMeter, Map<Address, int>, Map<Address, int>, Option<Result<bool, Error>>) {
    let pre_v = pre.spec_get(key);
    let (m1, r1) = meter.consume_model(native_vp::spec_amount_read_len(pre_v));
    match r1 {
        Err(e) => (m1, inc, dec, Some(Err(Error::NativeVpError(native_vp::Error::GasError(e))))),
        Ok(_) => {
            let post_v = post.spec_get(key);
            let (m2, r2) = m1.consume_model(native_vp::spec_amount_read_len(post_v));
            match r2 {
                Err(e) => (
                    m2,
                    inc,
                    dec,
                    Some(Err(Error::NativeVpError(native_vp::Error::GasError(e)))),
                ),
                Ok(_) => {
                    let a_pre = amount_or_zero(pre_v);
                    let a_post = amount_or_zero(post_v);
                    if a_post >= a_pre {
                        let n = get0(inc, token) + (a_post - a_pre);
                        if n > u64::MAX {
                            (
                                m2,
                                inc,
                                dec,
                                Some(
                                    Err(Error::NativeVpError(native_vp::Error::ArithmeticOverflow)),
                                ),
                            )
                        } else {
                            (m2, inc.insert(token, n), dec, None)
                        }
                    } else {
                        let n = get0(dec, token) + (a_pre - a_post);
                        if n > u64::MAX {
                            (
                                m2,
                                inc,
                                dec,
                                Some(
                                    Err(Error::NativeVpError(native_vp::Error::ArithmeticOverflow)),
                                ),
                            )
                        } else {
                            (m2, inc, dec.insert(token, n), None)
                        }
                    }
                },
            }
        },
    }
}

/// What the minter check does: only a bridged token may have a minter at
/// all; its recorded post-state minter (read at a gas charge) must be the
/// bridge module's address, and that address must be among the verifiers.
pub open spec fn minter_model(
    minters: MinterStore,
    meter: VpGasMeter,
    token: Address,
    verifiers: Seq<Address>,
) -> (VpGasMeter, Result<bool, Error>) {
    match token {
        Address::Internal(InternalAddress::IbcToken(_)) => {
            let found = minters.spec_get(token);
            let (m1, r1) = meter.consume_model(native_vp::spec_addr_read_len(found));
            match r1 {
                Err(e) => (m1, Err(Error::NativeVpError(native_vp::Error::GasError(e)))),
                Ok(_) => match found {
                    Some(minter) => if minter == Address::Internal(InternalAddress::Ibc) {
                        (m1, Ok(verifiers.contains(minter)))
                    } else {
                        (m1, Ok(false))
                    },
                    None => (m1, Ok(false)),
                },
            }
        },
        _ => (meter, Ok(false)),
    }
}

/// What the token-parameter branch decides: a transaction without a data
/// payload is rejected; otherwise governance's verdict on the payload is
/// the result.
pub open spec fn param_model(proposal_accepted: bool, tx: Tx) -> Result<bool, Error> {
    match tx.data {
        Some(_) => Ok(proposal_accepted),
        None => Ok(false),
    }
}

/// Processing one changed key: nothing once the scan has settled;
/// otherwise by the key's kind, in one pass.
pub open spec fn scan_step(
    pre: AmountStore,
    post: AmountStore,
    minters: MinterStore,
    accepted: bool,
    tx: Tx,
    verifiers: Seq<Address>,
    st: ScanState,
    key: Key,
) -> ScanState {
    if st.outcome is Some {
        st
    } else {
        match key {
            Key::Balance { token, owner: _ } => {
                let (m, inc, dec, out) = delta_model(
                    pre,
                    post,
                    st.meter,
                    key,
                    token,
                    st.inc_changes,
                    st.dec_changes,
                );
                ScanState { meter: m, inc_changes: inc, dec_changes: dec, outcome: out, ..st }
            },
            Key::MintedBalance { token } => {
                let (m, inc, dec, out) = delta_model(
                    pre,
                    post,
                    st.meter,
                    key,
                    token,
                    st.inc_mints,
                    st.dec_mints,
                );
                if out is Some {
                    ScanState { meter: m, inc_mints: inc, dec_mints: dec, outcome: out, ..st }
                } else {
                    let (m2, mr) = minter_model(minters, m, token, verifiers);
                    let out2 = match mr {
                        Ok(true) => None,
                        Ok(false) => Some(Ok(false)),
                        Err(e) => Some(Err(e)),
                    };
                    ScanState { meter: m2, inc_mints: inc, dec_mints: dec, outcome: out2, ..st }
                }
            },
            Key::Minter { token } => {
                let (m2, mr) = minter_model(minters, st.meter, token, verifiers);
                let out2 = match mr {
                    Ok(true) => None,
                    Ok(false) => Some(Ok(false)),
                    Err(e) => Some(Err(e)),
                };
                ScanState { meter: m2, outcome: out2, ..st }
            },
            Key::TokenParameter { token: _ } => ScanState {
                outcome: Some(param_model(accepted, tx)),
                ..st
            },
            Key::InternalOther(_) => ScanState { outcome: Some(Ok(false)), ..st },
            Key::Foreign(_) => st,
        }
    }
}

/// The scan state after processing a sequence of changed keys in order.
pub open spec fn scan(
    pre: AmountStore,
    post: AmountStore,
    minters: MinterStore,
    accepted: bool,
    tx: Tx,
    verifiers: Seq<Address>,
    meter0: VpGasMeter,
    keys: Seq<Key>,
) -> ScanState
    decreases keys.len(),
{
    if keys.len() == 0 {
        init_scan(meter0)
    } else {
        scan_step(
            pre,
            post,
            minters,
            accepted,
            tx,
            verifiers,
            scan(pre, post, minters, accepted, tx, verifiers, meter0, keys.drop_last()),
            keys.last(),
        )
    }
}

/// The conservation law over one token's accumulated totals: the net
/// balance change equals the net minted-supply change.
pub open spec fn spec_token_balanced(ic: int, dc: int, im: int, dm: int) -> bool {
    ic - dc == im - dm
}

/// The conservation law over every token: tokens appear from minting and
/// vanish by burning, never from nowhere.
pub open spec fn conservation(st: ScanState) -> bool {
    forall|t: Address|
        spec_token_balanced(
            #[trigger] get0(st.inc_changes, t),
            get0(st.dec_changes, t),
            get0(st.inc_mints, t),
            get0(st.dec_mints, t),
        )
}

/// The result and final meter of validating a transaction: the scan's
/// early result if a key settled it, else the conservation verdict over
/// the accumulated totals.
pub open spec fn spec_validate_tx(ctx: Ctx, tx: Tx, keys: Seq<Key>, verifiers: Seq<Address>) -> (
    Result<bool, Error>,
    VpGasMeter,
) {
    let st = scan(
        ctx.pre,
        ctx.post,
        ctx.post_minters,
        ctx.proposal_accepted,
        tx,
        verifiers,
        ctx.gas_meter,
        keys,
    );
    (
        match st.outcome {
            Some(r) => r,
            None => Ok(conservation(st)),
        },
        st.meter,
    )
}

/// Extending the scanned prefix by one key steps the scan state once.
proof fn lemma_scan_snoc(
    pre: AmountStore,
    post: AmountStore,
    minters: MinterStore,
    accepted: bool,
    tx: Tx,
    verifiers: Seq<Address>,
    meter0: VpGasMeter,
    keys: Seq<Key>,
    i: int,
)
    requires
        0 <= i < keys.len(),
    ensures
        scan(pre, post, minters, accepted, tx, verifiers, meter0, keys.take(i + 1)) == scan_step(
            pre,
            post,
            minters,
            accepted,
            tx,
            verifiers,
            scan(pre, post, minters, accepted, tx, verifiers, meter0, keys.take(i)),
            keys[i],
        ),
{
    assert(keys.take(i + 1).drop_last() =~= keys.take(i));
    assert(keys.take(i + 1).last() == keys[i]);
}

/// Once a prefix of the scan has settled on a result, the keys after it
/// change nothing.
proof fn lemma_scan_stable(
    pre: AmountStore,
    post: AmountStore,
    minters: MinterStore,
    accepted: bool,
    tx: Tx,
    verifiers: Seq<Address>,
    meter0: VpGasMeter,
    keys: Seq<Key>,
    i: int,
)
    requires
        0 <= i <= keys.len(),
        scan(pre, post, minters, accepted, tx, verifiers, meter0, keys.take(i)).outcome is Some,
    ensures
        scan(pre, post, minters, accepted, tx, verifiers, meter0, keys) == scan(
            pre,
            post,
            minters,
            accepted,
            tx,
            verifiers,
            meter0,
            keys.take(i),
        ),
    decreases keys.len() - i,
{
    if i == keys.len() {
        assert(keys.take(i) =~= keys);
    } else {
        lemma_scan_snoc(pre, post, minters, accepted, tx, verifiers, meter0, keys, i);
        lemma_scan_stable(pre, post, minters, accepted, tx, verifiers, meter0, keys, i + 1);
    }
}

/// Per-token running totals during the scan, as the executable code keeps
/// them: an association list from token to accumulated amount.
pub struct ChangeMap {
    /// The accumulated entries; of entries sharing a token, the earliest
    /// wins.
    pub entries: Vec<(Address, Amount)>,
}

/// The first total recorded for token `t` in `s`, zero when absent.
pub open spec fn seq_get0(s: Seq<(Address, Amount)>, t: Address) -> u64
    decreases s.len(),
{
    if s.len() == 0 {
        0u64
    } else if s[0].0 == t {
        s[0].1.0
    } else {
        seq_get0(s.drop_first(), t)
    }
}

/// Whether any entry of `s` is for token `t`.
pub open spec fn seq_has_token(s: Seq<(Address, Amount)>, t: Address) -> bool {
    exists|j: int| 0 <= j < s.len() && s[j].0 == t
}

/// A token with no entry has a zero total.
proof fn lemma_absent_token_zero(s: Seq<(Address, Amount)>, t: Address)
    requires
        !seq_has_token(s, t),
    ensures
        seq_get0(s, t) == 0,
    decreases s.len(),
{
    if s.len() > 0 {
        assert(s[0].0 != t);
        assert(!seq_has_token(s.drop_first(), t)) by {
            if seq_has_token(s.drop_first(), t) {
                let j = choose|j: int| 0 <= j < s.drop_first().len() && s.drop_first()[j].0 == t;
                assert(s[j + 1].0 == t);
            }
        }
        lemma_absent_token_zero(s.drop_first(), t);
    }
}

impl ChangeMap {
    /// The total recorded for token `t`, zero when absent.
    pub open spec fn spec_get0(&self, t: Address) -> u64 {
        seq_get0(self.entries@, t)
    }

    /// An empty map: every total zero.
    pub fn new() -> (r: Self)
        ensures
            forall|t: Address| r.spec_get0(t) == 0,
            r.entries@.len() == 0,
    {
        ChangeMap { entries: Vec::new() }
    }

    /// The current total for token `t`.
    pub fn get_or_zero(&self, t: &Address) -> (r: u64)
        ensures
            r == self.spec_get0(*t),
    {
        let n = self.entries.len();
        let mut i: usize = 0;
        proof {
            assert(self.entries@.skip(0) =~= self.entries@);
        }
        while i < n
            invariant
                0 <= i <= n,
                n == self.entries@.len(),
                seq_get0(self.entries@.skip(i as int), *t) == self.spec_get0(*t),
            decreases n - i,
        {
            proof {
                assert(self.entries@.skip(i as int)[0] == self.entries@[i as int]);
                assert(self.entries@.skip(i as int).drop_first() =~= self.entries@.skip(
                    i as int + 1,
                ));
            }
            if self.entries[i].0 == *t {
                return self.entries[i].1.0;
            }
            i += 1;
        }
        proof {
            assert(self.entries@.skip(n as int) =~= Seq::<(Address, Amount)>::empty());
        }
        0
    }

    /// Add `d` to token `t`'s total; reports whether the new total still
    /// fits in 64 bits, leaving the map unchanged when it does not.
    pub fn accumulate(&mut self, t: &Address, d: u64) -> (r: bool)
        ensures
            r == (old(self).spec_get0(*t) + d <= u64::MAX),
            r ==> {
                &&& final(self).spec_get0(*t) == old(self).spec_get0(*t) + d
                &&& forall|t2: Address|
                    t2 != *t ==> final(self).spec_get0(t2) == old(self).spec_get0(t2)
                &&& forall|t2: Address|
                    #[trigger] seq_has_token(final(self).entries@, t2) == (seq_has_token(
                        old(self).entries@,
                        t2,
                    ) || t2 == *t)
            },
            !r ==> *final(self) == *old(self),
    {
        let cur = self.get_or_zero(t);
        match cur.checked_add(d) {
            Some(n) => {
                self.entries.insert(0, (*t, Amount(n)));
                proof {
                    assert(self.entries@.drop_first() =~= old(self).entries@);
                    assert forall|t2: Address| #[trigger]
                        seq_has_token(self.entries@, t2) == (seq_has_token(
                            old(self).entries@,
                            t2,
                        ) || t2 == *t) by {
                        if seq_has_token(old(self).entries@, t2) {
                            let j = choose|j: int|
                                0 <= j < old(self).entries@.len() && old(self).entries@[j].0 == t2;
                            assert(self.entries@[j + 1].0 == t2);
                        }
                        if t2 == *t {
                            assert(self.entries@[0].0 == t2);
                        }
                        if seq_has_token(self.entries@, t2) && t2 != *t {
                            let j = choose|j: int|
                                0 <= j < self.entries@.len() && self.entries@[j].0 == t2;
                            assert(j != 0);
                            assert(old(self).entries@[j - 1].0 == t2);
                        }
                    }
                }
                true
            },
            None => false,
        }
    }
}

/// The conservation check for one token, from its four accumulated
/// totals, kept in the unsigned clamped-subtraction form: equal clamped
/// differences when both sides lean the same way, rejection when they
/// lean opposite ways.
pub fn token_balanced(ic: u64, dc: u64, im: u64, dm: u64) -> (r: bool)
    ensures
        r == spec_token_balanced(ic as int, dc as int, im as int, dm as int),
{
    if ic >= dc && im >= dm {
        ic - dc == im - dm
    } else if (ic < dc && im >= dm) || (ic >= dc && im < dm) {
        false
    } else {
        dc - ic == dm - im
    }
}

/// Multitoken native validity predicate.
pub struct MultitokenVp {
    /// Context to interact with the host structures.
    pub ctx: Ctx,
}

impl MultitokenVp {
    /// Whether `token` may legitimately have its minted supply or minter
    /// touched: only a bridged token, whose recorded minter is the bridge
    /// module and stands among the verifiers. Charges gas for the minter
    /// read.
    pub fn is_valid_minter(&mut self, token: &Address, verifiers: &Vec<Address>) -> (r: Result<
        bool,
        Error,
    >)
        ensures
            final(self).ctx.pre == old(self).ctx.pre,
            final(self).ctx.post == old(self).ctx.post,
            final(self).ctx.post_minters == old(self).ctx.post_minters,
            final(self).ctx.proposal_accepted == old(self).ctx.proposal_accepted,
            ({
                let (m, rr) = minter_model(
                    old(self).ctx.post_minters,
                    old(self).ctx.gas_meter,
                    *token,
                    verifiers@,
                );
                final(self).ctx.gas_meter == m && r == rr
            }),
    {
        match token {
            Address::Internal(InternalAddress::IbcToken(_)) => {
                match self.ctx.read_post_minter(token) {
                    Err(e) => Err(Error::NativeVpError(e)),
                    Ok(Some(minter)) => {
                        if minter == Address::Internal(InternalAddress::Ibc) {
                            Ok(contains_address(verifiers, &minter))
                        } else {
                            Ok(false)
                        }
                    },
                    Ok(None) => Ok(false),
                }
            },
            _ => Ok(false),
        }
    }

    /// Validate a transaction's state change: scan the changed keys once,
    /// accumulating per-token balance and minted-supply deltas and
    /// rejecting early on an invalid minter, an unrecognized internal
    /// key, or a parameter change without an accepted proposal; then
    /// accept only if every token's net balance change equals its net
    /// minted-supply change. Reads charge the predicate's gas meter, and
    /// gas exhaustion aborts with an error rather than a rejection.
    #[verifier::loop_isolation(false)]
    #[verifier::rlimit(100)]
    pub fn validate_tx(
        &mut self,
        tx_data: &Tx,
        keys_changed: &Vec<Key>,
        verifiers: &Vec<Address>,
    ) -> (r: Result<bool, Error>)
        ensures
            final(self).ctx.pre == old(self).ctx.pre,
            final(self).ctx.post == old(self).ctx.post,
            final(self).ctx.post_minters == old(self).ctx.post_minters,
            final(self).ctx.proposal_accepted == old(self).ctx.proposal_accepted,
            ({
                let (rr, m) = spec_validate_tx(old(self).ctx, *tx_data, keys_changed@, verifiers@);
                r == rr && final(self).ctx.gas_meter == m
            }),
    {
        let ghost pre0 = self.ctx.pre;
        let ghost post0 = self.ctx.post;
        let ghost minters0 = self.ctx.post_minters;
        let ghost acc0 = self.ctx.proposal_accepted;
        let ghost meter0 = self.ctx.gas_meter;
        let ghost txg = *tx_data;
        let ghost vs = verifiers@;
        let ghost ks = keys_changed@;

        let mut inc_changes = ChangeMap::new();
        let mut dec_changes = ChangeMap::new();
        let mut inc_mints = ChangeMap::new();
        let mut dec_mints = ChangeMap::new();

        let n = keys_changed.len();
        let mut i: usize = 0;
        proof {
            assert(ks.take(0) =~= Seq::<Key>::empty());
        }
        while i < n
            invariant
                0 <= i <= n,
                n == ks.len(),
                ks == keys_changed@,
                vs == verifiers@,
                txg == *tx_data,
                self.ctx.pre == pre0,
                self.ctx.post == post0,
                self.ctx.post_minters == minters0,
                self.ctx.proposal_accepted == acc0,
                ({
                    let st = scan(pre0, post0, minters0, acc0, txg, vs, meter0, ks.take(i as int));
                    &&& st.outcome is None
                    &&& self.ctx.gas_meter == st.meter
                    &&& forall|t: Address| #[trigger] inc_changes.spec_get0(t) == get0(
                        st.inc_changes,
                        t,
                    )
                    &&& forall|t: Address| #[trigger] dec_changes.spec_get0(t) == get0(
                        st.dec_changes,
                        t,
                    )
                    &&& forall|t: Address| #[trigger] inc_mints.spec_get0(t) == get0(
                        st.inc_mints,
                        t,
                    )
                    &&& forall|t: Address| #[trigger] dec_mints.spec_get0(t) == get0(
                        st.dec_mints,
                        t,
                    )
                }),
            decreases n - i,
        {
            let ghost st_pre = scan(pre0, post0, minters0, acc0, txg, vs, meter0, ks.take(i as int));
            proof {
                lemma_scan_snoc(pre0, post0, minters0, acc0, txg, vs, meter0, ks, i as int);
            }
            let key = keys_changed[i];
            match key {
                Key::Balance { token, owner: _ } => {
                    let pre_v = match self.ctx.read_pre(&key) {
                        Ok(v) => v,
                        Err(e) => {
                            proof {
                                lemma_scan_stable(
                                    pre0,
                                    post0,
                                    minters0,
                                    acc0,
                                    txg,
                                    vs,
                                    meter0,
                                    ks,
                                    i as int + 1,
                                );
                            }
                            return Err(Error::NativeVpError(e));
                        },
                    };
                    let post_v = match self.ctx.read_post(&key) {
                        Ok(v) => v,
                        Err(e) => {
                            proof {
                                lemma_scan_stable(
                                    pre0,
                                    post0,
                                    minters0,
                                    acc0,
                                    txg,
                                    vs,
                                    meter0,
                                    ks,
                                    i as int + 1,
                                );
                            }
                            return Err(Error::NativeVpError(e));
                        },
                    };
                    let a_pre = match pre_v {
                        Some(a) => a,
                        None => Amount(0),
                    };
                    let a_post = match post_v {
                        Some(a) => a,
                        None => Amount(0),
                    };
                    match a_post.checked_sub(a_pre) {
                        Some(diff) => {
                            if !inc_changes.accumulate(&token, diff.0) {
                                proof {
                                    lemma_scan_stable(
                                        pre0,
                                        post0,
                                        minters0,
                                        acc0,
                                        txg,
                                        vs,
                                        meter0,
                                        ks,
                                        i as int + 1,
                                    );
                                }
                                return Err(
                                    Error::NativeVpError(native_vp::Error::ArithmeticOverflow),
                                );
                            }
                        },
                        None => {
                            let diff = a_pre.0 - a_post.0;
                            if !dec_changes.accumulate(&token, diff) {
                                proof {
                                    lemma_scan_stable(
                                        pre0,
                                        post0,
                                        minters0,
                                        acc0,
                                        txg,
                                        vs,
                                        meter0,
                                        ks,
                                        i as int + 1,
                                    );
                                }
                                return Err(
                                    Error::NativeVpError(native_vp::Error::ArithmeticOverflow),
                                );
                            }
                        },
                    }
                },
                Key::MintedBalance { token } => {
                    let pre_v = match self.ctx.read_pre(&key) {
                        Ok(v) => v,
                        Err(e) => {
                            proof {
                                lemma_scan_stable(
                                    pre0,
                                    post0,
                                    minters0,
                                    acc0,
                                    txg,
                                    vs,
                                    meter0,
                                    ks,
                                    i as int + 1,
                                );
                            }
                            return Err(Error::NativeVpError(e));
                        },
                    };
                    let post_v = match self.ctx.read_post(&key) {
                        Ok(v) => v,
                        Err(e) => {
                            proof {
                                lemma_scan_stable(
                                    pre0,
                                    post0,
                                    minters0,
                                    acc0,
                                    txg,
                                    vs,
                                    meter0,
                                    ks,
                                    i as int + 1,
                                );
                            }
                            return Err(Error::NativeVpError(e));
                        },
                    };
                    let a_pre = match pre_v {
                        Some(a) => a,
                        None => Amount(0),
                    };
                    let a_post = match post_v {
                        Some(a) => a,
                        None => Amount(0),
                    };
                    match a_post.checked_sub(a_pre) {
                        Some(diff) => {
                            if !inc_mints.accumulate(&token, diff.0) {
                                proof {
                                    lemma_scan_stable(
                                        pre0,
                                        post0,
                                        minters0,
                                        acc0,
                                        txg,
                                        vs,
                                        meter0,
                                        ks,
                                        i as int + 1,
                                    );
                                }
                                return Err(
                                    Error::NativeVpError(native_vp::Error::ArithmeticOverflow),
                                );
                            }
                        },
                        None => {
                            let diff = a_pre.0 - a_post.0;
                            if !dec_mints.accumulate(&token, diff) {
                                proof {
                                    lemma_scan_stable(
                                        pre0,
                                        post0,
                                        minters0,
                                        acc0,
                                        txg,
                                        vs,
                                        meter0,
                                        ks,
                                        i as int + 1,
                                    );
                                }
                                return Err(
                                    Error::NativeVpError(native_vp::Error::ArithmeticOverflow),
                                );
                            }
                        },
                    }
                    // Touching the minted-supply key at all demands a
                    // valid minter.
                    match self.is_valid_minter(&token, verifiers) {
                        Err(e) => {
                            proof {
                                lemma_scan_stable(
                                    pre0,
                                    post0,
                                    minters0,
                                    acc0,
                                    txg,
                                    vs,
                                    meter0,
                                    ks,
                                    i as int + 1,
                                );
                            }
                            return Err(e);
                        },
                        Ok(false) => {
                            proof {
                                lemma_scan_stable(
                                    pre0,
                                    post0,
                                    minters0,
                                    acc0,
                                    txg,
                                    vs,
                                    meter0,
                                    ks,
                                    i as int + 1,
                                );
                            }
                            return Ok(false);
                        },
                        Ok(true) => {},
                    }
                },
                Key::Minter { token } => {
                    match self.is_valid_minter(&token, verifiers) {
                        Err(e) => {
                            proof {
                                lemma_scan_stable(
                                    pre0,
                                    post0,
                                    minters0,
                                    acc0,
                                    txg,
                                    vs,
                                    meter0,
                                    ks,
                                    i as int + 1,
                                );
                            }
                            return Err(e);
                        },
                        Ok(false) => {
                            proof {
                                lemma_scan_stable(
                                    pre0,
                                    post0,
                                    minters0,
                                    acc0,
                                    txg,
                                    vs,
                                    meter0,
                                    ks,
                                    i as int + 1,
                                );
                            }
                            return Ok(false);
                        },
                        Ok(true) => {},
                    }
                },
                Key::TokenParameter { token: _ } => {
                    let res = self.is_valid_parameter(tx_data);
                    proof {
                        lemma_scan_stable(
                            pre0,
                            post0,
                            minters0,
                            acc0,
                            txg,
                            vs,
                            meter0,
                            ks,
                            i as int + 1,
                        );
                    }
                    return res;
                },
                Key::InternalOther(_) => {
                    proof {
                        lemma_scan_stable(
                            pre0,
                            post0,
                            minters0,
                            acc0,
                            txg,
                            vs,
                            meter0,
                            ks,
                            i as int + 1,
                        );
                    }
                    return Ok(false);
                },
                Key::Foreign(_) => {},
            }
            i += 1;
        }
        proof {
            assert(ks.take(n as int) =~= ks);
        }
        let ghost st = scan(pre0, post0, minters0, acc0, txg, vs, meter0, ks);
        let b1 = all_entries_balanced(&inc_changes, &inc_changes, &dec_changes, &inc_mints, &dec_mints);
        let b2 = all_entries_balanced(&dec_changes, &inc_changes, &dec_changes, &inc_mints, &dec_mints);
        let b3 = all_entries_balanced(&inc_mints, &inc_changes, &dec_changes, &inc_mints, &dec_mints);
        let b4 = all_entries_balanced(&dec_mints, &inc_changes, &dec_changes, &inc_mints, &dec_mints);
        let ok = b1 && b2 && b3 && b4;
        proof {
            lemma_conservation_equiv(
                &inc_changes,
                &dec_changes,
                &inc_mints,
                &dec_mints,
                st,
                b1,
                b2,
                b3,
                b4,
            );
        }
        Ok(ok)
    }

    /// Whether the parameter change was done via an accepted governance
    /// proposal carried in the transaction's data.
    pub fn is_valid_parameter(&self, tx: &Tx) -> (r: Result<bool, Error>)
        ensures
            r == param_model(self.ctx.proposal_accepted, *tx),
    {
        match &tx.data {
            Some(_) => Ok(self.ctx.proposal_accepted),
            None => Ok(false),
        }
    }
}

/// Checking every token that appears in one of the four accumulated maps
/// decides the conservation law for every token outright: a token that
/// appears nowhere has four zero totals and is trivially balanced.
proof fn lemma_conservation_equiv(
    inc_changes: &ChangeMap,
    dec_changes: &ChangeMap,
    inc_mints: &ChangeMap,
    dec_mints: &ChangeMap,
    st: ScanState,
    b1: bool,
    b2: bool,
    b3: bool,
    b4: bool,
)
    requires
        forall|t: Address| #[trigger] inc_changes.spec_get0(t) == get0(st.inc_changes, t),
        forall|t: Address| #[trigger] dec_changes.spec_get0(t) == get0(st.dec_changes, t),
        forall|t: Address| #[trigger] inc_mints.spec_get0(t) == get0(st.inc_mints, t),
        forall|t: Address| #[trigger] dec_mints.spec_get0(t) == get0(st.dec_mints, t),
        b1 == (forall|j: int|
            0 <= j < inc_changes.entries@.len() ==> spec_token_balanced(
                inc_changes.spec_get0(#[trigger] inc_changes.entries@[j].0) as int,
                dec_changes.spec_get0(inc_changes.entries@[j].0) as int,
                inc_mints.spec_get0(inc_changes.entries@[j].0) as int,
                dec_mints.spec_get0(inc_changes.entries@[j].0) as int,
            )),
        b2 == (forall|j: int|
            0 <= j < dec_changes.entries@.len() ==> spec_token_balanced(
                inc_changes.spec_get0(#[trigger] dec_changes.entries@[j].0) as int,
                dec_changes.spec_get0(dec_changes.entries@[j].0) as int,
                inc_mints.spec_get0(dec_changes.entries@[j].0) as int,
                dec_mints.spec_get0(dec_changes.entries@[j].0) as int,
            )),
        b3 == (forall|j: int|
            0 <= j < inc_mints.entries@.len() ==> spec_token_balanced(
                inc_changes.spec_get0(#[trigger] inc_mints.entries@[j].0) as int,
                dec_changes.spec_get0(inc_mints.entries@[j].0) as int,
                inc_mints.spec_get0(inc_mints.entries@[j].0) as int,
                dec_mints.spec_get0(inc_mints.entries@[j].0) as int,
            )),
        b4 == (forall|j: int|
            0 <= j < dec_mints.entries@.len() ==> spec_token_balanced(
                inc_changes.spec_get0(#[trigger] dec_mints.entries@[j].0) as int,
                dec_changes.spec_get0(dec_mints.entries@[j].0) as int,
                inc_mints.spec_get0(dec_mints.entries@[j].0) as int,
                dec_mints.spec_get0(dec_mints.entries@[j].0) as int,
            )),
    ensures
        (b1 && b2 && b3 && b4) == conservation(st),
{
    if b1 && b2 && b3 && b4 {
        assert forall|t: Address|
            spec_token_balanced(
                #[trigger] get0(st.inc_changes, t),
                get0(st.dec_changes, t),
                get0(st.inc_mints, t),
                get0(st.dec_mints, t),
            ) by {
            assert(inc_changes.spec_get0(t) == get0(st.inc_changes, t));
            assert(dec_changes.spec_get0(t) == get0(st.dec_changes, t));
            assert(inc_mints.spec_get0(t) == get0(st.inc_mints, t));
            assert(dec_mints.spec_get0(t) == get0(st.dec_mints, t));
            if seq_has_token(inc_changes.entries@, t) {
                let j = choose|j: int|
                    0 <= j < inc_changes.entries@.len() && inc_changes.entries@[j].0 == t;
                assert(inc_changes.entries@[j].0 == t);
            } else if seq_has_token(dec_changes.entries@, t) {
                let j = choose|j: int|
                    0 <= j < dec_changes.entries@.len() && dec_changes.entries@[j].0 == t;
                assert(dec_changes.entries@[j].0 == t);
            } else if seq_has_token(inc_mints.entries@, t) {
                let j = choose|j: int|
                    0 <= j < inc_mints.entries@.len() && inc_mints.entries@[j].0 == t;
                assert(inc_mints.entries@[j].0 == t);
            } else if seq_has_token(dec_mints.entries@, t) {
                let j = choose|j: int|
                    0 <= j < dec_mints.entries@.len() && dec_mints.entries@[j].0 == t;
                assert(dec_mints.entries@[j].0 == t);
            } else {
                lemma_absent_token_zero(inc_changes.entries@, t);
                lemma_absent_token_zero(dec_changes.entries@, t);
                lemma_absent_token_zero(inc_mints.entries@, t);
                lemma_absent_token_zero(dec_mints.entries@, t);
            }
        }
        assert(conservation(st));
    } else {
        if !b1 {
            let j = choose|j: int|
                0 <= j < inc_changes.entries@.len() && !spec_token_balanced(
                    inc_changes.spec_get0(inc_changes.entries@[j].0) as int,
                    dec_changes.spec_get0(inc_changes.entries@[j].0) as int,
                    inc_mints.spec_get0(inc_changes.entries@[j].0) as int,
                    dec_mints.spec_get0(inc_changes.entries@[j].0) as int,
                );
            let t = inc_changes.entries@[j].0;
            assert(!spec_token_balanced(
                get0(st.inc_changes, t),
                get0(st.dec_changes, t),
                get0(st.inc_mints, t),
                get0(st.dec_mints, t),
            ));
        } else if !b2 {
            let j = choose|j: int|
                0 <= j < dec_changes.entries@.len() && !spec_token_balanced(
                    inc_changes.spec_get0(dec_changes.entries@[j].0) as int,
                    dec_changes.spec_get0(dec_changes.entries@[j].0) as int,
                    inc_mints.spec_get0(dec_changes.entries@[j].0) as int,
                    dec_mints.spec_get0(dec_changes.entries@[j].0) as int,
                );
            let t = dec_changes.entries@[j].0;
            assert(!spec_token_balanced(
                get0(st.inc_changes, t),
                get0(st.dec_changes, t),
                get0(st.inc_mints, t),
                get0(st.dec_mints, t),
            ));
        } else if !b3 {
            let j = choose|j: int|
                0 <= j < inc_mints.entries@.len() && !spec_token_balanced(
                    inc_changes.spec_get0(inc_mints.entries@[j].0) as int,
                    dec_changes.spec_get0(inc_mints.entries@[j].0) as int,
                    inc_mints.spec_get0(inc_mints.entries@[j].0) as int,
                    dec_mints.spec_get0(inc_mints.entries@[j].0) as int,
                );
            let t = inc_mints.entries@[j].0;
            assert(!spec_token_balanced(
                get0(st.inc_changes, t),
                get0(st.dec_changes, t),
                get0(st.inc_mints, t),
                get0(st.dec_mints, t),
            ));
        } else {
            let j = choose|j: int|
                0 <= j < dec_mints.entries@.len() && !spec_token_balanced(
                    inc_changes.spec_get0(dec_mints.entries@[j].0) as int,
                    dec_changes.spec_get0(dec_mints.entries@[j].0) as int,
                    inc_mints.spec_get0(dec_mints.entries@[j].0) as int,
                    dec_mints.spec_get0(dec_mints.entries@[j].0) as int,
                );
            let t = dec_mints.entries@[j].0;
            assert(!spec_token_balanced(
                get0(st.inc_changes, t),
                get0(st.dec_changes, t),
                get0(st.inc_mints, t),
                get0(st.dec_mints, t),
            ));
        }
        assert(!conservation(st));
    }
}

/// Whether the conservation law holds for the token of every entry of
/// `list`, with the four totals drawn from the four accumulated maps.
fn all_entries_balanced(
    list: &ChangeMap,
    icm: &ChangeMap,
    dcm: &ChangeMap,
    imm: &ChangeMap,
    dmm: &ChangeMap,
) -> (r: bool)
    ensures
        r == (forall|j: int|
            0 <= j < list.entries@.len() ==> spec_token_balanced(
                icm.spec_get0(#[trigger] list.entries@[j].0) as int,
                dcm.spec_get0(list.entries@[j].0) as int,
                imm.spec_get0(list.entries@[j].0) as int,
                dmm.spec_get0(list.entries@[j].0) as int,
            )),
{
    let n = list.entries.len();
    let mut j: usize = 0;
    while j < n
        invariant
            0 <= j <= n,
            n == list.entries@.len(),
            forall|j2: int|
                0 <= j2 < j ==> spec_token_balanced(
                    icm.spec_get0(#[trigger] list.entries@[j2].0) as int,
                    dcm.spec_get0(list.entries@[j2].0) as int,
                    imm.spec_get0(list.entries@[j2].0) as int,
                    dmm.spec_get0(list.entries@[j2].0) as int,
                ),
        decreases n - j,
    {
        let tok = list.entries[j].0;
        let c = token_balanced(
            icm.get_or_zero(&tok),
            dcm.get_or_zero(&tok),
            imm.get_or_zero(&tok),
            dmm.get_or_zero(&tok),
        );
        if !c {
            return false;
        }
        j += 1;
    }
    true
}

/// Whether `addrs` holds `a`.
fn contains_address(addrs: &Vec<Address>, a: &Address) -> (r: bool)
    ensures
        r == addrs@.contains(*a),
{
    let n = addrs.len();
    let mut i: usize = 0;
    while i < n
        invariant
            0 <= i <= n,
            n == addrs@.len(),
            forall|j: int| 0 <= j < i ==> addrs@[j] != *a,
        decreases n - i,
    {
        if addrs[i] == *a {
            return true;
        }
        i += 1;
    }
    false
}

} // verus!
