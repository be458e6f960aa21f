use ledger_gas::address::{Address, InternalAddress};
use ledger_gas::gas::{Error as GasError, GasMetering, TxGasMeter, VpGasMeter};
use ledger_gas::multitoken::{Error, MultitokenVp};
use ledger_gas::native_vp::{AmountStore, Ctx, Error as NativeVpError, MinterStore, Tx};
use ledger_gas::storage::{balance_key, minted_balance_key, minter_key, Key};
use ledger_gas::token::Amount;

fn nam() -> Address {
    Address::Established(0)
}

fn established_address_1() -> Address {
    Address::Established(1)
}

fn established_address_2() -> Address {
    Address::Established(2)
}

/// A token bridged over the bridge module, standing for one carried under
/// a port, channel and denomination.
fn ibc_token() -> Address {
    Address::Internal(InternalAddress::IbcToken(42))
}

fn dummy_tx() -> Tx {
    Tx { data: Some(vec![]) }
}

fn fresh_ctx(pre: AmountStore, post: AmountStore, post_minters: MinterStore) -> Ctx {
    let gas_meter = VpGasMeter::new_from_tx_meter(&TxGasMeter::new(u64::MAX));
    Ctx {
        pre,
        post,
        post_minters,
        proposal_accepted: false,
        gas_meter,
    }
}

#[test]
fn test_valid_transfer() {
    let mut pre = AmountStore::new();
    let mut post = AmountStore::new();
    let mut keys_changed: Vec<Key> = Vec::new();

    let sender = established_address_1();
    let sender_key = balance_key(&nam(), &sender);
    let amount = Amount::native_whole(100);
    pre.write(sender_key, amount);

    // transfer 10
    let amount = Amount::native_whole(90);
    post.write(sender_key, amount);
    keys_changed.push(sender_key);
    let receiver = established_address_2();
    let receiver_key = balance_key(&nam(), &receiver);
    let amount = Amount::native_whole(10);
    post.write(receiver_key, amount);
    keys_changed.push(receiver_key);

    let tx = dummy_tx();
    let mut verifiers: Vec<Address> = Vec::new();
    verifiers.push(sender);
    let ctx = fresh_ctx(pre, post, MinterStore::new());

    let mut vp = MultitokenVp { ctx };
    assert!(vp
        .validate_tx(&tx, &keys_changed, &verifiers)
        .expect("validation failed"));
}

#[test]
fn test_invalid_transfer() {
    let mut pre = AmountStore::new();
    let mut post = AmountStore::new();
    let mut keys_changed: Vec<Key> = Vec::new();

    let sender = established_address_1();
    let sender_key = balance_key(&nam(), &sender);
    let amount = Amount::native_whole(100);
    pre.write(sender_key, amount);

    // transfer 10
    let amount = Amount::native_whole(90);
    post.write(sender_key, amount);
    keys_changed.push(sender_key);
    let receiver = established_address_2();
    let receiver_key = balance_key(&nam(), &receiver);
    // receive more than 10
    let amount = Amount::native_whole(100);
    post.write(receiver_key, amount);
    keys_changed.push(receiver_key);

    let tx = dummy_tx();
    let verifiers: Vec<Address> = Vec::new();
    let ctx = fresh_ctx(pre, post, MinterStore::new());

    let mut vp = MultitokenVp { ctx };
    assert!(!vp
        .validate_tx(&tx, &keys_changed, &verifiers)
        .expect("validation failed"));
}

#[test]
fn test_valid_mint() {
    let pre = AmountStore::new();
    let mut post = AmountStore::new();
    let mut minters = MinterStore::new();
    let mut keys_changed: Vec<Key> = Vec::new();

    // IBC token
    let token = ibc_token();

    // mint 100
    let target = established_address_1();
    let target_key = balance_key(&token, &target);
    let amount = Amount::native_whole(100);
    post.write(target_key, amount);
    keys_changed.push(target_key);
    let minted_key = minted_balance_key(&token);
    let amount = Amount::native_whole(100);
    post.write(minted_key, amount);
    keys_changed.push(minted_key);

    // minter
    let minter = Address::Internal(InternalAddress::Ibc);
    minters.write(token, minter);
    keys_changed.push(minter_key(&token));

    let tx = dummy_tx();
    let mut verifiers: Vec<Address> = Vec::new();
    // for the minter
    verifiers.push(minter);
    let ctx = fresh_ctx(pre, post, minters);

    let mut vp = MultitokenVp { ctx };
    assert!(vp
        .validate_tx(&tx, &keys_changed, &verifiers)
        .expect("validation failed"));
}

#[test]
fn test_invalid_mint() {
    let pre = AmountStore::new();
    let mut post = AmountStore::new();
    let mut minters = MinterStore::new();
    let mut keys_changed: Vec<Key> = Vec::new();

    // mint 100
    let target = established_address_1();
    let target_key = balance_key(&nam(), &target);
    // mint more than 100
    let amount = Amount::native_whole(1000);
    post.write(target_key, amount);
    keys_changed.push(target_key);
    let minted_key = minted_balance_key(&nam());
    let amount = Amount::native_whole(100);
    post.write(minted_key, amount);
    keys_changed.push(minted_key);

    // minter
    let minter = nam();
    minters.write(nam(), minter);
    keys_changed.push(minter_key(&nam()));

    let tx = dummy_tx();
    let mut verifiers: Vec<Address> = Vec::new();
    // for the minter
    verifiers.push(minter);
    let ctx = fresh_ctx(pre, post, minters);

    let mut vp = MultitokenVp { ctx };
    assert!(!vp
        .validate_tx(&tx, &keys_changed, &verifiers)
        .expect("validation failed"));
}

#[test]
fn test_no_minter() {
    let pre = AmountStore::new();
    let mut post = AmountStore::new();
    let mut keys_changed: Vec<Key> = Vec::new();

    // IBC token
    let token = ibc_token();

    // mint 100
    let target = established_address_1();
    let target_key = balance_key(&token, &target);
    let amount = Amount::native_whole(100);
    post.write(target_key, amount);
    keys_changed.push(target_key);
    let minted_key = minted_balance_key(&token);
    let amount = Amount::native_whole(100);
    post.write(minted_key, amount);
    keys_changed.push(minted_key);

    // no minter is set

    let tx = dummy_tx();
    let verifiers: Vec<Address> = Vec::new();
    let ctx = fresh_ctx(pre, post, MinterStore::new());

    let mut vp = MultitokenVp { ctx };
    assert!(!vp
        .validate_tx(&tx, &keys_changed, &verifiers)
        .expect("validation failed"));
}

#[test]
fn test_invalid_minter() {
    let pre = AmountStore::new();
    let mut post = AmountStore::new();
    let mut minters = MinterStore::new();
    let mut keys_changed: Vec<Key> = Vec::new();

    // IBC token
    let token = ibc_token();

    // mint 100
    let target = established_address_1();
    let target_key = balance_key(&token, &target);
    let amount = Amount::native_whole(100);
    post.write(target_key, amount);
    keys_changed.push(target_key);
    let minted_key = minted_balance_key(&token);
    let amount = Amount::native_whole(100);
    post.write(minted_key, amount);
    keys_changed.push(minted_key);

    // invalid minter
    let minter = established_address_1();
    minters.write(token, minter);
    keys_changed.push(minter_key(&token));

    let tx = dummy_tx();
    let mut verifiers: Vec<Address> = Vec::new();
    // for the minter
    verifiers.push(minter);
    let ctx = fresh_ctx(pre, post, minters);

    let mut vp = MultitokenVp { ctx };
    assert!(!vp
        .validate_tx(&tx, &keys_changed, &verifiers)
        .expect("validation failed"));
}

#[test]
fn test_invalid_minter_update() {
    let pre = AmountStore::new();
    let post = AmountStore::new();
    let mut minters = MinterStore::new();
    let mut keys_changed: Vec<Key> = Vec::new();

    let minter = established_address_1();
    minters.write(nam(), minter);
    keys_changed.push(minter_key(&nam()));

    let tx = dummy_tx();
    let mut verifiers: Vec<Address> = Vec::new();
    // for the minter
    verifiers.push(minter);
    let ctx = fresh_ctx(pre, post, minters);

    let mut vp = MultitokenVp { ctx };
    assert!(!vp
        .validate_tx(&tx, &keys_changed, &verifiers)
        .expect("validation failed"));
}

#[test]
fn test_invalid_key_update() {
    let pre = AmountStore::new();
    let post = AmountStore::new();
    let mut keys_changed: Vec<Key> = Vec::new();

    // an unexpected key under the multitoken account's own namespace
    keys_changed.push(Key::InternalOther(0));

    let tx = dummy_tx();
    let verifiers: Vec<Address> = Vec::new();
    let ctx = fresh_ctx(pre, post, MinterStore::new());

    let mut vp = MultitokenVp { ctx };
    assert!(!vp
        .validate_tx(&tx, &keys_changed, &verifiers)
        .expect("validation failed"));
}

/// Minting backed by the bridge minter but with that address absent from
/// the verifiers is rejected.
#[test]
fn test_minter_not_in_verifiers() {
    let pre = AmountStore::new();
    let mut post = AmountStore::new();
    let mut minters = MinterStore::new();
    let mut keys_changed: Vec<Key> = Vec::new();

    let token = ibc_token();
    let target_key = balance_key(&token, &established_address_1());
    post.write(target_key, Amount::native_whole(100));
    keys_changed.push(target_key);
    let minted_key = minted_balance_key(&token);
    post.write(minted_key, Amount::native_whole(100));
    keys_changed.push(minted_key);
    minters.write(token, Address::Internal(InternalAddress::Ibc));
    keys_changed.push(minter_key(&token));

    let tx = dummy_tx();
    // the bridge address does not appear among the verifiers
    let verifiers: Vec<Address> = Vec::new();
    let ctx = fresh_ctx(pre, post, minters);

    let mut vp = MultitokenVp { ctx };
    assert!(!vp
        .validate_tx(&tx, &keys_changed, &verifiers)
        .expect("validation failed"));
}

/// A foreign key is ignored by the scan.
#[test]
fn test_foreign_key_ignored() {
    let pre = AmountStore::new();
    let post = AmountStore::new();
    let mut keys_changed: Vec<Key> = Vec::new();
    keys_changed.push(Key::Foreign(7));

    let tx = dummy_tx();
    let verifiers: Vec<Address> = Vec::new();
    let ctx = fresh_ctx(pre, post, MinterStore::new());

    let mut vp = MultitokenVp { ctx };
    assert!(vp
        .validate_tx(&tx, &keys_changed, &verifiers)
        .expect("validation failed"));
}

/// A token-parameter key delegates to the governance verdict on the
/// transaction's payload.
#[test]
fn test_parameter_change_follows_governance() {
    let pre = AmountStore::new();
    let post = AmountStore::new();
    let mut keys_changed: Vec<Key> = Vec::new();
    keys_changed.push(Key::TokenParameter { token: nam() });

    let tx = dummy_tx();
    let verifiers: Vec<Address> = Vec::new();
    let mut ctx = fresh_ctx(pre, post, MinterStore::new());
    ctx.proposal_accepted = true;

    let mut vp = MultitokenVp { ctx };
    assert!(vp
        .validate_tx(&tx, &keys_changed, &verifiers)
        .expect("validation failed"));

    // without a data payload the change is rejected outright
    let no_data = Tx { data: None };
    assert!(!vp
        .validate_tx(&no_data, &keys_changed, &verifiers)
        .expect("validation failed"));
}

/// Balance accumulation that overflows 64 bits is an error, not a
/// rejection.
#[test]
fn test_balance_accumulation_overflow() {
    let pre = AmountStore::new();
    let mut post = AmountStore::new();
    let mut keys_changed: Vec<Key> = Vec::new();

    let key1 = balance_key(&nam(), &established_address_1());
    let key2 = balance_key(&nam(), &established_address_2());
    post.write(key1, Amount::from(u64::MAX));
    post.write(key2, Amount::from(u64::MAX));
    keys_changed.push(key1);
    keys_changed.push(key2);

    let tx = dummy_tx();
    let verifiers: Vec<Address> = Vec::new();
    let ctx = fresh_ctx(pre, post, MinterStore::new());

    let mut vp = MultitokenVp { ctx };
    assert!(matches!(
        vp.validate_tx(&tx, &keys_changed, &verifiers),
        Err(Error::NativeVpError(NativeVpError::ArithmeticOverflow))
    ));
}

/// Exhausting the gas limit while reading storage aborts validation with
/// the gas error rather than rejecting the transaction.
#[test]
fn test_gas_exhaustion_aborts_validation() {
    let mut pre = AmountStore::new();
    let mut post = AmountStore::new();
    let mut keys_changed: Vec<Key> = Vec::new();

    let key = balance_key(&nam(), &established_address_1());
    pre.write(key, Amount::from(100u64));
    post.write(key, Amount::from(90u64));
    keys_changed.push(key);

    let tx = dummy_tx();
    let verifiers: Vec<Address> = Vec::new();
    // a gas limit below the cost of a single read
    let gas_meter = VpGasMeter::new_from_tx_meter(&TxGasMeter::new(5));
    let ctx = Ctx {
        pre,
        post,
        post_minters: MinterStore::new(),
        proposal_accepted: false,
        gas_meter,
    };

    let mut vp = MultitokenVp { ctx };
    assert!(matches!(
        vp.validate_tx(&tx, &keys_changed, &verifiers),
        Err(Error::NativeVpError(NativeVpError::GasError(
            GasError::TransactionGasExceededError
        )))
    ));
}

/// The standalone minter check accepts exactly the bridge minter among
/// the verifiers, and only for bridged tokens.
#[test]
fn test_is_valid_minter() {
    let mut minters = MinterStore::new();
    let token = ibc_token();
    let minter = Address::Internal(InternalAddress::Ibc);
    minters.write(token, minter);

    let ctx = fresh_ctx(AmountStore::new(), AmountStore::new(), minters);
    let mut vp = MultitokenVp { ctx };

    let mut verifiers: Vec<Address> = Vec::new();
    verifiers.push(minter);
    assert!(vp
        .is_valid_minter(&token, &verifiers)
        .expect("validation failed"));
    // a non-bridged token can never be minted
    assert!(!vp
        .is_valid_minter(&nam(), &verifiers)
        .expect("validation failed"));
}
