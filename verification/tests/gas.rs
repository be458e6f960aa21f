use ledger_gas::gas::{Error, GasMetering, TxGasMeter, VpGasMeter, VpsGas};

const BLOCK_GAS_LIMIT: u64 = 10_000_000_000;
const TX_GAS_LIMIT: u64 = 1_000_000;

#[test]
fn test_vp_gas_overflow() {
    let mut tx_gas_meter = TxGasMeter::new(BLOCK_GAS_LIMIT);
    tx_gas_meter
        .consume(TX_GAS_LIMIT - 1)
        .expect("cannot add the gas");
    let mut meter = VpGasMeter::new_from_tx_meter(&tx_gas_meter);
    assert!(matches!(
        meter.consume(u64::MAX).expect_err("unexpectedly succeeded"),
        Error::GasOverflow
    ));
}

#[test]
fn test_vp_gas_limit() {
    let mut tx_gas_meter = TxGasMeter::new(TX_GAS_LIMIT);
    tx_gas_meter
        .consume(TX_GAS_LIMIT - 1)
        .expect("cannot add the gas");
    let mut meter = VpGasMeter::new_from_tx_meter(&tx_gas_meter);
    assert!(matches!(
        meter
            .consume(TX_GAS_LIMIT)
            .expect_err("unexpectedly succeeded"),
        Error::TransactionGasExceededError
    ));
}

#[test]
fn test_tx_gas_overflow() {
    let mut meter = TxGasMeter::new(BLOCK_GAS_LIMIT);
    meter.consume(1).expect("cannot add the gas");
    assert!(matches!(
        meter.consume(u64::MAX).expect_err("unexpectedly succeeded"),
        Error::GasOverflow
    ));
}

#[test]
fn test_tx_gas_limit() {
    let mut meter = TxGasMeter::new(TX_GAS_LIMIT);
    assert!(matches!(
        meter
            .consume(TX_GAS_LIMIT + 1)
            .expect_err("unexpectedly succeeded"),
        Error::TransactionGasExceededError
    ));
}

/// Charging two amounts one after the other bills the same total as
/// charging their sum at once.
#[test]
fn test_sequential_charges_equal_one_charge() {
    let mut split = TxGasMeter::new(TX_GAS_LIMIT);
    split.consume(12_345).expect("cannot add the gas");
    split.consume(54_321).expect("cannot add the gas");
    let mut whole = TxGasMeter::new(TX_GAS_LIMIT);
    whole.consume(12_345 + 54_321).expect("cannot add the gas");
    assert_eq!(
        split.get_current_transaction_gas(),
        whole.get_current_transaction_gas()
    );
}

/// A charge that crosses the limit fails, yet the meter still bills the
/// full attempted amount.
#[test]
fn test_exceeded_charge_still_billed() {
    let mut meter = TxGasMeter::new(10);
    assert!(matches!(
        meter.consume(15).expect_err("unexpectedly succeeded"),
        Error::TransactionGasExceededError
    ));
    assert_eq!(meter.get_current_transaction_gas(), 15);
}

/// An overflowing charge fails even on a meter whose limit is the full
/// 64-bit range.
#[test]
fn test_overflow_error_regardless_of_limit() {
    let mut meter = TxGasMeter::new(u64::MAX);
    meter.consume(2).expect("cannot add the gas");
    assert!(matches!(
        meter.consume(u64::MAX).expect_err("unexpectedly succeeded"),
        Error::GasOverflow
    ));
}

#[test]
fn test_tx_size_gas() {
    let mut meter = TxGasMeter::new(TX_GAS_LIMIT);
    meter.add_tx_size_gas(&[0u8; 7]).expect("cannot add the gas");
    assert_eq!(meter.get_current_transaction_gas(), 70);
}

#[test]
fn test_compiling_and_load_gas() {
    let mut meter = TxGasMeter::new(TX_GAS_LIMIT);
    meter.add_compiling_gas(11).expect("cannot add the gas");
    meter
        .add_wasm_load_from_storage_gas(5)
        .expect("cannot add the gas");
    assert_eq!(meter.get_current_transaction_gas(), 16);
}

fn vp_meter_with_usage(tx_gas_meter: &TxGasMeter, usage: u64) -> VpGasMeter {
    let mut meter = VpGasMeter::new_from_tx_meter(tx_gas_meter);
    meter.consume(usage).expect("cannot add the gas");
    meter
}

/// The aggregator bills the largest usage in full and a tenth of the sum
/// of the rest, however the aggregators are merged.
#[test]
fn test_vps_gas_merge_order_independent() {
    let tx_gas_meter = TxGasMeter::new(TX_GAS_LIMIT);

    // fold as (a . b) . c
    let mut left = VpsGas::default();
    left.set(vp_meter_with_usage(&tx_gas_meter, 5))
        .expect("set failed");
    let mut b = VpsGas::default();
    b.set(vp_meter_with_usage(&tx_gas_meter, 50))
        .expect("set failed");
    let mut c = VpsGas::default();
    c.set(vp_meter_with_usage(&tx_gas_meter, 20))
        .expect("set failed");
    left.merge(&mut b, &tx_gas_meter).expect("merge failed");
    left.merge(&mut c, &tx_gas_meter).expect("merge failed");

    // fold as a . (c . b)
    let mut right = VpsGas::default();
    right
        .set(vp_meter_with_usage(&tx_gas_meter, 20))
        .expect("set failed");
    let mut b2 = VpsGas::default();
    b2.set(vp_meter_with_usage(&tx_gas_meter, 50))
        .expect("set failed");
    right.merge(&mut b2, &tx_gas_meter).expect("merge failed");
    let mut a2 = VpsGas::default();
    a2.set(vp_meter_with_usage(&tx_gas_meter, 5))
        .expect("set failed");
    right.merge(&mut a2, &tx_gas_meter).expect("merge failed");

    let billed_left = left.get_current_gas().expect("billing failed");
    let billed_right = right.get_current_gas().expect("billing failed");
    // max(5, 50, 20) + (5 + 20) / 10
    assert_eq!(billed_left, 52);
    assert_eq!(billed_right, 52);
}

/// An empty aggregator bills nothing.
#[test]
fn test_vps_gas_empty_bills_zero() {
    let empty = VpsGas::default();
    assert_eq!(empty.get_current_gas().expect("billing failed"), 0);
}

/// The merged predicate bill is charged back to the transaction meter.
#[test]
fn test_add_vps_gas_to_tx_meter() {
    let mut tx_gas_meter = TxGasMeter::new(TX_GAS_LIMIT);
    tx_gas_meter.consume(100).expect("cannot add the gas");

    let mut vps = VpsGas::default();
    vps.set(vp_meter_with_usage(&tx_gas_meter, 40))
        .expect("set failed");
    let mut other = VpsGas::default();
    other
        .set(vp_meter_with_usage(&tx_gas_meter, 30))
        .expect("set failed");
    vps.merge(&mut other, &tx_gas_meter).expect("merge failed");

    tx_gas_meter.add_vps_gas(&vps).expect("cannot add the gas");
    // 100 + 40 + 30 / 10
    assert_eq!(tx_gas_meter.get_current_transaction_gas(), 143);
}

/// Merging a combined bill that crosses the limit fails, and so does
/// charging it back to the transaction meter.
#[test]
fn test_vps_gas_exceeds_limit() {
    let tx_gas_meter = TxGasMeter::new(100);
    let mut vps = VpsGas::default();
    let mut meter = VpGasMeter::new_from_tx_meter(&tx_gas_meter);
    assert!(matches!(
        meter.consume(101).expect_err("unexpectedly succeeded"),
        Error::TransactionGasExceededError
    ));
    assert!(matches!(
        vps.set(meter).expect_err("unexpectedly succeeded"),
        Error::TransactionGasExceededError
    ));
}
