use ledger_gas::address::Address;
use ledger_gas::token::Amount;
use ledger_gas::wrapper::{Fee, GasLimit, WrapperTxErr, GAS_LIMIT_RESOLUTION};

/// A raw amount that is not a multiple of the resolution converts to a
/// limit rounded up to the next multiple.
#[test]
fn test_deserialize_not_multiple_of_resolution() {
    let limit = GasLimit::from(GAS_LIMIT_RESOLUTION + 1);
    assert_eq!(limit, GasLimit { multiplier: 2 });
}

/// Test that the refund is calculated correctly.
#[test]
fn test_gas_limit_refund() {
    let limit = GasLimit { multiplier: 1 };
    let refund = limit.refund_amount(GAS_LIMIT_RESOLUTION - 1);
    assert_eq!(refund, Amount::from(1u64));
}

/// Test that we don't refund more than GAS_LIMIT_RESOLUTION.
#[test]
fn test_gas_limit_too_high_no_refund() {
    let limit = GasLimit { multiplier: 2 };
    let refund = limit.refund_amount(GAS_LIMIT_RESOLUTION - 1);
    assert_eq!(refund, Amount::from(GAS_LIMIT_RESOLUTION));
}

/// Test that if gas usage was underestimated, we issue no refund.
#[test]
fn test_gas_limit_too_low_no_refund() {
    let limit = GasLimit { multiplier: 1 };
    let refund = limit.refund_amount(GAS_LIMIT_RESOLUTION + 1);
    assert_eq!(refund, Amount::from(0u64));
}

/// An exact multiple of the resolution converts without rounding, and the
/// raw amount comes back unchanged.
#[test]
fn test_round_trip_on_exact_multiple() {
    let limit = GasLimit::from(3 * GAS_LIMIT_RESOLUTION);
    assert_eq!(limit, GasLimit { multiplier: 3 });
    assert_eq!(limit.raw_amount(), 3 * GAS_LIMIT_RESOLUTION);
}

/// Zero rounds to the zero limit.
#[test]
fn test_zero_limit() {
    let limit = GasLimit::from(0);
    assert_eq!(limit, GasLimit { multiplier: 0 });
}

/// The fee is the raw gas limit times the fee per gas unit.
#[test]
fn test_tx_fee() {
    let fee = Fee {
        amount_per_gas_unit: Amount::from(3u64),
        token: Address::Established(0),
    };
    let limit = GasLimit { multiplier: 2 };
    let amount = fee.get_tx_fee(&limit).expect("fee computation failed");
    assert_eq!(amount, Amount::from(6 * GAS_LIMIT_RESOLUTION));
}

/// A fee that does not fit in 64 bits is reported as an overflow.
#[test]
fn test_tx_fee_overflow() {
    let fee = Fee {
        amount_per_gas_unit: Amount::from(u64::MAX),
        token: Address::Established(0),
    };
    let limit = GasLimit { multiplier: 2 };
    assert!(matches!(
        fee.get_tx_fee(&limit),
        Err(WrapperTxErr::OverflowingFee)
    ));
}
