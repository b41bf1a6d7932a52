//! End-to-end scenarios of the balance operations and the liquidation
//! engine, with exact expected values.

use mango::fixedpoint::{FixedPoint, SCALE};
use mango::processor::{socialize_loss, PartialLiquidateOutcome, Processor};
use mango::state::{MangoGroup, MarginAccount, OpenOrdersInfo, NUM_MARKETS, NUM_TOKENS};
use mango::error::MangoErrorCode;

fn fresh_group(now: u64) -> MangoGroup {
    MangoGroup::new(
        FixedPoint::from_bits(20291418481080506777), // 1.1 rounded down
        FixedPoint::from_bits(22136092888451461939), // 1.2 rounded down
        vec![0u64; NUM_TOKENS],
        vec![6u8; NUM_TOKENS],
        vec![0u8; NUM_MARKETS],
        now,
    )
}

fn unit_prices() -> Vec<FixedPoint> {
    vec![FixedPoint::one(); NUM_TOKENS]
}

fn no_orders() -> Vec<Option<OpenOrdersInfo>> {
    vec![None; NUM_MARKETS]
}

#[test]
fn test_init_mango_group() {
    let g = fresh_group(7);
    for i in 0..NUM_TOKENS {
        assert_eq!(g.indexes[i].borrow.bits, SCALE);
        assert_eq!(g.indexes[i].deposit.bits, SCALE);
        assert_eq!(g.indexes[i].last_update, 7);
        assert_eq!(g.total_deposits[i].bits, 0);
        assert_eq!(g.total_borrows[i].bits, 0);
    }
}

#[test]
fn test_init_margin_account() {
    let a = MarginAccount::new();
    for i in 0..NUM_TOKENS {
        assert_eq!(a.deposits[i].bits, 0);
        assert_eq!(a.borrows[i].bits, 0);
    }
    assert!(!a.being_liquidated);
    assert!(!a.has_borrows);
}

// Scenario: a deposit of 100 units into a fresh account at a deposit
// index of one credits exactly 100 scaled units to the account and to
// the pool.
#[test]
fn test_deposit_succeeds() {
    let mut g = fresh_group(0);
    let mut a = MarginAccount::new();
    Processor::deposit(&mut g, &mut a, 0, 100, 0).unwrap();
    assert_eq!(a.deposits[0], FixedPoint::from_num(100));
    assert_eq!(g.total_deposits[0], FixedPoint::from_num(100));
    assert_eq!(a.borrows[0].bits, 0);
}

// A deposit with zero elapsed time leaves every index untouched.
#[test]
fn test_deposit_zero_elapsed_keeps_indexes() {
    let mut g = fresh_group(55);
    let mut a = MarginAccount::new();
    Processor::deposit(&mut g, &mut a, 2, 1_000_000, 55).unwrap();
    for i in 0..NUM_TOKENS {
        assert_eq!(g.indexes[i].borrow.bits, SCALE);
        assert_eq!(g.indexes[i].deposit.bits, SCALE);
    }
}

// A deposit at a deposit index of 2 credits half as many scaled units:
// this exercises the fixed-point division on real values.
#[test]
fn test_deposit_scaled_by_index() {
    let mut g = fresh_group(0);
    let mut a = MarginAccount::new();
    g.indexes[0].deposit = FixedPoint::from_num(2);
    Processor::deposit(&mut g, &mut a, 0, 100, 0).unwrap();
    assert_eq!(a.deposits[0], FixedPoint::from_num(50));
    assert_eq!(g.total_deposits[0], FixedPoint::from_num(50));
}

#[test]
fn test_withdraw_succeeds() {
    let mut g = fresh_group(0);
    let mut a = MarginAccount::new();
    Processor::deposit(&mut g, &mut a, 0, 100, 0).unwrap();
    Processor::withdraw(&mut g, &mut a, 0, 40, &unit_prices(), &no_orders(), 0).unwrap();
    assert_eq!(a.deposits[0], FixedPoint::from_num(60));
    assert_eq!(g.total_deposits[0], FixedPoint::from_num(60));
}

#[test]
fn test_withdraw_insufficient_funds() {
    let mut g = fresh_group(0);
    let mut a = MarginAccount::new();
    Processor::deposit(&mut g, &mut a, 0, 100, 0).unwrap();
    let r = Processor::withdraw(&mut g, &mut a, 0, 1000, &unit_prices(), &no_orders(), 0);
    assert_eq!(r, Err(MangoErrorCode::InsufficientFunds));
    // nothing changed
    assert_eq!(a.deposits[0], FixedPoint::from_num(100));
    assert_eq!(g.total_deposits[0], FixedPoint::from_num(100));
}

// Scenario: $100 of collateral in token A (price 50,000 at six decimals),
// borrowing token B (price 2,000) at five times leverage meets the 1.2
// initial collateral ratio exactly; six times leverage is rejected with
// the collateral-ratio error and leaves every balance unchanged.
fn leverage_setup() -> (MangoGroup, MarginAccount, Vec<FixedPoint>) {
    let mut g = fresh_group(0);
    let mut a = MarginAccount::new();
    // price per native unit, in native quote units
    let mut prices = unit_prices();
    prices[0] = FixedPoint::from_num(50_000);
    prices[1] = FixedPoint::from_num(2_000);
    // 2000 native units of token A are worth 100_000_000 native quote
    // units: one hundred dollars at six decimals
    Processor::deposit(&mut g, &mut a, 0, 2000, 0).unwrap();
    (g, a, prices)
}

#[test]
fn test_borrow_succeeds() {
    let (mut g, mut a, prices) = leverage_setup();
    // five times leverage: 250_000 units of B are worth five hundred
    // dollars
    Processor::borrow(&mut g, &mut a, 1, 250_000, &prices, &no_orders(), 0).unwrap();
    assert_eq!(a.borrows[1], FixedPoint::from_num(250_000));
    assert_eq!(a.deposits[1], FixedPoint::from_num(250_000));
    assert_eq!(g.total_borrows[1], FixedPoint::from_num(250_000));
    assert!(a.has_borrows);
}

#[test]
fn test_borrow_fails_overleveraged() {
    let (mut g, mut a, prices) = leverage_setup();
    let g_before = g.clone();
    let a_before = a.clone();
    // six times leverage: six hundred dollars of B against one hundred
    // of collateral
    let r = Processor::borrow(&mut g, &mut a, 1, 300_000, &prices, &no_orders(), 0);
    assert_eq!(r, Err(MangoErrorCode::CollateralRatioLimit));
    // the rejected borrow left no trace
    for i in 0..NUM_TOKENS {
        assert_eq!(a.deposits[i], a_before.deposits[i]);
        assert_eq!(a.borrows[i], a_before.borrows[i]);
        assert_eq!(g.total_deposits[i], g_before.total_deposits[i]);
        assert_eq!(g.total_borrows[i], g_before.total_borrows[i]);
        assert_eq!(g.indexes[i], g_before.indexes[i]);
    }
}

#[test]
fn test_settle_borrow_clears_borrow() {
    let mut g = fresh_group(0);
    let mut a = MarginAccount::new();
    Processor::deposit(&mut g, &mut a, NUM_TOKENS - 1, 1000, 0).unwrap();
    Processor::borrow(&mut g, &mut a, 0, 100, &unit_prices(), &no_orders(), 0).unwrap();
    assert!(a.has_borrows);
    Processor::settle_borrow(&mut g, &mut a, 0, 100, 0).unwrap();
    assert_eq!(a.borrows[0].bits, 0);
    assert_eq!(a.deposits[0].bits, 0);
    assert_eq!(g.total_borrows[0].bits, 0);
    assert!(!a.has_borrows);
}

#[test]
fn test_liquidate_is_deprecated() {
    assert_eq!(
        Processor::liquidate(&vec![0u64; NUM_TOKENS]),
        Err(MangoErrorCode::Deprecated)
    );
}

#[test]
fn test_partial_liquidate_not_liquidatable() {
    let mut g = fresh_group(0);
    let mut a = MarginAccount::new();
    Processor::deposit(&mut g, &mut a, 0, 100, 0).unwrap();
    let r = Processor::partial_liquidate(
        &mut g,
        &mut a,
        &unit_prices(),
        &no_orders(),
        0,
        1,
        u64::MAX,
    );
    assert_eq!(r, Err(MangoErrorCode::NotLiquidatable));
}

// Scenario: an account at a collateral ratio of 0.95 (below maintenance)
// whose total assets are below the one-unit dust threshold has its
// remaining borrow zeroed and the token's deposit index reduced by
// exactly native_borrow / total_native_deposits.
#[test]
fn test_partial_liquidate_socializes_dust_loss() {
    let mut g = fresh_group(0);
    let mut a = MarginAccount::new();
    // other depositors hold 10,000 native units of token 0
    g.total_deposits[0] = FixedPoint::from_num(10_000);
    // the account owes one native unit of token 0 and holds 0.95 of one
    g.total_borrows[0] = FixedPoint::from_num(1);
    a.borrows[0] = FixedPoint::from_num(1);
    a.has_borrows = true;
    a.deposits[0] = FixedPoint::from_bits(17524406870024074035); // 0.95
    g.total_deposits[0] = g.total_deposits[0]
        .checked_add(a.deposits[0])
        .unwrap();
    let r = Processor::partial_liquidate(
        &mut g,
        &mut a,
        &unit_prices(),
        &no_orders(),
        0,
        1,
        u64::MAX,
    )
    .unwrap();
    assert_eq!(
        r,
        PartialLiquidateOutcome::Executed {
            in_quantity: 0,
            out_quantity: 0,
            socialized_losses: true
        }
    );
    // the borrow is gone and the loss sits on the lenders: the deposit
    // index fell by exactly native_borrow / total_native_deposits of its
    // value, about one part in ten thousand
    assert_eq!(a.borrows[0].bits, 0);
    assert_eq!(g.total_borrows[0].bits, 0);
    assert_eq!(g.indexes[0].deposit.bits, 18444899574529602756);
    assert_eq!(g.indexes[0].borrow.bits, SCALE);
    assert!(a.being_liquidated);
}

// Scenario: forced order cancelling on an under-collateralized account
// marks it, settles the freed funds into its deposits, and a second pass
// with nothing freed changes nothing.
#[test]
fn test_force_cancel_orders_settles_freed_funds() {
    let mut g = fresh_group(0);
    let mut a = MarginAccount::new();
    // quote deposits of 10 against a borrow of 10 units of token 0:
    // ratio 1.0, below maintenance
    Processor::deposit(&mut g, &mut a, NUM_TOKENS - 1, 10, 0).unwrap();
    g.total_borrows[0] = FixedPoint::from_num(10);
    a.borrows[0] = FixedPoint::from_num(10);
    a.has_borrows = true;
    let proceed =
        Processor::force_cancel_orders_begin(&mut g, &mut a, &unit_prices(), &no_orders(), 0)
            .unwrap();
    assert!(proceed);
    assert!(a.being_liquidated);
    // the venue reported three resting orders freeing 30 base units
    Processor::force_cancel_orders_settle(&mut g, &mut a, 0, 30, 0, 0, 0).unwrap();
    assert_eq!(a.deposits[0], FixedPoint::from_num(30));
    assert_eq!(g.total_deposits[0], FixedPoint::from_num(30));
    // with the freed funds the account is above the initial ratio: the
    // next call releases it and cancels nothing
    let proceed2 =
        Processor::force_cancel_orders_begin(&mut g, &mut a, &unit_prices(), &no_orders(), 0)
            .unwrap();
    assert!(!proceed2);
    assert!(!a.being_liquidated);
    // nothing left to settle: a no-op
    let dep_before = a.deposits[0];
    Processor::force_cancel_orders_settle(&mut g, &mut a, 0, 0, 0, 0, 0).unwrap();
    assert_eq!(a.deposits[0], dep_before);
}

// Socializing a 5-unit loss over 1,000 native units of deposits clears
// the borrow and cuts the deposit index by exactly one part in two
// hundred.
#[test]
fn test_socialize_loss_exact_cut() {
    let mut g = fresh_group(0);
    let mut a = MarginAccount::new();
    g.total_deposits[0] = FixedPoint::from_num(1000);
    g.total_borrows[0] = FixedPoint::from_num(5);
    a.borrows[0] = FixedPoint::from_num(5);
    a.has_borrows = true;
    socialize_loss(
        &mut g,
        &mut a,
        0,
        FixedPoint::from_num(5),
        FixedPoint::from_num(1000),
    )
    .unwrap();
    assert_eq!(a.borrows[0].bits, 0);
    assert_eq!(g.total_borrows[0].bits, 0);
    assert_eq!(g.indexes[0].deposit.bits, 18354510353341003858);
    assert_eq!(g.indexes[0].borrow.bits, SCALE);
    assert!(!a.has_borrows);
    // a zero-deposit pool cannot absorb a loss: nothing changes
    let before = g.indexes[1].deposit.bits;
    let r = socialize_loss(
        &mut g,
        &mut a,
        1,
        FixedPoint::from_num(1),
        FixedPoint::from_bits(0),
    );
    assert_eq!(r, Err(MangoErrorCode::ArithmeticError));
    assert_eq!(g.indexes[1].deposit.bits, before);
}

#[test]
fn test_deposit_arithmetic_error_on_zero_index() {
    let mut g = fresh_group(0);
    let mut a = MarginAccount::new();
    g.indexes[0].deposit = FixedPoint::from_bits(0);
    let r = Processor::deposit(&mut g, &mut a, 0, 100, 0);
    assert_eq!(r, Err(MangoErrorCode::ArithmeticError));
}

#[test]
fn test_change_borrow_limit() {
    let mut g = fresh_group(0);
    Processor::change_borrow_limit(&mut g, 3, 777).unwrap();
    assert_eq!(g.borrow_limits[3], 777);
}

#[test]
fn test_add_margin_account_info() {
    let mut a = MarginAccount::new();
    let info = vec![9u8; 32];
    Processor::add_margin_account_info(&mut a, info.clone()).unwrap();
    assert_eq!(a.info, info);
}
