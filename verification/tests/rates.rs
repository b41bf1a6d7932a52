//! The interest-rate curve and index accrual, against exact values.

use mango::fixedpoint::{FixedPoint, SCALE};
use mango::state::{MangoGroup, MAX_R, OPTIMAL_R, NUM_MARKETS, NUM_TOKENS};

fn group_with(deposits: u64, borrows: u64) -> MangoGroup {
    let mut g = MangoGroup::new(
        FixedPoint::from_bits(20291418481080506777),
        FixedPoint::from_bits(22136092888451461939),
        vec![0u64; NUM_TOKENS],
        vec![6u8; NUM_TOKENS],
        vec![0u8; NUM_MARKETS],
        0,
    );
    g.total_deposits[0] = FixedPoint::from_num(deposits);
    g.total_borrows[0] = FixedPoint::from_num(borrows);
    g
}

// Utilization zero: the rate is exactly zero.
#[test]
fn test_rate_zero_utilization() {
    let g = group_with(10_000, 0);
    assert_eq!(g.get_interest_rate(0).unwrap().bits, 0);
}

// Utilization one (borrows equal deposits): exactly the maximal rate.
#[test]
fn test_rate_full_utilization() {
    let g = group_with(10_000, 10_000);
    assert_eq!(g.get_interest_rate(0).unwrap().bits, MAX_R);
}

// A pool with no deposits at all is degenerate and pays the maximal rate.
#[test]
fn test_rate_empty_pool() {
    let g = group_with(0, 0);
    assert_eq!(g.get_interest_rate(0).unwrap().bits, MAX_R);
}

// Utilization exactly at the kink (7,000 of 10,000 lands on the rounded
// 0.7 bit pattern): the computed rate is one unit in the last place below
// the optimal rate, the loss of the curve's two rounded divisions.
#[test]
fn test_rate_optimal_utilization() {
    let g = group_with(10_000, 7_000);
    assert_eq!(g.get_interest_rate(0).unwrap().bits, OPTIMAL_R - 1);
}

// Above the kink the rate grows toward the maximal rate.
#[test]
fn test_rate_above_kink_monotone() {
    let low = group_with(10_000, 7_500).get_interest_rate(0).unwrap().bits;
    let high = group_with(10_000, 9_900).get_interest_rate(0).unwrap().bits;
    assert!(OPTIMAL_R < low);
    assert!(low < high);
    assert!(high < MAX_R);
}

// One year of accrual at the kink rate: the borrow index grows by about
// ten percent and the deposit index by seventy percent of that, to the
// exact bit patterns.
#[test]
fn test_update_indexes_one_year() {
    let mut g = group_with(10_000, 7_000);
    g.update_indexes(31_536_000).unwrap();
    assert_eq!(g.indexes[0].borrow.bits, 20291418481064511616);
    assert_eq!(g.indexes[0].deposit.bits, 19738016158858023615);
    assert_eq!(g.indexes[0].last_update, 31_536_000);
    // monotone on every token; untouched tokens have no deposits and skip
    for i in 0..NUM_TOKENS {
        assert!(g.indexes[i].borrow.bits >= SCALE);
        assert!(g.indexes[i].deposit.bits >= SCALE);
    }
    // the scaled totals never move under accrual
    assert_eq!(g.total_deposits[0], FixedPoint::from_num(10_000));
    assert_eq!(g.total_borrows[0], FixedPoint::from_num(7_000));
}

// Accrual at an unchanged timestamp is a no-op.
#[test]
fn test_update_indexes_zero_elapsed() {
    let mut g = group_with(10_000, 7_000);
    g.update_indexes(0).unwrap();
    for i in 0..NUM_TOKENS {
        assert_eq!(g.indexes[i].borrow.bits, SCALE);
        assert_eq!(g.indexes[i].deposit.bits, SCALE);
    }
}

// The whole-unit native totals round in the pool's favor: deposits down,
// borrows up.
#[test]
fn test_native_totals_rounding() {
    let mut g = group_with(0, 0);
    g.total_deposits[0] = FixedPoint::from_bits(3 * SCALE + 1);
    g.total_borrows[0] = FixedPoint::from_bits(2 * SCALE + 1);
    assert_eq!(g.get_total_native_deposit(0).unwrap(), 3);
    assert_eq!(g.get_total_native_borrow(0).unwrap(), 3);
    assert!(g.has_valid_deposits_borrows(0).unwrap());
    // one more fractional borrow bit past three whole units tips it over
    g.total_borrows[0] = FixedPoint::from_bits(3 * SCALE + 1);
    assert_eq!(g.get_total_native_borrow(0).unwrap(), 4);
    assert!(!g.has_valid_deposits_borrows(0).unwrap());
}
