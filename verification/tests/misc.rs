//! Fixed-point arithmetic, prices, valuation, the fee-discount balance
//! and the small utility items.

use mango::cluster::Cluster;
use mango::error::{check_assert, convert_assertion_error, MangoErrorCode};
use mango::fixedpoint::{FixedPoint, SCALE};
use mango::processor::{get_prices, Processor};
use mango::state::{
    AccountFlag, MangoGroup, MangoSrmAccount, MarginAccount, OpenOrdersInfo, NUM_MARKETS,
    NUM_TOKENS,
};

fn fresh_group() -> MangoGroup {
    MangoGroup::new(
        FixedPoint::from_bits(20291418481080506777),
        FixedPoint::from_bits(22136092888451461939),
        vec![0u64; NUM_TOKENS],
        vec![6u8; NUM_TOKENS],
        vec![2u8; NUM_MARKETS],
        0,
    )
}

#[test]
fn test_fixedpoint_round_trip() {
    let x = FixedPoint::from_num(12345);
    assert_eq!(x.bits, 12345u128 << 64);
    assert_eq!(x.floor_to_u64(), 12345);
    assert_eq!(x.ceil_to_u64(), Some(12345));
    let y = FixedPoint::from_bits(x.bits + 1);
    assert_eq!(y.floor_to_u64(), 12345);
    assert_eq!(y.ceil_to_u64(), Some(12346));
}

// 1.5 * 2 == 3 and 3 / 1.5 == 2, through the real fixed-point backend.
#[test]
fn test_fixedpoint_mul_div() {
    let one_and_half = FixedPoint::from_bits(SCALE + SCALE / 2);
    let two = FixedPoint::from_num(2);
    let three = one_and_half.checked_mul(two).unwrap();
    assert_eq!(three, FixedPoint::from_num(3));
    assert_eq!(three.checked_div(one_and_half).unwrap(), two);
    // overflow and division by zero report failure
    let max = FixedPoint::from_bits(u128::MAX);
    assert_eq!(max.checked_mul(two), None);
    assert_eq!(two.checked_div(FixedPoint::from_bits(0)), None);
    assert_eq!(max.checked_add(FixedPoint::from_bits(1)), None);
    assert_eq!(FixedPoint::from_bits(0).checked_sub(FixedPoint::from_bits(1)), None);
}

// An oracle median of 5,000,000 at two oracle decimals, six base and six
// quote decimals: the exact per-native-unit price bit pattern.
#[test]
fn test_get_prices_rescales_decimals() {
    let g = fresh_group();
    let medians = vec![5_000_000u64; NUM_MARKETS];
    let prices = get_prices(&g, &medians).unwrap();
    assert_eq!(prices.len(), NUM_TOKENS);
    assert_eq!(prices[0].bits, 922337203685477580000000);
    // the quote token's price is one by definition
    assert_eq!(prices[NUM_TOKENS - 1], FixedPoint::one());
}

// Open-order holdings count toward assets: base total at the market's
// price plus quote total and rebates.
#[test]
fn test_assets_val_includes_open_orders() {
    let g = fresh_group();
    let mut a = MarginAccount::new();
    a.deposits[NUM_TOKENS - 1] = FixedPoint::from_num(10);
    let mut oo: Vec<Option<OpenOrdersInfo>> = vec![None; NUM_MARKETS];
    oo[0] = Some(OpenOrdersInfo {
        native_coin_total: 7,
        native_pc_total: 20,
        referrer_rebates_accrued: 5,
    });
    let mut prices = vec![FixedPoint::one(); NUM_TOKENS];
    prices[0] = FixedPoint::from_num(3);
    let val = a.get_assets_val(&g, &prices, &oo).unwrap();
    // 10 quote + 7 * 3 + (20 + 5)
    assert_eq!(val, FixedPoint::from_num(56));
    let ratio = a.get_collateral_ratio(&g, &prices, &oo).unwrap();
    // no liabilities: the sentinel maximal ratio
    assert_eq!(ratio.bits, u128::MAX);
}

#[test]
fn test_equity_and_deficit() {
    let g = fresh_group();
    let mut a = MarginAccount::new();
    a.deposits[NUM_TOKENS - 1] = FixedPoint::from_num(100);
    a.borrows[0] = FixedPoint::from_num(80);
    let prices = vec![FixedPoint::one(); NUM_TOKENS];
    let oo = vec![None; NUM_MARKETS];
    let equity = a.get_equity(&g, &prices, &oo).unwrap();
    assert_eq!(equity, FixedPoint::from_num(20));
    // required: 80 * 1.2 = 96 < 100 assets, so no deficit
    assert_eq!(a.get_collateral_deficit(&g, &prices, &oo).unwrap(), 0);
    // with assets of 90: the stored initial ratio sits a few last-place
    // units below 1.2, so the required value is just under 96 and the
    // whole-unit deficit rounds down to 5
    a.deposits[NUM_TOKENS - 1] = FixedPoint::from_num(90);
    assert_eq!(a.get_collateral_deficit(&g, &prices, &oo).unwrap(), 5);
    // the partial-liquidation deficit is the same shortfall kept in
    // fixed-point form: just under six quote units
    let d = a.get_partial_liq_deficit(&g, &prices, &oo).unwrap();
    assert_eq!(d.bits, 110680464442257309680);
}

#[test]
fn test_deposit_and_withdraw_srm() {
    let mut g = fresh_group();
    let mut srm = MangoSrmAccount { amount: 0 };
    Processor::deposit_srm(&mut g, &mut srm, 500, 0).unwrap();
    assert_eq!(srm.amount, 500);
    Processor::withdraw_srm(&mut g, &mut srm, 100, 0).unwrap();
    assert_eq!(srm.amount, 400);
    // more than the balance is refused and changes nothing
    let r = Processor::withdraw_srm(&mut g, &mut srm, 1000, 0);
    assert_eq!(r, Err(MangoErrorCode::Default));
    assert_eq!(srm.amount, 400);
}

#[test]
fn test_check_assert() {
    assert_eq!(check_assert(true, MangoErrorCode::NotLiquidatable), Ok(()));
    assert_eq!(
        check_assert(false, MangoErrorCode::NotLiquidatable),
        Err(MangoErrorCode::NotLiquidatable)
    );
}

#[test]
fn test_convert_assertion_error() {
    let (line, file_id) = convert_assertion_error((1u32 << 24) | 1234);
    assert_eq!(line, 1234);
    assert_eq!(file_id, 1);
}

#[test]
fn test_account_flags() {
    assert_eq!(AccountFlag::Initialized.bits(), 1);
    assert_eq!(AccountFlag::MangoGroup.bits(), 2);
    assert_eq!(AccountFlag::MarginAccount.bits(), 4);
    assert_eq!(AccountFlag::MangoSrmAccount.bits(), 8);
}

#[test]
fn test_cluster_names_and_urls() {
    assert_eq!(Cluster::Devnet.name(), "devnet");
    assert_eq!(Cluster::Mainnet.name(), "mainnet-beta");
    assert_eq!(Cluster::Mainnet.url(), "https://api.mainnet-beta.solana.com");
    assert_eq!(Cluster::Localnet.url(), "http://127.0.0.1:8899");
}
