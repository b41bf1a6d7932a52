//! Collateral valuation: converts scaled balances and open-order holdings
//! into quote-currency asset and liability values and a collateral ratio.
//!
//! All sums run in a fixed order (markets, then tokens, or tokens alone)
//! and each specification mirror reproduces that order exactly, so the
//! error reported is the one of the first step that overflows.

use vstd::prelude::*;

use crate::error::MangoErrorCode;
use crate::error::MangoResult;
use crate::fixedpoint::FixedPoint;
use crate::fixedpoint::MAX_BITS;
use crate::fixedpoint::SCALE;
use crate::fixedpoint::sp_checked_add;
use crate::fixedpoint::sp_checked_sub;
use crate::fixedpoint::sp_checked_mul;
use crate::fixedpoint::sp_checked_div;
use crate::state::GroupV;
use crate::state::MangoGroup;
use crate::state::MarginAccount;
use crate::state::MarginAccountV;
use crate::state::NUM_MARKETS;
use crate::state::NUM_TOKENS;
use crate::state::OpenOrdersInfo;
use crate::state::sp_from_num;

verus! {

/// Scaled deposits of the first `t` tokens turned native: entry `i` is
/// `indexes[i].deposit * deposits[i]`.
pub open spec fn spec_assets_tokens(g: GroupV, a: MarginAccountV, t: int) -> Result<
    Seq<FixedPoint>,
    MangoErrorCode,
>
    decreases t,
{
    if t <= 0 {
        Ok(Seq::empty())
    } else {
        match spec_assets_tokens(g, a, t - 1) {
            Err(c) => Err(c),
            Ok(s) => match sp_checked_mul(g.indexes[t - 1].deposit, a.deposits[t - 1]) {
                None => Err(MangoErrorCode::ArithmeticError),
                Some(x) => Ok(s.push(x)),
            },
        }
    }
}

/// Adds the open-order holdings of the first `m` markets onto the asset
/// array: resting base quantity onto the market's token, resting quote
/// quantity plus accrued rebates onto the quote token.
pub open spec fn spec_assets_apply_markets(
    s: Seq<FixedPoint>,
    oo: Seq<Option<OpenOrdersInfo>>,
    m: int,
) -> Result<Seq<FixedPoint>, MangoErrorCode>
    decreases m,
{
    if m <= 0 {
        Ok(s)
    } else {
        match spec_assets_apply_markets(s, oo, m - 1) {
            Err(c) => Err(c),
            Ok(s1) => match oo[m - 1] {
                None => Ok(s1),
                Some(info) => match sp_checked_add(
                    sp_from_num(info.native_coin_total as int),
                    s1[m - 1],
                ) {
                    None => Err(MangoErrorCode::ArithmeticError),
                    Some(base) => {
                        if info.native_pc_total + info.referrer_rebates_accrued > u64::MAX {
                            Err(MangoErrorCode::ArithmeticError)
                        } else {
                            match sp_checked_add(
                                sp_from_num(
                                    info.native_pc_total + info.referrer_rebates_accrued,
                                ),
                                s1[NUM_TOKENS - 1],
                            ) {
                                None => Err(MangoErrorCode::ArithmeticError),
                                Some(quote) => Ok(
                                    s1.update(m - 1, base).update(NUM_TOKENS - 1, quote),
                                ),
                            }
                        }
                    },
                },
            },
        }
    }
}

/// What `get_assets` returns: native value of each token's deposits plus
/// the account's open-order holdings.
pub open spec fn spec_get_assets(
    g: GroupV,
    a: MarginAccountV,
    oo: Seq<Option<OpenOrdersInfo>>,
) -> Result<Seq<FixedPoint>, MangoErrorCode> {
    match spec_assets_tokens(g, a, NUM_TOKENS as int) {
        Err(c) => Err(c),
        Ok(s) => spec_assets_apply_markets(s, oo, NUM_MARKETS as int),
    }
}

/// What `get_liabs` returns: entry `i` is `indexes[i].borrow * borrows[i]`.
pub open spec fn spec_get_liabs(g: GroupV, a: MarginAccountV, t: int) -> Result<
    Seq<FixedPoint>,
    MangoErrorCode,
>
    decreases t,
{
    if t <= 0 {
        Ok(Seq::empty())
    } else {
        match spec_get_liabs(g, a, t - 1) {
            Err(c) => Err(c),
            Ok(s) => match sp_checked_mul(g.indexes[t - 1].borrow, a.borrows[t - 1]) {
                None => Err(MangoErrorCode::ArithmeticError),
                Some(x) => Ok(s.push(x)),
            },
        }
    }
}

/// Quote value of the open-order holdings of the first `m` markets.
pub open spec fn spec_assets_val_markets(
    oo: Seq<Option<OpenOrdersInfo>>,
    prices: Seq<FixedPoint>,
    m: int,
) -> Result<FixedPoint, MangoErrorCode>
    decreases m,
{
    if m <= 0 {
        Ok(FixedPoint { bits: 0 })
    } else {
        match spec_assets_val_markets(oo, prices, m - 1) {
            Err(c) => Err(c),
            Ok(acc) => match oo[m - 1] {
                None => Ok(acc),
                Some(info) => match sp_checked_mul(
                    sp_from_num(info.native_coin_total as int),
                    prices[m - 1],
                ) {
                    None => Err(MangoErrorCode::ArithmeticError),
                    Some(base_val) => {
                        if info.native_pc_total + info.referrer_rebates_accrued > u64::MAX {
                            Err(MangoErrorCode::ArithmeticError)
                        } else {
                            match sp_checked_add(
                                base_val,
                                sp_from_num(
                                    info.native_pc_total + info.referrer_rebates_accrued,
                                ),
                            ) {
                                None => Err(MangoErrorCode::ArithmeticError),
                                Some(with_quote) => match sp_checked_add(with_quote, acc) {
                                    None => Err(MangoErrorCode::ArithmeticError),
                                    Some(r) => Ok(r),
                                },
                            }
                        }
                    },
                },
            },
        }
    }
}

/// Quote value of open-order holdings plus the first `t` tokens' deposits.
pub open spec fn spec_assets_val_tokens(
    g: GroupV,
    a: MarginAccountV,
    prices: Seq<FixedPoint>,
    oo: Seq<Option<OpenOrdersInfo>>,
    t: int,
) -> Result<FixedPoint, MangoErrorCode>
    decreases t,
{
    if t <= 0 {
        spec_assets_val_markets(oo, prices, NUM_MARKETS as int)
    } else {
        match spec_assets_val_tokens(g, a, prices, oo, t - 1) {
            Err(c) => Err(c),
            Ok(acc) => match sp_checked_mul(g.indexes[t - 1].deposit, a.deposits[t - 1]) {
                None => Err(MangoErrorCode::ArithmeticError),
                Some(native_deposits) => match sp_checked_mul(native_deposits, prices[t - 1]) {
                    None => Err(MangoErrorCode::ArithmeticError),
                    Some(v) => match sp_checked_add(v, acc) {
                        None => Err(MangoErrorCode::ArithmeticError),
                        Some(r) => Ok(r),
                    },
                },
            },
        }
    }
}

/// What `get_assets_val` returns.
pub open spec fn spec_assets_val(
    g: GroupV,
    a: MarginAccountV,
    prices: Seq<FixedPoint>,
    oo: Seq<Option<OpenOrdersInfo>>,
) -> Result<FixedPoint, MangoErrorCode> {
    spec_assets_val_tokens(g, a, prices, oo, NUM_TOKENS as int)
}

/// Quote value of the first `t` tokens' borrows.
pub open spec fn spec_liabs_val_tokens(
    g: GroupV,
    a: MarginAccountV,
    prices: Seq<FixedPoint>,
    t: int,
) -> Result<FixedPoint, MangoErrorCode>
    decreases t,
{
    if t <= 0 {
        Ok(FixedPoint { bits: 0 })
    } else {
        match spec_liabs_val_tokens(g, a, prices, t - 1) {
            Err(c) => Err(c),
            Ok(acc) => match sp_checked_mul(g.indexes[t - 1].borrow, a.borrows[t - 1]) {
                None => Err(MangoErrorCode::ArithmeticError),
                Some(native_borrows) => match sp_checked_mul(native_borrows, prices[t - 1]) {
                    None => Err(MangoErrorCode::ArithmeticError),
                    Some(v) => match sp_checked_add(acc, v) {
                        None => Err(MangoErrorCode::ArithmeticError),
                        Some(r) => Ok(r),
                    },
                },
            },
        }
    }
}

/// What `get_liabs_val` returns.
pub open spec fn spec_liabs_val(
    g: GroupV,
    a: MarginAccountV,
    prices: Seq<FixedPoint>,
) -> Result<FixedPoint, MangoErrorCode> {
    spec_liabs_val_tokens(g, a, prices, NUM_TOKENS as int)
}

/// Assets over liabilities; the maximal value when there is no liability.
pub open spec fn spec_ratio_of(av: FixedPoint, lv: FixedPoint) -> Result<
    FixedPoint,
    MangoErrorCode,
> {
    if lv.bits == 0 {
        Ok(FixedPoint { bits: MAX_BITS })
    } else {
        match sp_checked_div(av, lv) {
            None => Err(MangoErrorCode::ArithmeticError),
            Some(r) => Ok(r),
        }
    }
}

/// What `get_collateral_ratio` returns.
pub open spec fn spec_collateral_ratio(
    g: GroupV,
    a: MarginAccountV,
    prices: Seq<FixedPoint>,
    oo: Seq<Option<OpenOrdersInfo>>,
) -> Result<FixedPoint, MangoErrorCode> {
    match spec_assets_val(g, a, prices, oo) {
        Err(c) => Err(c),
        Ok(av) => match spec_liabs_val(g, a, prices) {
            Err(c) => Err(c),
            Ok(lv) => spec_ratio_of(av, lv),
        },
    }
}

/// Quote values of given per-token asset and liability arrays.
pub open spec fn spec_vals_of_arrays(
    prices: Seq<FixedPoint>,
    assets: Seq<FixedPoint>,
    liabs: Seq<FixedPoint>,
    t: int,
) -> Result<(FixedPoint, FixedPoint), MangoErrorCode>
    decreases t,
{
    if t <= 0 {
        Ok((FixedPoint { bits: 0 }, FixedPoint { bits: 0 }))
    } else {
        match spec_vals_of_arrays(prices, assets, liabs, t - 1) {
            Err(c) => Err(c),
            Ok((av, lv)) => match sp_checked_mul(liabs[t - 1], prices[t - 1]) {
                None => Err(MangoErrorCode::ArithmeticError),
                Some(lx) => match sp_checked_add(lx, lv) {
                    None => Err(MangoErrorCode::ArithmeticError),
                    Some(lv1) => match sp_checked_mul(assets[t - 1], prices[t - 1]) {
                        None => Err(MangoErrorCode::ArithmeticError),
                        Some(ax) => match sp_checked_add(ax, av) {
                            None => Err(MangoErrorCode::ArithmeticError),
                            Some(av1) => Ok((av1, lv1)),
                        },
                    },
                },
            },
        }
    }
}

/// What `coll_ratio_from_assets_liabs` returns.
pub open spec fn spec_coll_ratio_from_assets_liabs(
    prices: Seq<FixedPoint>,
    assets: Seq<FixedPoint>,
    liabs: Seq<FixedPoint>,
) -> Result<FixedPoint, MangoErrorCode> {
    match spec_vals_of_arrays(prices, assets, liabs, NUM_TOKENS as int) {
        Err(c) => Err(c),
        Ok((av, lv)) => spec_ratio_of(av, lv),
    }
}

/// What `get_equity` returns: assets minus liabilities, floored at zero.
pub open spec fn spec_equity(
    g: GroupV,
    a: MarginAccountV,
    prices: Seq<FixedPoint>,
    oo: Seq<Option<OpenOrdersInfo>>,
) -> Result<FixedPoint, MangoErrorCode> {
    match spec_assets_val(g, a, prices, oo) {
        Err(c) => Err(c),
        Ok(av) => match spec_liabs_val(g, a, prices) {
            Err(c) => Err(c),
            Ok(lv) => {
                if lv.bits > av.bits {
                    Ok(FixedPoint { bits: 0 })
                } else {
                    Ok(FixedPoint { bits: (av.bits - lv.bits) as u128 })
                }
            },
        },
    }
}

/// What `get_collateral_deficit` returns: the whole quote units needed to
/// bring the account back to the initial collateral ratio, zero when it is
/// already there.
pub open spec fn spec_collateral_deficit(
    g: GroupV,
    a: MarginAccountV,
    prices: Seq<FixedPoint>,
    oo: Seq<Option<OpenOrdersInfo>>,
) -> Result<u64, MangoErrorCode> {
    match spec_assets_val(g, a, prices, oo) {
        Err(c) => Err(c),
        Ok(av) => match spec_liabs_val(g, a, prices) {
            Err(c) => Err(c),
            Ok(lv) => {
                if lv.bits == 0 {
                    Ok(0u64)
                } else {
                    match sp_checked_mul(lv, g.init_coll_ratio) {
                        None => Err(MangoErrorCode::ArithmeticError),
                        Some(req) => {
                            if av.bits >= req.bits {
                                Ok(0u64)
                            } else {
                                Ok((((req.bits - av.bits) as u128) / SCALE) as u64)
                            }
                        },
                    }
                }
            },
        },
    }
}

/// What `get_partial_liq_deficit` returns: how far the account's assets
/// value falls short of `liabs_val * init_coll_ratio`, zero when the
/// account already meets the initial ratio.
pub open spec fn spec_partial_liq_deficit(
    g: GroupV,
    a: MarginAccountV,
    prices: Seq<FixedPoint>,
    oo: Seq<Option<OpenOrdersInfo>>,
) -> Result<FixedPoint, MangoErrorCode> {
    match spec_assets_val(g, a, prices, oo) {
        Err(c) => Err(c),
        Ok(av) => match spec_liabs_val(g, a, prices) {
            Err(c) => Err(c),
            Ok(lv) => {
                if lv.bits == 0 {
                    Ok(FixedPoint { bits: 0 })
                } else {
                    match sp_checked_mul(lv, g.init_coll_ratio) {
                        None => Err(MangoErrorCode::ArithmeticError),
                        Some(req) => {
                            if av.bits >= req.bits {
                                Ok(FixedPoint { bits: 0 })
                            } else {
                                Ok(FixedPoint { bits: (req.bits - av.bits) as u128 })
                            }
                        },
                    }
                }
            },
        },
    }
}

/// The per-token asset array has one entry per token considered.
proof fn lemma_assets_tokens_len(g: GroupV, a: MarginAccountV, t: int)
    requires
        t >= 0,
    ensures
        spec_assets_tokens(g, a, t) matches Ok(s) ==> s.len() == t,
    decreases t,
{
    if t > 0 {
        lemma_assets_tokens_len(g, a, t - 1);
    }
}

/// Folding open-order holdings into the asset array keeps its length.
proof fn lemma_apply_markets_len(s: Seq<FixedPoint>, oo: Seq<Option<OpenOrdersInfo>>, m: int)
    requires
        0 <= m <= NUM_MARKETS,
        s.len() == NUM_TOKENS,
    ensures
        spec_assets_apply_markets(s, oo, m) matches Ok(s2) ==> s2.len() == s.len(),
    decreases m,
{
    if m > 0 {
        lemma_apply_markets_len(s, oo, m - 1);
    }
}

/// A successful asset valuation has one entry per token.
pub proof fn lemma_get_assets_len(g: GroupV, a: MarginAccountV, oo: Seq<Option<OpenOrdersInfo>>)
    ensures
        spec_get_assets(g, a, oo) matches Ok(s) ==> s.len() == NUM_TOKENS,
{
    lemma_assets_tokens_len(g, a, NUM_TOKENS as int);
    match spec_assets_tokens(g, a, NUM_TOKENS as int) {
        Err(_) => {},
        Ok(s) => {
            lemma_apply_markets_len(s, oo, NUM_MARKETS as int);
        },
    }
}

/// A successful liability valuation has one entry per token.
pub proof fn lemma_get_liabs_len(g: GroupV, a: MarginAccountV, t: int)
    requires
        t >= 0,
    ensures
        spec_get_liabs(g, a, t) matches Ok(s) ==> s.len() == t,
    decreases t,
{
    if t > 0 {
        lemma_get_liabs_len(g, a, t - 1);
    }
}

fn assets_tokens_rec(g: &MangoGroup, a: &MarginAccount, t: usize) -> (r: MangoResult<
    Vec<FixedPoint>,
>)
    requires
        g.wf(),
        a.wf(),
        t <= NUM_TOKENS,
    ensures
        match spec_assets_tokens(g@, a@, t as int) {
            Ok(s) => r is Ok && r->Ok_0@ == s,
            Err(c) => r == Err::<Vec<FixedPoint>, MangoErrorCode>(c),
        },
    decreases t,
{
    if t == 0 {
        let v: Vec<FixedPoint> = Vec::new();
        proof {
            assert(v@ =~= Seq::<FixedPoint>::empty());
        }
        Ok(v)
    } else {
        let mut s = assets_tokens_rec(g, a, t - 1)?;
        match g.indexes[t - 1].deposit.checked_mul(a.deposits[t - 1]) {
            None => Err(MangoErrorCode::ArithmeticError),
            Some(x) => {
                s.push(x);
                Ok(s)
            },
        }
    }
}

fn assets_apply_markets_rec(
    s: Vec<FixedPoint>,
    oo: &Vec<Option<OpenOrdersInfo>>,
    m: usize,
) -> (r: MangoResult<Vec<FixedPoint>>)
    requires
        s@.len() == NUM_TOKENS,
        oo@.len() == NUM_MARKETS,
        m <= NUM_MARKETS,
    ensures
        match spec_assets_apply_markets(s@, oo@, m as int) {
            Ok(s2) => r is Ok && r->Ok_0@ == s2,
            Err(c) => r == Err::<Vec<FixedPoint>, MangoErrorCode>(c),
        },
    decreases m,
{
    if m == 0 {
        Ok(s)
    } else {
        proof {
            lemma_apply_markets_len(s@, oo@, m - 1);
        }
        let mut s1 = assets_apply_markets_rec(s, oo, m - 1)?;
        match oo[m - 1] {
            None => Ok(s1),
            Some(info) => {
                let base = match FixedPoint::from_num(info.native_coin_total).checked_add(
                    s1[m - 1],
                ) {
                    None => {
                        return Err(MangoErrorCode::ArithmeticError);
                    },
                    Some(x) => x,
                };
                let total_quote = match info.native_pc_total.checked_add(
                    info.referrer_rebates_accrued,
                ) {
                    None => {
                        return Err(MangoErrorCode::ArithmeticError);
                    },
                    Some(x) => x,
                };
                let quote = match FixedPoint::from_num(total_quote).checked_add(
                    s1[NUM_TOKENS - 1],
                ) {
                    None => {
                        return Err(MangoErrorCode::ArithmeticError);
                    },
                    Some(x) => x,
                };
                s1[m - 1] = base;
                s1[NUM_TOKENS - 1] = quote;
                Ok(s1)
            },
        }
    }
}

fn liabs_tokens_rec(g: &MangoGroup, a: &MarginAccount, t: usize) -> (r: MangoResult<
    Vec<FixedPoint>,
>)
    requires
        g.wf(),
        a.wf(),
        t <= NUM_TOKENS,
    ensures
        match spec_get_liabs(g@, a@, t as int) {
            Ok(s) => r is Ok && r->Ok_0@ == s,
            Err(c) => r == Err::<Vec<FixedPoint>, MangoErrorCode>(c),
        },
    decreases t,
{
    if t == 0 {
        let v: Vec<FixedPoint> = Vec::new();
        proof {
            assert(v@ =~= Seq::<FixedPoint>::empty());
        }
        Ok(v)
    } else {
        let mut s = liabs_tokens_rec(g, a, t - 1)?;
        match g.indexes[t - 1].borrow.checked_mul(a.borrows[t - 1]) {
            None => Err(MangoErrorCode::ArithmeticError),
            Some(x) => {
                s.push(x);
                Ok(s)
            },
        }
    }
}

fn assets_val_markets_rec(
    oo: &Vec<Option<OpenOrdersInfo>>,
    prices: &Vec<FixedPoint>,
    m: usize,
) -> (r: MangoResult<FixedPoint>)
    requires
        oo@.len() == NUM_MARKETS,
        prices@.len() == NUM_TOKENS,
        m <= NUM_MARKETS,
    ensures
        r == spec_assets_val_markets(oo@, prices@, m as int),
    decreases m,
{
    if m == 0 {
        Ok(FixedPoint::zero())
    } else {
        let acc = assets_val_markets_rec(oo, prices, m - 1)?;
        match oo[m - 1] {
            None => Ok(acc),
            Some(info) => {
                let base_val = match FixedPoint::from_num(info.native_coin_total).checked_mul(
                    prices[m - 1],
                ) {
                    None => {
                        return Err(MangoErrorCode::ArithmeticError);
                    },
                    Some(x) => x,
                };
                let total_quote = match info.native_pc_total.checked_add(
                    info.referrer_rebates_accrued,
                ) {
                    None => {
                        return Err(MangoErrorCode::ArithmeticError);
                    },
                    Some(x) => x,
                };
                let with_quote = match base_val.checked_add(FixedPoint::from_num(total_quote)) {
                    None => {
                        return Err(MangoErrorCode::ArithmeticError);
                    },
                    Some(x) => x,
                };
                match with_quote.checked_add(acc) {
                    None => Err(MangoErrorCode::ArithmeticError),
                    Some(r) => Ok(r),
                }
            },
        }
    }
}

fn assets_val_tokens_rec(
    g: &MangoGroup,
    a: &MarginAccount,
    prices: &Vec<FixedPoint>,
    oo: &Vec<Option<OpenOrdersInfo>>,
    t: usize,
) -> (r: MangoResult<FixedPoint>)
    requires
        g.wf(),
        a.wf(),
        prices@.len() == NUM_TOKENS,
        oo@.len() == NUM_MARKETS,
        t <= NUM_TOKENS,
    ensures
        r == spec_assets_val_tokens(g@, a@, prices@, oo@, t as int),
    decreases t,
{
    if t == 0 {
        assets_val_markets_rec(oo, prices, NUM_MARKETS)
    } else {
        let acc = assets_val_tokens_rec(g, a, prices, oo, t - 1)?;
        let native_deposits = match g.indexes[t - 1].deposit.checked_mul(a.deposits[t - 1]) {
            None => {
                return Err(MangoErrorCode::ArithmeticError);
            },
            Some(x) => x,
        };
        let v = match native_deposits.checked_mul(prices[t - 1]) {
            None => {
                return Err(MangoErrorCode::ArithmeticError);
            },
            Some(x) => x,
        };
        match v.checked_add(acc) {
            None => Err(MangoErrorCode::ArithmeticError),
            Some(r) => Ok(r),
        }
    }
}

fn liabs_val_tokens_rec(
    g: &MangoGroup,
    a: &MarginAccount,
    prices: &Vec<FixedPoint>,
    t: usize,
) -> (r: MangoResult<FixedPoint>)
    requires
        g.wf(),
        a.wf(),
        prices@.len() == NUM_TOKENS,
        t <= NUM_TOKENS,
    ensures
        r == spec_liabs_val_tokens(g@, a@, prices@, t as int),
    decreases t,
{
    if t == 0 {
        Ok(FixedPoint::zero())
    } else {
        let acc = liabs_val_tokens_rec(g, a, prices, t - 1)?;
        let native_borrows = match g.indexes[t - 1].borrow.checked_mul(a.borrows[t - 1]) {
            None => {
                return Err(MangoErrorCode::ArithmeticError);
            },
            Some(x) => x,
        };
        let v = match native_borrows.checked_mul(prices[t - 1]) {
            None => {
                return Err(MangoErrorCode::ArithmeticError);
            },
            Some(x) => x,
        };
        match acc.checked_add(v) {
            None => Err(MangoErrorCode::ArithmeticError),
            Some(r) => Ok(r),
        }
    }
}

fn vals_of_arrays_rec(
    prices: &Vec<FixedPoint>,
    assets: &Vec<FixedPoint>,
    liabs: &Vec<FixedPoint>,
    t: usize,
) -> (r: MangoResult<(FixedPoint, FixedPoint)>)
    requires
        prices@.len() == NUM_TOKENS,
        assets@.len() == NUM_TOKENS,
        liabs@.len() == NUM_TOKENS,
        t <= NUM_TOKENS,
    ensures
        r == spec_vals_of_arrays(prices@, assets@, liabs@, t as int),
    decreases t,
{
    if t == 0 {
        Ok((FixedPoint::zero(), FixedPoint::zero()))
    } else {
        let (av, lv) = vals_of_arrays_rec(prices, assets, liabs, t - 1)?;
        let lx = match liabs[t - 1].checked_mul(prices[t - 1]) {
            None => {
                return Err(MangoErrorCode::ArithmeticError);
            },
            Some(x) => x,
        };
        let lv1 = match lx.checked_add(lv) {
            None => {
                return Err(MangoErrorCode::ArithmeticError);
            },
            Some(x) => x,
        };
        let ax = match assets[t - 1].checked_mul(prices[t - 1]) {
            None => {
                return Err(MangoErrorCode::ArithmeticError);
            },
            Some(x) => x,
        };
        match ax.checked_add(av) {
            None => Err(MangoErrorCode::ArithmeticError),
            Some(av1) => Ok((av1, lv1)),
        }
    }
}

/// Assets over liabilities; the maximal value when there is no liability.
fn ratio_of(av: FixedPoint, lv: FixedPoint) -> (r: MangoResult<FixedPoint>)
    ensures
        r == spec_ratio_of(av, lv),
{
    if lv.is_zero() {
        Ok(FixedPoint::from_bits(MAX_BITS))
    } else {
        match av.checked_div(lv) {
            None => Err(MangoErrorCode::ArithmeticError),
            Some(r) => Ok(r),
        }
    }
}

impl MarginAccount {
    /// Native per-token asset quantities: deposits brought to native units
    /// plus open-order holdings (base on the market's token, quote and
    /// rebates on the quote token).
    pub fn get_assets(
        &self,
        mango_group: &MangoGroup,
        open_orders_accs: &Vec<Option<OpenOrdersInfo>>,
    ) -> (r: MangoResult<Vec<FixedPoint>>)
        requires
            self.wf(),
            mango_group.wf(),
            open_orders_accs@.len() == NUM_MARKETS,
        ensures
            match spec_get_assets(mango_group@, self@, open_orders_accs@) {
                Ok(s) => r is Ok && r->Ok_0@ == s,
                Err(c) => r == Err::<Vec<FixedPoint>, MangoErrorCode>(c),
            },
    {
        proof {
            lemma_assets_tokens_len(mango_group@, self@, NUM_TOKENS as int);
        }
        let s = assets_tokens_rec(mango_group, self, NUM_TOKENS)?;
        assets_apply_markets_rec(s, open_orders_accs, NUM_MARKETS)
    }

    /// Native per-token liability quantities: borrows brought to native
    /// units.
    pub fn get_liabs(&self, mango_group: &MangoGroup) -> (r: MangoResult<Vec<FixedPoint>>)
        requires
            self.wf(),
            mango_group.wf(),
        ensures
            match spec_get_liabs(mango_group@, self@, NUM_TOKENS as int) {
                Ok(s) => r is Ok && r->Ok_0@ == s,
                Err(c) => r == Err::<Vec<FixedPoint>, MangoErrorCode>(c),
            },
    {
        liabs_tokens_rec(mango_group, self, NUM_TOKENS)
    }

    /// Quote-currency value of all assets, open orders included.
    pub fn get_assets_val(
        &self,
        mango_group: &MangoGroup,
        prices: &Vec<FixedPoint>,
        open_orders_accs: &Vec<Option<OpenOrdersInfo>>,
    ) -> (r: MangoResult<FixedPoint>)
        requires
            self.wf(),
            mango_group.wf(),
            prices@.len() == NUM_TOKENS,
            open_orders_accs@.len() == NUM_MARKETS,
        ensures
            r == spec_assets_val(mango_group@, self@, prices@, open_orders_accs@),
    {
        assets_val_tokens_rec(mango_group, self, prices, open_orders_accs, NUM_TOKENS)
    }

    /// Quote-currency value of all liabilities.
    pub fn get_liabs_val(&self, mango_group: &MangoGroup, prices: &Vec<FixedPoint>) -> (r:
        MangoResult<FixedPoint>)
        requires
            self.wf(),
            mango_group.wf(),
            prices@.len() == NUM_TOKENS,
        ensures
            r == spec_liabs_val(mango_group@, self@, prices@),
    {
        liabs_val_tokens_rec(mango_group, self, prices, NUM_TOKENS)
    }

    /// Assets value over liabilities value; maximal when there is nothing
    /// owed.
    pub fn get_collateral_ratio(
        &self,
        mango_group: &MangoGroup,
        prices: &Vec<FixedPoint>,
        open_orders_accs: &Vec<Option<OpenOrdersInfo>>,
    ) -> (r: MangoResult<FixedPoint>)
        requires
            self.wf(),
            mango_group.wf(),
            prices@.len() == NUM_TOKENS,
            open_orders_accs@.len() == NUM_MARKETS,
        ensures
            r == spec_collateral_ratio(mango_group@, self@, prices@, open_orders_accs@),
    {
        let av = self.get_assets_val(mango_group, prices, open_orders_accs)?;
        let lv = self.get_liabs_val(mango_group, prices)?;
        ratio_of(av, lv)
    }

    /// The collateral ratio of explicitly given per-token asset and
    /// liability arrays.
    pub fn coll_ratio_from_assets_liabs(
        &self,
        prices: &Vec<FixedPoint>,
        assets: &Vec<FixedPoint>,
        liabs: &Vec<FixedPoint>,
    ) -> (r: MangoResult<FixedPoint>)
        requires
            prices@.len() == NUM_TOKENS,
            assets@.len() == NUM_TOKENS,
            liabs@.len() == NUM_TOKENS,
        ensures
            r == spec_coll_ratio_from_assets_liabs(prices@, assets@, liabs@),
    {
        let (av, lv) = vals_of_arrays_rec(prices, assets, liabs, NUM_TOKENS)?;
        ratio_of(av, lv)
    }

    /// Assets value minus liabilities value, floored at zero.
    pub fn get_equity(
        &self,
        mango_group: &MangoGroup,
        prices: &Vec<FixedPoint>,
        open_orders_accs: &Vec<Option<OpenOrdersInfo>>,
    ) -> (r: MangoResult<FixedPoint>)
        requires
            self.wf(),
            mango_group.wf(),
            prices@.len() == NUM_TOKENS,
            open_orders_accs@.len() == NUM_MARKETS,
        ensures
            r == spec_equity(mango_group@, self@, prices@, open_orders_accs@),
    {
        let assets = self.get_assets_val(mango_group, prices, open_orders_accs)?;
        let liabs = self.get_liabs_val(mango_group, prices)?;
        if liabs.bits > assets.bits {
            Ok(FixedPoint::zero())
        } else {
            Ok(FixedPoint::from_bits(assets.bits - liabs.bits))
        }
    }

    /// Whole quote units of deposit needed to get the account back above
    /// the initial collateral ratio.
    pub fn get_collateral_deficit(
        &self,
        mango_group: &MangoGroup,
        prices: &Vec<FixedPoint>,
        open_orders_accs: &Vec<Option<OpenOrdersInfo>>,
    ) -> (r: MangoResult<u64>)
        requires
            self.wf(),
            mango_group.wf(),
            prices@.len() == NUM_TOKENS,
            open_orders_accs@.len() == NUM_MARKETS,
        ensures
            r == spec_collateral_deficit(mango_group@, self@, prices@, open_orders_accs@),
    {
        let assets = self.get_assets_val(mango_group, prices, open_orders_accs)?;
        let liabs = self.get_liabs_val(mango_group, prices)?;
        if liabs.is_zero() {
            return Ok(0u64);
        }
        let required = match liabs.checked_mul(mango_group.init_coll_ratio) {
            None => {
                return Err(MangoErrorCode::ArithmeticError);
            },
            Some(x) => x,
        };
        if assets.bits >= required.bits {
            Ok(0u64)
        } else {
            Ok(FixedPoint::from_bits(required.bits - assets.bits).floor_to_u64())
        }
    }

    /// How far the account's assets value falls short of
    /// `liabs_val * init_coll_ratio`, as a fixed-point quote value.
    pub fn get_partial_liq_deficit(
        &self,
        mango_group: &MangoGroup,
        prices: &Vec<FixedPoint>,
        open_orders_accs: &Vec<Option<OpenOrdersInfo>>,
    ) -> (r: MangoResult<FixedPoint>)
        requires
            self.wf(),
            mango_group.wf(),
            prices@.len() == NUM_TOKENS,
            open_orders_accs@.len() == NUM_MARKETS,
        ensures
            r == spec_partial_liq_deficit(mango_group@, self@, prices@, open_orders_accs@),
    {
        let assets = self.get_assets_val(mango_group, prices, open_orders_accs)?;
        let liabs = self.get_liabs_val(mango_group, prices)?;
        if liabs.is_zero() {
            return Ok(FixedPoint::zero());
        }
        let required = match liabs.checked_mul(mango_group.init_coll_ratio) {
            None => {
                return Err(MangoErrorCode::ArithmeticError);
            },
            Some(x) => x,
        };
        if assets.bits >= required.bits {
            return Ok(FixedPoint::zero());
        }
        Ok(FixedPoint::from_bits(required.bits - assets.bits))
    }
}

} // verus!
