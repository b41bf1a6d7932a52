//! The engine's stated properties, proved once and for all inputs.
//!
//! Each public proof function here is a law of the engine: its `requires`
//! holds only what the law assumes, and its `ensures` states the law over
//! the same specification mirrors that the executable operations are
//! proved against.

use vstd::prelude::*;

use crate::error::MangoErrorCode;
use crate::fixedpoint::FixedPoint;
use crate::fixedpoint::SCALE;
use crate::fixedpoint::fp_div;
use crate::fixedpoint::fp_mul;
use crate::fixedpoint::sp_checked_mul;
use crate::state::GroupV;
use crate::state::MangoIndex;
use crate::state::MarginAccountV;
use crate::state::NUM_TOKENS;
use crate::state::OPTIMAL_R;
use crate::state::OPTIMAL_UTIL;
use crate::state::MAX_R;
use crate::state::spec_interest_rate;
use crate::state::spec_rate_from_utilization;
use crate::state::spec_update_indexes;
use crate::state::spec_update_indexes_upto;
use crate::state::spec_update_token;
use crate::state::spec_has_valid_deposits_borrows;
use crate::processor::spec_borrow;
use crate::processor::spec_checked_add_deposit;
use crate::processor::spec_deposit;
use crate::processor::spec_settle_borrow_full_unchecked;
use crate::processor::spec_socialize_loss;
use crate::processor::spec_socialize_upto;
use crate::processor::spec_withdraw;
use crate::valuation::spec_collateral_ratio;

verus! {

/// The pool-solvency gap of one token, in raw bit-product units (a native
/// token unit corresponds to `SCALE * SCALE` of these): how far the native
/// value of all deposits exceeds the native value of all borrows.
pub open spec fn solvency_gap(g: GroupV, i: int) -> int {
    g.total_deposits[i].bits * g.indexes[i].deposit.bits - g.total_borrows[i].bits
        * g.indexes[i].borrow.bits
}

/// One token's accrual step never decreases either of its indexes.
proof fn lemma_update_token_monotone(g: GroupV, i: int, now: u64)
    requires
        g.wf(),
        0 <= i < NUM_TOKENS,
        spec_update_token(g, i, now) is Ok,
    ensures
        spec_update_token(g, i, now)->Ok_0.borrow.bits >= g.indexes[i].borrow.bits,
        spec_update_token(g, i, now)->Ok_0.deposit.bits >= g.indexes[i].deposit.bits,
{
}

/// A failed prefix of the accrual pass decides the whole pass.
proof fn lemma_upto_err_propagates(g: GroupV, n: int, m: int, now: u64)
    requires
        0 <= n <= m,
        spec_update_indexes_upto(g, n, now) is Err,
    ensures
        spec_update_indexes_upto(g, m, now) == spec_update_indexes_upto(g, n, now),
    decreases m,
{
    if m > n {
        lemma_upto_err_propagates(g, n, m - 1, now);
    }
}

/// Shape of a successful accrual prefix: only the indexes of the tokens
/// already passed have changed, and none of them has decreased.
proof fn lemma_upto_shape(g: GroupV, n: int, now: u64)
    requires
        g.wf(),
        0 <= n <= NUM_TOKENS,
        spec_update_indexes_upto(g, n, now) is Ok,
    ensures
        ({
            let g1 = spec_update_indexes_upto(g, n, now)->Ok_0;
            &&& g1.wf()
            &&& g1.total_deposits == g.total_deposits
            &&& g1.total_borrows == g.total_borrows
            &&& g1.maint_coll_ratio == g.maint_coll_ratio
            &&& g1.init_coll_ratio == g.init_coll_ratio
            &&& g1.borrow_limits == g.borrow_limits
            &&& g1.mint_decimals == g.mint_decimals
            &&& g1.oracle_decimals == g.oracle_decimals
            &&& forall|j: int| n <= j < NUM_TOKENS ==> g1.indexes[j] == g.indexes[j]
            &&& forall|j: int|
                0 <= j < n ==> g1.indexes[j].borrow.bits >= g.indexes[j].borrow.bits
            &&& forall|j: int|
                0 <= j < n ==> g1.indexes[j].deposit.bits >= g.indexes[j].deposit.bits
        }),
    decreases n,
{
    if n > 0 {
        match spec_update_indexes_upto(g, n - 1, now) {
            Err(_) => {
                lemma_upto_err_propagates(g, n - 1, n, now);
            },
            Ok(g1) => {
                lemma_upto_shape(g, n - 1, now);
                lemma_update_token_monotone(g1, n - 1, now);
            },
        }
    }
}

/// LAW (index monotonicity): under a successful `update_indexes` pass,
/// every token's borrow index and deposit index are non-decreasing; the
/// scaled totals and the risk parameters do not change at all.
pub proof fn law_update_indexes_monotone(g: GroupV, now: u64)
    requires
        g.wf(),
        spec_update_indexes(g, now) is Ok,
    ensures
        ({
            let g1 = spec_update_indexes(g, now)->Ok_0;
            &&& forall|i: int|
                0 <= i < NUM_TOKENS ==> g1.indexes[i].borrow.bits >= g.indexes[i].borrow.bits
            &&& forall|i: int|
                0 <= i < NUM_TOKENS ==> g1.indexes[i].deposit.bits >= g.indexes[i].deposit.bits
            &&& g1.total_deposits == g.total_deposits
            &&& g1.total_borrows == g.total_borrows
        }),
{
    lemma_upto_shape(g, NUM_TOKENS as int, now);
}

/// LAW (loss socialization is exact): socializing a loss reduces the
/// token's deposit index by exactly the proportional fraction
/// `reduce_quantity_native / total_deposits_native` of its value (each
/// step rounded down), leaves its borrow index alone, and touches no
/// other token's index.  This is the only operation that lowers an index.
pub proof fn law_socialize_loss_exact(
    g: GroupV,
    a: MarginAccountV,
    i: int,
    reduce_quantity_native: FixedPoint,
    total_deposits_native: FixedPoint,
)
    requires
        g.wf(),
        a.wf(),
        0 <= i < NUM_TOKENS,
        spec_socialize_loss(g, a, i, reduce_quantity_native, total_deposits_native) is Ok,
    ensures
        ({
            let (g2, a2) = spec_socialize_loss(
                g,
                a,
                i,
                reduce_quantity_native,
                total_deposits_native,
            )->Ok_0;
            let percentage_loss = fp_div(
                reduce_quantity_native.bits as int,
                total_deposits_native.bits as int,
            );
            &&& g2.indexes[i].deposit.bits == g.indexes[i].deposit.bits - fp_mul(
                percentage_loss,
                g.indexes[i].deposit.bits as int,
            )
            &&& g2.indexes[i].borrow == g.indexes[i].borrow
            &&& forall|j: int| 0 <= j < NUM_TOKENS && j != i ==> g2.indexes[j] == g.indexes[j]
            &&& a2.borrows[i].bits == a.borrows[i].bits - fp_div(
                reduce_quantity_native.bits as int,
                g.indexes[i].borrow.bits as int,
            )
            &&& g2.total_borrows[i].bits == g.total_borrows[i].bits - fp_div(
                reduce_quantity_native.bits as int,
                g.indexes[i].borrow.bits as int,
            )
        }),
{
    if g.indexes[i].borrow.bits == 0 {
        assert(false);
    }
    crate::fixedpoint::lemma_fp_div_nonneg(
        reduce_quantity_native.bits as int,
        g.indexes[i].borrow.bits as int,
    );
}

/// A wholly skipped accrual pass (every token already current at `now`)
/// changes nothing.
proof fn lemma_upto_skip(g: GroupV, n: int, now: u64)
    requires
        g.wf(),
        0 <= n <= NUM_TOKENS,
        forall|i: int| 0 <= i < NUM_TOKENS ==> g.indexes[i].last_update == now,
        spec_update_indexes_upto(g, n, now) is Ok,
    ensures
        spec_update_indexes_upto(g, n, now) == Ok::<GroupV, MangoErrorCode>(g),
    decreases n,
{
    if n > 0 {
        match spec_update_indexes_upto(g, n - 1, now) {
            Err(_) => {
                lemma_upto_err_propagates(g, n - 1, n, now);
            },
            Ok(g1) => {
                lemma_upto_skip(g, n - 1, now);
                let ix = spec_update_token(g1, n - 1, now)->Ok_0;
                assert(ix == g.indexes[n - 1]);
                assert(g.indexes.update(n - 1, ix) =~= g.indexes);
                assert(GroupV { indexes: g.indexes.update(n - 1, ix), ..g } =~= g);
            },
        }
    }
}

/// LAW (zero elapsed time is a no-op on indexes): when every token is
/// already current at `now`, a successful `update_indexes` changes
/// nothing at all.
pub proof fn law_update_indexes_zero_elapsed(g: GroupV, now: u64)
    requires
        g.wf(),
        forall|i: int| 0 <= i < NUM_TOKENS ==> g.indexes[i].last_update == now,
        spec_update_indexes(g, now) is Ok,
    ensures
        spec_update_indexes(g, now) == Ok::<GroupV, MangoErrorCode>(g),
{
    lemma_upto_skip(g, NUM_TOKENS as int, now);
}

/// LAW (deposit with zero elapsed time): a deposit made when every index
/// is current at `now`, into a token the account has no borrow of, leaves
/// every index untouched and changes exactly the scaled deposit balances:
/// the account's and the pool's deposit of that token both grow by the
/// quantity divided by the token's deposit index.
pub proof fn law_deposit_zero_elapsed(
    g: GroupV,
    a: MarginAccountV,
    i: int,
    quantity: u64,
    now: u64,
)
    requires
        g.wf(),
        a.wf(),
        0 <= i < NUM_TOKENS,
        forall|j: int| 0 <= j < NUM_TOKENS ==> g.indexes[j].last_update == now,
        a.borrows[i].bits == 0,
        spec_deposit(g, a, i, quantity, now) is Ok,
    ensures
        ({
            let (g2, a2) = spec_deposit(g, a, i, quantity, now)->Ok_0;
            let dep = fp_div(quantity * SCALE, g.indexes[i].deposit.bits as int);
            &&& g2.indexes == g.indexes
            &&& a2.deposits[i].bits == a.deposits[i].bits + dep
            &&& g2.total_deposits[i].bits == g.total_deposits[i].bits + dep
            &&& a2.borrows == a.borrows
            &&& g2.total_borrows == g.total_borrows
            &&& forall|j: int| 0 <= j < NUM_TOKENS && j != i ==> a2.deposits[j] == a.deposits[j]
            &&& forall|j: int|
                0 <= j < NUM_TOKENS && j != i ==> g2.total_deposits[j] == g.total_deposits[j]
        }),
{
    law_update_indexes_zero_elapsed(g, now);
    let g1 = spec_update_indexes(g, now)->Ok_0;
    let dep = crate::fixedpoint::sp_checked_div(
        crate::state::sp_from_num(quantity as int),
        g1.indexes[i].deposit,
    )->Some_0;
    match spec_checked_add_deposit(g1, a, i, dep) {
        Err(_) => {},
        Ok((g2, a2)) => {
            // the automatic settlement finds no borrow to settle
            assert(a2.borrows[i].bits == 0);
            let ib = g2.indexes[i].borrow.bits;
            let id = g2.indexes[i].deposit.bits;
            assert(fp_mul(a2.borrows[i].bits as int, ib as int) == 0) by (nonlinear_arith)
                requires
                    a2.borrows[i].bits == 0,
            ;
            // the divisor indexes are nonzero, else the operation would
            // have failed
            assert(spec_settle_borrow_full_unchecked(g2, a2, i) is Ok);
            if ib == 0 {
                assert(false);
            }
            if id == 0 {
                assert(false);
            }
            assert(fp_div(0, ib as int) == 0) by (nonlinear_arith)
                requires
                    ib > 0,
            ;
            assert(fp_div(0, id as int) == 0) by (nonlinear_arith)
                requires
                    id > 0,
            ;
            let (g3, a3) = spec_settle_borrow_full_unchecked(g2, a2, i)->Ok_0;
            assert(a3.deposits =~= a2.deposits);
            assert(a3.borrows =~= a.borrows);
            assert(g3.total_deposits =~= g2.total_deposits);
            assert(g3.total_borrows =~= g.total_borrows);
            assert(g3.indexes == g.indexes);
        },
    }
}

/// LAW (over-leveraged borrows are rejected): if, after bringing indexes
/// current and crediting the requested borrow, the account's collateral
/// ratio would sit below the pool's initial requirement, then the borrow
/// operation reports exactly the collateral-ratio error — and, the
/// operation being all-or-nothing, the ledgers are left unchanged.
pub proof fn law_borrow_below_init_rejected(
    g: GroupV,
    a: MarginAccountV,
    i: int,
    quantity: u64,
    prices: Seq<FixedPoint>,
    oo: Seq<Option<crate::state::OpenOrdersInfo>>,
    now: u64,
    g1: GroupV,
    g3: GroupV,
    a3: MarginAccountV,
    ratio: FixedPoint,
)
    requires
        g.wf(),
        a.wf(),
        0 <= i < NUM_TOKENS,
        spec_update_indexes(g, now) == Ok::<GroupV, MangoErrorCode>(g1),
        ({
            let borrow = crate::fixedpoint::sp_checked_div(
                crate::state::sp_from_num(quantity as int),
                g1.indexes[i].borrow,
            );
            let deposit = crate::fixedpoint::sp_checked_div(
                crate::state::sp_from_num(quantity as int),
                g1.indexes[i].deposit,
            );
            &&& borrow is Some
            &&& deposit is Some
            &&& spec_checked_add_deposit(g1, a, i, deposit->Some_0) is Ok
            &&& {
                let (g2, a2) = spec_checked_add_deposit(g1, a, i, deposit->Some_0)->Ok_0;
                &&& crate::processor::spec_checked_add_borrow(g2, a2, i, borrow->Some_0)
                    == Ok::<(GroupV, MarginAccountV), MangoErrorCode>((g3, a3))
            }
        }),
        spec_collateral_ratio(g3, a3, prices, oo) == Ok::<FixedPoint, MangoErrorCode>(ratio),
        ratio.bits < g3.init_coll_ratio.bits,
    ensures
        spec_borrow(g, a, i, quantity, prices, oo, now) == Err::<
            (GroupV, MarginAccountV),
            MangoErrorCode,
        >(MangoErrorCode::CollateralRatioLimit),
{
}

/// LAW (rate at zero utilization): a pool with positive native deposits
/// and no native borrows pays a zero interest rate, exactly.
pub proof fn law_rate_at_zero_utilization(g: GroupV, i: int)
    requires
        g.wf(),
        0 <= i < NUM_TOKENS,
        sp_checked_mul(g.indexes[i].deposit, g.total_deposits[i]) matches Some(nd) && nd.bits > 0,
        sp_checked_mul(g.indexes[i].borrow, g.total_borrows[i]) == Some(FixedPoint { bits: 0 }),
    ensures
        spec_interest_rate(g, i) == Ok::<FixedPoint, MangoErrorCode>(FixedPoint { bits: 0 }),
{
    let nd = sp_checked_mul(g.indexes[i].deposit, g.total_deposits[i])->Some_0;
    assert(fp_div(0, nd.bits as int) == 0) by (nonlinear_arith)
        requires
            nd.bits > 0,
    ;
    let slope = fp_div(OPTIMAL_R as int, OPTIMAL_UTIL as int);
    assert(slope == 83563202480);
    assert(fp_mul(slope, 0) == 0) by (nonlinear_arith);
}

/// LAW (rate at full utilization): when native borrows have reached
/// native deposits — utilization one, or worse — the pool pays exactly
/// the maximal rate.
pub proof fn law_rate_at_full_utilization(g: GroupV, i: int)
    requires
        g.wf(),
        0 <= i < NUM_TOKENS,
        sp_checked_mul(g.indexes[i].deposit, g.total_deposits[i]) matches Some(nd)
            && sp_checked_mul(g.indexes[i].borrow, g.total_borrows[i]) matches Some(nb)
            && nd.bits <= nb.bits,
    ensures
        spec_interest_rate(g, i) == Ok::<FixedPoint, MangoErrorCode>(FixedPoint { bits: MAX_R }),
{
}

/// LAW (rate at the kink): at a utilization of exactly `OPTIMAL_UTIL`
/// (0.7 rounded to 64.64 form), the computed rate is one unit in the last
/// place below `OPTIMAL_R` (ten percent per year): the two rounded
/// divisions of the curve lose exactly one 2^-64 step here, about 5e-20
/// per second.  The idealized statement `rate == OPTIMAL_R` holds of the
/// real-valued curve but not of this arithmetic.
pub proof fn law_rate_at_optimal_utilization(utilization: FixedPoint)
    requires
        utilization.bits == OPTIMAL_UTIL,
    ensures
        spec_rate_from_utilization(utilization) == Ok::<FixedPoint, MangoErrorCode>(
            FixedPoint { bits: (OPTIMAL_R - 1) as u128 },
        ),
{
    let slope = fp_div(OPTIMAL_R as int, OPTIMAL_UTIL as int);
    assert(slope == 83563202480);
    assert(fp_mul(83563202480, OPTIMAL_UTIL as int) == (OPTIMAL_R - 1) as int);
}

/// LAW (withdraw keeps the pool solvent): a successful withdrawal leaves
/// whole-unit native deposits at or above whole-unit native borrows for
/// the withdrawn token — the operation checks it and fails otherwise.
pub proof fn law_withdraw_keeps_pool_solvent(
    g: GroupV,
    a: MarginAccountV,
    i: int,
    quantity: u64,
    prices: Seq<FixedPoint>,
    oo: Seq<Option<crate::state::OpenOrdersInfo>>,
    now: u64,
)
    requires
        g.wf(),
        a.wf(),
        0 <= i < NUM_TOKENS,
        spec_withdraw(g, a, i, quantity, prices, oo, now) is Ok,
    ensures
        ({
            let (g2, a2) = spec_withdraw(g, a, i, quantity, prices, oo, now)->Ok_0;
            spec_has_valid_deposits_borrows(g2, i) == Ok::<bool, MangoErrorCode>(true)
        }),
{
}

/// LAW (borrow keeps the pool solvent): a successful borrow leaves
/// whole-unit native deposits at or above whole-unit native borrows for
/// the borrowed token.
pub proof fn law_borrow_keeps_pool_solvent(
    g: GroupV,
    a: MarginAccountV,
    i: int,
    quantity: u64,
    prices: Seq<FixedPoint>,
    oo: Seq<Option<crate::state::OpenOrdersInfo>>,
    now: u64,
)
    requires
        g.wf(),
        a.wf(),
        0 <= i < NUM_TOKENS,
        spec_borrow(g, a, i, quantity, prices, oo, now) is Ok,
    ensures
        ({
            let (g2, a2) = spec_borrow(g, a, i, quantity, prices, oo, now)->Ok_0;
            spec_has_valid_deposits_borrows(g2, i) == Ok::<bool, MangoErrorCode>(true)
        }),
{
}

/// The product of a rounded-down quotient and its divisor is within one
/// divisor step below the dividend.
proof fn lemma_div_mul_bounds(x: int, d: int)
    requires
        x >= 0,
        d > 0,
    ensures
        (x / d) * d <= x,
        (x / d) * d > x - d,
{
    vstd::arithmetic::div_mod::lemma_fundamental_div_mod(x, d);
    vstd::arithmetic::div_mod::lemma_mod_bound(x, d);
    assert((x / d) * d == d * (x / d)) by (nonlinear_arith);
}

/// LAW (settlement is dust-safe for the pool): the automatic full
/// settlement of one token moves the pool-solvency gap of that token down
/// by strictly less than one borrow-index bit pattern — that is, by less
/// than `index.borrow / 2^64` native units, rounding dust — and touches
/// no other token.
pub proof fn law_settle_full_gap(g: GroupV, a: MarginAccountV, i: int)
    requires
        g.wf(),
        a.wf(),
        0 <= i < NUM_TOKENS,
        spec_settle_borrow_full_unchecked(g, a, i) is Ok,
    ensures
        ({
            let (g2, a2) = spec_settle_borrow_full_unchecked(g, a, i)->Ok_0;
            &&& solvency_gap(g2, i) > solvency_gap(g, i) - g.indexes[i].borrow.bits
            &&& forall|j: int| 0 <= j < NUM_TOKENS && j != i ==> solvency_gap(g2, j)
                == solvency_gap(g, j)
            &&& g2.indexes == g.indexes
        }),
{
    let ib = g.indexes[i].borrow.bits as int;
    let id = g.indexes[i].deposit.bits as int;
    if ib == 0 {
        assert(false);
    }
    if id == 0 {
        assert(false);
    }
    let nb = crate::state::spec_native_borrow(a, g.indexes[i], i)->Ok_0;
    let nd = crate::state::spec_native_deposit(a, g.indexes[i], i)->Ok_0;
    let q: int = if nb < nd {
        nb as int
    } else {
        nd as int
    };
    let s = SCALE as int;
    let x = q * s * s;
    assert(crate::state::sp_from_num(q).bits == q * s);
    let bs = fp_div(q * s, ib);
    let ds = fp_div(q * s, id);
    assert(bs == x / ib) by (nonlinear_arith)
        requires
            bs == (q * s * s) / ib,
            x == q * s * s,
    ;
    assert(ds == x / id) by (nonlinear_arith)
        requires
            ds == (q * s * s) / id,
            x == q * s * s,
    ;
    assert(x >= 0) by (nonlinear_arith)
        requires
            q >= 0,
            s > 0,
            x == q * s * s,
    ;
    lemma_div_mul_bounds(x, ib);
    lemma_div_mul_bounds(x, id);
    let gd = g.total_deposits[i].bits as int;
    let gb = g.total_borrows[i].bits as int;
    let (g2, a2) = spec_settle_borrow_full_unchecked(g, a, i)->Ok_0;
    assert(g2.total_deposits[i].bits == gd - ds);
    assert(g2.total_borrows[i].bits == gb - bs);
    assert((gd - ds) * id - (gb - bs) * ib > gd * id - gb * ib - ib) by (nonlinear_arith)
        requires
            ds * id <= x,
            bs * ib > x - ib,
            ds == x / id,
            bs == x / ib,
    ;
}

/// LAW (a deposit credit strengthens the pool): crediting a scaled
/// quantity to both the user's and the pool's deposits raises the
/// pool-solvency gap of that token by exactly the quantity times the
/// deposit index, and touches no other token.
pub proof fn law_add_deposit_gap(g: GroupV, a: MarginAccountV, i: int, v: FixedPoint)
    requires
        g.wf(),
        a.wf(),
        0 <= i < NUM_TOKENS,
        spec_checked_add_deposit(g, a, i, v) is Ok,
    ensures
        ({
            let (g2, a2) = spec_checked_add_deposit(g, a, i, v)->Ok_0;
            &&& solvency_gap(g2, i) == solvency_gap(g, i) + v.bits * g.indexes[i].deposit.bits
            &&& solvency_gap(g2, i) >= solvency_gap(g, i)
            &&& forall|j: int| 0 <= j < NUM_TOKENS && j != i ==> solvency_gap(g2, j)
                == solvency_gap(g, j)
        }),
{
    let (g2, a2) = spec_checked_add_deposit(g, a, i, v)->Ok_0;
    let gd = g.total_deposits[i].bits as int;
    let id = g.indexes[i].deposit.bits as int;
    let vb = v.bits as int;
    assert(g2.total_deposits[i].bits == gd + vb);
    assert((gd + vb) * id == gd * id + vb * id && vb * id >= 0) by (nonlinear_arith)
        requires
            vb >= 0,
            id >= 0,
    ;
}

/// The raw borrow interest one accrual step applies to a token: the
/// per-second rate times the elapsed seconds (zero where no accrual can
/// happen).
pub open spec fn spec_borrow_interest(g: GroupV, i: int, now: u64) -> int {
    match spec_interest_rate(g, i) {
        Err(_) => 0,
        Ok(rate) => {
            if now >= g.indexes[i].last_update {
                rate.bits * (now - g.indexes[i].last_update)
            } else {
                0
            }
        },
    }
}

/// How much pool-solvency gap one accrual step can cost a token through
/// rounding: each term is one rounded division's worth of last-place
/// units.  Relative to the gap's `SCALE * SCALE` scale, the whole slack
/// is on the order of `2^-64` of the native quantities involved.
pub open spec fn accrual_slack(g: GroupV, i: int, now: u64) -> int {
    let s = SCALE as int;
    let d_product = g.total_deposits[i].bits * g.indexes[i].deposit.bits;
    let bi = spec_borrow_interest(g, i, now);
    bi + d_product * bi / s / s + d_product / s + g.total_deposits[i].bits + 2
}

/// The accrual-step core of the pool-solvency law, over the raw inputs of
/// one token's step.
#[verifier::rlimit(100)]
proof fn lemma_step_token_gap(
    index: MangoIndex,
    total_deposit: FixedPoint,
    total_borrow: FixedPoint,
    rate: FixedPoint,
    now: u64,
)
    requires
        crate::state::spec_step_token(index, total_deposit, total_borrow, rate, now) is Ok,
    ensures
        ({
            let ix = crate::state::spec_step_token(index, total_deposit, total_borrow, rate, now)->Ok_0;
            let s = SCALE as int;
            let dd = total_deposit.bits as int;
            let bb = total_borrow.bits as int;
            let id = index.deposit.bits as int;
            let ib = index.borrow.bits as int;
            let bi = rate.bits * (now - index.last_update);
            dd * ix.deposit.bits - bb * ix.borrow.bits >= dd * id - bb * ib - (bi + dd * id * bi
                / s / s + dd * id / s + dd + 2)
        }),
{
    let s = SCALE as int;
    let dd = total_deposit.bits as int;
    let bb = total_borrow.bits as int;
    let id = index.deposit.bits as int;
    let ib = index.borrow.bits as int;
    let nd = (dd * id) / s;
    let nb = (bb * ib) / s;
    // the step succeeded, so the utilization division had a positive divisor
    assert(nd > 0);
    let dt = now - index.last_update;
    assert(dt >= 0);
    let u = (nb * s) / nd;
    // borrow interest is rate times elapsed seconds, exactly
    let bi = rate.bits * dt;
    assert((rate.bits * (dt * s)) / s == bi) by (nonlinear_arith)
        requires
            s > 0,
            bi == rate.bits * dt,
    ;
    let di = (bi * u) / s;
    let bstep = (ib * bi) / s;
    let dstep = (id * di) / s;
    let ix = crate::state::spec_step_token(index, total_deposit, total_borrow, rate, now)->Ok_0;
    assert(ix.borrow.bits == bstep + ib);
    assert(ix.deposit.bits == dstep + id);
    // remainders of the six rounded divisions
    vstd::arithmetic::div_mod::lemma_fundamental_div_mod(id * di, s);
    vstd::arithmetic::div_mod::lemma_mod_bound(id * di, s);
    let r1 = (id * di) % s;
    vstd::arithmetic::div_mod::lemma_fundamental_div_mod(bi * u, s);
    vstd::arithmetic::div_mod::lemma_mod_bound(bi * u, s);
    let r2 = (bi * u) % s;
    vstd::arithmetic::div_mod::lemma_fundamental_div_mod(nb * s, nd);
    vstd::arithmetic::div_mod::lemma_mod_bound(nb * s, nd);
    let r3 = (nb * s) % nd;
    vstd::arithmetic::div_mod::lemma_fundamental_div_mod(dd * id, s);
    vstd::arithmetic::div_mod::lemma_mod_bound(dd * id, s);
    let r4 = (dd * id) % s;
    vstd::arithmetic::div_mod::lemma_fundamental_div_mod(bb * ib, s);
    vstd::arithmetic::div_mod::lemma_mod_bound(bb * ib, s);
    let r5 = (bb * ib) % s;
    vstd::arithmetic::div_mod::lemma_fundamental_div_mod(ib * bi, s);
    vstd::arithmetic::div_mod::lemma_mod_bound(ib * bi, s);
    let r6 = (ib * bi) % s;
    assert(u >= 0) by (nonlinear_arith)
        requires
            u == (nb * s) / nd,
            nb >= 0,
            s > 0,
            nd > 0,
    ;
    assert(bi >= 0) by (nonlinear_arith)
        requires
            bi == rate.bits * dt,
            rate.bits >= 0,
            dt >= 0,
    ;
    vstd::arithmetic::div_mod::lemma_fundamental_div_mod(dd * id * bi, s);
    vstd::arithmetic::div_mod::lemma_mod_bound(dd * id * bi, s);
    vstd::arithmetic::div_mod::lemma_fundamental_div_mod((dd * id * bi) / s, s);
    vstd::arithmetic::div_mod::lemma_mod_bound((dd * id * bi) / s, s);
    assert((dd * id * bi) / s >= 0) by (nonlinear_arith)
        requires
            dd >= 0,
            id >= 0,
            bi >= 0,
            s > 0,
    ;
    assert(s * ((dd * id * bi) / s) + s > dd * id * bi) by (nonlinear_arith)
        requires
            dd * id * bi == s * ((dd * id * bi) / s) + (dd * id * bi) % s,
            (dd * id * bi) % s < s,
    ;
    assert(s * ((dd * id * bi) / s / s) + s > (dd * id * bi) / s) by (nonlinear_arith)
        requires
            (dd * id * bi) / s == s * ((dd * id * bi) / s / s) + ((dd * id * bi) / s) % s,
            ((dd * id * bi) / s) % s < s,
    ;
    assert(s * ((dd * id) / s) + s > dd * id) by (nonlinear_arith)
        requires
            dd * id == s * ((dd * id) / s) + (dd * id) % s,
            (dd * id) % s < s,
    ;
    // substitute the six remainder equations, one at a time
    assert(s * s * (dd * dstep) == s * (dd * (id * di)) - s * (dd * r1)) by (nonlinear_arith)
        requires
            id * di == s * dstep + r1,
    ;
    assert(s * (dd * (id * di)) == (dd * id) * (bi * u) - (dd * id) * r2) by (nonlinear_arith)
        requires
            bi * u == s * di + r2,
    ;
    assert((dd * id) * (bi * u) == s * (bi * (nd * u)) + r4 * (bi * u)) by (nonlinear_arith)
        requires
            dd * id == s * nd + r4,
    ;
    assert(s * (bi * (nd * u)) == s * s * (bi * nb) - s * (bi * r3)) by (nonlinear_arith)
        requires
            nb * s == nd * u + r3,
    ;
    assert(s * s * (bi * nb) == s * (bi * (bb * ib)) - s * (bi * r5)) by (nonlinear_arith)
        requires
            bb * ib == s * nb + r5,
    ;
    assert(s * s * (bb * bstep) == s * (bi * (bb * ib)) - s * (bb * r6)) by (nonlinear_arith)
        requires
            ib * bi == s * bstep + r6,
    ;
    // the substitutions collapse to one identity, linear in the products
    assert(s * s * (dd * dstep) - s * s * (bb * bstep) == r4 * (bi * u) + s * (bb * r6) - s * (bi
        * r5) - s * (bi * r3) - (dd * id) * r2 - s * (dd * r1));
    // per-term bounds
    assert(s * (dd * r1) <= s * s * dd) by (nonlinear_arith)
        requires
            0 <= r1 < s,
            dd >= 0,
            s > 0,
    ;
    assert(s * (bi * r3) <= bi * (dd * id)) by (nonlinear_arith)
        requires
            0 <= r3 < nd,
            s * nd <= dd * id,
            bi >= 0,
            s > 0,
    ;
    assert(s * (bi * r5) <= s * s * bi) by (nonlinear_arith)
        requires
            0 <= r5 < s,
            bi >= 0,
            s > 0,
    ;
    assert(r4 * (bi * u) >= 0 && s * (bb * r6) >= 0) by (nonlinear_arith)
        requires
            r4 >= 0,
            bi >= 0,
            u >= 0,
            bb >= 0,
            r6 >= 0,
            s > 0,
    ;
    assert(bi * (dd * id) <= s * s * ((dd * id * bi) / s / s) + s * s) by (nonlinear_arith)
        requires
            dd * id >= 0,
            bi >= 0,
            s > 0,
            dd * id * bi == bi * (dd * id),
            s * ((dd * id * bi) / s) + s > dd * id * bi,
            s * ((dd * id * bi) / s / s) + s > (dd * id * bi) / s,
            (dd * id * bi) / s >= 0,
    ;
    assert((dd * id) * r2 <= s * (dd * id)) by (nonlinear_arith)
        requires
            0 <= r2 < s,
            dd * id >= 0,
    ;
    assert(s * (dd * id) <= s * s * ((dd * id) / s) + s * s) by (nonlinear_arith)
        requires
            dd * id >= 0,
            s > 0,
            s * ((dd * id) / s) + s > dd * id,
    ;
    // combine: linear arithmetic over the bounded products
    assert(s * s * (dd * dstep) - s * s * (bb * bstep) >= -(s * s * bi) - (s * s * ((dd * id * bi)
        / s / s) + s * s) - (s * s * ((dd * id) / s) + s * s) - s * s * dd);
    assert(s * s * (dd * dstep - bb * bstep) >= -(s * s) * (bi + (dd * id * bi) / s / s + (dd * id)
        / s + dd + 2)) by (nonlinear_arith)
        requires
            s * s * (dd * dstep) - s * s * (bb * bstep) >= -(s * s * bi) - (s * s * ((dd * id * bi)
                / s / s) + s * s) - (s * s * ((dd * id) / s) + s * s) - s * s * dd,
            s > 0,
    ;
    assert(dd * dstep - bb * bstep >= -(bi + (dd * id * bi) / s / s + (dd * id) / s + dd + 2))
        by (nonlinear_arith)
        requires
            s * s * (dd * dstep - bb * bstep) >= -(s * s) * (bi + (dd * id * bi) / s / s + (dd * id)
                / s + dd + 2),
            s > 0,
    ;
    assert(dd * ix.deposit.bits - bb * ix.borrow.bits == dd * id - bb * ib + (dd * dstep - bb
        * bstep)) by (nonlinear_arith)
        requires
            ix.deposit.bits == dstep + id,
            ix.borrow.bits == bstep + ib,
    ;
}

/// LAW (accrual is dust-safe for the pool): one successful index-accrual
/// step moves a token's pool-solvency gap down by no more than
/// `accrual_slack`, a few last-place rounding units — about `2^-64` of
/// the native quantities involved, far below one native token unit.  A
/// skipped token's gap does not move at all.
pub proof fn law_update_token_gap(g: GroupV, i: int, now: u64)
    requires
        g.wf(),
        0 <= i < NUM_TOKENS,
        spec_update_token(g, i, now) is Ok,
    ensures
        ({
            let ix = spec_update_token(g, i, now)->Ok_0;
            g.total_deposits[i].bits * ix.deposit.bits - g.total_borrows[i].bits * ix.borrow.bits
                >= solvency_gap(g, i) - accrual_slack(g, i, now)
        }),
{
    let ix = spec_update_token(g, i, now)->Ok_0;
    let rate = spec_interest_rate(g, i)->Ok_0;
    let s = SCALE as int;
    let dd = g.total_deposits[i].bits as int;
    let id = g.indexes[i].deposit.bits as int;
    let bi = spec_borrow_interest(g, i, now);
    if g.indexes[i].last_update == now || g.total_deposits[i].bits == 0 {
        assert(ix == g.indexes[i]);
        assert(bi >= 0) by (nonlinear_arith)
            requires
                bi == rate.bits * (now - g.indexes[i].last_update) && now
                    >= g.indexes[i].last_update || bi == 0,
        ;
        assert(dd * id * bi / s / s >= 0 && dd * id / s >= 0) by (nonlinear_arith)
            requires
                dd >= 0,
                id >= 0,
                bi >= 0,
                s > 0,
        ;
    } else {
        assert(now >= g.indexes[i].last_update);
        lemma_step_token_gap(g.indexes[i], g.total_deposits[i], g.total_borrows[i], rate, now);
    }
}


/// LAW (deposit is dust-safe for the pool): a successful deposit, its
/// automatic borrow settlement included, leaves the token's pool-solvency
/// gap above where index accrual left it, minus strictly less than one
/// borrow-index bit pattern of rounding dust.
pub proof fn law_deposit_gap(g: GroupV, a: MarginAccountV, i: int, quantity: u64, now: u64)
    requires
        g.wf(),
        a.wf(),
        0 <= i < NUM_TOKENS,
        spec_deposit(g, a, i, quantity, now) is Ok,
    ensures
        ({
            let g1 = spec_update_indexes(g, now)->Ok_0;
            let (g3, a3) = spec_deposit(g, a, i, quantity, now)->Ok_0;
            solvency_gap(g3, i) > solvency_gap(g1, i) - g1.indexes[i].borrow.bits
        }),
{
    let g1 = spec_update_indexes(g, now)->Ok_0;
    lemma_upto_shape(g, NUM_TOKENS as int, now);
    let dep = crate::fixedpoint::sp_checked_div(
        crate::state::sp_from_num(quantity as int),
        g1.indexes[i].deposit,
    )->Some_0;
    let (g2, a2) = spec_checked_add_deposit(g1, a, i, dep)->Ok_0;
    law_add_deposit_gap(g1, a, i, dep);
    law_settle_full_gap(g2, a2, i);
    assert(g2.indexes == g1.indexes);
}

/// LAW (settling a borrow is dust-safe for the pool): the explicit
/// settle-borrow operation's balance step moves the token's pool-solvency
/// gap down by no more than one borrow-index bit pattern of rounding
/// dust; when it clears the whole borrow, the gap can only grow.
pub proof fn law_settle_borrow_gap(g: GroupV, a: MarginAccountV, i: int, quantity: u64)
    requires
        g.wf(),
        a.wf(),
        0 <= i < NUM_TOKENS,
        crate::processor::spec_settle_borrow_unchecked(g, a, i, quantity) is Ok,
    ensures
        ({
            let (g2, a2) = crate::processor::spec_settle_borrow_unchecked(g, a, i, quantity)->Ok_0;
            solvency_gap(g2, i) >= solvency_gap(g, i) - g.indexes[i].borrow.bits
        }),
{
    let ib = g.indexes[i].borrow.bits as int;
    let id = g.indexes[i].deposit.bits as int;
    let ab = a.borrows[i].bits as int;
    let gd = g.total_deposits[i].bits as int;
    let gb = g.total_borrows[i].bits as int;
    let s = SCALE as int;
    let nb = fp_mul(ab, ib);
    let nd = fp_mul(a.deposits[i].bits as int, id);
    let q0 = quantity * s;
    let q: int = if nd < q0 {
        nd
    } else {
        q0
    };
    if id == 0 {
        assert(false);
    }
    let (g2, a2) = crate::processor::spec_settle_borrow_unchecked(g, a, i, quantity)->Ok_0;
    if q >= nb {
        // the whole borrow is cleared: the pool gives up at most the
        // native value of the borrow and sheds the full scaled borrow
        let ds = fp_div(nb, id);
        lemma_div_mul_bounds(nb * s, id);
        assert(ds * id <= nb * s) by (nonlinear_arith)
            requires
                ds == (nb * s) / id,
                ((nb * s) / id) * id <= nb * s,
        ;
        lemma_div_mul_bounds(ab * ib, s);
        assert(nb * s <= ab * ib) by (nonlinear_arith)
            requires
                nb == (ab * ib) / s,
                ((ab * ib) / s) * s <= ab * ib,
        ;
        assert(g2.total_deposits[i].bits == gd - ds);
        assert(g2.total_borrows[i].bits == gb - ab);
        assert((gd - ds) * id - (gb - ab) * ib >= gd * id - gb * ib) by (nonlinear_arith)
            requires
                ds * id <= ab * ib,
        ;
    } else {
        if ib == 0 {
            assert(false);
        }
        let ds = fp_div(q, id);
        let bs = fp_div(q, ib);
        assert(q >= 0) by (nonlinear_arith)
            requires
                q == nd || q == quantity * s,
                nd >= 0,
                quantity >= 0,
                s > 0,
        ;
        lemma_div_mul_bounds(q * s, id);
        lemma_div_mul_bounds(q * s, ib);
        assert(g2.total_deposits[i].bits == gd - ds);
        assert(g2.total_borrows[i].bits == gb - bs);
        assert((gd - ds) * id - (gb - bs) * ib >= gd * id - gb * ib - ib) by (nonlinear_arith)
            requires
                ds == (q * s) / id,
                bs == (q * s) / ib,
                ds * id <= q * s,
                bs * ib > q * s - ib,
    ;
    }
}


/// LAW (loss socialization is dust-safe for the pool): when the reduced
/// borrow is priced against the pool's true native deposits — as the
/// liquidation engine does — clearing it and marking the deposit index
/// down moves the token's pool-solvency gap by no more than one
/// borrow-index bit pattern plus the loss fraction's bit pattern:
/// rounding dust on the order of `2^-64` native units.
pub proof fn law_socialize_loss_gap(
    g: GroupV,
    a: MarginAccountV,
    i: int,
    reduce_quantity_native: FixedPoint,
    total_deposits_native: FixedPoint,
)
    requires
        g.wf(),
        a.wf(),
        0 <= i < NUM_TOKENS,
        total_deposits_native.bits == fp_mul(
            g.total_deposits[i].bits as int,
            g.indexes[i].deposit.bits as int,
        ),
        spec_socialize_loss(g, a, i, reduce_quantity_native, total_deposits_native) is Ok,
    ensures
        ({
            let (g2, a2) = spec_socialize_loss(
                g,
                a,
                i,
                reduce_quantity_native,
                total_deposits_native,
            )->Ok_0;
            let pl = fp_div(
                reduce_quantity_native.bits as int,
                total_deposits_native.bits as int,
            );
            solvency_gap(g2, i) > solvency_gap(g, i) - g.indexes[i].borrow.bits - pl
        }),
{
    let s = SCALE as int;
    let ib = g.indexes[i].borrow.bits as int;
    let id = g.indexes[i].deposit.bits as int;
    let dd = g.total_deposits[i].bits as int;
    let gb = g.total_borrows[i].bits as int;
    let rq = reduce_quantity_native.bits as int;
    let tdn = total_deposits_native.bits as int;
    if ib == 0 {
        assert(false);
    }
    if tdn == 0 {
        assert(false);
    }
    let q = fp_div(rq, ib);
    let pl = fp_div(rq, tdn);
    let loss = fp_mul(pl, id);
    let (g2, a2) = spec_socialize_loss(g, a, i, reduce_quantity_native, total_deposits_native)->Ok_0;
    assert(g2.total_borrows[i].bits == gb - q);
    assert(g2.total_deposits[i].bits == dd);
    assert(g2.indexes[i].deposit.bits == id - loss);
    assert(g2.indexes[i].borrow.bits == ib);
    // the cleared borrow is worth nearly the reduced native quantity
    lemma_div_mul_bounds(rq * s, ib);
    // the index markdown costs the depositors little more than that
    lemma_div_mul_bounds(pl * id, s);
    lemma_div_mul_bounds(rq * s, tdn);
    lemma_div_mul_bounds(dd * id, s);
    // the index markdown costs depositors at most the reduced quantity
    // plus the loss fraction's own bit pattern, since tdn is within one
    // rounding step of dd * id / s
    assert((dd * loss) * s <= dd * (pl * id)) by (nonlinear_arith)
        requires
            loss == (pl * id) / s,
            ((pl * id) / s) * s <= pl * id,
            dd >= 0,
    ;
    assert(dd * (pl * id) <= pl * ((tdn + 1) * s)) by (nonlinear_arith)
        requires
            tdn == (dd * id) / s,
            ((dd * id) / s) * s > dd * id - s,
            pl >= 0,
            s > 0,
    ;
    assert(pl * ((tdn + 1) * s) <= (rq * s) * s + pl * s) by (nonlinear_arith)
        requires
            pl == (rq * s) / tdn,
            ((rq * s) / tdn) * tdn <= rq * s,
            s > 0,
    ;
    assert(dd * loss <= rq * s + pl) by (nonlinear_arith)
        requires
            (dd * loss) * s <= (rq * s) * s + pl * s,
            s > 0,
    ;
    assert(q * ib > rq * s - ib) by (nonlinear_arith)
        requires
            q == (rq * s) / ib,
            ((rq * s) / ib) * ib > rq * s - ib,
    ;
    assert(dd * (id - loss) - (gb - q) * ib > dd * id - gb * ib - ib - pl) by (nonlinear_arith)
        requires
            dd * loss <= rq * s + pl,
            q * ib > rq * s - ib,
    ;
}


/// Within a successful accrual pass, each token's final index is exactly
/// what its own step computes from the starting state: the steps read
/// only their own token's data, so the order of the pass does not matter.
proof fn lemma_upto_token_results(g: GroupV, n: int, now: u64)
    requires
        g.wf(),
        0 <= n <= NUM_TOKENS,
        spec_update_indexes_upto(g, n, now) is Ok,
    ensures
        ({
            let gm = spec_update_indexes_upto(g, n, now)->Ok_0;
            forall|i: int|
                0 <= i < n ==> spec_update_token(g, i, now) is Ok && #[trigger] gm.indexes[i]
                    == spec_update_token(g, i, now)->Ok_0
        }),
    decreases n,
{
    if n > 0 {
        match spec_update_indexes_upto(g, n - 1, now) {
            Err(_) => {
                lemma_upto_err_propagates(g, n - 1, n, now);
            },
            Ok(gmid) => {
                lemma_upto_token_results(g, n - 1, now);
                lemma_upto_shape(g, n - 1, now);
                assert(spec_interest_rate(gmid, n - 1) == spec_interest_rate(g, n - 1));
                assert(spec_update_token(gmid, n - 1, now) == spec_update_token(g, n - 1, now));
            },
        }
    }
}

/// LAW (the accrual pass is dust-safe for the pool): a successful
/// `update_indexes` pass moves every token's pool-solvency gap down by no
/// more than that token's `accrual_slack` — a few last-place rounding
/// units, about 2^-64 of the native quantities involved.  This is the
/// pool-solvency invariant across one accrual step: the deposit side
/// earns `borrow_interest * utilization`, which matches the borrow side's
/// growth exactly in real arithmetic and up to the stated slack after
/// rounding.  (The runtime tolerance check compares whole native values
/// with `EPSILON` slack; that comparison with an unchanged `EPSILON` is
/// not inductive under floor rounding, which is why the law carries the
/// explicit slack instead.)
pub proof fn law_update_indexes_gap(g: GroupV, now: u64)
    requires
        g.wf(),
        spec_update_indexes(g, now) is Ok,
    ensures
        ({
            let g1 = spec_update_indexes(g, now)->Ok_0;
            forall|i: int|
                0 <= i < NUM_TOKENS ==> #[trigger] solvency_gap(g1, i) >= solvency_gap(g, i)
                    - accrual_slack(g, i, now)
        }),
{
    lemma_upto_token_results(g, NUM_TOKENS as int, now);
    lemma_upto_shape(g, NUM_TOKENS as int, now);
    let g1 = spec_update_indexes(g, now)->Ok_0;
    assert forall|i: int|
        0 <= i < NUM_TOKENS implies #[trigger] solvency_gap(g1, i) >= solvency_gap(g, i)
        - accrual_slack(g, i, now) by {
        law_update_token_gap(g, i, now);
    };
}

/// LAW (deposit with the token's index current): a successful deposit
/// into a token whose index is already current at `now` leaves that
/// token's indexes untouched and changes exactly the scaled balances: the
/// credit is the quantity over the deposit index, and the automatic
/// settlement then repays `min(native_borrow, native_deposit)` whole
/// units, reducing borrow and deposit by that amount over the respective
/// index.  No collateral-ratio check is involved.
pub proof fn law_deposit_current_token(
    g: GroupV,
    a: MarginAccountV,
    i: int,
    quantity: u64,
    now: u64,
)
    requires
        g.wf(),
        a.wf(),
        0 <= i < NUM_TOKENS,
        g.indexes[i].last_update == now,
        spec_deposit(g, a, i, quantity, now) is Ok,
    ensures
        ({
            let (g3, a3) = spec_deposit(g, a, i, quantity, now)->Ok_0;
            let s = SCALE as int;
            let id = g.indexes[i].deposit.bits as int;
            let ib = g.indexes[i].borrow.bits as int;
            let dep = fp_div(quantity * SCALE, id);
            let credited = a.deposits[i].bits + dep;
            let native_borrow = fp_mul(a.borrows[i].bits as int, ib) / s;
            let native_deposit = fp_mul(credited, id) / s;
            let settled = if native_borrow < native_deposit {
                native_borrow
            } else {
                native_deposit
            };
            &&& g3.indexes[i] == g.indexes[i]
            &&& a3.deposits[i].bits == credited - fp_div(settled * SCALE, id)
            &&& a3.borrows[i].bits == a.borrows[i].bits - fp_div(settled * SCALE, ib)
            &&& g3.total_deposits[i].bits == g.total_deposits[i].bits + dep - fp_div(
                settled * SCALE,
                id,
            )
            &&& g3.total_borrows[i].bits == g.total_borrows[i].bits - fp_div(settled * SCALE, ib)
        }),
{
    lemma_upto_token_results(g, NUM_TOKENS as int, now);
    lemma_upto_shape(g, NUM_TOKENS as int, now);
    let g1 = spec_update_indexes(g, now)->Ok_0;
    assert(g1.indexes[i] == g.indexes[i]);
    let dep_fp = crate::fixedpoint::sp_checked_div(
        crate::state::sp_from_num(quantity as int),
        g1.indexes[i].deposit,
    )->Some_0;
    let (g2, a2) = spec_checked_add_deposit(g1, a, i, dep_fp)->Ok_0;
    assert(a2.borrows == a.borrows);
    assert(g2.indexes[i] == g.indexes[i]);
    // the settlement's divisors are nonzero, else the operation would
    // have failed
    assert(spec_settle_borrow_full_unchecked(g2, a2, i) is Ok);
    if g.indexes[i].borrow.bits == 0 {
        assert(false);
    }
    let (g3, a3) = spec_settle_borrow_full_unchecked(g2, a2, i)->Ok_0;
    assert(a3.deposits[i].bits == a2.deposits[i].bits - fp_div(
        ({
            let nb = crate::state::spec_native_borrow(a2, g2.indexes[i], i)->Ok_0;
            let nd = crate::state::spec_native_deposit(a2, g2.indexes[i], i)->Ok_0;
            if nb < nd {
                nb as int
            } else {
                nd as int
            }
        }) * SCALE,
        g.indexes[i].deposit.bits as int,
    ));
}

/// LAW (loss socialization across the basket): a successful socialization
/// pass over per-token remaining native borrows clears exactly the listed
/// quantity of each indebted token's borrow — scaled by its borrow index
/// — from the account and the pool, cuts that token's deposit index by
/// exactly the proportional fraction of the pool's native deposits, and
/// touches nothing else; its flag reports whether any token was indebted.
/// The liquidation engine invokes this with each token's remaining native
/// borrow once an account's assets are dust.
pub proof fn law_socialize_all_tokens(
    g: GroupV,
    a: MarginAccountV,
    end_liabs: Seq<FixedPoint>,
    n: int,
)
    requires
        g.wf(),
        a.wf(),
        end_liabs.len() == NUM_TOKENS,
        0 <= n <= NUM_TOKENS,
        spec_socialize_upto(g, a, end_liabs, n) is Ok,
    ensures
        spec_socialize_upto(g, a, end_liabs, n)->Ok_0.0.wf(),
        spec_socialize_upto(g, a, end_liabs, n)->Ok_0.1.wf(),
        spec_socialize_upto(g, a, end_liabs, n)->Ok_0.0.total_deposits == g.total_deposits,
        spec_socialize_upto(g, a, end_liabs, n)->Ok_0.1.deposits == a.deposits,
        forall|i: int|
            n <= i < NUM_TOKENS ==> #[trigger] spec_socialize_upto(
                g,
                a,
                end_liabs,
                n,
            )->Ok_0.0.indexes[i] == g.indexes[i] && spec_socialize_upto(
                g,
                a,
                end_liabs,
                n,
            )->Ok_0.1.borrows[i] == a.borrows[i] && spec_socialize_upto(
                g,
                a,
                end_liabs,
                n,
            )->Ok_0.0.total_borrows[i] == g.total_borrows[i],
        forall|i: int|
            0 <= i < n && end_liabs[i].bits == 0 ==> #[trigger] spec_socialize_upto(
                g,
                a,
                end_liabs,
                n,
            )->Ok_0.0.indexes[i] == g.indexes[i] && spec_socialize_upto(
                g,
                a,
                end_liabs,
                n,
            )->Ok_0.1.borrows[i] == a.borrows[i] && spec_socialize_upto(
                g,
                a,
                end_liabs,
                n,
            )->Ok_0.0.total_borrows[i] == g.total_borrows[i],
        forall|i: int|
            0 <= i < n && end_liabs[i].bits > 0 ==> #[trigger] spec_socialize_upto(
                g,
                a,
                end_liabs,
                n,
            )->Ok_0.1.borrows[i].bits == a.borrows[i].bits - fp_div(
                end_liabs[i].bits as int,
                g.indexes[i].borrow.bits as int,
            ) && spec_socialize_upto(g, a, end_liabs, n)->Ok_0.0.total_borrows[i].bits
                == g.total_borrows[i].bits - fp_div(
                end_liabs[i].bits as int,
                g.indexes[i].borrow.bits as int,
            ) && spec_socialize_upto(g, a, end_liabs, n)->Ok_0.0.indexes[i].deposit.bits
                == g.indexes[i].deposit.bits - fp_mul(
                fp_div(
                    end_liabs[i].bits as int,
                    fp_mul(g.total_deposits[i].bits as int, g.indexes[i].deposit.bits as int),
                ),
                g.indexes[i].deposit.bits as int,
            ) && spec_socialize_upto(g, a, end_liabs, n)->Ok_0.0.indexes[i].borrow
                == g.indexes[i].borrow && spec_socialize_upto(
                g,
                a,
                end_liabs,
                n,
            )->Ok_0.0.indexes[i].last_update == g.indexes[i].last_update,
        spec_socialize_upto(g, a, end_liabs, n)->Ok_0.2 <==> exists|i: int|
            0 <= i < n && #[trigger] end_liabs[i].bits > 0,
    decreases n,
{
    if n > 0 {
        match spec_socialize_upto(g, a, end_liabs, n - 1) {
            Err(_) => {},
            Ok((g1, a1, soc1)) => {
                law_socialize_all_tokens(g, a, end_liabs, n - 1);
                let prev = spec_socialize_upto(g, a, end_liabs, n - 1)->Ok_0;
                assert(prev.0 == g1 && prev.1 == a1 && prev.2 == soc1);
                assert(g1.indexes[n - 1] == g.indexes[n - 1]);
                assert(g1.total_deposits[n - 1] == g.total_deposits[n - 1]);
                if end_liabs[n - 1].bits > 0 {
                    let tdn_fp = sp_checked_mul(
                        g1.total_deposits[n - 1],
                        g1.indexes[n - 1].deposit,
                    )->Some_0;
                    let el = end_liabs[n - 1].bits as int;
                    let ib = g.indexes[n - 1].borrow.bits as int;
                    let id = g.indexes[n - 1].deposit.bits as int;
                    crate::fixedpoint::lemma_fp_mul_nonneg(
                        g.total_deposits[n - 1].bits as int,
                        id,
                    );
                    assert(tdn_fp.bits == fp_mul(g.total_deposits[n - 1].bits as int, id));
                    if g1.indexes[n - 1].borrow.bits == 0 {
                        assert(false);
                    }
                    if tdn_fp.bits == 0 {
                        assert(false);
                    }
                    crate::fixedpoint::lemma_fp_div_nonneg(el, ib);
                    crate::fixedpoint::lemma_fp_div_nonneg(el, tdn_fp.bits as int);
                    crate::fixedpoint::lemma_fp_mul_nonneg(fp_div(el, tdn_fp.bits as int), id);
                    let (g2, a2) = spec_socialize_loss(
                        g1,
                        a1,
                        n - 1,
                        end_liabs[n - 1],
                        tdn_fp,
                    )->Ok_0;
                    assert(a2.borrows[n - 1].bits == a1.borrows[n - 1].bits - fp_div(el, ib));
                    assert(g2.indexes[n - 1].deposit.bits == id - fp_mul(
                        fp_div(el, tdn_fp.bits as int),
                        id,
                    ));
                    assert(g2.total_borrows[n - 1].bits == g.total_borrows[n - 1].bits - fp_div(
                        el,
                        ib,
                    ));
                    assert(g2.indexes[n - 1].borrow == g.indexes[n - 1].borrow);
                    assert(g2.indexes[n - 1].last_update == g.indexes[n - 1].last_update);
                    assert(g2.wf());
                    assert(a2.wf());
                    assert(g2.total_deposits == g.total_deposits);
                    assert(a2.deposits == a.deposits);
                }
                let cur = spec_socialize_upto(g, a, end_liabs, n)->Ok_0;
                assert forall|i: int|
                    n <= i < NUM_TOKENS implies cur.0.indexes[i] == g.indexes[i]
                    && cur.1.borrows[i] == a.borrows[i] && cur.0.total_borrows[i]
                    == g.total_borrows[i] by {
                    assert(prev.0.indexes[i] == g.indexes[i]);
                    assert(prev.1.borrows[i] == a.borrows[i]);
                    assert(prev.0.total_borrows[i] == g.total_borrows[i]);
                };
                assert forall|i: int|
                    0 <= i < n && end_liabs[i].bits == 0 implies cur.0.indexes[i]
                    == g.indexes[i] && cur.1.borrows[i] == a.borrows[i] && cur.0.total_borrows[i]
                    == g.total_borrows[i] by {
                    if i < n - 1 {
                        assert(prev.0.indexes[i] == g.indexes[i]);
                        assert(prev.1.borrows[i] == a.borrows[i]);
                        assert(prev.0.total_borrows[i] == g.total_borrows[i]);
                    }
                };
                assert forall|i: int|
                    0 <= i < n && end_liabs[i].bits > 0 implies cur.1.borrows[i].bits
                    == a.borrows[i].bits - fp_div(
                    end_liabs[i].bits as int,
                    g.indexes[i].borrow.bits as int,
                ) && cur.0.total_borrows[i].bits == g.total_borrows[i].bits - fp_div(
                    end_liabs[i].bits as int,
                    g.indexes[i].borrow.bits as int,
                ) && cur.0.indexes[i].deposit.bits == g.indexes[i].deposit.bits - fp_mul(
                    fp_div(
                        end_liabs[i].bits as int,
                        fp_mul(
                            g.total_deposits[i].bits as int,
                            g.indexes[i].deposit.bits as int,
                        ),
                    ),
                    g.indexes[i].deposit.bits as int,
                ) && cur.0.indexes[i].borrow == g.indexes[i].borrow && cur.0.indexes[i].last_update
                    == g.indexes[i].last_update by {
                    if i < n - 1 {
                        assert(prev.1.borrows[i].bits == a.borrows[i].bits - fp_div(
                            end_liabs[i].bits as int,
                            g.indexes[i].borrow.bits as int,
                        ));
                        assert(prev.0.total_borrows[i].bits == g.total_borrows[i].bits - fp_div(
                            end_liabs[i].bits as int,
                            g.indexes[i].borrow.bits as int,
                        ));
                        assert(prev.0.indexes[i].deposit.bits == g.indexes[i].deposit.bits
                            - fp_mul(
                            fp_div(
                                end_liabs[i].bits as int,
                                fp_mul(
                                    g.total_deposits[i].bits as int,
                                    g.indexes[i].deposit.bits as int,
                                ),
                            ),
                            g.indexes[i].deposit.bits as int,
                        ));
                        assert(prev.0.indexes[i].borrow == g.indexes[i].borrow);
                        assert(prev.0.indexes[i].last_update == g.indexes[i].last_update);
                    }
                };
                assert(cur.2 <==> exists|i: int|
                    0 <= i < n && #[trigger] end_liabs[i].bits > 0) by {
                    if prev.2 {
                        let w = choose|i: int| 0 <= i < n - 1 && #[trigger] end_liabs[i].bits > 0;
                        assert(0 <= w < n && end_liabs[w].bits > 0);
                    }
                    if end_liabs[n - 1].bits > 0 {
                        assert(0 <= n - 1 < n && end_liabs[n - 1].bits > 0);
                    }
                    if cur.2 && !prev.2 && !(end_liabs[n - 1].bits > 0) {
                        assert(false);
                    }
                };
            },
        }
    }
}

} // verus!
