//! Pool and user ledger state.
//!
//! A `MangoGroup` is one cross-margined basket of `NUM_TOKENS` tokens (the
//! last is the shared quote currency) with `NUM_MARKETS` spot markets.  All
//! balances are *scaled*: multiplying by the token's current index gives the
//! native quantity, so index growth alone reflects accrued interest.
//!
//! Every mutating operation has an exact specification mirror (a `spec fn`
//! returning either the new state or the error code), and its contract says
//! the operation behaves as the mirror for every input.  An arithmetic step
//! whose checked result does not fit reports `ArithmeticError` and leaves
//! the state untouched.

use vstd::prelude::*;

use crate::error::MangoErrorCode;
use crate::error::MangoResult;
use crate::fixedpoint::FixedPoint;
use crate::fixedpoint::SCALE;
use crate::fixedpoint::sp_checked_add;
use crate::fixedpoint::sp_checked_sub;
use crate::fixedpoint::sp_checked_mul;
use crate::fixedpoint::sp_checked_div;

verus! {

/// Number of tokens in a group; the last one is the shared quote currency.
pub const NUM_TOKENS: usize = 5;

/// Number of spot markets: one per non-quote token.
pub const NUM_MARKETS: usize = NUM_TOKENS - 1;

/// Length of the free-form info field of a margin account.
pub const INFO_LEN: usize = 32;

/// Utilization at the kink of the interest-rate curve: 0.7 in 64.64 form
/// (rounded to nearest).
pub const OPTIMAL_UTIL: u128 = 12912720851596686131;

/// Per-second borrow rate at optimal utilization: 10% per year in 64.64
/// form (rounded to nearest).
pub const OPTIMAL_R: u128 = 58494241736;

/// Per-second borrow rate at full utilization: 150% per year in 64.64 form.
pub const MAX_R: u128 = 877413626033;

/// The value one in 64.64 form.
pub const ONE_BITS: u128 = SCALE;

/// Liquidator incentive factor: 1.05 in 64.64 form (rounded to nearest).
pub const PARTIAL_LIQ_INCENTIVE: u128 = 19369081277395029197;

/// Rounding tolerance of the pool-solvency check: 1.0e-17 in 64.64 form.
pub const EPSILON: u128 = 184;

/// Asset value under which an unrecoverable account's remaining loss is
/// socialized: one quote unit in 64.64 form.
pub const DUST_THRESHOLD: u128 = SCALE;

/// Record-kind tags carried by persisted accounts.
#[derive(Clone, Copy, Debug, PartialEq, Eq, Structural)]
pub enum AccountFlag {
    Initialized,
    MangoGroup,
    MarginAccount,
    MangoSrmAccount,
}

impl AccountFlag {
    /// The bit this flag occupies in a packed account-flags word.
    pub fn bits(self) -> (r: u64)
        ensures
            r == self.spec_bits(),
    {
        match self {
            AccountFlag::Initialized => 1u64,
            AccountFlag::MangoGroup => 2u64,
            AccountFlag::MarginAccount => 4u64,
            AccountFlag::MangoSrmAccount => 8u64,
        }
    }

    pub open spec fn spec_bits(self) -> u64 {
        match self {
            AccountFlag::Initialized => 1u64,
            AccountFlag::MangoGroup => 2u64,
            AccountFlag::MarginAccount => 4u64,
            AccountFlag::MangoSrmAccount => 8u64,
        }
    }
}

/// Header of an order-book side record of the venue.
#[derive(Clone, Copy, Debug, PartialEq, Eq, Structural)]
pub struct OrderBookStateHeader {
    pub account_flags: u64,
}

/// Per-token accrual factors.  Both start at one; `borrow` and `deposit`
/// never decrease under accrual (only loss socialization lowers `deposit`).
#[derive(Clone, Copy, Debug, PartialEq, Eq, Structural)]
pub struct MangoIndex {
    pub last_update: u64,
    pub borrow: FixedPoint,
    pub deposit: FixedPoint,
}

/// What collateral valuation reads from one open-orders record of the
/// venue: resting base quantity, resting quote quantity, and accrued fee
/// rebates, all in native units.
#[derive(Clone, Copy, Debug, PartialEq, Eq, Structural)]
pub struct OpenOrdersInfo {
    pub native_coin_total: u64,
    pub native_pc_total: u64,
    pub referrer_rebates_accrued: u64,
}

/// Mathematical value of a pool ledger.
#[verifier::ext_equal]
pub ghost struct GroupV {
    pub indexes: Seq<MangoIndex>,
    pub total_deposits: Seq<FixedPoint>,
    pub total_borrows: Seq<FixedPoint>,
    pub maint_coll_ratio: FixedPoint,
    pub init_coll_ratio: FixedPoint,
    pub borrow_limits: Seq<u64>,
    pub mint_decimals: Seq<u8>,
    pub oracle_decimals: Seq<u8>,
}

impl GroupV {
    pub open spec fn wf(self) -> bool {
        &&& self.indexes.len() == NUM_TOKENS
        &&& self.total_deposits.len() == NUM_TOKENS
        &&& self.total_borrows.len() == NUM_TOKENS
        &&& self.borrow_limits.len() == NUM_TOKENS
        &&& self.mint_decimals.len() == NUM_TOKENS
        &&& self.oracle_decimals.len() == NUM_MARKETS
    }
}

/// A group of spot markets that can be cross-margined together.
/// Scaled totals: multiply by the matching index to get native quantities.
#[derive(Clone, Debug)]
pub struct MangoGroup {
    pub indexes: Vec<MangoIndex>,
    pub total_deposits: Vec<FixedPoint>,
    pub total_borrows: Vec<FixedPoint>,
    pub maint_coll_ratio: FixedPoint,
    pub init_coll_ratio: FixedPoint,
    pub borrow_limits: Vec<u64>,
    pub mint_decimals: Vec<u8>,
    pub oracle_decimals: Vec<u8>,
}

impl View for MangoGroup {
    type V = GroupV;

    open spec fn view(&self) -> GroupV {
        GroupV {
            indexes: self.indexes@,
            total_deposits: self.total_deposits@,
            total_borrows: self.total_borrows@,
            maint_coll_ratio: self.maint_coll_ratio,
            init_coll_ratio: self.init_coll_ratio,
            borrow_limits: self.borrow_limits@,
            mint_decimals: self.mint_decimals@,
            oracle_decimals: self.oracle_decimals@,
        }
    }
}

/// Mathematical value of a user ledger.
#[verifier::ext_equal]
pub ghost struct MarginAccountV {
    pub deposits: Seq<FixedPoint>,
    pub borrows: Seq<FixedPoint>,
    pub being_liquidated: bool,
    pub has_borrows: bool,
    pub info: Seq<u8>,
}

impl MarginAccountV {
    pub open spec fn wf(self) -> bool {
        &&& self.deposits.len() == NUM_TOKENS
        &&& self.borrows.len() == NUM_TOKENS
        &&& self.info.len() == INFO_LEN
    }
}

/// One user's scaled balances and liquidation state within a group.
#[derive(Clone, Debug)]
pub struct MarginAccount {
    pub deposits: Vec<FixedPoint>,
    pub borrows: Vec<FixedPoint>,
    pub being_liquidated: bool,
    pub has_borrows: bool,
    pub info: Vec<u8>,
}

impl View for MarginAccount {
    type V = MarginAccountV;

    open spec fn view(&self) -> MarginAccountV {
        MarginAccountV {
            deposits: self.deposits@,
            borrows: self.borrows@,
            being_liquidated: self.being_liquidated,
            has_borrows: self.has_borrows,
            info: self.info@,
        }
    }
}

/// Altruistically contributed fee-discount tokens; never at risk and not
/// part of any margin calculation.
#[derive(Clone, Copy, Debug, PartialEq, Eq, Structural)]
pub struct MangoSrmAccount {
    pub amount: u64,
}

/// The integer `q` scaled up to a 64.64 bit pattern.
pub open spec fn sp_from_num(q: int) -> FixedPoint {
    FixedPoint { bits: (q * SCALE) as u128 }
}

/// What `get_interest_rate` returns.  Mirrors the computation exactly:
/// native quantities are the scaled totals times the indexes; a pool whose
/// native deposits do not exceed its native borrows is in a degenerate
/// state and pays the maximal rate; otherwise the rate is piecewise linear
/// in the utilization, with the kink at `OPTIMAL_UTIL`.
pub open spec fn spec_interest_rate(g: GroupV, i: int) -> Result<FixedPoint, MangoErrorCode> {
    match sp_checked_mul(g.indexes[i].deposit, g.total_deposits[i]) {
        None => Err(MangoErrorCode::ArithmeticError),
        Some(native_deposits) => match sp_checked_mul(g.indexes[i].borrow, g.total_borrows[i]) {
            None => Err(MangoErrorCode::ArithmeticError),
            Some(native_borrows) => {
                if native_deposits.bits <= native_borrows.bits {
                    Ok(FixedPoint { bits: MAX_R })
                } else {
                    match sp_checked_div(native_borrows, native_deposits) {
                        None => Err(MangoErrorCode::ArithmeticError),
                        Some(utilization) => spec_rate_from_utilization(utilization),
                    }
                }
            },
        },
    }
}

/// The piecewise-linear rate for a utilization strictly below one.
pub open spec fn spec_rate_from_utilization(utilization: FixedPoint) -> Result<
    FixedPoint,
    MangoErrorCode,
> {
    if utilization.bits > OPTIMAL_UTIL {
        let extra_util = FixedPoint { bits: (utilization.bits - OPTIMAL_UTIL) as u128 };
        match sp_checked_div(
            FixedPoint { bits: (MAX_R - OPTIMAL_R) as u128 },
            FixedPoint { bits: (ONE_BITS - OPTIMAL_UTIL) as u128 },
        ) {
            None => Err(MangoErrorCode::ArithmeticError),
            Some(slope) => match sp_checked_mul(slope, extra_util) {
                None => Err(MangoErrorCode::ArithmeticError),
                Some(rise) => match sp_checked_add(FixedPoint { bits: OPTIMAL_R }, rise) {
                    None => Err(MangoErrorCode::ArithmeticError),
                    Some(rate) => Ok(rate),
                },
            },
        }
    } else {
        match sp_checked_div(FixedPoint { bits: OPTIMAL_R }, FixedPoint { bits: OPTIMAL_UTIL }) {
            None => Err(MangoErrorCode::ArithmeticError),
            Some(slope) => match sp_checked_mul(slope, utilization) {
                None => Err(MangoErrorCode::ArithmeticError),
                Some(rate) => Ok(rate),
            },
        }
    }
}

/// What index accrual does to one token: skip if already current or if the
/// pool holds no deposits of it; otherwise both indexes grow by one step of
/// interest, the deposit side earning the borrow interest scaled by the
/// utilization.
pub open spec fn spec_update_token(g: GroupV, i: int, now: u64) -> Result<
    MangoIndex,
    MangoErrorCode,
> {
    match spec_interest_rate(g, i) {
        Err(c) => Err(c),
        Ok(interest_rate) => {
            let index = g.indexes[i];
            if index.last_update == now || g.total_deposits[i].bits == 0 {
                Ok(index)
            } else {
                spec_step_token(index, g.total_deposits[i], g.total_borrows[i], interest_rate, now)
            }
        },
    }
}

/// The non-skipped part of one token's accrual: recompute native
/// quantities, require borrows within rounding tolerance of deposits,
/// then accrue.
pub open spec fn spec_step_token(
    index: MangoIndex,
    total_deposit: FixedPoint,
    total_borrow: FixedPoint,
    interest_rate: FixedPoint,
    now: u64,
) -> Result<MangoIndex, MangoErrorCode> {
    match sp_checked_mul(total_deposit, index.deposit) {
        None => Err(MangoErrorCode::ArithmeticError),
        Some(native_deposits) => match sp_checked_mul(total_borrow, index.borrow) {
            None => Err(MangoErrorCode::ArithmeticError),
            Some(native_borrows) => match sp_checked_add(
                native_deposits,
                FixedPoint { bits: EPSILON },
            ) {
                None => Err(MangoErrorCode::ArithmeticError),
                Some(limit) => {
                    if !(native_borrows.bits <= limit.bits) {
                        Err(MangoErrorCode::Default)
                    } else {
                        spec_accrue(index, native_deposits, native_borrows, interest_rate, now)
                    }
                },
            },
        },
    }
}

/// One accrual step of both indexes of a token.
pub open spec fn spec_accrue(
    index: MangoIndex,
    native_deposits: FixedPoint,
    native_borrows: FixedPoint,
    interest_rate: FixedPoint,
    now: u64,
) -> Result<MangoIndex, MangoErrorCode> {
    match sp_checked_div(native_borrows, native_deposits) {
        None => Err(MangoErrorCode::ArithmeticError),
        Some(utilization) => {
            if now < index.last_update {
                Err(MangoErrorCode::ArithmeticError)
            } else {
                match sp_checked_mul(interest_rate, sp_from_num(now - index.last_update)) {
                    None => Err(MangoErrorCode::ArithmeticError),
                    Some(borrow_interest) => match sp_checked_mul(borrow_interest, utilization) {
                        None => Err(MangoErrorCode::ArithmeticError),
                        Some(deposit_interest) => match sp_checked_mul(index.borrow, borrow_interest) {
                            None => Err(MangoErrorCode::ArithmeticError),
                            Some(borrow_step) => match sp_checked_add(borrow_step, index.borrow) {
                                None => Err(MangoErrorCode::ArithmeticError),
                                Some(new_borrow) => match sp_checked_mul(
                                    index.deposit,
                                    deposit_interest,
                                ) {
                                    None => Err(MangoErrorCode::ArithmeticError),
                                    Some(deposit_step) => match sp_checked_add(
                                        deposit_step,
                                        index.deposit,
                                    ) {
                                        None => Err(MangoErrorCode::ArithmeticError),
                                        Some(new_deposit) => Ok(
                                            MangoIndex {
                                                last_update: now,
                                                borrow: new_borrow,
                                                deposit: new_deposit,
                                            },
                                        ),
                                    },
                                },
                            },
                        },
                    },
                }
            }
        },
    }
}

/// Index accrual over the first `n` tokens, in order; the first failure
/// aborts with its code and no change.
pub open spec fn spec_update_indexes_upto(g: GroupV, n: int, now: u64) -> Result<
    GroupV,
    MangoErrorCode,
>
    decreases n,
{
    if n <= 0 {
        Ok(g)
    } else {
        match spec_update_indexes_upto(g, n - 1, now) {
            Err(c) => Err(c),
            Ok(g1) => match spec_update_token(g1, n - 1, now) {
                Err(c) => Err(c),
                Ok(ix) => Ok(GroupV { indexes: g1.indexes.update(n - 1, ix), ..g1 }),
            },
        }
    }
}

/// What `update_indexes` does: accrue every token.
pub open spec fn spec_update_indexes(g: GroupV, now: u64) -> Result<GroupV, MangoErrorCode> {
    spec_update_indexes_upto(g, NUM_TOKENS as int, now)
}

impl MangoGroup {
    pub open spec fn wf(&self) -> bool {
        self@.wf()
    }

    /// A fresh pool: all scaled totals zero, both indexes of every token
    /// one, brought current at `now`, with the given risk parameters.
    pub fn new(
        maint_coll_ratio: FixedPoint,
        init_coll_ratio: FixedPoint,
        borrow_limits: Vec<u64>,
        mint_decimals: Vec<u8>,
        oracle_decimals: Vec<u8>,
        now: u64,
    ) -> (r: MangoGroup)
        requires
            borrow_limits@.len() == NUM_TOKENS,
            mint_decimals@.len() == NUM_TOKENS,
            oracle_decimals@.len() == NUM_MARKETS,
        ensures
            r.wf(),
            r@.maint_coll_ratio == maint_coll_ratio,
            r@.init_coll_ratio == init_coll_ratio,
            r@.borrow_limits == borrow_limits@,
            r@.mint_decimals == mint_decimals@,
            r@.oracle_decimals == oracle_decimals@,
            forall|i: int|
                0 <= i < NUM_TOKENS ==> r@.indexes[i] == (MangoIndex {
                    last_update: now,
                    borrow: FixedPoint { bits: ONE_BITS },
                    deposit: FixedPoint { bits: ONE_BITS },
                }),
            forall|i: int| 0 <= i < NUM_TOKENS ==> r@.total_deposits[i].bits == 0,
            forall|i: int| 0 <= i < NUM_TOKENS ==> r@.total_borrows[i].bits == 0,
    {
        let mut indexes: Vec<MangoIndex> = Vec::new();
        let mut total_deposits: Vec<FixedPoint> = Vec::new();
        let mut total_borrows: Vec<FixedPoint> = Vec::new();
        let mut i: usize = 0;
        while i < NUM_TOKENS
            invariant
                i <= NUM_TOKENS,
                indexes@.len() == i,
                total_deposits@.len() == i,
                total_borrows@.len() == i,
                forall|j: int|
                    0 <= j < i ==> indexes@[j] == (MangoIndex {
                        last_update: now,
                        borrow: FixedPoint { bits: ONE_BITS },
                        deposit: FixedPoint { bits: ONE_BITS },
                    }),
                forall|j: int| 0 <= j < i ==> total_deposits@[j].bits == 0,
                forall|j: int| 0 <= j < i ==> total_borrows@[j].bits == 0,
            decreases NUM_TOKENS - i,
        {
            indexes.push(
                MangoIndex {
                    last_update: now,
                    borrow: FixedPoint::one(),
                    deposit: FixedPoint::one(),
                },
            );
            total_deposits.push(FixedPoint::zero());
            total_borrows.push(FixedPoint::zero());
            i = i + 1;
        }
        MangoGroup {
            indexes,
            total_deposits,
            total_borrows,
            maint_coll_ratio,
            init_coll_ratio,
            borrow_limits,
            mint_decimals,
            oracle_decimals,
        }
    }

    /// An identical pool ledger.
    pub fn duplicate(&self) -> (r: MangoGroup)
        ensures
            r@ == self@,
    {
        let r = MangoGroup {
            indexes: self.indexes.clone(),
            total_deposits: self.total_deposits.clone(),
            total_borrows: self.total_borrows.clone(),
            maint_coll_ratio: self.maint_coll_ratio,
            init_coll_ratio: self.init_coll_ratio,
            borrow_limits: self.borrow_limits.clone(),
            mint_decimals: self.mint_decimals.clone(),
            oracle_decimals: self.oracle_decimals.clone(),
        };
        proof {
            assert(r.indexes@ =~= self.indexes@);
            assert(r.total_deposits@ =~= self.total_deposits@);
            assert(r.total_borrows@ =~= self.total_borrows@);
            assert(r.borrow_limits@ =~= self.borrow_limits@);
            assert(r.mint_decimals@ =~= self.mint_decimals@);
            assert(r.oracle_decimals@ =~= self.oracle_decimals@);
            assert(r@ =~= self@);
        }
        r
    }

    /// Interest is in units per second (a rate of 0.01 means 1% per second).
    pub fn get_interest_rate(&self, token_index: usize) -> (r: MangoResult<FixedPoint>)
        requires
            self.wf(),
            token_index < NUM_TOKENS,
        ensures
            r == spec_interest_rate(self@, token_index as int),
    {
        let index = self.indexes[token_index];
        let native_deposits = match index.deposit.checked_mul(self.total_deposits[token_index]) {
            Some(x) => x,
            None => {
                return Err(MangoErrorCode::ArithmeticError);
            },
        };
        let native_borrows = match index.borrow.checked_mul(self.total_borrows[token_index]) {
            Some(x) => x,
            None => {
                return Err(MangoErrorCode::ArithmeticError);
            },
        };
        if native_deposits.bits <= native_borrows.bits {
            // zero deposits included: a degenerate state, maximally punitive
            return Ok(FixedPoint::from_bits(MAX_R));
        }
        let utilization = match native_borrows.checked_div(native_deposits) {
            Some(u) => u,
            None => {
                return Err(MangoErrorCode::ArithmeticError);
            },
        };
        if utilization.bits > OPTIMAL_UTIL {
            let extra_util = FixedPoint::from_bits(utilization.bits - OPTIMAL_UTIL);
            let slope = match FixedPoint::from_bits(MAX_R - OPTIMAL_R).checked_div(
                FixedPoint::from_bits(ONE_BITS - OPTIMAL_UTIL),
            ) {
                Some(s) => s,
                None => {
                    return Err(MangoErrorCode::ArithmeticError);
                },
            };
            let rise = match slope.checked_mul(extra_util) {
                Some(x) => x,
                None => {
                    return Err(MangoErrorCode::ArithmeticError);
                },
            };
            match FixedPoint::from_bits(OPTIMAL_R).checked_add(rise) {
                Some(rate) => Ok(rate),
                None => Err(MangoErrorCode::ArithmeticError),
            }
        } else {
            let slope = match FixedPoint::from_bits(OPTIMAL_R).checked_div(
                FixedPoint::from_bits(OPTIMAL_UTIL),
            ) {
                Some(s) => s,
                None => {
                    return Err(MangoErrorCode::ArithmeticError);
                },
            };
            match slope.checked_mul(utilization) {
                Some(rate) => Ok(rate),
                None => Err(MangoErrorCode::ArithmeticError),
            }
        }
    }

    /// Brings every token's indexes current at `now`.  All-or-nothing: on
    /// any failure the ledger is unchanged.
    #[verifier::rlimit(60)]
    pub fn update_indexes(&mut self, now: u64) -> (r: MangoResult<()>)
        requires
            old(self).wf(),
        ensures
            final(self).wf(),
            match spec_update_indexes(old(self)@, now) {
                Ok(g2) => r == Ok::<(), MangoErrorCode>(()) && final(self)@ == g2,
                Err(c) => r == Err::<(), MangoErrorCode>(c) && final(self)@ == old(self)@,
            },
    {
        let ghost g0 = self@;
        let mut new_indexes: Vec<MangoIndex> = self.indexes.clone();
        proof {
            assert(new_indexes@ =~= self.indexes@);
        }
        let mut i: usize = 0;
        while i < NUM_TOKENS
            invariant
                self.wf(),
                self@ == g0,
                i <= NUM_TOKENS,
                spec_update_indexes_upto(g0, i as int, now) == Ok::<GroupV, MangoErrorCode>(
                    GroupV { indexes: new_indexes@, ..g0 },
                ),
                new_indexes@.len() == NUM_TOKENS,
                forall|j: int| i <= j < NUM_TOKENS ==> new_indexes@[j] == g0.indexes[j],
            decreases NUM_TOKENS - i,
        {
            let ghost g1 = GroupV { indexes: new_indexes@, ..g0 };
            proof {
                assert(g1.indexes[i as int] == g0.indexes[i as int]);
            }
            let rate = match self.get_interest_rate(i) {
                Ok(x) => x,
                Err(c) => {
                    proof {
                        assert(spec_interest_rate(g1, i as int) == spec_interest_rate(
                            g0,
                            i as int,
                        ));
                        lemma_update_indexes_upto_err(g0, i as int, NUM_TOKENS as int, now, g1, c);
                    }
                    return Err(c);
                },
            };
            proof {
                assert(spec_interest_rate(g1, i as int) == spec_interest_rate(g0, i as int));
            }
            let index = self.indexes[i];
            if index.last_update == now || self.total_deposits[i].is_zero() {
                proof {
                    assert(g1.indexes.update(i as int, index) =~= new_indexes@);
                    assert(GroupV { indexes: g1.indexes.update(i as int, index), ..g1 } =~= g1);
                }
                i = i + 1;
                continue;
            }
            let new_index = match step_token(
                index,
                self.total_deposits[i],
                self.total_borrows[i],
                rate,
                now,
            ) {
                Ok(x) => x,
                Err(c) => {
                    proof {
                        lemma_update_indexes_upto_err(g0, i as int, NUM_TOKENS as int, now, g1, c);
                    }
                    return Err(c);
                },
            };
            new_indexes[i] = new_index;
            proof {
                assert(GroupV { indexes: new_indexes@, ..g0 } =~= GroupV {
                    indexes: g1.indexes.update(i as int, new_index),
                    ..g1
                });
            }
            i = i + 1;
        }
        self.indexes = new_indexes;
        proof {
            assert(self@ =~= GroupV { indexes: new_indexes@, ..g0 });
        }
        Ok(())
    }

    /// Native deposits cover native borrows for this token, both taken in
    /// whole native units, borrows rounded up and deposits rounded down.
    pub fn has_valid_deposits_borrows(&self, token_i: usize) -> (r: MangoResult<bool>)
        requires
            self.wf(),
            token_i < NUM_TOKENS,
        ensures
            r == spec_has_valid_deposits_borrows(self@, token_i as int),
    {
        let dep = match self.get_total_native_deposit(token_i) {
            Ok(x) => x,
            Err(c) => {
                return Err(c);
            },
        };
        let bor = match self.get_total_native_borrow(token_i) {
            Ok(x) => x,
            Err(c) => {
                return Err(c);
            },
        };
        Ok(dep >= bor)
    }

    /// The pool's native borrows of a token, rounded up to a whole unit.
    pub fn get_total_native_borrow(&self, token_i: usize) -> (r: MangoResult<u64>)
        requires
            self.wf(),
            token_i < NUM_TOKENS,
        ensures
            r == spec_total_native_borrow(self@, token_i as int),
    {
        let native = match self.total_borrows[token_i].checked_mul(self.indexes[token_i].borrow) {
            Some(x) => x,
            None => {
                return Err(MangoErrorCode::ArithmeticError);
            },
        };
        match native.ceil_to_u64() {
            Some(x) => Ok(x),
            None => Err(MangoErrorCode::ArithmeticError),
        }
    }

    /// The pool's native deposits of a token, rounded down to a whole unit.
    pub fn get_total_native_deposit(&self, token_i: usize) -> (r: MangoResult<u64>)
        requires
            self.wf(),
            token_i < NUM_TOKENS,
        ensures
            r == spec_total_native_deposit(self@, token_i as int),
    {
        let native = match self.total_deposits[token_i].checked_mul(self.indexes[token_i].deposit) {
            Some(x) => x,
            None => {
                return Err(MangoErrorCode::ArithmeticError);
            },
        };
        Ok(native.floor_to_u64())
    }

    pub fn checked_add_borrow(&mut self, token_i: usize, v: FixedPoint) -> (r: MangoResult<()>)
        requires
            old(self).wf(),
            token_i < NUM_TOKENS,
        ensures
            final(self).wf(),
            match sp_checked_add(old(self)@.total_borrows[token_i as int], v) {
                Some(nv) => r == Ok::<(), MangoErrorCode>(()) && final(self)@ == (GroupV {
                    total_borrows: old(self)@.total_borrows.update(token_i as int, nv),
                    ..old(self)@
                }),
                None => r == Err::<(), MangoErrorCode>(MangoErrorCode::Default) && final(self)@
                    == old(self)@,
            },
    {
        match self.total_borrows[token_i].checked_add(v) {
            Some(nv) => {
                self.total_borrows[token_i] = nv;
                proof {
                    assert(self@ =~= (GroupV {
                        total_borrows: old(self)@.total_borrows.update(token_i as int, nv),
                        ..old(self)@
                    }));
                }
                Ok(())
            },
            None => Err(MangoErrorCode::Default),
        }
    }

    pub fn checked_sub_borrow(&mut self, token_i: usize, v: FixedPoint) -> (r: MangoResult<()>)
        requires
            old(self).wf(),
            token_i < NUM_TOKENS,
        ensures
            final(self).wf(),
            match sp_checked_sub(old(self)@.total_borrows[token_i as int], v) {
                Some(nv) => r == Ok::<(), MangoErrorCode>(()) && final(self)@ == (GroupV {
                    total_borrows: old(self)@.total_borrows.update(token_i as int, nv),
                    ..old(self)@
                }),
                None => r == Err::<(), MangoErrorCode>(MangoErrorCode::Default) && final(self)@
                    == old(self)@,
            },
    {
        match self.total_borrows[token_i].checked_sub(v) {
            Some(nv) => {
                self.total_borrows[token_i] = nv;
                proof {
                    assert(self@ =~= (GroupV {
                        total_borrows: old(self)@.total_borrows.update(token_i as int, nv),
                        ..old(self)@
                    }));
                }
                Ok(())
            },
            None => Err(MangoErrorCode::Default),
        }
    }

    pub fn checked_add_deposit(&mut self, token_i: usize, v: FixedPoint) -> (r: MangoResult<()>)
        requires
            old(self).wf(),
            token_i < NUM_TOKENS,
        ensures
            final(self).wf(),
            match sp_checked_add(old(self)@.total_deposits[token_i as int], v) {
                Some(nv) => r == Ok::<(), MangoErrorCode>(()) && final(self)@ == (GroupV {
                    total_deposits: old(self)@.total_deposits.update(token_i as int, nv),
                    ..old(self)@
                }),
                None => r == Err::<(), MangoErrorCode>(MangoErrorCode::Default) && final(self)@
                    == old(self)@,
            },
    {
        match self.total_deposits[token_i].checked_add(v) {
            Some(nv) => {
                self.total_deposits[token_i] = nv;
                proof {
                    assert(self@ =~= (GroupV {
                        total_deposits: old(self)@.total_deposits.update(token_i as int, nv),
                        ..old(self)@
                    }));
                }
                Ok(())
            },
            None => Err(MangoErrorCode::Default),
        }
    }

    pub fn checked_sub_deposit(&mut self, token_i: usize, v: FixedPoint) -> (r: MangoResult<()>)
        requires
            old(self).wf(),
            token_i < NUM_TOKENS,
        ensures
            final(self).wf(),
            match sp_checked_sub(old(self)@.total_deposits[token_i as int], v) {
                Some(nv) => r == Ok::<(), MangoErrorCode>(()) && final(self)@ == (GroupV {
                    total_deposits: old(self)@.total_deposits.update(token_i as int, nv),
                    ..old(self)@
                }),
                None => r == Err::<(), MangoErrorCode>(MangoErrorCode::Default) && final(self)@
                    == old(self)@,
            },
    {
        match self.total_deposits[token_i].checked_sub(v) {
            Some(nv) => {
                self.total_deposits[token_i] = nv;
                proof {
                    assert(self@ =~= (GroupV {
                        total_deposits: old(self)@.total_deposits.update(token_i as int, nv),
                        ..old(self)@
                    }));
                }
                Ok(())
            },
            None => Err(MangoErrorCode::Default),
        }
    }
}

/// One accrual step of both indexes of a token; the executable twin of
/// `spec_accrue`.
fn accrue(
    index: MangoIndex,
    native_deposits: FixedPoint,
    native_borrows: FixedPoint,
    interest_rate: FixedPoint,
    now: u64,
) -> (r: MangoResult<MangoIndex>)
    ensures
        r == spec_accrue(index, native_deposits, native_borrows, interest_rate, now),
{
    let utilization = match native_borrows.checked_div(native_deposits) {
        Some(u) => u,
        None => {
            return Err(MangoErrorCode::ArithmeticError);
        },
    };
    if now < index.last_update {
        return Err(MangoErrorCode::ArithmeticError);
    }
    let elapsed = FixedPoint::from_num(now - index.last_update);
    let borrow_interest = match interest_rate.checked_mul(elapsed) {
        Some(x) => x,
        None => {
            return Err(MangoErrorCode::ArithmeticError);
        },
    };
    let deposit_interest = match borrow_interest.checked_mul(utilization) {
        Some(x) => x,
        None => {
            return Err(MangoErrorCode::ArithmeticError);
        },
    };
    let borrow_step = match index.borrow.checked_mul(borrow_interest) {
        Some(x) => x,
        None => {
            return Err(MangoErrorCode::ArithmeticError);
        },
    };
    let new_borrow = match borrow_step.checked_add(index.borrow) {
        Some(x) => x,
        None => {
            return Err(MangoErrorCode::ArithmeticError);
        },
    };
    let deposit_step = match index.deposit.checked_mul(deposit_interest) {
        Some(x) => x,
        None => {
            return Err(MangoErrorCode::ArithmeticError);
        },
    };
    let new_deposit = match deposit_step.checked_add(index.deposit) {
        Some(x) => x,
        None => {
            return Err(MangoErrorCode::ArithmeticError);
        },
    };
    Ok(MangoIndex { last_update: now, borrow: new_borrow, deposit: new_deposit })
}

/// The executable twin of `spec_step_token`.
fn step_token(
    index: MangoIndex,
    total_deposit: FixedPoint,
    total_borrow: FixedPoint,
    interest_rate: FixedPoint,
    now: u64,
) -> (r: MangoResult<MangoIndex>)
    ensures
        r == spec_step_token(index, total_deposit, total_borrow, interest_rate, now),
{
    let native_deposits = match total_deposit.checked_mul(index.deposit) {
        Some(x) => x,
        None => {
            return Err(MangoErrorCode::ArithmeticError);
        },
    };
    let native_borrows = match total_borrow.checked_mul(index.borrow) {
        Some(x) => x,
        None => {
            return Err(MangoErrorCode::ArithmeticError);
        },
    };
    let limit = match native_deposits.checked_add(FixedPoint::from_bits(EPSILON)) {
        Some(x) => x,
        None => {
            return Err(MangoErrorCode::ArithmeticError);
        },
    };
    if !(native_borrows.bits <= limit.bits) {
        // borrows have outrun deposits beyond rounding tolerance
        return Err(MangoErrorCode::Default);
    }
    accrue(index, native_deposits, native_borrows, interest_rate, now)
}

/// A token whose accrual fails makes the whole pass fail with its code.
proof fn lemma_update_indexes_upto_err(
    g: GroupV,
    i: int,
    n: int,
    now: u64,
    g1: GroupV,
    c: MangoErrorCode,
)
    requires
        0 <= i < n,
        spec_update_indexes_upto(g, i, now) == Ok::<GroupV, MangoErrorCode>(g1),
        spec_update_token(g1, i, now) == Err::<MangoIndex, MangoErrorCode>(c),
    ensures
        spec_update_indexes_upto(g, n, now) == Err::<GroupV, MangoErrorCode>(c),
    decreases n,
{
    if n > i + 1 {
        lemma_update_indexes_upto_err(g, i, n - 1, now, g1, c);
    }
}

impl MarginAccount {
    pub open spec fn wf(&self) -> bool {
        self@.wf()
    }

    /// A fresh margin account: all scaled balances zero.
    pub fn new() -> (r: MarginAccount)
        ensures
            r.wf(),
            forall|i: int| 0 <= i < NUM_TOKENS ==> r@.deposits[i].bits == 0,
            forall|i: int| 0 <= i < NUM_TOKENS ==> r@.borrows[i].bits == 0,
            !r@.being_liquidated,
            !r@.has_borrows,
            forall|i: int| 0 <= i < INFO_LEN ==> r@.info[i] == 0u8,
    {
        let mut deposits: Vec<FixedPoint> = Vec::new();
        let mut borrows: Vec<FixedPoint> = Vec::new();
        let mut i: usize = 0;
        while i < NUM_TOKENS
            invariant
                i <= NUM_TOKENS,
                deposits@.len() == i,
                borrows@.len() == i,
                forall|j: int| 0 <= j < i ==> deposits@[j].bits == 0,
                forall|j: int| 0 <= j < i ==> borrows@[j].bits == 0,
            decreases NUM_TOKENS - i,
        {
            deposits.push(FixedPoint::zero());
            borrows.push(FixedPoint::zero());
            i = i + 1;
        }
        let mut info: Vec<u8> = Vec::new();
        let mut k: usize = 0;
        while k < INFO_LEN
            invariant
                k <= INFO_LEN,
                info@.len() == k,
                forall|j: int| 0 <= j < k ==> info@[j] == 0u8,
            decreases INFO_LEN - k,
        {
            info.push(0u8);
            k = k + 1;
        }
        MarginAccount { deposits, borrows, being_liquidated: false, has_borrows: false, info }
    }

    /// An identical user ledger.
    pub fn duplicate(&self) -> (r: MarginAccount)
        ensures
            r@ == self@,
    {
        let r = MarginAccount {
            deposits: self.deposits.clone(),
            borrows: self.borrows.clone(),
            being_liquidated: self.being_liquidated,
            has_borrows: self.has_borrows,
            info: self.info.clone(),
        };
        proof {
            assert(r.deposits@ =~= self.deposits@);
            assert(r.borrows@ =~= self.borrows@);
            assert(r.info@ =~= self.info@);
            assert(r@ =~= self@);
        }
        r
    }

    /// The account's native borrow of a token, rounded down.
    pub fn get_native_borrow(&self, index: &MangoIndex, token_i: usize) -> (r: MangoResult<u64>)
        requires
            self.wf(),
            token_i < NUM_TOKENS,
        ensures
            r == spec_native_borrow(self@, *index, token_i as int),
    {
        let native = match self.borrows[token_i].checked_mul(index.borrow) {
            Some(x) => x,
            None => {
                return Err(MangoErrorCode::ArithmeticError);
            },
        };
        Ok(native.floor_to_u64())
    }

    /// The account's native deposit of a token, rounded down.
    pub fn get_native_deposit(&self, index: &MangoIndex, token_i: usize) -> (r: MangoResult<u64>)
        requires
            self.wf(),
            token_i < NUM_TOKENS,
        ensures
            r == spec_native_deposit(self@, *index, token_i as int),
    {
        let native = match self.deposits[token_i].checked_mul(index.deposit) {
            Some(x) => x,
            None => {
                return Err(MangoErrorCode::ArithmeticError);
            },
        };
        Ok(native.floor_to_u64())
    }

    pub fn checked_add_borrow(&mut self, token_i: usize, v: FixedPoint) -> (r: MangoResult<()>)
        requires
            old(self).wf(),
            token_i < NUM_TOKENS,
        ensures
            final(self).wf(),
            match sp_checked_add(old(self)@.borrows[token_i as int], v) {
                Some(nv) => r == Ok::<(), MangoErrorCode>(()) && final(self)@ == (MarginAccountV {
                    borrows: old(self)@.borrows.update(token_i as int, nv),
                    ..old(self)@
                }),
                None => r == Err::<(), MangoErrorCode>(MangoErrorCode::Default) && final(self)@
                    == old(self)@,
            },
    {
        match self.borrows[token_i].checked_add(v) {
            Some(nv) => {
                self.borrows[token_i] = nv;
                proof {
                    assert(self@ =~= (MarginAccountV {
                        borrows: old(self)@.borrows.update(token_i as int, nv),
                        ..old(self)@
                    }));
                }
                Ok(())
            },
            None => Err(MangoErrorCode::Default),
        }
    }

    pub fn checked_sub_borrow(&mut self, token_i: usize, v: FixedPoint) -> (r: MangoResult<()>)
        requires
            old(self).wf(),
            token_i < NUM_TOKENS,
        ensures
            final(self).wf(),
            match sp_checked_sub(old(self)@.borrows[token_i as int], v) {
                Some(nv) => r == Ok::<(), MangoErrorCode>(()) && final(self)@ == (MarginAccountV {
                    borrows: old(self)@.borrows.update(token_i as int, nv),
                    ..old(self)@
                }),
                None => r == Err::<(), MangoErrorCode>(MangoErrorCode::Default) && final(self)@
                    == old(self)@,
            },
    {
        match self.borrows[token_i].checked_sub(v) {
            Some(nv) => {
                self.borrows[token_i] = nv;
                proof {
                    assert(self@ =~= (MarginAccountV {
                        borrows: old(self)@.borrows.update(token_i as int, nv),
                        ..old(self)@
                    }));
                }
                Ok(())
            },
            None => Err(MangoErrorCode::Default),
        }
    }

    pub fn checked_add_deposit(&mut self, token_i: usize, v: FixedPoint) -> (r: MangoResult<()>)
        requires
            old(self).wf(),
            token_i < NUM_TOKENS,
        ensures
            final(self).wf(),
            match sp_checked_add(old(self)@.deposits[token_i as int], v) {
                Some(nv) => r == Ok::<(), MangoErrorCode>(()) && final(self)@ == (MarginAccountV {
                    deposits: old(self)@.deposits.update(token_i as int, nv),
                    ..old(self)@
                }),
                None => r == Err::<(), MangoErrorCode>(MangoErrorCode::Default) && final(self)@
                    == old(self)@,
            },
    {
        match self.deposits[token_i].checked_add(v) {
            Some(nv) => {
                self.deposits[token_i] = nv;
                proof {
                    assert(self@ =~= (MarginAccountV {
                        deposits: old(self)@.deposits.update(token_i as int, nv),
                        ..old(self)@
                    }));
                }
                Ok(())
            },
            None => Err(MangoErrorCode::Default),
        }
    }

    pub fn checked_sub_deposit(&mut self, token_i: usize, v: FixedPoint) -> (r: MangoResult<()>)
        requires
            old(self).wf(),
            token_i < NUM_TOKENS,
        ensures
            final(self).wf(),
            match sp_checked_sub(old(self)@.deposits[token_i as int], v) {
                Some(nv) => r == Ok::<(), MangoErrorCode>(()) && final(self)@ == (MarginAccountV {
                    deposits: old(self)@.deposits.update(token_i as int, nv),
                    ..old(self)@
                }),
                None => r == Err::<(), MangoErrorCode>(MangoErrorCode::Default) && final(self)@
                    == old(self)@,
            },
    {
        match self.deposits[token_i].checked_sub(v) {
            Some(nv) => {
                self.deposits[token_i] = nv;
                proof {
                    assert(self@ =~= (MarginAccountV {
                        deposits: old(self)@.deposits.update(token_i as int, nv),
                        ..old(self)@
                    }));
                }
                Ok(())
            },
            None => Err(MangoErrorCode::Default),
        }
    }
}

/// The account's native borrow of a token, rounded down to a whole unit.
pub open spec fn spec_native_borrow(a: MarginAccountV, index: MangoIndex, i: int) -> Result<
    u64,
    MangoErrorCode,
> {
    match sp_checked_mul(a.borrows[i], index.borrow) {
        None => Err(MangoErrorCode::ArithmeticError),
        Some(native) => Ok((native.bits / SCALE) as u64),
    }
}

/// The account's native deposit of a token, rounded down to a whole unit.
pub open spec fn spec_native_deposit(a: MarginAccountV, index: MangoIndex, i: int) -> Result<
    u64,
    MangoErrorCode,
> {
    match sp_checked_mul(a.deposits[i], index.deposit) {
        None => Err(MangoErrorCode::ArithmeticError),
        Some(native) => Ok((native.bits / SCALE) as u64),
    }
}

/// Whole-unit native deposits cover whole-unit native borrows.
pub open spec fn spec_has_valid_deposits_borrows(g: GroupV, i: int) -> Result<
    bool,
    MangoErrorCode,
> {
    match spec_total_native_deposit(g, i) {
        Err(c) => Err(c),
        Ok(dep) => match spec_total_native_borrow(g, i) {
            Err(c) => Err(c),
            Ok(bor) => Ok(dep >= bor),
        },
    }
}

/// The pool's native borrows of a token in whole units, rounded up.
pub open spec fn spec_total_native_borrow(g: GroupV, i: int) -> Result<u64, MangoErrorCode> {
    match sp_checked_mul(g.total_borrows[i], g.indexes[i].borrow) {
        None => Err(MangoErrorCode::ArithmeticError),
        Some(native) => {
            if native.bits % SCALE == 0 {
                Ok((native.bits / SCALE) as u64)
            } else if native.bits / SCALE < 0xffff_ffff_ffff_ffffu64 {
                Ok((native.bits / SCALE + 1) as u64)
            } else {
                Err(MangoErrorCode::ArithmeticError)
            }
        },
    }
}

/// The pool's native deposits of a token in whole units, rounded down.
pub open spec fn spec_total_native_deposit(g: GroupV, i: int) -> Result<u64, MangoErrorCode> {
    match sp_checked_mul(g.total_deposits[i], g.indexes[i].deposit) {
        None => Err(MangoErrorCode::ArithmeticError),
        Some(native) => Ok((native.bits / SCALE) as u64),
    }
}

} // verus!
