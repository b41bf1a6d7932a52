//! The balance-mutating operations of the engine.
//!
//! Each public operation is all-or-nothing: it works on private copies of
//! the pool and user ledgers and commits only on success, so a failing
//! check or arithmetic step leaves both exactly as they were.  Token
//! transfers, venue calls and oracle reads happen outside; an operation
//! takes their observed plain values (quantities, prices, pre/post
//! balances) and performs every ledger decision here.

use vstd::prelude::*;

use crate::error::MangoErrorCode;
use crate::error::MangoResult;
use crate::fixedpoint::FixedPoint;
use crate::fixedpoint::SCALE;
use crate::fixedpoint::sp_checked_add;
use crate::fixedpoint::sp_checked_sub;
use crate::fixedpoint::sp_checked_mul;
use crate::fixedpoint::sp_checked_div;
use crate::state::GroupV;
use crate::state::MangoGroup;
use crate::state::MangoIndex;
use crate::state::MarginAccount;
use crate::state::MarginAccountV;
use crate::state::NUM_MARKETS;
use crate::state::NUM_TOKENS;
use crate::state::sp_from_num;

verus! {

/// What the paired credit of a deposit does: the same scaled quantity is
/// added to the user's and to the pool's deposits of the token.
pub open spec fn spec_checked_add_deposit(
    g: GroupV,
    a: MarginAccountV,
    i: int,
    v: FixedPoint,
) -> Result<(GroupV, MarginAccountV), MangoErrorCode> {
    match sp_checked_add(a.deposits[i], v) {
        None => Err(MangoErrorCode::Default),
        Some(ad) => match sp_checked_add(g.total_deposits[i], v) {
            None => Err(MangoErrorCode::Default),
            Some(gd) => Ok(
                (
                    GroupV { total_deposits: g.total_deposits.update(i, gd), ..g },
                    MarginAccountV { deposits: a.deposits.update(i, ad), ..a },
                ),
            ),
        },
    }
}

/// The paired debit of a deposit.
pub open spec fn spec_checked_sub_deposit(
    g: GroupV,
    a: MarginAccountV,
    i: int,
    v: FixedPoint,
) -> Result<(GroupV, MarginAccountV), MangoErrorCode> {
    match sp_checked_sub(a.deposits[i], v) {
        None => Err(MangoErrorCode::Default),
        Some(ad) => match sp_checked_sub(g.total_deposits[i], v) {
            None => Err(MangoErrorCode::Default),
            Some(gd) => Ok(
                (
                    GroupV { total_deposits: g.total_deposits.update(i, gd), ..g },
                    MarginAccountV { deposits: a.deposits.update(i, ad), ..a },
                ),
            ),
        },
    }
}

/// The paired credit of a borrow; a strictly positive quantity marks the
/// account as having borrows.
pub open spec fn spec_checked_add_borrow(
    g: GroupV,
    a: MarginAccountV,
    i: int,
    v: FixedPoint,
) -> Result<(GroupV, MarginAccountV), MangoErrorCode> {
    match sp_checked_add(a.borrows[i], v) {
        None => Err(MangoErrorCode::Default),
        Some(ab) => match sp_checked_add(g.total_borrows[i], v) {
            None => Err(MangoErrorCode::Default),
            Some(gb) => Ok(
                (
                    GroupV { total_borrows: g.total_borrows.update(i, gb), ..g },
                    MarginAccountV {
                        borrows: a.borrows.update(i, ab),
                        has_borrows: a.has_borrows || v.bits > 0,
                        ..a
                    },
                ),
            ),
        },
    }
}

/// After a borrow debit the account's has-borrows mark is recomputed from
/// what is left.
pub open spec fn spec_checked_sub_borrow(
    g: GroupV,
    a: MarginAccountV,
    i: int,
    v: FixedPoint,
) -> Result<(GroupV, MarginAccountV), MangoErrorCode> {
    match sp_checked_sub(a.borrows[i], v) {
        None => Err(MangoErrorCode::Default),
        Some(ab) => match sp_checked_sub(g.total_borrows[i], v) {
            None => Err(MangoErrorCode::Default),
            Some(gb) => {
                let borrows = a.borrows.update(i, ab);
                Ok(
                    (
                        GroupV { total_borrows: g.total_borrows.update(i, gb), ..g },
                        MarginAccountV {
                            borrows,
                            has_borrows: exists|j: int|
                                0 <= j < NUM_TOKENS && borrows[j].bits > 0,
                            ..a
                        },
                    ),
                )
            },
        },
    }
}

/// Executable twin of `spec_checked_add_deposit`; on failure the ledgers
/// are untouched.
fn checked_add_deposit(
    mango_group: &mut MangoGroup,
    margin_account: &mut MarginAccount,
    token_index: usize,
    quantity: FixedPoint,
) -> (r: MangoResult<()>)
    requires
        old(mango_group).wf(),
        old(margin_account).wf(),
        token_index < NUM_TOKENS,
    ensures
        final(mango_group).wf(),
        final(margin_account).wf(),
        match spec_checked_add_deposit(
            old(mango_group)@,
            old(margin_account)@,
            token_index as int,
            quantity,
        ) {
            Ok((g2, a2)) => r == Ok::<(), MangoErrorCode>(()) && final(mango_group)@ == g2 && final(margin_account)@ == a2,
            Err(c) => r == Err::<(), MangoErrorCode>(c) && final(mango_group)@ == old(mango_group)@
                && final(margin_account)@ == old(margin_account)@,
        },
{
    margin_account.checked_add_deposit(token_index, quantity)?;
    match mango_group.checked_add_deposit(token_index, quantity) {
        Ok(()) => Ok(()),
        Err(c) => {
            // roll the user-side credit back so a failure changes nothing
            let prev = match margin_account.deposits[token_index].checked_sub(quantity) {
                Some(x) => x,
                None => {
                    return Err(c);  // unreachable: the credit just succeeded
                },
            };
            margin_account.deposits[token_index] = prev;
            proof {
                assert(margin_account@ =~= old(margin_account)@);
            }
            Err(c)
        },
    }
}

/// Executable twin of `spec_checked_sub_deposit`.
fn checked_sub_deposit(
    mango_group: &mut MangoGroup,
    margin_account: &mut MarginAccount,
    token_index: usize,
    quantity: FixedPoint,
) -> (r: MangoResult<()>)
    requires
        old(mango_group).wf(),
        old(margin_account).wf(),
        token_index < NUM_TOKENS,
    ensures
        final(mango_group).wf(),
        final(margin_account).wf(),
        match spec_checked_sub_deposit(
            old(mango_group)@,
            old(margin_account)@,
            token_index as int,
            quantity,
        ) {
            Ok((g2, a2)) => r == Ok::<(), MangoErrorCode>(()) && final(mango_group)@ == g2 && final(margin_account)@ == a2,
            Err(c) => r == Err::<(), MangoErrorCode>(c) && final(mango_group)@ == old(mango_group)@
                && final(margin_account)@ == old(margin_account)@,
        },
{
    margin_account.checked_sub_deposit(token_index, quantity)?;
    match mango_group.checked_sub_deposit(token_index, quantity) {
        Ok(()) => Ok(()),
        Err(c) => {
            let prev = match margin_account.deposits[token_index].checked_add(quantity) {
                Some(x) => x,
                None => {
                    return Err(c);  // unreachable: the debit just succeeded
                },
            };
            margin_account.deposits[token_index] = prev;
            proof {
                assert(margin_account@ =~= old(margin_account)@);
            }
            Err(c)
        },
    }
}

/// Executable twin of `spec_checked_add_borrow`.
fn checked_add_borrow(
    mango_group: &mut MangoGroup,
    margin_account: &mut MarginAccount,
    token_index: usize,
    quantity: FixedPoint,
) -> (r: MangoResult<()>)
    requires
        old(mango_group).wf(),
        old(margin_account).wf(),
        token_index < NUM_TOKENS,
    ensures
        final(mango_group).wf(),
        final(margin_account).wf(),
        match spec_checked_add_borrow(
            old(mango_group)@,
            old(margin_account)@,
            token_index as int,
            quantity,
        ) {
            Ok((g2, a2)) => r == Ok::<(), MangoErrorCode>(()) && final(mango_group)@ == g2 && final(margin_account)@ == a2,
            Err(c) => r == Err::<(), MangoErrorCode>(c) && final(mango_group)@ == old(mango_group)@
                && final(margin_account)@ == old(margin_account)@,
        },
{
    margin_account.checked_add_borrow(token_index, quantity)?;
    match mango_group.checked_add_borrow(token_index, quantity) {
        Ok(()) => {
            if !margin_account.has_borrows && quantity.bits > 0 {
                margin_account.has_borrows = true;
            }
            proof {
                assert(margin_account@ =~= (MarginAccountV {
                    borrows: old(margin_account)@.borrows.update(
                        token_index as int,
                        margin_account@.borrows[token_index as int],
                    ),
                    has_borrows: old(margin_account)@.has_borrows || quantity.bits > 0,
                    ..old(margin_account)@
                }));
            }
            Ok(())
        },
        Err(c) => {
            let prev = match margin_account.borrows[token_index].checked_sub(quantity) {
                Some(x) => x,
                None => {
                    return Err(c);  // unreachable: the credit just succeeded
                },
            };
            margin_account.borrows[token_index] = prev;
            proof {
                assert(margin_account@ =~= old(margin_account)@);
            }
            Err(c)
        },
    }
}

/// Executable twin of `spec_checked_sub_borrow`.
fn checked_sub_borrow(
    mango_group: &mut MangoGroup,
    margin_account: &mut MarginAccount,
    token_index: usize,
    quantity: FixedPoint,
) -> (r: MangoResult<()>)
    requires
        old(mango_group).wf(),
        old(margin_account).wf(),
        token_index < NUM_TOKENS,
    ensures
        final(mango_group).wf(),
        final(margin_account).wf(),
        match spec_checked_sub_borrow(
            old(mango_group)@,
            old(margin_account)@,
            token_index as int,
            quantity,
        ) {
            Ok((g2, a2)) => r == Ok::<(), MangoErrorCode>(()) && final(mango_group)@ == g2 && final(margin_account)@ == a2,
            Err(c) => r == Err::<(), MangoErrorCode>(c) && final(mango_group)@ == old(mango_group)@
                && final(margin_account)@ == old(margin_account)@,
        },
{
    margin_account.checked_sub_borrow(token_index, quantity)?;
    match mango_group.checked_sub_borrow(token_index, quantity) {
        Ok(()) => {
            let mut has_borrows = false;
            let mut i: usize = 0;
            while i < NUM_TOKENS
                invariant
                    margin_account.wf(),
                    i <= NUM_TOKENS,
                    has_borrows == exists|j: int|
                        0 <= j < i && margin_account@.borrows[j].bits > 0,
                decreases NUM_TOKENS - i,
            {
                if margin_account.borrows[i].bits > 0 {
                    has_borrows = true;
                }
                i = i + 1;
            }
            margin_account.has_borrows = has_borrows;
            proof {
                assert(margin_account@ =~= (MarginAccountV {
                    borrows: old(margin_account)@.borrows.update(
                        token_index as int,
                        margin_account@.borrows[token_index as int],
                    ),
                    has_borrows,
                    ..old(margin_account)@
                }));
            }
            Ok(())
        },
        Err(c) => {
            let prev = match margin_account.borrows[token_index].checked_add(quantity) {
                Some(x) => x,
                None => {
                    return Err(c);  // unreachable: the debit just succeeded
                },
            };
            margin_account.borrows[token_index] = prev;
            proof {
                assert(margin_account@ =~= old(margin_account)@);
            }
            Err(c)
        },
    }
}

/// What settling a requested quantity of a borrow does: the quantity is
/// capped by the native deposit; settling at least the whole native borrow
/// clears the borrow entirely to avoid rounding dust.
pub open spec fn spec_settle_borrow_unchecked(
    g: GroupV,
    a: MarginAccountV,
    i: int,
    quantity: u64,
) -> Result<(GroupV, MarginAccountV), MangoErrorCode> {
    let deposit_index = g.indexes[i].deposit;
    let borrow_index = g.indexes[i].borrow;
    match sp_checked_mul(a.borrows[i], borrow_index) {
        None => Err(MangoErrorCode::ArithmeticError),
        Some(native_borrow) => match sp_checked_mul(a.deposits[i], deposit_index) {
            None => Err(MangoErrorCode::ArithmeticError),
            Some(native_deposit) => {
                let q0 = sp_from_num(quantity as int);
                let q = if native_deposit.bits < q0.bits {
                    native_deposit
                } else {
                    q0
                };
                if q.bits >= native_borrow.bits {
                    match sp_checked_div(native_borrow, deposit_index) {
                        None => Err(MangoErrorCode::ArithmeticError),
                        Some(dep_settle) => match spec_checked_sub_deposit(g, a, i, dep_settle) {
                            Err(c) => Err(c),
                            Ok((g1, a1)) => spec_checked_sub_borrow(g1, a1, i, a1.borrows[i]),
                        },
                    }
                } else {
                    match sp_checked_div(q, deposit_index) {
                        None => Err(MangoErrorCode::ArithmeticError),
                        Some(dep_settle) => match sp_checked_div(q, borrow_index) {
                            None => Err(MangoErrorCode::ArithmeticError),
                            Some(borr_settle) => match spec_checked_sub_deposit(
                                g,
                                a,
                                i,
                                dep_settle,
                            ) {
                                Err(c) => Err(c),
                                Ok((g1, a1)) => spec_checked_sub_borrow(g1, a1, i, borr_settle),
                            },
                        },
                    }
                }
            },
        },
    }
}

/// Executable twin of `spec_settle_borrow_unchecked`.
fn settle_borrow_unchecked(
    mango_group: &mut MangoGroup,
    margin_account: &mut MarginAccount,
    token_index: usize,
    quantity: u64,
) -> (r: MangoResult<()>)
    requires
        old(mango_group).wf(),
        old(margin_account).wf(),
        token_index < NUM_TOKENS,
    ensures
        final(mango_group).wf(),
        final(margin_account).wf(),
        match spec_settle_borrow_unchecked(
            old(mango_group)@,
            old(margin_account)@,
            token_index as int,
            quantity,
        ) {
            Ok((g2, a2)) => r == Ok::<(), MangoErrorCode>(()) && final(mango_group)@ == g2 && final(margin_account)@ == a2,
            Err(c) => r is Err && r->Err_0 == c,
        },
{
    let deposit_index = mango_group.indexes[token_index].deposit;
    let borrow_index = mango_group.indexes[token_index].borrow;
    let native_borrow = match margin_account.borrows[token_index].checked_mul(borrow_index) {
        Some(x) => x,
        None => {
            return Err(MangoErrorCode::ArithmeticError);
        },
    };
    let native_deposit = match margin_account.deposits[token_index].checked_mul(deposit_index) {
        Some(x) => x,
        None => {
            return Err(MangoErrorCode::ArithmeticError);
        },
    };
    let q0 = FixedPoint::from_num(quantity);
    let q = if native_deposit.bits < q0.bits {
        native_deposit
    } else {
        q0
    };
    if q.bits >= native_borrow.bits {
        // reduce the borrow all the way to zero to prevent rounding dust
        let dep_settle = match native_borrow.checked_div(deposit_index) {
            Some(x) => x,
            None => {
                return Err(MangoErrorCode::ArithmeticError);
            },
        };
        checked_sub_deposit(mango_group, margin_account, token_index, dep_settle)?;
        let whole_borrow = margin_account.borrows[token_index];
        checked_sub_borrow(mango_group, margin_account, token_index, whole_borrow)
    } else {
        let dep_settle = match q.checked_div(deposit_index) {
            Some(x) => x,
            None => {
                return Err(MangoErrorCode::ArithmeticError);
            },
        };
        let borr_settle = match q.checked_div(borrow_index) {
            Some(x) => x,
            None => {
                return Err(MangoErrorCode::ArithmeticError);
            },
        };
        checked_sub_deposit(mango_group, margin_account, token_index, dep_settle)?;
        checked_sub_borrow(mango_group, margin_account, token_index, borr_settle)
    }
}

/// What the automatic full settlement does: settle the largest amount both
/// sides allow, `min(native_borrow, native_deposit)` in whole units.
pub open spec fn spec_settle_borrow_full_unchecked(g: GroupV, a: MarginAccountV, i: int) -> Result<
    (GroupV, MarginAccountV),
    MangoErrorCode,
> {
    match crate::state::spec_native_borrow(a, g.indexes[i], i) {
        Err(c) => Err(c),
        Ok(native_borrow) => match crate::state::spec_native_deposit(a, g.indexes[i], i) {
            Err(c) => Err(c),
            Ok(native_deposit) => {
                let quantity = if native_borrow < native_deposit {
                    native_borrow
                } else {
                    native_deposit
                };
                match sp_checked_div(sp_from_num(quantity as int), g.indexes[i].borrow) {
                    None => Err(MangoErrorCode::ArithmeticError),
                    Some(borr_settle) => match sp_checked_div(
                        sp_from_num(quantity as int),
                        g.indexes[i].deposit,
                    ) {
                        None => Err(MangoErrorCode::ArithmeticError),
                        Some(dep_settle) => match spec_checked_sub_deposit(g, a, i, dep_settle) {
                            Err(c) => Err(c),
                            Ok((g1, a1)) => spec_checked_sub_borrow(g1, a1, i, borr_settle),
                        },
                    },
                }
            },
        },
    }
}

/// Executable twin of `spec_settle_borrow_full_unchecked`.
fn settle_borrow_full_unchecked(
    mango_group: &mut MangoGroup,
    margin_account: &mut MarginAccount,
    token_index: usize,
) -> (r: MangoResult<()>)
    requires
        old(mango_group).wf(),
        old(margin_account).wf(),
        token_index < NUM_TOKENS,
    ensures
        final(mango_group).wf(),
        final(margin_account).wf(),
        match spec_settle_borrow_full_unchecked(
            old(mango_group)@,
            old(margin_account)@,
            token_index as int,
        ) {
            Ok((g2, a2)) => r == Ok::<(), MangoErrorCode>(()) && final(mango_group)@ == g2 && final(margin_account)@ == a2,
            Err(c) => r is Err && r->Err_0 == c,
        },
{
    let index = mango_group.indexes[token_index];
    let native_borrow = match margin_account.get_native_borrow(&index, token_index) {
        Ok(x) => x,
        Err(c) => {
            return Err(c);
        },
    };
    let native_deposit = match margin_account.get_native_deposit(&index, token_index) {
        Ok(x) => x,
        Err(c) => {
            return Err(c);
        },
    };
    let quantity = if native_borrow < native_deposit {
        native_borrow
    } else {
        native_deposit
    };
    let borr_settle = match FixedPoint::from_num(quantity).checked_div(index.borrow) {
        Some(x) => x,
        None => {
            return Err(MangoErrorCode::ArithmeticError);
        },
    };
    let dep_settle = match FixedPoint::from_num(quantity).checked_div(index.deposit) {
        Some(x) => x,
        None => {
            return Err(MangoErrorCode::ArithmeticError);
        },
    };
    checked_sub_deposit(mango_group, margin_account, token_index, dep_settle)?;
    checked_sub_borrow(mango_group, margin_account, token_index, borr_settle)
}

/// What loss socialization does to one token: the account's remaining
/// borrow is cleared and the token's deposit index drops by the fraction
/// `reduce_quantity_native / total_deposits_native`, spreading the
/// shortfall over all depositors.  This is the only operation that lowers
/// an index.
pub open spec fn spec_socialize_loss(
    g: GroupV,
    a: MarginAccountV,
    i: int,
    reduce_quantity_native: FixedPoint,
    total_deposits_native: FixedPoint,
) -> Result<(GroupV, MarginAccountV), MangoErrorCode> {
    match sp_checked_div(reduce_quantity_native, g.indexes[i].borrow) {
        None => Err(MangoErrorCode::ArithmeticError),
        Some(quantity) => match sp_checked_div(reduce_quantity_native, total_deposits_native) {
            None => Err(MangoErrorCode::ArithmeticError),
            Some(percentage_loss) => match sp_checked_mul(percentage_loss, g.indexes[i].deposit) {
                None => Err(MangoErrorCode::ArithmeticError),
                Some(loss) => match sp_checked_sub(g.indexes[i].deposit, loss) {
                    None => Err(MangoErrorCode::ArithmeticError),
                    Some(new_deposit) => match spec_checked_sub_borrow(g, a, i, quantity) {
                        Err(c) => Err(c),
                        Ok((g1, a1)) => Ok(
                            (
                                GroupV {
                                    indexes: g1.indexes.update(
                                        i,
                                        MangoIndex { deposit: new_deposit, ..g1.indexes[i] },
                                    ),
                                    ..g1
                                },
                                a1,
                            ),
                        ),
                    },
                },
            },
        },
    }
}

/// Executable twin of `spec_socialize_loss`; all-or-nothing, so a
/// failing arithmetic step leaves both ledgers untouched.
pub fn socialize_loss(
    mango_group: &mut MangoGroup,
    margin_account: &mut MarginAccount,
    token_index: usize,
    reduce_quantity_native: FixedPoint,
    total_deposits_native: FixedPoint,
) -> (r: MangoResult<()>)
    requires
        old(mango_group).wf(),
        old(margin_account).wf(),
        token_index < NUM_TOKENS,
    ensures
        final(mango_group).wf(),
        final(margin_account).wf(),
        match spec_socialize_loss(
            old(mango_group)@,
            old(margin_account)@,
            token_index as int,
            reduce_quantity_native,
            total_deposits_native,
        ) {
            Ok((g2, a2)) => r == Ok::<(), MangoErrorCode>(()) && final(mango_group)@ == g2 && final(margin_account)@ == a2,
            Err(c) => r == Err::<(), MangoErrorCode>(c) && final(mango_group)@ == old(mango_group)@
                && final(margin_account)@ == old(margin_account)@,
        },
{
    let quantity = match reduce_quantity_native.checked_div(mango_group.indexes[token_index].borrow)
        {
        Some(x) => x,
        None => {
            return Err(MangoErrorCode::ArithmeticError);
        },
    };
    let percentage_loss = match reduce_quantity_native.checked_div(total_deposits_native) {
        Some(x) => x,
        None => {
            return Err(MangoErrorCode::ArithmeticError);
        },
    };
    let index = mango_group.indexes[token_index];
    let loss = match percentage_loss.checked_mul(index.deposit) {
        Some(x) => x,
        None => {
            return Err(MangoErrorCode::ArithmeticError);
        },
    };
    let new_deposit = match index.deposit.checked_sub(loss) {
        Some(x) => x,
        None => {
            return Err(MangoErrorCode::ArithmeticError);
        },
    };
    checked_sub_borrow(mango_group, margin_account, token_index, quantity)?;
    let ghost g1 = mango_group@;
    let new_index = MangoIndex { deposit: new_deposit, ..index };
    mango_group.indexes[token_index] = new_index;
    proof {
        assert(mango_group@ =~= (GroupV {
            indexes: g1.indexes.update(token_index as int, new_index),
            ..g1
        }));
    }
    Ok(())
}

/// Ten to the power `e`.
pub open spec fn spec_pow10(e: nat) -> nat
    decreases e,
{
    if e == 0 {
        1
    } else {
        10 * spec_pow10((e - 1) as nat)
    }
}

proof fn lemma_pow10_pos(e: nat)
    ensures
        spec_pow10(e) >= 1,
    decreases e,
{
    if e > 0 {
        lemma_pow10_pos((e - 1) as nat);
    }
}

proof fn lemma_pow10_mono(e1: nat, e2: nat)
    requires
        e1 <= e2,
    ensures
        spec_pow10(e1) <= spec_pow10(e2),
    decreases e2,
{
    if e1 < e2 {
        lemma_pow10_mono(e1, (e2 - 1) as nat);
        lemma_pow10_pos((e2 - 1) as nat);
    }
}

/// Ten to the power `e` when it fits in 64 bits.
fn pow10_u64(e: u32) -> (r: Option<u64>)
    ensures
        r == (if spec_pow10(e as nat) <= u64::MAX {
            Some(spec_pow10(e as nat) as u64)
        } else {
            None::<u64>
        }),
{
    let mut acc: u64 = 1;
    let mut k: u32 = 0;
    while k < e
        invariant
            k <= e,
            acc == spec_pow10(k as nat),
        decreases e - k,
    {
        acc = match acc.checked_mul(10) {
            Some(x) => x,
            None => {
                proof {
                    lemma_pow10_mono((k + 1) as nat, e as nat);
                }
                return None;
            },
        };
        k = k + 1;
    }
    Some(acc)
}

/// Price of the first `m` markets from their oracle medians, rescaled to
/// the quote currency's decimal basis: each price is
/// `10^(quote_decimals - oracle_decimals) / 10^base_decimals * median`.
pub open spec fn spec_prices_markets(g: GroupV, medians: Seq<u64>, m: int) -> Result<
    Seq<FixedPoint>,
    MangoErrorCode,
>
    decreases m,
{
    if m <= 0 {
        Ok(Seq::empty())
    } else {
        match spec_prices_markets(g, medians, m - 1) {
            Err(c) => Err(c),
            Ok(s) => {
                let quote_decimals = g.mint_decimals[NUM_MARKETS as int];
                if quote_decimals < g.oracle_decimals[m - 1] {
                    Err(MangoErrorCode::ArithmeticError)
                } else if spec_pow10((quote_decimals - g.oracle_decimals[m - 1]) as nat)
                    > u64::MAX {
                    Err(MangoErrorCode::ArithmeticError)
                } else if spec_pow10(g.mint_decimals[m - 1] as nat) > u64::MAX {
                    Err(MangoErrorCode::ArithmeticError)
                } else {
                    let quote_adj = sp_from_num(
                        spec_pow10((quote_decimals - g.oracle_decimals[m - 1]) as nat) as int,
                    );
                    let base_adj = sp_from_num(spec_pow10(g.mint_decimals[m - 1] as nat) as int);
                    match sp_checked_div(quote_adj, base_adj) {
                        None => Err(MangoErrorCode::ArithmeticError),
                        Some(adj) => match sp_checked_mul(
                            adj,
                            sp_from_num(medians[m - 1] as int),
                        ) {
                            None => Err(MangoErrorCode::ArithmeticError),
                            Some(price) => Ok(s.push(price)),
                        },
                    }
                }
            },
        }
    }
}

/// What `get_prices` returns: one price per token, the quote token's being
/// one exactly.
pub open spec fn spec_get_prices(g: GroupV, medians: Seq<u64>) -> Result<
    Seq<FixedPoint>,
    MangoErrorCode,
> {
    match spec_prices_markets(g, medians, NUM_MARKETS as int) {
        Err(c) => Err(c),
        Ok(s) => Ok(s.push(FixedPoint { bits: crate::state::ONE_BITS })),
    }
}

fn prices_markets_rec(mango_group: &MangoGroup, medians: &Vec<u64>, m: usize) -> (r: MangoResult<
    Vec<FixedPoint>,
>)
    requires
        mango_group.wf(),
        medians@.len() == NUM_MARKETS,
        m <= NUM_MARKETS,
    ensures
        match spec_prices_markets(mango_group@, medians@, m as int) {
            Ok(s) => r is Ok && r->Ok_0@ == s,
            Err(c) => r == Err::<Vec<FixedPoint>, MangoErrorCode>(c),
        },
    decreases m,
{
    if m == 0 {
        let v: Vec<FixedPoint> = Vec::new();
        proof {
            assert(v@ =~= Seq::<FixedPoint>::empty());
        }
        Ok(v)
    } else {
        let mut s = prices_markets_rec(mango_group, medians, m - 1)?;
        let quote_decimals = mango_group.mint_decimals[NUM_MARKETS];
        let oracle_decimals = mango_group.oracle_decimals[m - 1];
        if quote_decimals < oracle_decimals {
            return Err(MangoErrorCode::ArithmeticError);
        }
        let quote_pow = match pow10_u64((quote_decimals - oracle_decimals) as u32) {
            Some(x) => x,
            None => {
                return Err(MangoErrorCode::ArithmeticError);
            },
        };
        let base_pow = match pow10_u64(mango_group.mint_decimals[m - 1] as u32) {
            Some(x) => x,
            None => {
                return Err(MangoErrorCode::ArithmeticError);
            },
        };
        let adj = match FixedPoint::from_num(quote_pow).checked_div(
            FixedPoint::from_num(base_pow),
        ) {
            Some(x) => x,
            None => {
                return Err(MangoErrorCode::ArithmeticError);
            },
        };
        let price = match adj.checked_mul(FixedPoint::from_num(medians[m - 1])) {
            Some(x) => x,
            None => {
                return Err(MangoErrorCode::ArithmeticError);
            },
        };
        s.push(price);
        Ok(s)
    }
}

/// Per-token prices in the quote currency, from the markets' oracle
/// medians; the quote token's price is one by definition.
pub fn get_prices(mango_group: &MangoGroup, oracle_medians: &Vec<u64>) -> (r: MangoResult<
    Vec<FixedPoint>,
>)
    requires
        mango_group.wf(),
        oracle_medians@.len() == NUM_MARKETS,
    ensures
        match spec_get_prices(mango_group@, oracle_medians@) {
            Ok(s) => r is Ok && r->Ok_0@ == s && r->Ok_0@.len() == NUM_TOKENS,
            Err(c) => r == Err::<Vec<FixedPoint>, MangoErrorCode>(c),
        },
{
    proof {
        lemma_prices_markets_len(mango_group@, oracle_medians@, NUM_MARKETS as int);
    }
    let mut s = prices_markets_rec(mango_group, oracle_medians, NUM_MARKETS)?;
    s.push(FixedPoint::from_bits(crate::state::ONE_BITS));
    Ok(s)
}

/// There is one price per market considered.
proof fn lemma_prices_markets_len(g: GroupV, medians: Seq<u64>, m: int)
    requires
        m >= 0,
    ensures
        spec_prices_markets(g, medians, m) matches Ok(s) ==> s.len() == m,
    decreases m,
{
    if m > 0 {
        lemma_prices_markets_len(g, medians, m - 1);
    }
}

} // verus!

verus! {

use crate::state::MangoSrmAccount;
use crate::state::OpenOrdersInfo;
use crate::state::INFO_LEN;
use crate::state::spec_update_indexes;
use crate::state::spec_has_valid_deposits_borrows;
use crate::state::spec_native_deposit;
use crate::valuation::spec_collateral_ratio;

/// What `Processor::deposit` does: bring indexes current, credit the
/// deposited quantity at the current deposit index to the user and the
/// pool, then settle any outstanding borrow in the same token with it.
pub open spec fn spec_deposit(g: GroupV, a: MarginAccountV, i: int, quantity: u64, now: u64) -> Result<
    (GroupV, MarginAccountV),
    MangoErrorCode,
> {
    match spec_update_indexes(g, now) {
        Err(c) => Err(c),
        Ok(g1) => match sp_checked_div(sp_from_num(quantity as int), g1.indexes[i].deposit) {
            None => Err(MangoErrorCode::ArithmeticError),
            Some(dep) => match spec_checked_add_deposit(g1, a, i, dep) {
                Err(c) => Err(c),
                Ok((g2, a2)) => spec_settle_borrow_full_unchecked(g2, a2, i),
            },
        },
    }
}

/// What `Processor::withdraw` does: bring indexes current, require enough
/// native deposit, debit it, and require the account to stay at or above
/// the initial collateral ratio and the pool to stay solvent.
pub open spec fn spec_withdraw(
    g: GroupV,
    a: MarginAccountV,
    i: int,
    quantity: u64,
    prices: Seq<FixedPoint>,
    oo: Seq<Option<OpenOrdersInfo>>,
    now: u64,
) -> Result<(GroupV, MarginAccountV), MangoErrorCode> {
    match spec_update_indexes(g, now) {
        Err(c) => Err(c),
        Ok(g1) => match spec_native_deposit(a, g1.indexes[i], i) {
            Err(c) => Err(c),
            Ok(available) => {
                if available < quantity {
                    Err(MangoErrorCode::InsufficientFunds)
                } else {
                    match sp_checked_div(sp_from_num(quantity as int), g1.indexes[i].deposit) {
                        None => Err(MangoErrorCode::ArithmeticError),
                        Some(withdrew) => match spec_checked_sub_deposit(g1, a, i, withdrew) {
                            Err(c) => Err(c),
                            Ok((g2, a2)) => match spec_collateral_ratio(g2, a2, prices, oo) {
                                Err(c) => Err(c),
                                Ok(ratio) => {
                                    if ratio.bits < g2.init_coll_ratio.bits {
                                        Err(MangoErrorCode::CollateralRatioLimit)
                                    } else {
                                        match spec_has_valid_deposits_borrows(g2, i) {
                                            Err(c) => Err(c),
                                            Ok(valid) => {
                                                if !valid {
                                                    Err(MangoErrorCode::Default)
                                                } else {
                                                    Ok((g2, a2))
                                                }
                                            },
                                        }
                                    }
                                },
                            },
                        },
                    }
                }
            },
        },
    }
}

/// What `Processor::borrow` does: bring indexes current, credit the
/// borrowed quantity simultaneously as a deposit and as a borrow (a borrow
/// materializes tokens that can then be spent or withdrawn), and require
/// the initial collateral ratio and pool solvency afterwards.
pub open spec fn spec_borrow(
    g: GroupV,
    a: MarginAccountV,
    i: int,
    quantity: u64,
    prices: Seq<FixedPoint>,
    oo: Seq<Option<OpenOrdersInfo>>,
    now: u64,
) -> Result<(GroupV, MarginAccountV), MangoErrorCode> {
    match spec_update_indexes(g, now) {
        Err(c) => Err(c),
        Ok(g1) => match sp_checked_div(sp_from_num(quantity as int), g1.indexes[i].borrow) {
            None => Err(MangoErrorCode::ArithmeticError),
            Some(borrow) => match sp_checked_div(
                sp_from_num(quantity as int),
                g1.indexes[i].deposit,
            ) {
                None => Err(MangoErrorCode::ArithmeticError),
                Some(deposit) => match spec_checked_add_deposit(g1, a, i, deposit) {
                    Err(c) => Err(c),
                    Ok((g2, a2)) => match spec_checked_add_borrow(g2, a2, i, borrow) {
                        Err(c) => Err(c),
                        Ok((g3, a3)) => match spec_collateral_ratio(g3, a3, prices, oo) {
                            Err(c) => Err(c),
                            Ok(ratio) => {
                                if ratio.bits < g3.init_coll_ratio.bits {
                                    Err(MangoErrorCode::CollateralRatioLimit)
                                } else {
                                    match spec_has_valid_deposits_borrows(g3, i) {
                                        Err(c) => Err(c),
                                        Ok(valid) => {
                                            if !valid {
                                                Err(MangoErrorCode::Default)
                                            } else {
                                                Ok((g3, a3))
                                            }
                                        },
                                    }
                                }
                            },
                        },
                    },
                },
            },
        },
    }
}

/// What `Processor::settle_borrow` does.
pub open spec fn spec_settle_borrow_op(g: GroupV, a: MarginAccountV, i: int, quantity: u64, now: u64) -> Result<
    (GroupV, MarginAccountV),
    MangoErrorCode,
> {
    match spec_update_indexes(g, now) {
        Err(c) => Err(c),
        Ok(g1) => spec_settle_borrow_unchecked(g1, a, i, quantity),
    }
}

/// What settling freed venue funds does: both free balances may only have
/// shrunk; the differences are credited as deposits of the market's token
/// and of the quote token.
pub open spec fn spec_apply_settled_funds(
    g: GroupV,
    a: MarginAccountV,
    market_i: int,
    pre_base: u64,
    pre_quote: u64,
    post_base: u64,
    post_quote: u64,
) -> Result<(GroupV, MarginAccountV), MangoErrorCode> {
    if pre_base == 0 && pre_quote == 0 {
        Ok((g, a))
    } else if !(post_base <= pre_base) {
        Err(MangoErrorCode::Default)
    } else if !(post_quote <= pre_quote) {
        Err(MangoErrorCode::Default)
    } else {
        match sp_checked_div(
            sp_from_num(pre_base - post_base),
            g.indexes[market_i].deposit,
        ) {
            None => Err(MangoErrorCode::ArithmeticError),
            Some(base_change) => match sp_checked_div(
                sp_from_num(pre_quote - post_quote),
                g.indexes[NUM_MARKETS as int].deposit,
            ) {
                None => Err(MangoErrorCode::ArithmeticError),
                Some(quote_change) => match spec_checked_add_deposit(g, a, market_i, base_change) {
                    Err(c) => Err(c),
                    Ok((g1, a1)) => spec_checked_add_deposit(
                        g1,
                        a1,
                        NUM_MARKETS as int,
                        quote_change,
                    ),
                },
            },
        }
    }
}

/// Executable twin of `spec_apply_settled_funds`.
fn apply_settled_funds(
    mango_group: &mut MangoGroup,
    margin_account: &mut MarginAccount,
    market_i: usize,
    pre_base: u64,
    pre_quote: u64,
    post_base: u64,
    post_quote: u64,
) -> (r: MangoResult<()>)
    requires
        old(mango_group).wf(),
        old(margin_account).wf(),
        market_i < NUM_MARKETS,
    ensures
        final(mango_group).wf(),
        final(margin_account).wf(),
        match spec_apply_settled_funds(
            old(mango_group)@,
            old(margin_account)@,
            market_i as int,
            pre_base,
            pre_quote,
            post_base,
            post_quote,
        ) {
            Ok((g2, a2)) => r == Ok::<(), MangoErrorCode>(()) && final(mango_group)@ == g2
                && final(margin_account)@ == a2,
            Err(c) => r is Err && r->Err_0 == c,
        },
{
    if pre_base == 0 && pre_quote == 0 {
        return Ok(());
    }
    if !(post_base <= pre_base) {
        return Err(MangoErrorCode::Default);
    }
    if !(post_quote <= pre_quote) {
        return Err(MangoErrorCode::Default);
    }
    let base_change = match FixedPoint::from_num(pre_base - post_base).checked_div(
        mango_group.indexes[market_i].deposit,
    ) {
        Some(x) => x,
        None => {
            return Err(MangoErrorCode::ArithmeticError);
        },
    };
    let quote_change = match FixedPoint::from_num(pre_quote - post_quote).checked_div(
        mango_group.indexes[NUM_MARKETS].deposit,
    ) {
        Some(x) => x,
        None => {
            return Err(MangoErrorCode::ArithmeticError);
        },
    };
    checked_add_deposit(mango_group, margin_account, market_i, base_change)?;
    checked_add_deposit(mango_group, margin_account, NUM_MARKETS, quote_change)
}

/// The four balance-mutating operations, the order-flow adapters and the
/// liquidation engine.  Every operation is all-or-nothing on the ledgers
/// it takes.
pub struct Processor {}

impl Processor {
    /// Credits `quantity` native units deposited into the vault (the
    /// transfer itself happens outside, before this call) and immediately
    /// settles any borrow in the same token.  Deposits never worsen
    /// collateralization, so no ratio check is needed.
    pub fn deposit(
        mango_group: &mut MangoGroup,
        margin_account: &mut MarginAccount,
        token_index: usize,
        quantity: u64,
        now: u64,
    ) -> (r: MangoResult<()>)
        requires
            old(mango_group).wf(),
            old(margin_account).wf(),
            token_index < NUM_TOKENS,
        ensures
            final(mango_group).wf(),
            final(margin_account).wf(),
            match spec_deposit(
                old(mango_group)@,
                old(margin_account)@,
                token_index as int,
                quantity,
                now,
            ) {
                Ok((g2, a2)) => r == Ok::<(), MangoErrorCode>(()) && final(mango_group)@ == g2
                    && final(margin_account)@ == a2,
                Err(c) => r == Err::<(), MangoErrorCode>(c) && final(mango_group)@ == old(mango_group)@ && final(margin_account)@ == old(margin_account)@,
            },
    {
        let mut g = mango_group.duplicate();
        let mut a = margin_account.duplicate();
        g.update_indexes(now)?;
        let dep = match FixedPoint::from_num(quantity).checked_div(
            g.indexes[token_index].deposit,
        ) {
            Some(x) => x,
            None => {
                return Err(MangoErrorCode::ArithmeticError);
            },
        };
        checked_add_deposit(&mut g, &mut a, token_index, dep)?;
        settle_borrow_full_unchecked(&mut g, &mut a, token_index)?;
        *mango_group = g;
        *margin_account = a;
        Ok(())
    }

    /// Debits `quantity` native units for withdrawal (the outbound
    /// transfer happens outside, after this call succeeds).  The account
    /// must keep the initial collateral ratio and the pool must stay
    /// solvent, else nothing changes.
    pub fn withdraw(
        mango_group: &mut MangoGroup,
        margin_account: &mut MarginAccount,
        token_index: usize,
        quantity: u64,
        prices: &Vec<FixedPoint>,
        open_orders_accs: &Vec<Option<OpenOrdersInfo>>,
        now: u64,
    ) -> (r: MangoResult<()>)
        requires
            old(mango_group).wf(),
            old(margin_account).wf(),
            token_index < NUM_TOKENS,
            prices@.len() == NUM_TOKENS,
            open_orders_accs@.len() == NUM_MARKETS,
        ensures
            final(mango_group).wf(),
            final(margin_account).wf(),
            match spec_withdraw(
                old(mango_group)@,
                old(margin_account)@,
                token_index as int,
                quantity,
                prices@,
                open_orders_accs@,
                now,
            ) {
                Ok((g2, a2)) => r == Ok::<(), MangoErrorCode>(()) && final(mango_group)@ == g2
                    && final(margin_account)@ == a2,
                Err(c) => r == Err::<(), MangoErrorCode>(c) && final(mango_group)@ == old(mango_group)@ && final(margin_account)@ == old(margin_account)@,
            },
    {
        let mut g = mango_group.duplicate();
        let mut a = margin_account.duplicate();
        g.update_indexes(now)?;
        let index = g.indexes[token_index];
        let available = match a.get_native_deposit(&index, token_index) {
            Ok(x) => x,
            Err(c) => {
                return Err(c);
            },
        };
        if available < quantity {
            return Err(MangoErrorCode::InsufficientFunds);
        }
        let withdrew = match FixedPoint::from_num(quantity).checked_div(index.deposit) {
            Some(x) => x,
            None => {
                return Err(MangoErrorCode::ArithmeticError);
            },
        };
        checked_sub_deposit(&mut g, &mut a, token_index, withdrew)?;
        let coll_ratio = a.get_collateral_ratio(&g, prices, open_orders_accs)?;
        if coll_ratio.bits < g.init_coll_ratio.bits {
            return Err(MangoErrorCode::CollateralRatioLimit);
        }
        let valid = g.has_valid_deposits_borrows(token_index)?;
        if !valid {
            return Err(MangoErrorCode::Default);
        }
        *mango_group = g;
        *margin_account = a;
        Ok(())
    }

    /// Opens a borrow: credits `quantity` simultaneously to the deposit
    /// and the borrow side of the account and the pool.  Rejected, with no
    /// change at all, if the account would fall below the initial
    /// collateral ratio or the pool would become insolvent.
    pub fn borrow(
        mango_group: &mut MangoGroup,
        margin_account: &mut MarginAccount,
        token_index: usize,
        quantity: u64,
        prices: &Vec<FixedPoint>,
        open_orders_accs: &Vec<Option<OpenOrdersInfo>>,
        now: u64,
    ) -> (r: MangoResult<()>)
        requires
            old(mango_group).wf(),
            old(margin_account).wf(),
            token_index < NUM_TOKENS,
            prices@.len() == NUM_TOKENS,
            open_orders_accs@.len() == NUM_MARKETS,
        ensures
            final(mango_group).wf(),
            final(margin_account).wf(),
            match spec_borrow(
                old(mango_group)@,
                old(margin_account)@,
                token_index as int,
                quantity,
                prices@,
                open_orders_accs@,
                now,
            ) {
                Ok((g2, a2)) => r == Ok::<(), MangoErrorCode>(()) && final(mango_group)@ == g2
                    && final(margin_account)@ == a2,
                Err(c) => r == Err::<(), MangoErrorCode>(c) && final(mango_group)@ == old(mango_group)@ && final(margin_account)@ == old(margin_account)@,
            },
    {
        let mut g = mango_group.duplicate();
        let mut a = margin_account.duplicate();
        g.update_indexes(now)?;
        let index = g.indexes[token_index];
        let borrow = match FixedPoint::from_num(quantity).checked_div(index.borrow) {
            Some(x) => x,
            None => {
                return Err(MangoErrorCode::ArithmeticError);
            },
        };
        let deposit = match FixedPoint::from_num(quantity).checked_div(index.deposit) {
            Some(x) => x,
            None => {
                return Err(MangoErrorCode::ArithmeticError);
            },
        };
        checked_add_deposit(&mut g, &mut a, token_index, deposit)?;
        checked_add_borrow(&mut g, &mut a, token_index, borrow)?;
        let coll_ratio = a.get_collateral_ratio(&g, prices, open_orders_accs)?;
        if coll_ratio.bits < g.init_coll_ratio.bits {
            return Err(MangoErrorCode::CollateralRatioLimit);
        }
        let valid = g.has_valid_deposits_borrows(token_index)?;
        if !valid {
            return Err(MangoErrorCode::Default);
        }
        *mango_group = g;
        *margin_account = a;
        Ok(())
    }

    /// Repays up to `quantity` of a borrow from the deposit balance of the
    /// same token.  This can only improve collateralization, so no ratio
    /// check is needed.
    pub fn settle_borrow(
        mango_group: &mut MangoGroup,
        margin_account: &mut MarginAccount,
        token_index: usize,
        quantity: u64,
        now: u64,
    ) -> (r: MangoResult<()>)
        requires
            old(mango_group).wf(),
            old(margin_account).wf(),
            token_index < NUM_TOKENS,
        ensures
            final(mango_group).wf(),
            final(margin_account).wf(),
            match spec_settle_borrow_op(
                old(mango_group)@,
                old(margin_account)@,
                token_index as int,
                quantity,
                now,
            ) {
                Ok((g2, a2)) => r == Ok::<(), MangoErrorCode>(()) && final(mango_group)@ == g2
                    && final(margin_account)@ == a2,
                Err(c) => r == Err::<(), MangoErrorCode>(c) && final(mango_group)@ == old(mango_group)@ && final(margin_account)@ == old(margin_account)@,
            },
    {
        let mut g = mango_group.duplicate();
        let mut a = margin_account.duplicate();
        g.update_indexes(now)?;
        settle_borrow_unchecked(&mut g, &mut a, token_index, quantity)?;
        *mango_group = g;
        *margin_account = a;
        Ok(())
    }

    /// The superseded whole-account liquidation; always reports
    /// `Deprecated`.
    pub fn liquidate(_deposit_quantities: &Vec<u64>) -> (r: MangoResult<()>)
        ensures
            r == Err::<(), MangoErrorCode>(MangoErrorCode::Deprecated),
    {
        Err(MangoErrorCode::Deprecated)
    }

    /// Credits contributed fee-discount tokens after the inbound transfer;
    /// indexes are brought current first.
    pub fn deposit_srm(
        mango_group: &mut MangoGroup,
        mango_srm_account: &mut MangoSrmAccount,
        quantity: u64,
        now: u64,
    ) -> (r: MangoResult<()>)
        requires
            old(mango_group).wf(),
        ensures
            final(mango_group).wf(),
            match spec_update_indexes(old(mango_group)@, now) {
                Err(c) => r == Err::<(), MangoErrorCode>(c) && final(mango_group)@ == old(mango_group)@ && *final(mango_srm_account) == *old(mango_srm_account),
                Ok(g1) => {
                    if old(mango_srm_account).amount + quantity > u64::MAX {
                        r == Err::<(), MangoErrorCode>(MangoErrorCode::ArithmeticError) && final(mango_group)@ == old(mango_group)@ && *final(mango_srm_account) == *old(mango_srm_account)
                    } else {
                        r == Ok::<(), MangoErrorCode>(()) && final(mango_group)@ == g1 && final(mango_srm_account).amount == old(mango_srm_account).amount + quantity
                    }
                },
            },
    {
        let mut g = mango_group.duplicate();
        g.update_indexes(now)?;
        let new_amount = match mango_srm_account.amount.checked_add(quantity) {
            Some(x) => x,
            None => {
                return Err(MangoErrorCode::ArithmeticError);
            },
        };
        mango_srm_account.amount = new_amount;
        *mango_group = g;
        Ok(())
    }

    /// Debits contributed fee-discount tokens before the outbound
    /// transfer; the balance must suffice.
    pub fn withdraw_srm(
        mango_group: &mut MangoGroup,
        mango_srm_account: &mut MangoSrmAccount,
        quantity: u64,
        now: u64,
    ) -> (r: MangoResult<()>)
        requires
            old(mango_group).wf(),
        ensures
            final(mango_group).wf(),
            match spec_update_indexes(old(mango_group)@, now) {
                Err(c) => r == Err::<(), MangoErrorCode>(c) && final(mango_group)@ == old(mango_group)@ && *final(mango_srm_account) == *old(mango_srm_account),
                Ok(g1) => {
                    if old(mango_srm_account).amount < quantity {
                        r == Err::<(), MangoErrorCode>(MangoErrorCode::Default) && final(mango_group)@ == old(mango_group)@ && *final(mango_srm_account) == *old(mango_srm_account)
                    } else {
                        r == Ok::<(), MangoErrorCode>(()) && final(mango_group)@ == g1 && final(mango_srm_account).amount == old(mango_srm_account).amount - quantity
                    }
                },
            },
    {
        let mut g = mango_group.duplicate();
        g.update_indexes(now)?;
        if mango_srm_account.amount < quantity {
            return Err(MangoErrorCode::Default);
        }
        mango_srm_account.amount = mango_srm_account.amount - quantity;
        *mango_group = g;
        Ok(())
    }

    /// Sets the legacy per-token borrow limit (admin-gated outside).
    pub fn change_borrow_limit(
        mango_group: &mut MangoGroup,
        token_index: usize,
        borrow_limit: u64,
    ) -> (r: MangoResult<()>)
        requires
            old(mango_group).wf(),
            token_index < NUM_TOKENS,
        ensures
            final(mango_group).wf(),
            r == Ok::<(), MangoErrorCode>(()),
            final(mango_group)@ == (GroupV {
                borrow_limits: old(mango_group)@.borrow_limits.update(
                    token_index as int,
                    borrow_limit,
                ),
                ..old(mango_group)@
            }),
    {
        mango_group.borrow_limits[token_index] = borrow_limit;
        proof {
            assert(mango_group@ =~= (GroupV {
                borrow_limits: old(mango_group)@.borrow_limits.update(
                    token_index as int,
                    borrow_limit,
                ),
                ..old(mango_group)@
            }));
        }
        Ok(())
    }

    /// Attaches the free-form info bytes to the account (owner-gated
    /// outside).
    pub fn add_margin_account_info(margin_account: &mut MarginAccount, info: Vec<u8>) -> (r:
        MangoResult<()>)
        requires
            old(margin_account).wf(),
            info@.len() == INFO_LEN,
        ensures
            final(margin_account).wf(),
            r == Ok::<(), MangoErrorCode>(()),
            final(margin_account)@ == (MarginAccountV { info: info@, ..old(margin_account)@ }),
    {
        margin_account.info = info;
        proof {
            assert(margin_account@ =~= (MarginAccountV {
                info: margin_account@.info,
                ..old(margin_account)@
            }));
        }
        Ok(())
    }

    /// Settles freed venue funds into the account's deposits, observing
    /// the venue only through the before/after difference of its free
    /// balances.  Indexes are brought current first.
    pub fn settle_funds(
        mango_group: &mut MangoGroup,
        margin_account: &mut MarginAccount,
        market_i: usize,
        pre_base: u64,
        pre_quote: u64,
        post_base: u64,
        post_quote: u64,
        now: u64,
    ) -> (r: MangoResult<()>)
        requires
            old(mango_group).wf(),
            old(margin_account).wf(),
            market_i < NUM_MARKETS,
        ensures
            final(mango_group).wf(),
            final(margin_account).wf(),
            match spec_update_indexes(old(mango_group)@, now) {
                Err(c) => r == Err::<(), MangoErrorCode>(c) && final(mango_group)@ == old(mango_group)@ && final(margin_account)@ == old(margin_account)@,
                Ok(g1) => match spec_apply_settled_funds(
                    g1,
                    old(margin_account)@,
                    market_i as int,
                    pre_base,
                    pre_quote,
                    post_base,
                    post_quote,
                ) {
                    Ok((g2, a2)) => r == Ok::<(), MangoErrorCode>(()) && final(mango_group)@ == g2
                        && final(margin_account)@ == a2,
                    Err(c) => r == Err::<(), MangoErrorCode>(c) && final(mango_group)@ == old(mango_group)@ && final(margin_account)@ == old(margin_account)@,
                },
            },
    {
        let mut g = mango_group.duplicate();
        let mut a = margin_account.duplicate();
        g.update_indexes(now)?;
        apply_settled_funds(&mut g, &mut a, market_i, pre_base, pre_quote, post_base, post_quote)?;
        *mango_group = g;
        *margin_account = a;
        Ok(())
    }
}


/// What one call of the liquidation gate decides: a restricted account
/// that has recovered to the initial ratio is released (no cancels); an
/// unrestricted account below maintenance becomes restricted; an
/// unrestricted healthy account is not liquidatable.  The boolean says
/// whether order cancelling should proceed.
pub open spec fn spec_force_cancel_orders_begin(
    g: GroupV,
    a: MarginAccountV,
    prices: Seq<FixedPoint>,
    oo: Seq<Option<OpenOrdersInfo>>,
    now: u64,
) -> Result<(GroupV, MarginAccountV, bool), MangoErrorCode> {
    match spec_update_indexes(g, now) {
        Err(c) => Err(c),
        Ok(g1) => match spec_collateral_ratio(g1, a, prices, oo) {
            Err(c) => Err(c),
            Ok(ratio) => {
                if a.being_liquidated {
                    if ratio.bits >= g1.init_coll_ratio.bits {
                        Ok((g1, MarginAccountV { being_liquidated: false, ..a }, false))
                    } else {
                        Ok((g1, a, true))
                    }
                } else if ratio.bits < g1.maint_coll_ratio.bits {
                    Ok((g1, MarginAccountV { being_liquidated: true, ..a }, true))
                } else {
                    Err(MangoErrorCode::NotLiquidatable)
                }
            },
        },
    }
}

/// What admitting an order placement decides: a restricted account must
/// have recovered to the initial ratio or the order is refused; below the
/// initial ratio the order may only reduce exposure.  The boolean is that
/// reduce-only mode.
pub open spec fn spec_place_order_begin(
    g: GroupV,
    a: MarginAccountV,
    prices: Seq<FixedPoint>,
    oo: Seq<Option<OpenOrdersInfo>>,
    now: u64,
) -> Result<(GroupV, MarginAccountV, bool), MangoErrorCode> {
    match spec_update_indexes(g, now) {
        Err(c) => Err(c),
        Ok(g1) => match spec_collateral_ratio(g1, a, prices, oo) {
            Err(c) => Err(c),
            Ok(ratio) => {
                if a.being_liquidated {
                    if ratio.bits >= g1.init_coll_ratio.bits {
                        Ok((g1, MarginAccountV { being_liquidated: false, ..a }, false))
                    } else {
                        Err(MangoErrorCode::BeingLiquidated)
                    }
                } else {
                    Ok((g1, a, ratio.bits < g1.init_coll_ratio.bits))
                }
            },
        },
    }
}

/// What paying for a placed order does: user deposits are spent first; any
/// remainder becomes a borrow, which reduce-only mode forbids.
pub open spec fn spec_place_order_spend(
    g: GroupV,
    a: MarginAccountV,
    token_i: int,
    spent: u64,
    reduce_only: bool,
) -> Result<(GroupV, MarginAccountV), MangoErrorCode> {
    let index = g.indexes[token_i];
    match spec_native_deposit(a, index, token_i) {
        Err(c) => Err(c),
        Ok(native_deposit) => {
            if native_deposit >= spent {
                match sp_checked_div(sp_from_num(spent as int), index.deposit) {
                    None => Err(MangoErrorCode::ArithmeticError),
                    Some(spent_deposit) => spec_checked_sub_deposit(g, a, token_i, spent_deposit),
                }
            } else {
                match spec_checked_sub_deposit(g, a, token_i, a.deposits[token_i]) {
                    Err(c) => Err(c),
                    Ok((g1, a1)) => {
                        if reduce_only {
                            Err(MangoErrorCode::Default)
                        } else {
                            match sp_checked_div(
                                sp_from_num(spent - native_deposit),
                                index.borrow,
                            ) {
                                None => Err(MangoErrorCode::ArithmeticError),
                                Some(b) => spec_checked_add_borrow(g1, a1, token_i, b),
                            }
                        }
                    },
                }
            }
        },
    }
}

/// What the post-trade check demands: unless the order was reduce-only,
/// the account meets the initial ratio, and the pool is solvent in the
/// spent token.
pub open spec fn spec_place_order_end(
    g: GroupV,
    a: MarginAccountV,
    prices: Seq<FixedPoint>,
    oo: Seq<Option<OpenOrdersInfo>>,
    token_i: int,
    reduce_only: bool,
) -> Result<(), MangoErrorCode> {
    match spec_collateral_ratio(g, a, prices, oo) {
        Err(c) => Err(c),
        Ok(ratio) => {
            if !(reduce_only || ratio.bits >= g.init_coll_ratio.bits) {
                Err(MangoErrorCode::Default)
            } else {
                match spec_has_valid_deposits_borrows(g, token_i) {
                    Err(c) => Err(c),
                    Ok(valid) => {
                        if !valid {
                            Err(MangoErrorCode::Default)
                        } else {
                            Ok(())
                        }
                    },
                }
            }
        },
    }
}

/// Full settlement of every token's borrow against its deposit, over the
/// first `t` tokens.
pub open spec fn spec_settle_all_upto(g: GroupV, a: MarginAccountV, t: int) -> Result<
    (GroupV, MarginAccountV),
    MangoErrorCode,
>
    decreases t,
{
    if t <= 0 {
        Ok((g, a))
    } else {
        match spec_settle_all_upto(g, a, t - 1) {
            Err(c) => Err(c),
            Ok((g1, a1)) => spec_settle_borrow_full_unchecked(g1, a1, t - 1),
        }
    }
}

proof fn lemma_settle_all_upto_err(
    g: GroupV,
    a: MarginAccountV,
    i: int,
    n: int,
    g1: GroupV,
    a1: MarginAccountV,
    c: MangoErrorCode,
)
    requires
        0 <= i < n,
        spec_settle_all_upto(g, a, i) == Ok::<(GroupV, MarginAccountV), MangoErrorCode>((g1, a1)),
        spec_settle_borrow_full_unchecked(g1, a1, i) == Err::<
            (GroupV, MarginAccountV),
            MangoErrorCode,
        >(c),
    ensures
        spec_settle_all_upto(g, a, n) == Err::<(GroupV, MarginAccountV), MangoErrorCode>(c),
    decreases n,
{
    if n > i + 1 {
        lemma_settle_all_upto_err(g, a, i, n - 1, g1, a1, c);
    }
}

/// What the liquidator exchange amounts are, and their application: the
/// injected quantity is bounded by the deficit, by what the out-token
/// deposit can pay for with the incentive, by the outstanding borrow and
/// by the liquidator's own limit; it is rounded up on the way in and the
/// incentive payout is rounded down, both in the pool's favor.
pub open spec fn spec_get_in_out_quantities(
    g: GroupV,
    a: MarginAccountV,
    oo: Seq<Option<OpenOrdersInfo>>,
    prices: Seq<FixedPoint>,
    in_token_index: int,
    out_token_index: int,
    liqor_max_in: u64,
) -> Result<(GroupV, MarginAccountV, u64, u64), MangoErrorCode> {
    match crate::valuation::spec_partial_liq_deficit(g, a, prices, oo) {
        Err(c) => Err(c),
        Ok(d) => match sp_checked_add(d, FixedPoint { bits: crate::state::ONE_BITS }) {
            None => Err(MangoErrorCode::ArithmeticError),
            Some(deficit_val) => match sp_checked_mul(
                a.deposits[out_token_index],
                g.indexes[out_token_index].deposit,
            ) {
                None => Err(MangoErrorCode::ArithmeticError),
                Some(out_avail) => match sp_checked_mul(out_avail, prices[out_token_index]) {
                    None => Err(MangoErrorCode::ArithmeticError),
                    Some(out_avail_val) => match sp_checked_div(
                        out_avail_val,
                        FixedPoint { bits: crate::state::PARTIAL_LIQ_INCENTIVE },
                    ) {
                        None => Err(MangoErrorCode::ArithmeticError),
                        Some(mx) => {
                            let max_in_val = if deficit_val.bits < mx.bits {
                                deficit_val
                            } else {
                                mx
                            };
                            match sp_checked_div(max_in_val, prices[in_token_index]) {
                                None => Err(MangoErrorCode::ArithmeticError),
                                Some(max_in) => match sp_checked_mul(
                                    a.borrows[in_token_index],
                                    g.indexes[in_token_index].borrow,
                                ) {
                                    None => Err(MangoErrorCode::ArithmeticError),
                                    Some(native_borrow) => {
                                        let m1 = if max_in.bits < native_borrow.bits {
                                            max_in
                                        } else {
                                            native_borrow
                                        };
                                        let lim = sp_from_num(liqor_max_in as int);
                                        let in_quantity = if m1.bits < lim.bits {
                                            m1
                                        } else {
                                            lim
                                        };
                                        spec_apply_in_out(
                                            g,
                                            a,
                                            prices,
                                            in_token_index,
                                            out_token_index,
                                            in_quantity,
                                        )
                                    },
                                },
                            }
                        },
                    },
                },
            },
        },
    }
}

/// The second half of the exchange: reduce the borrow by the injected
/// quantity, pay the incentive-scaled amount out of the deposit, and
/// return the native quantities to transfer (in rounded up, out rounded
/// down).
pub open spec fn spec_apply_in_out(
    g: GroupV,
    a: MarginAccountV,
    prices: Seq<FixedPoint>,
    in_token_index: int,
    out_token_index: int,
    in_quantity: FixedPoint,
) -> Result<(GroupV, MarginAccountV, u64, u64), MangoErrorCode> {
    match sp_checked_div(in_quantity, g.indexes[in_token_index].borrow) {
        None => Err(MangoErrorCode::ArithmeticError),
        Some(deposit) => match spec_checked_sub_borrow(g, a, in_token_index, deposit) {
            Err(c) => Err(c),
            Ok((g1, a1)) => match sp_checked_mul(in_quantity, prices[in_token_index]) {
                None => Err(MangoErrorCode::ArithmeticError),
                Some(in_val) => match sp_checked_mul(
                    in_val,
                    FixedPoint { bits: crate::state::PARTIAL_LIQ_INCENTIVE },
                ) {
                    None => Err(MangoErrorCode::ArithmeticError),
                    Some(out_val) => match sp_checked_div(out_val, prices[out_token_index]) {
                        None => Err(MangoErrorCode::ArithmeticError),
                        Some(out_quantity) => match sp_checked_div(
                            out_quantity,
                            g1.indexes[out_token_index].deposit,
                        ) {
                            None => Err(MangoErrorCode::ArithmeticError),
                            Some(withdraw) => match spec_checked_sub_deposit(
                                g1,
                                a1,
                                out_token_index,
                                withdraw,
                            ) {
                                Err(c) => Err(c),
                                Ok((g2, a2)) => {
                                    if in_quantity.bits % SCALE == 0 {
                                        Ok(
                                            (
                                                g2,
                                                a2,
                                                (in_quantity.bits / SCALE) as u64,
                                                (out_quantity.bits / SCALE) as u64,
                                            ),
                                        )
                                    } else if in_quantity.bits / SCALE
                                        < 0xffff_ffff_ffff_ffffu64 {
                                        Ok(
                                            (
                                                g2,
                                                a2,
                                                (in_quantity.bits / SCALE + 1) as u64,
                                                (out_quantity.bits / SCALE) as u64,
                                            ),
                                        )
                                    } else {
                                        Err(MangoErrorCode::ArithmeticError)
                                    }
                                },
                            },
                        },
                    },
                },
            },
        },
    }
}

/// Loss socialization over the first `t` tokens: each token with a
/// remaining native borrow on the account has that borrow cleared and its
/// deposit index reduced proportionally.  The boolean records whether any
/// loss was socialized.
pub open spec fn spec_socialize_upto(
    g: GroupV,
    a: MarginAccountV,
    end_liabs: Seq<FixedPoint>,
    t: int,
) -> Result<(GroupV, MarginAccountV, bool), MangoErrorCode>
    decreases t,
{
    if t <= 0 {
        Ok((g, a, false))
    } else {
        match spec_socialize_upto(g, a, end_liabs, t - 1) {
            Err(c) => Err(c),
            Ok((g1, a1, soc)) => match sp_checked_mul(
                g1.total_deposits[t - 1],
                g1.indexes[t - 1].deposit,
            ) {
                None => Err(MangoErrorCode::ArithmeticError),
                Some(total_deposits_native) => {
                    if end_liabs[t - 1].bits > 0 {
                        match spec_socialize_loss(
                            g1,
                            a1,
                            t - 1,
                            end_liabs[t - 1],
                            total_deposits_native,
                        ) {
                            Err(c) => Err(c),
                            Ok((g2, a2)) => Ok((g2, a2, true)),
                        }
                    } else {
                        Ok((g1, a1, soc))
                    }
                },
            },
        }
    }
}

proof fn lemma_socialize_upto_err(
    g: GroupV,
    a: MarginAccountV,
    end_liabs: Seq<FixedPoint>,
    i: int,
    n: int,
    c: MangoErrorCode,
)
    requires
        0 <= i < n,
        spec_socialize_upto(g, a, end_liabs, i) is Ok,
        ({
            let (g1, a1, soc) = spec_socialize_upto(g, a, end_liabs, i)->Ok_0;
            match sp_checked_mul(g1.total_deposits[i], g1.indexes[i].deposit) {
                None => c == MangoErrorCode::ArithmeticError,
                Some(tdn) => end_liabs[i].bits > 0 && spec_socialize_loss(
                    g1,
                    a1,
                    i,
                    end_liabs[i],
                    tdn,
                ) == Err::<(GroupV, MarginAccountV), MangoErrorCode>(c),
            }
        }),
    ensures
        spec_socialize_upto(g, a, end_liabs, n) == Err::<
            (GroupV, MarginAccountV, bool),
            MangoErrorCode,
        >(c),
    decreases n,
{
    if n > i + 1 {
        lemma_socialize_upto_err(g, a, end_liabs, i, n - 1, c);
    }
}

/// The outcome of a partial liquidation call that made no error.
#[derive(Clone, Copy, Debug, PartialEq, Eq, Structural)]
pub enum PartialLiquidateOutcome {
    /// The restricted account was found back above the initial ratio and
    /// released; nothing was exchanged.
    AlreadyRecovered,
    /// Settling borrows alone brought the account above maintenance;
    /// nothing was exchanged.
    AboveMaintenance,
    /// The exchange took place: the liquidator owes `in_quantity` native
    /// units of the in-token to the vault and receives `out_quantity` of
    /// the out-token.
    Executed { in_quantity: u64, out_quantity: u64, socialized_losses: bool },
}

/// What `Processor::partial_liquidate` does, in full: gate on the
/// liquidation state machine, settle all internal borrows, compute and
/// apply the incentive-bounded exchange, and socialize any remaining loss
/// when the account's assets are dust.
pub open spec fn spec_partial_liquidate(
    g: GroupV,
    a: MarginAccountV,
    prices: Seq<FixedPoint>,
    oo: Seq<Option<OpenOrdersInfo>>,
    in_token_index: int,
    out_token_index: int,
    max_deposit: u64,
) -> Result<(GroupV, MarginAccountV, PartialLiquidateOutcome), MangoErrorCode> {
    if in_token_index == out_token_index {
        Err(MangoErrorCode::Default)
    } else {
        match crate::valuation::spec_get_assets(g, a, oo) {
        Err(c) => Err(c),
        Ok(_start_assets) => match crate::valuation::spec_get_liabs(g, a, NUM_TOKENS as int) {
            Err(c) => Err(c),
            Ok(start_liabs) => match spec_start_ratio(g, a, prices, oo) {
                Err(c) => Err(c),
                Ok(ratio) => {
                    if a.being_liquidated && ratio.bits >= g.init_coll_ratio.bits {
                        Ok(
                            (
                                g,
                                MarginAccountV { being_liquidated: false, ..a },
                                PartialLiquidateOutcome::AlreadyRecovered,
                            ),
                        )
                    } else if !a.being_liquidated && ratio.bits >= g.maint_coll_ratio.bits {
                        Err(MangoErrorCode::NotLiquidatable)
                    } else {
                        spec_partial_liquidate_settled(
                            g,
                            a,
                            prices,
                            oo,
                            in_token_index,
                            out_token_index,
                            max_deposit,
                        )
                    }
                },
            },
        },
        }
    }
}

/// The starting collateral ratio of a partial liquidation, computed from
/// the per-token asset and liability arrays.
pub open spec fn spec_start_ratio(
    g: GroupV,
    a: MarginAccountV,
    prices: Seq<FixedPoint>,
    oo: Seq<Option<OpenOrdersInfo>>,
) -> Result<FixedPoint, MangoErrorCode> {
    match crate::valuation::spec_get_assets(g, a, oo) {
        Err(c) => Err(c),
        Ok(start_assets) => match crate::valuation::spec_get_liabs(g, a, NUM_TOKENS as int) {
            Err(c) => Err(c),
            Ok(start_liabs) => crate::valuation::spec_coll_ratio_from_assets_liabs(
                prices,
                start_assets,
                start_liabs,
            ),
        },
    }
}

/// The tail of a partial liquidation, once the account is admitted:
/// settle every token, re-examine, then exchange and possibly socialize.
pub open spec fn spec_partial_liquidate_settled(
    g: GroupV,
    a: MarginAccountV,
    prices: Seq<FixedPoint>,
    oo: Seq<Option<OpenOrdersInfo>>,
    in_token_index: int,
    out_token_index: int,
    max_deposit: u64,
) -> Result<(GroupV, MarginAccountV, PartialLiquidateOutcome), MangoErrorCode> {
    match spec_settle_all_upto(g, a, NUM_TOKENS as int) {
        Err(c) => Err(c),
        Ok((g1, a1)) => match spec_collateral_ratio(g1, a1, prices, oo) {
            Err(c) => Err(c),
            Ok(ratio2) => {
                if a1.being_liquidated && ratio2.bits >= g1.init_coll_ratio.bits {
                    Ok(
                        (
                            g1,
                            MarginAccountV { being_liquidated: false, ..a1 },
                            PartialLiquidateOutcome::AlreadyRecovered,
                        ),
                    )
                } else if !a1.being_liquidated && ratio2.bits >= g1.maint_coll_ratio.bits {
                    Ok((g1, a1, PartialLiquidateOutcome::AboveMaintenance))
                } else {
                    let a2 = MarginAccountV { being_liquidated: true, ..a1 };
                    spec_partial_liquidate_exchange(
                        g1,
                        a2,
                        prices,
                        oo,
                        in_token_index,
                        out_token_index,
                        max_deposit,
                    )
                }
            },
        },
    }
}

/// The exchange and aftermath of a partial liquidation.
pub open spec fn spec_partial_liquidate_exchange(
    g: GroupV,
    a: MarginAccountV,
    prices: Seq<FixedPoint>,
    oo: Seq<Option<OpenOrdersInfo>>,
    in_token_index: int,
    out_token_index: int,
    max_deposit: u64,
) -> Result<(GroupV, MarginAccountV, PartialLiquidateOutcome), MangoErrorCode> {
    match spec_get_in_out_quantities(g, a, oo, prices, in_token_index, out_token_index, max_deposit) {
        Err(c) => Err(c),
        Ok((g2, a3, in_q, out_q)) => match crate::valuation::spec_get_assets(g2, a3, oo) {
            Err(c) => Err(c),
            Ok(end_assets) => match crate::valuation::spec_get_liabs(g2, a3, NUM_TOKENS as int) {
                Err(c) => Err(c),
                Ok(end_liabs) => match crate::valuation::spec_coll_ratio_from_assets_liabs(
                    prices,
                    end_assets,
                    end_liabs,
                ) {
                    Err(c) => Err(c),
                    Ok(ratio3) => {
                        if ratio3.bits >= g2.init_coll_ratio.bits {
                            Ok(
                                (
                                    g2,
                                    MarginAccountV { being_liquidated: false, ..a3 },
                                    PartialLiquidateOutcome::Executed {
                                        in_quantity: in_q,
                                        out_quantity: out_q,
                                        socialized_losses: false,
                                    },
                                ),
                            )
                        } else {
                            match crate::valuation::spec_assets_val(g2, a3, prices, oo) {
                                Err(c) => Err(c),
                                Ok(av) => {
                                    if av.bits < crate::state::DUST_THRESHOLD {
                                        match spec_socialize_upto(
                                            g2,
                                            a3,
                                            end_liabs,
                                            NUM_TOKENS as int,
                                        ) {
                                            Err(c) => Err(c),
                                            Ok((g3, a4, soc)) => Ok(
                                                (
                                                    g3,
                                                    a4,
                                                    PartialLiquidateOutcome::Executed {
                                                        in_quantity: in_q,
                                                        out_quantity: out_q,
                                                        socialized_losses: soc,
                                                    },
                                                ),
                                            ),
                                        }
                                    } else {
                                        Ok(
                                            (
                                                g2,
                                                a3,
                                                PartialLiquidateOutcome::Executed {
                                                    in_quantity: in_q,
                                                    out_quantity: out_q,
                                                    socialized_losses: false,
                                                },
                                            ),
                                        )
                                    }
                                },
                            }
                        }
                    },
                },
            },
        },
    }
}


/// What applying a filled-or-posted order's vault differences does: a net
/// outflow of the out-token is paid from deposits, borrowing the remainder
/// unless reduce-only; a net inflow is credited; the in-token inflow is
/// credited; both tokens are then fully settled and the post-trade check
/// runs, the collateral shortfall being reported as such.
pub open spec fn spec_place_and_settle_apply(
    g: GroupV,
    a: MarginAccountV,
    in_token_i: int,
    out_token_i: int,
    pre_in: u64,
    pre_out: u64,
    post_in: u64,
    post_out: u64,
    reduce_only: bool,
    prices: Seq<FixedPoint>,
    oo: Seq<Option<OpenOrdersInfo>>,
) -> Result<(GroupV, MarginAccountV), MangoErrorCode> {
    let out_index = g.indexes[out_token_i];
    if post_out < pre_out {
        match spec_native_deposit(a, out_index, out_token_i) {
            Err(c) => Err(c),
            Ok(native_deposit) => {
                if native_deposit < pre_out - post_out {
                    match spec_checked_sub_deposit(g, a, out_token_i, a.deposits[out_token_i]) {
                        Err(c) => Err(c),
                        Ok((g1, a1)) => {
                            if reduce_only {
                                Err(MangoErrorCode::Default)
                            } else {
                                match sp_checked_div(
                                    sp_from_num(pre_out - post_out - native_deposit),
                                    out_index.borrow,
                                ) {
                                    None => Err(MangoErrorCode::ArithmeticError),
                                    Some(b) => match spec_checked_add_borrow(
                                        g1,
                                        a1,
                                        out_token_i,
                                        b,
                                    ) {
                                        Err(c) => Err(c),
                                        Ok((g2, a2)) => spec_place_and_settle_tail(
                                            g2,
                                            a2,
                                            in_token_i,
                                            out_token_i,
                                            pre_in,
                                            post_in,
                                            reduce_only,
                                            prices,
                                            oo,
                                        ),
                                    },
                                }
                            }
                        },
                    }
                } else {
                    match sp_checked_div(sp_from_num(pre_out - post_out), out_index.deposit) {
                        None => Err(MangoErrorCode::ArithmeticError),
                        Some(ms) => match spec_checked_sub_deposit(g, a, out_token_i, ms) {
                            Err(c) => Err(c),
                            Ok((g2, a2)) => spec_place_and_settle_tail(
                                g2,
                                a2,
                                in_token_i,
                                out_token_i,
                                pre_in,
                                post_in,
                                reduce_only,
                                prices,
                                oo,
                            ),
                        },
                    }
                }
            },
        }
    } else {
        match sp_checked_div(sp_from_num(post_out - pre_out), out_index.deposit) {
            None => Err(MangoErrorCode::ArithmeticError),
            Some(d) => match spec_checked_add_deposit(g, a, out_token_i, d) {
                Err(c) => Err(c),
                Ok((g2, a2)) => spec_place_and_settle_tail(
                    g2,
                    a2,
                    in_token_i,
                    out_token_i,
                    pre_in,
                    post_in,
                    reduce_only,
                    prices,
                    oo,
                ),
            },
        }
    }
}

/// The in-token credit, the double settlement and the post-trade check of
/// a place-and-settle.
pub open spec fn spec_place_and_settle_tail(
    g: GroupV,
    a: MarginAccountV,
    in_token_i: int,
    out_token_i: int,
    pre_in: u64,
    post_in: u64,
    reduce_only: bool,
    prices: Seq<FixedPoint>,
    oo: Seq<Option<OpenOrdersInfo>>,
) -> Result<(GroupV, MarginAccountV), MangoErrorCode> {
    if post_in < pre_in {
        Err(MangoErrorCode::ArithmeticError)
    } else {
        match sp_checked_div(sp_from_num(post_in - pre_in), g.indexes[in_token_i].deposit) {
            None => Err(MangoErrorCode::ArithmeticError),
            Some(total_in) => match spec_checked_add_deposit(g, a, in_token_i, total_in) {
                Err(c) => Err(c),
                Ok((g3, a3)) => match spec_settle_borrow_full_unchecked(g3, a3, out_token_i) {
                    Err(c) => Err(c),
                    Ok((g4, a4)) => match spec_settle_borrow_full_unchecked(g4, a4, in_token_i) {
                        Err(c) => Err(c),
                        Ok((g5, a5)) => match spec_collateral_ratio(g5, a5, prices, oo) {
                            Err(c) => Err(c),
                            Ok(ratio) => {
                                if !(reduce_only || ratio.bits >= g5.init_coll_ratio.bits) {
                                    Err(MangoErrorCode::CollateralRatioLimit)
                                } else {
                                    match spec_has_valid_deposits_borrows(g5, out_token_i) {
                                        Err(c) => Err(c),
                                        Ok(valid) => {
                                            if !valid {
                                                Err(MangoErrorCode::Default)
                                            } else {
                                                Ok((g5, a5))
                                            }
                                        },
                                    }
                                }
                            },
                        },
                    },
                },
            },
        }
    }
}

/// Executable twin of `spec_get_in_out_quantities`.
#[verifier::rlimit(100)]
fn get_in_out_quantities(
    mango_group: &mut MangoGroup,
    margin_account: &mut MarginAccount,
    open_orders_accs: &Vec<Option<OpenOrdersInfo>>,
    prices: &Vec<FixedPoint>,
    in_token_index: usize,
    out_token_index: usize,
    liqor_max_in: u64,
) -> (r: MangoResult<(u64, u64)>)
    requires
        old(mango_group).wf(),
        old(margin_account).wf(),
        in_token_index < NUM_TOKENS,
        out_token_index < NUM_TOKENS,
        prices@.len() == NUM_TOKENS,
        open_orders_accs@.len() == NUM_MARKETS,
    ensures
        final(mango_group).wf(),
        final(margin_account).wf(),
        match spec_get_in_out_quantities(
            old(mango_group)@,
            old(margin_account)@,
            open_orders_accs@,
            prices@,
            in_token_index as int,
            out_token_index as int,
            liqor_max_in,
        ) {
            Ok((g2, a2, in_q, out_q)) => r == Ok::<(u64, u64), MangoErrorCode>((in_q, out_q))
                && final(mango_group)@ == g2 && final(margin_account)@ == a2,
            Err(c) => r is Err && r->Err_0 == c,
        },
{
    let deficit = margin_account.get_partial_liq_deficit(
        mango_group,
        prices,
        open_orders_accs,
    )?;
    let deficit_val = match deficit.checked_add(
        FixedPoint::from_bits(crate::state::ONE_BITS),
    ) {
        Some(x) => x,
        None => {
            return Err(MangoErrorCode::ArithmeticError);
        },
    };
    let out_avail = match margin_account.deposits[out_token_index].checked_mul(
        mango_group.indexes[out_token_index].deposit,
    ) {
        Some(x) => x,
        None => {
            return Err(MangoErrorCode::ArithmeticError);
        },
    };
    let out_avail_val = match out_avail.checked_mul(prices[out_token_index]) {
        Some(x) => x,
        None => {
            return Err(MangoErrorCode::ArithmeticError);
        },
    };
    let mx = match out_avail_val.checked_div(
        FixedPoint::from_bits(crate::state::PARTIAL_LIQ_INCENTIVE),
    ) {
        Some(x) => x,
        None => {
            return Err(MangoErrorCode::ArithmeticError);
        },
    };
    let max_in_val = if deficit_val.bits < mx.bits {
        deficit_val
    } else {
        mx
    };
    let max_in = match max_in_val.checked_div(prices[in_token_index]) {
        Some(x) => x,
        None => {
            return Err(MangoErrorCode::ArithmeticError);
        },
    };
    let native_borrow = match margin_account.borrows[in_token_index].checked_mul(
        mango_group.indexes[in_token_index].borrow,
    ) {
        Some(x) => x,
        None => {
            return Err(MangoErrorCode::ArithmeticError);
        },
    };
    let m1 = if max_in.bits < native_borrow.bits {
        max_in
    } else {
        native_borrow
    };
    let lim = FixedPoint::from_num(liqor_max_in);
    let in_quantity = if m1.bits < lim.bits {
        m1
    } else {
        lim
    };
    let deposit = match in_quantity.checked_div(mango_group.indexes[in_token_index].borrow) {
        Some(x) => x,
        None => {
            return Err(MangoErrorCode::ArithmeticError);
        },
    };
    checked_sub_borrow(mango_group, margin_account, in_token_index, deposit)?;
    let in_val = match in_quantity.checked_mul(prices[in_token_index]) {
        Some(x) => x,
        None => {
            return Err(MangoErrorCode::ArithmeticError);
        },
    };
    let out_val = match in_val.checked_mul(
        FixedPoint::from_bits(crate::state::PARTIAL_LIQ_INCENTIVE),
    ) {
        Some(x) => x,
        None => {
            return Err(MangoErrorCode::ArithmeticError);
        },
    };
    let out_quantity = match out_val.checked_div(prices[out_token_index]) {
        Some(x) => x,
        None => {
            return Err(MangoErrorCode::ArithmeticError);
        },
    };
    let withdraw = match out_quantity.checked_div(
        mango_group.indexes[out_token_index].deposit,
    ) {
        Some(x) => x,
        None => {
            return Err(MangoErrorCode::ArithmeticError);
        },
    };
    checked_sub_deposit(mango_group, margin_account, out_token_index, withdraw)?;
    let in_native = match in_quantity.ceil_to_u64() {
        Some(x) => x,
        None => {
            return Err(MangoErrorCode::ArithmeticError);
        },
    };
    let out_native = out_quantity.floor_to_u64();
    Ok((in_native, out_native))
}

impl Processor {
    /// The liquidation gate of forced order cancelling: decides whether a
    /// liquidator may cancel the account's resting orders, flipping the
    /// liquidation state as the spec says.  `Ok(true)` means proceed with
    /// the cancels; `Ok(false)` means the account was released.
    pub fn force_cancel_orders_begin(
        mango_group: &mut MangoGroup,
        liqee_margin_account: &mut MarginAccount,
        prices: &Vec<FixedPoint>,
        open_orders_accs: &Vec<Option<OpenOrdersInfo>>,
        now: u64,
    ) -> (r: MangoResult<bool>)
        requires
            old(mango_group).wf(),
            old(liqee_margin_account).wf(),
            prices@.len() == NUM_TOKENS,
            open_orders_accs@.len() == NUM_MARKETS,
        ensures
            final(mango_group).wf(),
            final(liqee_margin_account).wf(),
            match spec_force_cancel_orders_begin(
                old(mango_group)@,
                old(liqee_margin_account)@,
                prices@,
                open_orders_accs@,
                now,
            ) {
                Ok((g2, a2, proceed)) => r == Ok::<bool, MangoErrorCode>(proceed)
                    && final(mango_group)@ == g2 && final(liqee_margin_account)@ == a2,
                Err(c) => r == Err::<bool, MangoErrorCode>(c) && final(mango_group)@ == old(mango_group)@ && final(liqee_margin_account)@ == old(liqee_margin_account)@,
            },
    {
        let mut g = mango_group.duplicate();
        let mut a = liqee_margin_account.duplicate();
        g.update_indexes(now)?;
        let ratio = a.get_collateral_ratio(&g, prices, open_orders_accs)?;
        let proceed: bool;
        if a.being_liquidated {
            if ratio.bits >= g.init_coll_ratio.bits {
                a.being_liquidated = false;
                proceed = false;
            } else {
                proceed = true;
            }
        } else if ratio.bits < g.maint_coll_ratio.bits {
            a.being_liquidated = true;
            proceed = true;
        } else {
            return Err(MangoErrorCode::NotLiquidatable);
        }
        *mango_group = g;
        *liqee_margin_account = a;
        Ok(proceed)
    }

    /// Settles the funds freed by forced cancels into the liquidated
    /// account, by the same before/after differencing as `settle_funds`.
    pub fn force_cancel_orders_settle(
        mango_group: &mut MangoGroup,
        liqee_margin_account: &mut MarginAccount,
        market_i: usize,
        pre_base: u64,
        pre_quote: u64,
        post_base: u64,
        post_quote: u64,
    ) -> (r: MangoResult<()>)
        requires
            old(mango_group).wf(),
            old(liqee_margin_account).wf(),
            market_i < NUM_MARKETS,
        ensures
            final(mango_group).wf(),
            final(liqee_margin_account).wf(),
            match spec_apply_settled_funds(
                old(mango_group)@,
                old(liqee_margin_account)@,
                market_i as int,
                pre_base,
                pre_quote,
                post_base,
                post_quote,
            ) {
                Ok((g2, a2)) => r == Ok::<(), MangoErrorCode>(()) && final(mango_group)@ == g2
                    && final(liqee_margin_account)@ == a2,
                Err(c) => r == Err::<(), MangoErrorCode>(c) && final(mango_group)@ == old(mango_group)@ && final(liqee_margin_account)@ == old(liqee_margin_account)@,
            },
    {
        let mut g = mango_group.duplicate();
        let mut a = liqee_margin_account.duplicate();
        apply_settled_funds(&mut g, &mut a, market_i, pre_base, pre_quote, post_base, post_quote)?;
        *mango_group = g;
        *liqee_margin_account = a;
        Ok(())
    }

    /// Admission control of order placement: releases a recovered
    /// restricted account, refuses a still-restricted one, and reports
    /// whether the order must be reduce-only.
    pub fn place_order_begin(
        mango_group: &mut MangoGroup,
        margin_account: &mut MarginAccount,
        prices: &Vec<FixedPoint>,
        open_orders_accs: &Vec<Option<OpenOrdersInfo>>,
        now: u64,
    ) -> (r: MangoResult<bool>)
        requires
            old(mango_group).wf(),
            old(margin_account).wf(),
            prices@.len() == NUM_TOKENS,
            open_orders_accs@.len() == NUM_MARKETS,
        ensures
            final(mango_group).wf(),
            final(margin_account).wf(),
            match spec_place_order_begin(
                old(mango_group)@,
                old(margin_account)@,
                prices@,
                open_orders_accs@,
                now,
            ) {
                Ok((g2, a2, reduce_only)) => r == Ok::<bool, MangoErrorCode>(reduce_only)
                    && final(mango_group)@ == g2 && final(margin_account)@ == a2,
                Err(c) => r == Err::<bool, MangoErrorCode>(c) && final(mango_group)@ == old(mango_group)@ && final(margin_account)@ == old(margin_account)@,
            },
    {
        let mut g = mango_group.duplicate();
        let mut a = margin_account.duplicate();
        g.update_indexes(now)?;
        let ratio = a.get_collateral_ratio(&g, prices, open_orders_accs)?;
        let reduce_only: bool;
        if a.being_liquidated {
            if ratio.bits >= g.init_coll_ratio.bits {
                a.being_liquidated = false;
                reduce_only = false;
            } else {
                return Err(MangoErrorCode::BeingLiquidated);
            }
        } else {
            reduce_only = ratio.bits < g.init_coll_ratio.bits;
        }
        *mango_group = g;
        *margin_account = a;
        Ok(reduce_only)
    }

    /// Pays for what an order spent out of the vault: deposits first,
    /// borrowing the remainder unless the order was reduce-only.
    pub fn place_order_spend(
        mango_group: &mut MangoGroup,
        margin_account: &mut MarginAccount,
        token_i: usize,
        spent: u64,
        reduce_only: bool,
    ) -> (r: MangoResult<()>)
        requires
            old(mango_group).wf(),
            old(margin_account).wf(),
            token_i < NUM_TOKENS,
        ensures
            final(mango_group).wf(),
            final(margin_account).wf(),
            match spec_place_order_spend(
                old(mango_group)@,
                old(margin_account)@,
                token_i as int,
                spent,
                reduce_only,
            ) {
                Ok((g2, a2)) => r == Ok::<(), MangoErrorCode>(()) && final(mango_group)@ == g2
                    && final(margin_account)@ == a2,
                Err(c) => r == Err::<(), MangoErrorCode>(c) && final(mango_group)@ == old(mango_group)@ && final(margin_account)@ == old(margin_account)@,
            },
    {
        let mut g = mango_group.duplicate();
        let mut a = margin_account.duplicate();
        let index = g.indexes[token_i];
        let native_deposit = match a.get_native_deposit(&index, token_i) {
            Ok(x) => x,
            Err(c) => {
                return Err(c);
            },
        };
        if native_deposit >= spent {
            let spent_deposit = match FixedPoint::from_num(spent).checked_div(index.deposit) {
                Some(x) => x,
                None => {
                    return Err(MangoErrorCode::ArithmeticError);
                },
            };
            checked_sub_deposit(&mut g, &mut a, token_i, spent_deposit)?;
        } else {
            let avail_deposit = a.deposits[token_i];
            checked_sub_deposit(&mut g, &mut a, token_i, avail_deposit)?;
            if reduce_only {
                // cannot borrow more in reduce-only mode
                return Err(MangoErrorCode::Default);
            }
            let rem_spend = FixedPoint::from_num(spent - native_deposit);
            let b = match rem_spend.checked_div(index.borrow) {
                Some(x) => x,
                None => {
                    return Err(MangoErrorCode::ArithmeticError);
                },
            };
            checked_add_borrow(&mut g, &mut a, token_i, b)?;
        }
        *mango_group = g;
        *margin_account = a;
        Ok(())
    }

    /// The post-trade check of an order placement: unless reduce-only, the
    /// account must meet the initial ratio, and the pool must be solvent
    /// in the spent token.
    pub fn place_order_end(
        mango_group: &MangoGroup,
        margin_account: &MarginAccount,
        prices: &Vec<FixedPoint>,
        open_orders_accs: &Vec<Option<OpenOrdersInfo>>,
        token_i: usize,
        reduce_only: bool,
    ) -> (r: MangoResult<()>)
        requires
            mango_group.wf(),
            margin_account.wf(),
            token_i < NUM_TOKENS,
            prices@.len() == NUM_TOKENS,
            open_orders_accs@.len() == NUM_MARKETS,
        ensures
            r == spec_place_order_end(
                mango_group@,
                margin_account@,
                prices@,
                open_orders_accs@,
                token_i as int,
                reduce_only,
            ),
    {
        let ratio = margin_account.get_collateral_ratio(mango_group, prices, open_orders_accs)?;
        if !(reduce_only || ratio.bits >= mango_group.init_coll_ratio.bits) {
            return Err(MangoErrorCode::Default);
        }
        let valid = mango_group.has_valid_deposits_borrows(token_i)?;
        if !valid {
            return Err(MangoErrorCode::Default);
        }
        Ok(())
    }

    /// Applies the vault differences observed around a place-and-settle:
    /// pays or credits the out-token, credits the in-token, settles both
    /// tokens fully and runs the post-trade check.
    #[verifier::rlimit(100)]
    #[verifier::spinoff_prover]
    pub fn place_and_settle_apply(
        mango_group: &mut MangoGroup,
        margin_account: &mut MarginAccount,
        in_token_i: usize,
        out_token_i: usize,
        pre_in: u64,
        pre_out: u64,
        post_in: u64,
        post_out: u64,
        reduce_only: bool,
        prices: &Vec<FixedPoint>,
        open_orders_accs: &Vec<Option<OpenOrdersInfo>>,
    ) -> (r: MangoResult<()>)
        requires
            old(mango_group).wf(),
            old(margin_account).wf(),
            in_token_i < NUM_TOKENS,
            out_token_i < NUM_TOKENS,
            prices@.len() == NUM_TOKENS,
            open_orders_accs@.len() == NUM_MARKETS,
        ensures
            final(mango_group).wf(),
            final(margin_account).wf(),
            match spec_place_and_settle_apply(
                old(mango_group)@,
                old(margin_account)@,
                in_token_i as int,
                out_token_i as int,
                pre_in,
                pre_out,
                post_in,
                post_out,
                reduce_only,
                prices@,
                open_orders_accs@,
            ) {
                Ok((g2, a2)) => r == Ok::<(), MangoErrorCode>(()) && final(mango_group)@ == g2
                    && final(margin_account)@ == a2,
                Err(c) => r == Err::<(), MangoErrorCode>(c) && final(mango_group)@ == old(mango_group)@ && final(margin_account)@ == old(margin_account)@,
            },
    {
        let mut g = mango_group.duplicate();
        let mut a = margin_account.duplicate();
        let out_index = g.indexes[out_token_i];
        let in_index = g.indexes[in_token_i];
        if post_out < pre_out {
            let total_out = pre_out - post_out;
            let native_deposit = match a.get_native_deposit(&out_index, out_token_i) {
                Ok(x) => x,
                Err(c) => {
                    return Err(c);
                },
            };
            if native_deposit < total_out {
                let avail_deposit = a.deposits[out_token_i];
                checked_sub_deposit(&mut g, &mut a, out_token_i, avail_deposit)?;
                if reduce_only {
                    // cannot borrow more in reduce-only mode
                    return Err(MangoErrorCode::Default);
                }
                let rem_spend = FixedPoint::from_num(total_out - native_deposit);
                let b = match rem_spend.checked_div(out_index.borrow) {
                    Some(x) => x,
                    None => {
                        return Err(MangoErrorCode::ArithmeticError);
                    },
                };
                checked_add_borrow(&mut g, &mut a, out_token_i, b)?;
            } else {
                let mango_spent = match FixedPoint::from_num(total_out).checked_div(
                    out_index.deposit,
                ) {
                    Some(x) => x,
                    None => {
                        return Err(MangoErrorCode::ArithmeticError);
                    },
                };
                checked_sub_deposit(&mut g, &mut a, out_token_i, mango_spent)?;
            }
        } else {
            let gained = post_out - pre_out;
            let d = match FixedPoint::from_num(gained).checked_div(out_index.deposit) {
                Some(x) => x,
                None => {
                    return Err(MangoErrorCode::ArithmeticError);
                },
            };
            checked_add_deposit(&mut g, &mut a, out_token_i, d)?;
        }
        if post_in < pre_in {
            return Err(MangoErrorCode::ArithmeticError);
        }
        let total_in = match FixedPoint::from_num(post_in - pre_in).checked_div(in_index.deposit) {
            Some(x) => x,
            None => {
                return Err(MangoErrorCode::ArithmeticError);
            },
        };
        checked_add_deposit(&mut g, &mut a, in_token_i, total_in)?;
        settle_borrow_full_unchecked(&mut g, &mut a, out_token_i)?;
        settle_borrow_full_unchecked(&mut g, &mut a, in_token_i)?;
        let ratio = a.get_collateral_ratio(&g, prices, open_orders_accs)?;
        if !(reduce_only || ratio.bits >= g.init_coll_ratio.bits) {
            return Err(MangoErrorCode::CollateralRatioLimit);
        }
        let valid = g.has_valid_deposits_borrows(out_token_i)?;
        if !valid {
            return Err(MangoErrorCode::Default);
        }
        *mango_group = g;
        *margin_account = a;
        Ok(())
    }

    /// Incentive-bounded partial liquidation.  The returned outcome says
    /// what the caller owes and receives (the two token transfers happen
    /// outside, after this call).  The whole call is all-or-nothing.
    pub fn partial_liquidate(
        mango_group: &mut MangoGroup,
        liqee_margin_account: &mut MarginAccount,
        prices: &Vec<FixedPoint>,
        open_orders_accs: &Vec<Option<OpenOrdersInfo>>,
        in_token_index: usize,
        out_token_index: usize,
        max_deposit: u64,
    ) -> (r: MangoResult<PartialLiquidateOutcome>)
        requires
            old(mango_group).wf(),
            old(liqee_margin_account).wf(),
            in_token_index < NUM_TOKENS,
            out_token_index < NUM_TOKENS,
            prices@.len() == NUM_TOKENS,
            open_orders_accs@.len() == NUM_MARKETS,
        ensures
            final(mango_group).wf(),
            final(liqee_margin_account).wf(),
            match spec_partial_liquidate(
                old(mango_group)@,
                old(liqee_margin_account)@,
                prices@,
                open_orders_accs@,
                in_token_index as int,
                out_token_index as int,
                max_deposit,
            ) {
                Ok((g2, a2, outcome)) => r == Ok::<PartialLiquidateOutcome, MangoErrorCode>(
                    outcome,
                ) && final(mango_group)@ == g2 && final(liqee_margin_account)@ == a2,
                Err(c) => r == Err::<PartialLiquidateOutcome, MangoErrorCode>(c) && final(mango_group)@ == old(mango_group)@ && final(liqee_margin_account)@ == old(liqee_margin_account)@,
            },
    {
        if in_token_index == out_token_index {
            return Err(MangoErrorCode::Default);
        }
        let mut g = mango_group.duplicate();
        let mut a = liqee_margin_account.duplicate();
        proof {
            crate::valuation::lemma_get_assets_len(g@, a@, open_orders_accs@);
            crate::valuation::lemma_get_liabs_len(g@, a@, NUM_TOKENS as int);
        }
        let start_assets = a.get_assets(&g, open_orders_accs)?;
        let start_liabs = a.get_liabs(&g)?;
        let coll_ratio = a.coll_ratio_from_assets_liabs(prices, &start_assets, &start_liabs)?;
        if a.being_liquidated {
            if coll_ratio.bits >= g.init_coll_ratio.bits {
                a.being_liquidated = false;
                *mango_group = g;
                *liqee_margin_account = a;
                return Ok(PartialLiquidateOutcome::AlreadyRecovered);
            }
        } else if coll_ratio.bits >= g.maint_coll_ratio.bits {
            return Err(MangoErrorCode::NotLiquidatable);
        }
        let outcome = partial_liquidate_settled(
            &mut g,
            &mut a,
            prices,
            open_orders_accs,
            in_token_index,
            out_token_index,
            max_deposit,
        )?;
        *mango_group = g;
        *liqee_margin_account = a;
        Ok(outcome)
    }
}

/// The settle-then-re-examine stage of a partial liquidation; the
/// executable twin of `spec_partial_liquidate_settled`.
#[verifier::loop_isolation(false)]
fn partial_liquidate_settled(
    mango_group: &mut MangoGroup,
    liqee_margin_account: &mut MarginAccount,
    prices: &Vec<FixedPoint>,
    open_orders_accs: &Vec<Option<OpenOrdersInfo>>,
    in_token_index: usize,
    out_token_index: usize,
    max_deposit: u64,
) -> (r: MangoResult<PartialLiquidateOutcome>)
    requires
        old(mango_group).wf(),
        old(liqee_margin_account).wf(),
        in_token_index < NUM_TOKENS,
        out_token_index < NUM_TOKENS,
        prices@.len() == NUM_TOKENS,
        open_orders_accs@.len() == NUM_MARKETS,
    ensures
        final(mango_group).wf(),
        final(liqee_margin_account).wf(),
        match spec_partial_liquidate_settled(
            old(mango_group)@,
            old(liqee_margin_account)@,
            prices@,
            open_orders_accs@,
            in_token_index as int,
            out_token_index as int,
            max_deposit,
        ) {
            Ok((g2, a2, outcome)) => r == Ok::<PartialLiquidateOutcome, MangoErrorCode>(outcome)
                && final(mango_group)@ == g2 && final(liqee_margin_account)@ == a2,
            Err(c) => r is Err && r->Err_0 == c,
        },
{
    // settle each token's borrow against its deposit first
    let ghost gs = mango_group@;
    let ghost as0 = liqee_margin_account@;
    let mut i: usize = 0;
    while i < NUM_TOKENS
        invariant
            mango_group.wf(),
            liqee_margin_account.wf(),
            i <= NUM_TOKENS,
            spec_settle_all_upto(gs, as0, i as int) == Ok::<
                (GroupV, MarginAccountV),
                MangoErrorCode,
            >((mango_group@, liqee_margin_account@)),
        decreases NUM_TOKENS - i,
    {
        let ghost gpre = mango_group@;
        let ghost apre = liqee_margin_account@;
        match settle_borrow_full_unchecked(mango_group, liqee_margin_account, i) {
            Ok(()) => {},
            Err(c) => {
                proof {
                    lemma_settle_all_upto_err(gs, as0, i as int, NUM_TOKENS as int, gpre, apre, c);
                }
                return Err(c);
            },
        }
        i = i + 1;
    }
    // re-examine: settling alone may have recovered the account
    let ratio2 = liqee_margin_account.get_collateral_ratio(
        mango_group,
        prices,
        open_orders_accs,
    )?;
    if liqee_margin_account.being_liquidated {
        if ratio2.bits >= mango_group.init_coll_ratio.bits {
            liqee_margin_account.being_liquidated = false;
            return Ok(PartialLiquidateOutcome::AlreadyRecovered);
        }
        proof {
            assert((MarginAccountV { being_liquidated: true, ..liqee_margin_account@ })
                =~= liqee_margin_account@);
        }
    } else if ratio2.bits >= mango_group.maint_coll_ratio.bits {
        return Ok(PartialLiquidateOutcome::AboveMaintenance);
    } else {
        liqee_margin_account.being_liquidated = true;
    }
    partial_liquidate_exchange(
        mango_group,
        liqee_margin_account,
        prices,
        open_orders_accs,
        in_token_index,
        out_token_index,
        max_deposit,
    )
}

/// The exchange and aftermath stage of a partial liquidation; the
/// executable twin of `spec_partial_liquidate_exchange`.
#[verifier::rlimit(100)]
#[verifier::loop_isolation(false)]
fn partial_liquidate_exchange(
    mango_group: &mut MangoGroup,
    liqee_margin_account: &mut MarginAccount,
    prices: &Vec<FixedPoint>,
    open_orders_accs: &Vec<Option<OpenOrdersInfo>>,
    in_token_index: usize,
    out_token_index: usize,
    max_deposit: u64,
) -> (r: MangoResult<PartialLiquidateOutcome>)
    requires
        old(mango_group).wf(),
        old(liqee_margin_account).wf(),
        in_token_index < NUM_TOKENS,
        out_token_index < NUM_TOKENS,
        prices@.len() == NUM_TOKENS,
        open_orders_accs@.len() == NUM_MARKETS,
    ensures
        final(mango_group).wf(),
        final(liqee_margin_account).wf(),
        match spec_partial_liquidate_exchange(
            old(mango_group)@,
            old(liqee_margin_account)@,
            prices@,
            open_orders_accs@,
            in_token_index as int,
            out_token_index as int,
            max_deposit,
        ) {
            Ok((g2, a2, outcome)) => r == Ok::<PartialLiquidateOutcome, MangoErrorCode>(outcome)
                && final(mango_group)@ == g2 && final(liqee_margin_account)@ == a2,
            Err(c) => r is Err && r->Err_0 == c,
        },
{
    let (in_quantity, out_quantity) = get_in_out_quantities(
        mango_group,
        liqee_margin_account,
        open_orders_accs,
        prices,
        in_token_index,
        out_token_index,
        max_deposit,
    )?;
    proof {
        crate::valuation::lemma_get_assets_len(
            mango_group@,
            liqee_margin_account@,
            open_orders_accs@,
        );
        crate::valuation::lemma_get_liabs_len(
            mango_group@,
            liqee_margin_account@,
            NUM_TOKENS as int,
        );
    }
    let end_assets = liqee_margin_account.get_assets(mango_group, open_orders_accs)?;
    let end_liabs = liqee_margin_account.get_liabs(mango_group)?;
    let ratio3 = liqee_margin_account.coll_ratio_from_assets_liabs(
        prices,
        &end_assets,
        &end_liabs,
    )?;
    let mut socialized_losses = false;
    if ratio3.bits >= mango_group.init_coll_ratio.bits {
        liqee_margin_account.being_liquidated = false;
    } else {
        let assets_val = liqee_margin_account.get_assets_val(
            mango_group,
            prices,
            open_orders_accs,
        )?;
        if assets_val.bits < crate::state::DUST_THRESHOLD {
            // the account cannot recover: spread the loss over lenders
            let ghost gs2 = mango_group@;
            let ghost as2 = liqee_margin_account@;
            let mut k: usize = 0;
            while k < NUM_TOKENS
                invariant
                    mango_group.wf(),
                    liqee_margin_account.wf(),
                    k <= NUM_TOKENS,
                    spec_socialize_upto(gs2, as2, end_liabs@, k as int) == Ok::<
                        (GroupV, MarginAccountV, bool),
                        MangoErrorCode,
                    >((mango_group@, liqee_margin_account@, socialized_losses)),
                decreases NUM_TOKENS - k,
            {
                let total_deposits_native = match mango_group.total_deposits[k].checked_mul(
                    mango_group.indexes[k].deposit,
                ) {
                    Some(x) => x,
                    None => {
                        proof {
                            lemma_socialize_upto_err(
                                gs2,
                                as2,
                                end_liabs@,
                                k as int,
                                NUM_TOKENS as int,
                                MangoErrorCode::ArithmeticError,
                            );
                        }
                        return Err(MangoErrorCode::ArithmeticError);
                    },
                };
                if end_liabs[k].bits > 0 {
                    match socialize_loss(
                        mango_group,
                        liqee_margin_account,
                        k,
                        end_liabs[k],
                        total_deposits_native,
                    ) {
                        Ok(()) => {
                            socialized_losses = true;
                        },
                        Err(c) => {
                            proof {
                                lemma_socialize_upto_err(
                                    gs2,
                                    as2,
                                    end_liabs@,
                                    k as int,
                                    NUM_TOKENS as int,
                                    c,
                                );
                            }
                            return Err(c);
                        },
                    }
                }
                k = k + 1;
            }
        }
    }
    Ok(
        PartialLiquidateOutcome::Executed {
            in_quantity,
            out_quantity,
            socialized_losses,
        },
    )
}

} // verus!
