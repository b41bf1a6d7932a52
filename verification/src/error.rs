//! Error taxonomy of the ledger engine.
//!
//! Every failing check aborts the whole operation; a caller receives the
//! reason code of the first check that failed.  Arithmetic failures
//! (a checked add, sub, mul or div whose result does not fit) are reported
//! as `ArithmeticError`.

use vstd::prelude::*;

verus! {

#[derive(Clone, Copy, Debug, PartialEq, Eq, Structural)]
pub enum MangoErrorCode {
    BorrowLimitExceeded,
    CollateralRatioLimit,
    InsufficientFunds,
    InvalidMangoGroupSize,
    InvalidGroupOwner,
    InvalidGroupFlags,
    InvalidMarginAccountOwner,
    GroupNotRentExempt,
    InvalidSignerKey,
    InvalidProgramId,
    NotLiquidatable,
    InvalidOpenOrdersAccount,
    SignerNecessary,
    InvalidMangoVault,
    BeingLiquidated,
    FeeDiscountFunctionality,
    Deprecated,
    ArithmeticError,
    Default,
}

/// Which source module raised an error code, for diagnostics.
#[derive(Clone, Copy, Debug, PartialEq, Eq, Structural)]
pub enum SourceFileId {
    Processor,
    State,
}

pub type MangoResult<T> = Result<T, MangoErrorCode>;

/// `Ok` exactly when the condition holds, else the given code.
pub fn check_assert(cond: bool, mango_error_code: MangoErrorCode) -> (r: MangoResult<()>)
    ensures
        r == (if cond {
            Result::<(), MangoErrorCode>::Ok(())
        } else {
            Result::<(), MangoErrorCode>::Err(mango_error_code)
        }),
{
    if cond {
        Ok(())
    } else {
        Err(mango_error_code)
    }
}

/// Splits a packed on-chain assertion error into its line number
/// (low 16 bits) and source-file id (high 8 bits).
pub fn convert_assertion_error(e: u32) -> (r: (u32, u32))
    ensures
        r.0 == e & 0xffffu32,
        r.1 == e >> 24u32,
{
    (e & 0xffffu32, e >> 24u32)
}

} // verus!
