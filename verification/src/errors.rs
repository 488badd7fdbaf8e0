use vstd::prelude::*;

verus! {

/// Failures of the pool engine and its instruction adapters.
///
/// Every failure is terminal for the enclosing instruction: the caller must
/// discard the in-memory pool record rather than persist a partial update.
/// The engine itself never mutates state on an error path.
#[derive(Clone, Copy, Debug, PartialEq, Eq, Structural)]
pub enum DexProgramError {
    /// A transfer or a swap asks for more than the pool can pay out.
    InsufficientFunds,
    /// The two supplied asset identities are equal.
    DuplicateTokenNotAllowed,
    /// The computed share allocation for a deposit is zero.
    FailedToAddLiquidity,
    /// A checked arithmetic step on shares or reserves would wrap, or a
    /// divisor is zero.
    OverflowOrUnderflowOccurred,
}

} // verus!
