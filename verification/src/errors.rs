use vstd::prelude::*;

verus! {

/// Every way an operation of the vault/lock engine can fail.
///
/// All failures are local validation errors returned to the caller of the
/// violating operation; a failed operation mutates no state.
#[derive(Clone, Copy, Debug, PartialEq, Eq, Structural)]
pub enum ErrorCode {
    /// A lock was requested for an amount of zero.
    InvalidAmount,
    /// The requested unlock timestamp does not lie strictly in the future.
    InvalidUnlockTime,
    /// A vault or lock record already occupies the derived address.
    AlreadyExists,
    /// The lock record was already released.
    AlreadyUnlocked,
    /// The unlock timestamp has not been reached yet.
    LockPeriodNotExpired,
    /// The caller is not the owner of the lock record.
    Unauthorized,
    /// Adding to the vault's running total would exceed the 64-bit range.
    Overflow,
    /// Subtracting from the vault's running total would drop below zero.
    Underflow,
    /// The asset-transfer collaborator rejected the requested movement.
    TransferFailed,
}

} // verus!
