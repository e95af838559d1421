use vstd::prelude::*;

use crate::addresses::{Identity, VaultAddress};
use crate::errors::ErrorCode;

verus! {

/// One escrow vault per asset type. The vault manager exclusively owns the
/// `total_locked` field: the lock engine adjusts it only through
/// [`Vault::increase_locked`] and [`Vault::decrease_locked`].
#[derive(Clone, Copy, Debug, PartialEq, Eq, Structural)]
pub struct Vault {
    /// Identity that created the vault (informational; not consulted when
    /// locking or unlocking).
    pub authority: Identity,
    /// Identifier of the fungible asset this vault escrows.
    pub asset_type: Identity,
    /// The value with which this vault's address was derived; holding it is
    /// what authorizes outbound transfers from the vault's escrow
    /// sub-account.
    pub derivation_seed: u8,
    /// Sum of the amounts of all non-released lock records of this vault.
    pub total_locked: u64,
}

impl Vault {
    /// The derived address this vault lives at, reproducible from its asset
    /// type alone.
    pub open spec fn address(self) -> VaultAddress {
        VaultAddress { asset_type: self.asset_type }
    }

    /// Adds a freshly locked `amount` to the vault's running total.
    ///
    /// Fails with `Overflow`, leaving the vault unchanged, exactly when the
    /// sum would exceed the unsigned 64-bit range.
    pub fn increase_locked(&mut self, amount: u64) -> (r: Result<(), ErrorCode>)
        ensures
            old(self).total_locked + amount <= u64::MAX ==> {
                &&& r is Ok
                &&& final(self).total_locked == old(self).total_locked + amount
            },
            old(self).total_locked + amount > u64::MAX ==> {
                &&& r == Err::<(), ErrorCode>(ErrorCode::Overflow)
                &&& *final(self) == *old(self)
            },
            final(self).authority == old(self).authority,
            final(self).asset_type == old(self).asset_type,
            final(self).derivation_seed == old(self).derivation_seed,
    {
        match self.total_locked.checked_add(amount) {
            Some(total) => {
                self.total_locked = total;
                Ok(())
            },
            None => Err(ErrorCode::Overflow),
        }
    }

    /// Removes a released `amount` from the vault's running total.
    ///
    /// Fails with `Underflow`, leaving the vault unchanged, exactly when
    /// `amount` exceeds the total. Under the engine's invariant that the
    /// total equals the sum of the live locks this can never happen; the
    /// check is defensive.
    pub fn decrease_locked(&mut self, amount: u64) -> (r: Result<(), ErrorCode>)
        ensures
            amount <= old(self).total_locked ==> {
                &&& r is Ok
                &&& final(self).total_locked == old(self).total_locked - amount
            },
            amount > old(self).total_locked ==> {
                &&& r == Err::<(), ErrorCode>(ErrorCode::Underflow)
                &&& *final(self) == *old(self)
            },
            final(self).authority == old(self).authority,
            final(self).asset_type == old(self).asset_type,
            final(self).derivation_seed == old(self).derivation_seed,
    {
        match self.total_locked.checked_sub(amount) {
            Some(total) => {
                self.total_locked = total;
                Ok(())
            },
            None => Err(ErrorCode::Underflow),
        }
    }
}

} // verus!
