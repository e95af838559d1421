use vstd::prelude::*;

use crate::addresses::{Identity, LockAddress, VaultAddress};

verus! {

/// One lock record per (vault, owner) pair. Its lifecycle is a two-state
/// machine, locked then released, with no way back: `released` starts false
/// and is set true exactly once.
#[derive(Clone, Copy, Debug, PartialEq, Eq, Structural)]
pub struct LockRecord {
    /// The depositor the escrowed amount belongs to.
    pub owner: Identity,
    /// Address of the vault the amount is escrowed under.
    pub vault: VaultAddress,
    /// The escrowed amount; strictly positive at creation, immutable after.
    pub amount: u64,
    /// Timestamp at which the lock was created.
    pub locked_at: i64,
    /// Timestamp from which release is permitted; strictly greater than
    /// `locked_at`.
    pub unlock_timestamp: i64,
    /// Whether the amount has been handed back to the owner.
    pub released: bool,
}

/// The read-only report produced by [`get_lock_info`].
#[derive(Clone, Copy, Debug, PartialEq, Eq, Structural)]
pub struct LockInfo {
    pub owner: Identity,
    pub amount: u64,
    pub unlock_timestamp: i64,
    pub locked_at: i64,
    pub released: bool,
    /// How long, from the queried time, until release is permitted; zero once
    /// the unlock timestamp has passed.
    pub time_remaining: u64,
    /// Whether a release attempt at the queried time would be permitted.
    pub can_unlock: bool,
}

/// The notification payload announced to observers after a successful lock.
#[derive(Clone, Copy, Debug, PartialEq, Eq, Structural)]
pub struct TokensLocked {
    pub user: Identity,
    pub amount: u64,
    pub unlock_timestamp: i64,
    pub vault: VaultAddress,
}

/// The notification payload announced to observers after a successful
/// release.
#[derive(Clone, Copy, Debug, PartialEq, Eq, Structural)]
pub struct TokensUnlocked {
    pub user: Identity,
    pub amount: u64,
    pub vault: VaultAddress,
}

impl LockRecord {
    /// The derived address this record lives at, reproducible from the vault
    /// address and the owner alone. Because lock creation refuses an occupied
    /// address, one owner can have at most one live lock per vault.
    pub open spec fn address(self) -> LockAddress {
        LockAddress { vault: self.vault, owner: self.owner }
    }

    /// The notification payload for this record's creation.
    pub fn locked_event(&self) -> (r: TokensLocked)
        ensures
            r == (TokensLocked {
                user: self.owner,
                amount: self.amount,
                unlock_timestamp: self.unlock_timestamp,
                vault: self.vault,
            }),
    {
        TokensLocked {
            user: self.owner,
            amount: self.amount,
            unlock_timestamp: self.unlock_timestamp,
            vault: self.vault,
        }
    }

    /// The notification payload for this record's release.
    pub fn unlocked_event(&self) -> (r: TokensUnlocked)
        ensures
            r == (TokensUnlocked { user: self.owner, amount: self.amount, vault: self.vault }),
    {
        TokensUnlocked { user: self.owner, amount: self.amount, vault: self.vault }
    }
}

/// What [`get_lock_info`] reports about `record` when queried at
/// `current_time`.
pub open spec fn spec_lock_info(record: LockRecord, current_time: i64) -> LockInfo {
    LockInfo {
        owner: record.owner,
        amount: record.amount,
        unlock_timestamp: record.unlock_timestamp,
        locked_at: record.locked_at,
        released: record.released,
        time_remaining: if record.unlock_timestamp > current_time {
            (record.unlock_timestamp - current_time) as u64
        } else {
            0
        },
        can_unlock: !record.released && current_time >= record.unlock_timestamp,
    }
}

/// Reports a lock record's fields together with the time remaining until
/// release is permitted — `max(0, unlock_timestamp - current_time)` — and
/// whether a release attempt at `current_time` would be permitted. Read-only;
/// no side effects.
pub fn get_lock_info(record: &LockRecord, current_time: i64) -> (r: LockInfo)
    ensures
        r == spec_lock_info(*record, current_time),
{
    let time_remaining: u64 = if record.unlock_timestamp > current_time {
        let diff: i128 = (record.unlock_timestamp as i128) - (current_time as i128);
        proof {
            assert(0 < diff <= u64::MAX);
        }
        diff as u64
    } else {
        0
    };
    LockInfo {
        owner: record.owner,
        amount: record.amount,
        unlock_timestamp: record.unlock_timestamp,
        locked_at: record.locked_at,
        released: record.released,
        time_remaining,
        can_unlock: !record.released && current_time >= record.unlock_timestamp,
    }
}

} // verus!
