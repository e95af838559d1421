use token_lock::addresses::{derive_lock_address, derive_vault_address, Holder, VaultAddress};
use token_lock::errors::ErrorCode;
use token_lock::ledger::Ledger;
use token_lock::lock::{get_lock_info, LockRecord};
use token_lock::vault::Vault;

/// Address derivation is deterministic and collision-free across distinct
/// inputs.
#[test]
fn address_derivation() {
    assert_eq!(derive_vault_address(5), derive_vault_address(5));
    assert_ne!(derive_vault_address(5), derive_vault_address(6));
    let v5 = derive_vault_address(5);
    let v6 = derive_vault_address(6);
    assert_eq!(derive_lock_address(v5, 1), derive_lock_address(v5, 1));
    assert_ne!(derive_lock_address(v5, 1), derive_lock_address(v5, 2));
    assert_ne!(derive_lock_address(v5, 1), derive_lock_address(v6, 1));
}

/// The vault manager's total grows and shrinks by exactly the given amount,
/// and reports `Overflow` / `Underflow` at the 64-bit bounds without moving.
#[test]
fn vault_manager_totals() {
    let mut vault = Vault { authority: 1, asset_type: 5, derivation_seed: 250, total_locked: 0 };
    assert_eq!(vault.increase_locked(300), Ok(()));
    assert_eq!(vault.total_locked, 300);
    assert_eq!(vault.increase_locked(u64::MAX - 299), Err(ErrorCode::Overflow));
    assert_eq!(vault.total_locked, 300);
    assert_eq!(vault.increase_locked(u64::MAX - 300), Ok(()));
    assert_eq!(vault.total_locked, u64::MAX);
    assert_eq!(vault.decrease_locked(u64::MAX), Ok(()));
    assert_eq!(vault.total_locked, 0);
    assert_eq!(vault.decrease_locked(1), Err(ErrorCode::Underflow));
    assert_eq!(vault.total_locked, 0);
    assert_eq!(vault.authority, 1);
    assert_eq!(vault.asset_type, 5);
    assert_eq!(vault.derivation_seed, 250);
}

/// Balances start at zero, accumulate credits per (holder, asset) key, and
/// refuse a credit that would overflow.
#[test]
fn ledger_credits() {
    let mut ledger = Ledger::new();
    let user = Holder::User(8);
    assert_eq!(ledger.balance_of(user, 3), 0);
    assert_eq!(ledger.credit(user, 3, 40), Ok(()));
    assert_eq!(ledger.credit(user, 3, 2), Ok(()));
    assert_eq!(ledger.balance_of(user, 3), 42);
    // distinct keys do not mingle
    assert_eq!(ledger.balance_of(user, 4), 0);
    assert_eq!(ledger.balance_of(Holder::User(9), 3), 0);
    assert_eq!(
        ledger.balance_of(Holder::VaultEscrow(VaultAddress { asset_type: 3 }), 3),
        0
    );
    assert_eq!(ledger.credit(user, 3, u64::MAX), Err(ErrorCode::Overflow));
    assert_eq!(ledger.balance_of(user, 3), 42);
}

fn sample_record(unlock_timestamp: i64, released: bool) -> LockRecord {
    LockRecord {
        owner: 2,
        vault: derive_vault_address(5),
        amount: 1000,
        locked_at: 100,
        unlock_timestamp,
        released,
    }
}

/// The query reports the record's fields, the clamped time remaining, and
/// whether a release attempt would be permitted.
#[test]
fn lock_info_fields() {
    let info = get_lock_info(&sample_record(200, false), 150);
    assert_eq!(info.owner, 2);
    assert_eq!(info.amount, 1000);
    assert_eq!(info.locked_at, 100);
    assert_eq!(info.unlock_timestamp, 200);
    assert!(!info.released);
    assert_eq!(info.time_remaining, 50);
    assert!(!info.can_unlock);

    let due = get_lock_info(&sample_record(200, false), 200);
    assert_eq!(due.time_remaining, 0);
    assert!(due.can_unlock);

    let past = get_lock_info(&sample_record(200, false), 1000);
    assert_eq!(past.time_remaining, 0);
    assert!(past.can_unlock);

    let released = get_lock_info(&sample_record(200, true), 300);
    assert!(released.released);
    assert!(!released.can_unlock);
    assert_eq!(released.time_remaining, 0);
}

/// The time remaining never overflows, even across the full signed range.
#[test]
fn lock_info_extreme_times() {
    let info = get_lock_info(&sample_record(i64::MAX, false), i64::MIN);
    assert_eq!(info.time_remaining, u64::MAX);
    assert!(!info.can_unlock);
    let info = get_lock_info(&sample_record(0, false), i64::MIN);
    assert_eq!(info.time_remaining, i64::MAX as u64 + 1);
}

/// The notification payloads carry the record's public fields.
#[test]
fn notification_payloads() {
    let record = sample_record(200, false);
    let locked = record.locked_event();
    assert_eq!(locked.user, 2);
    assert_eq!(locked.amount, 1000);
    assert_eq!(locked.unlock_timestamp, 200);
    assert_eq!(locked.vault, derive_vault_address(5));
    let unlocked = record.unlocked_event();
    assert_eq!(unlocked.user, 2);
    assert_eq!(unlocked.amount, 1000);
    assert_eq!(unlocked.vault, derive_vault_address(5));
}
