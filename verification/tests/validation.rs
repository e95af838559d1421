use token_lock::addresses::{derive_lock_address, derive_vault_address, Holder};
use token_lock::engine::Engine;
use token_lock::errors::ErrorCode;
use token_lock::ledger::Ledger;

const ASSET: u64 = 11;
const AUTHORITY: u64 = 1;
const OWNER: u64 = 2;

fn setup(owner_funds: u64) -> (Engine, Ledger) {
    let mut engine = Engine::new();
    let mut ledger = Ledger::new();
    engine.initialize_vault(ASSET, AUTHORITY, 254).unwrap();
    ledger.credit(Holder::User(OWNER), ASSET, owner_funds).unwrap();
    (engine, ledger)
}

/// Vault creation is first-writer-wins: a second vault for the same asset
/// type is refused, whoever asks.
#[test]
fn vault_creation_is_exclusive() {
    let mut engine = Engine::new();
    let vault = engine.initialize_vault(ASSET, AUTHORITY, 254).unwrap();
    assert_eq!(vault, derive_vault_address(ASSET));
    assert_eq!(
        engine.initialize_vault(ASSET, AUTHORITY, 254),
        Err(ErrorCode::AlreadyExists)
    );
    assert_eq!(
        engine.initialize_vault(ASSET, 99, 7),
        Err(ErrorCode::AlreadyExists)
    );
    // a different asset type still gets its own vault
    assert!(engine.initialize_vault(ASSET + 1, AUTHORITY, 3).is_ok());
}

/// Locking an amount of zero fails with `InvalidAmount` whatever the
/// timestamps, even ones that would themselves be rejected.
#[test]
fn zero_amount_rejected() {
    let (mut engine, mut ledger) = setup(1000);
    let vault = derive_vault_address(ASSET);
    assert_eq!(
        engine.lock_tokens(&mut ledger, vault, OWNER, 0, 200, 100),
        Err(ErrorCode::InvalidAmount)
    );
    assert_eq!(
        engine.lock_tokens(&mut ledger, vault, OWNER, 0, 100, 200),
        Err(ErrorCode::InvalidAmount)
    );
    assert_eq!(
        engine.lock_tokens(&mut ledger, vault, OWNER, 0, i64::MIN, i64::MAX),
        Err(ErrorCode::InvalidAmount)
    );
    assert_eq!(engine.get_vault(vault).unwrap().total_locked, 0);
}

/// Locking with an unlock timestamp at or before the current time fails with
/// `InvalidUnlockTime`.
#[test]
fn stale_unlock_time_rejected() {
    let (mut engine, mut ledger) = setup(1000);
    let vault = derive_vault_address(ASSET);
    assert_eq!(
        engine.lock_tokens(&mut ledger, vault, OWNER, 10, 100, 100),
        Err(ErrorCode::InvalidUnlockTime)
    );
    assert_eq!(
        engine.lock_tokens(&mut ledger, vault, OWNER, 10, 99, 100),
        Err(ErrorCode::InvalidUnlockTime)
    );
    assert_eq!(
        engine.lock_tokens(&mut ledger, vault, OWNER, 10, i64::MIN, i64::MIN),
        Err(ErrorCode::InvalidUnlockTime)
    );
    assert_eq!(engine.get_vault(vault).unwrap().total_locked, 0);
    assert_eq!(ledger.balance_of(Holder::User(OWNER), ASSET), 1000);
}

/// Only the record's owner may release it.
#[test]
fn unlock_by_stranger_rejected() {
    let (mut engine, mut ledger) = setup(100);
    let vault = derive_vault_address(ASSET);
    engine.lock_tokens(&mut ledger, vault, OWNER, 100, 200, 100).unwrap();
    let address = derive_lock_address(vault, OWNER);
    let stranger: u64 = 9;
    assert_eq!(
        engine.unlock_tokens(&mut ledger, address, stranger, 300),
        Err(ErrorCode::Unauthorized)
    );
    // the record is untouched and the owner can still release it
    assert!(!engine.get_lock(address).unwrap().released);
    assert_eq!(engine.unlock_tokens(&mut ledger, address, OWNER, 300), Ok(()));
}

/// A deposit the owner cannot cover fails with `TransferFailed` and changes
/// nothing.
#[test]
fn underfunded_lock_rejected() {
    let (mut engine, mut ledger) = setup(99);
    let vault = derive_vault_address(ASSET);
    assert_eq!(
        engine.lock_tokens(&mut ledger, vault, OWNER, 100, 200, 100),
        Err(ErrorCode::TransferFailed)
    );
    assert_eq!(engine.get_vault(vault).unwrap().total_locked, 0);
    assert_eq!(ledger.balance_of(Holder::User(OWNER), ASSET), 99);
    assert!(engine.get_lock(derive_lock_address(vault, OWNER)).is_none());
}

/// A vault whose total sits at the 64-bit maximum rejects any further lock
/// with `Overflow`, leaving the total and all balances unchanged.
#[test]
fn full_vault_overflows() {
    let (mut engine, mut ledger) = setup(u64::MAX);
    let vault = derive_vault_address(ASSET);
    engine
        .lock_tokens(&mut ledger, vault, OWNER, u64::MAX, 200, 100)
        .unwrap();
    assert_eq!(engine.get_vault(vault).unwrap().total_locked, u64::MAX);

    let other: u64 = 3;
    ledger.credit(Holder::User(other), ASSET, 50).unwrap();
    assert_eq!(
        engine.lock_tokens(&mut ledger, vault, other, 1, 200, 100),
        Err(ErrorCode::Overflow)
    );
    assert_eq!(
        engine.lock_tokens(&mut ledger, vault, other, 50, 300, 100),
        Err(ErrorCode::Overflow)
    );
    assert_eq!(engine.get_vault(vault).unwrap().total_locked, u64::MAX);
    assert_eq!(ledger.balance_of(Holder::User(other), ASSET), 50);
    assert_eq!(ledger.balance_of(Holder::VaultEscrow(vault), ASSET), u64::MAX);
}

/// The amount check outranks the time check; the collision check outranks the
/// overflow and transfer checks.
#[test]
fn error_precedence() {
    let (mut engine, mut ledger) = setup(100);
    let vault = derive_vault_address(ASSET);
    // zero amount and stale time together: the amount is reported
    assert_eq!(
        engine.lock_tokens(&mut ledger, vault, OWNER, 0, 50, 100),
        Err(ErrorCode::InvalidAmount)
    );
    // an outstanding lock outranks an underfunded deposit
    engine.lock_tokens(&mut ledger, vault, OWNER, 100, 200, 100).unwrap();
    assert_eq!(
        engine.lock_tokens(&mut ledger, vault, OWNER, u64::MAX, 300, 100),
        Err(ErrorCode::AlreadyExists)
    );
    // a released record is reported before a premature attempt
    let address = derive_lock_address(vault, OWNER);
    engine.unlock_tokens(&mut ledger, address, OWNER, 200).unwrap();
    assert_eq!(
        engine.unlock_tokens(&mut ledger, address, OWNER, 100),
        Err(ErrorCode::AlreadyUnlocked)
    );
}
