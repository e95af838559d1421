use token_lock::addresses::{derive_lock_address, derive_vault_address, Holder};
use token_lock::engine::Engine;
use token_lock::errors::ErrorCode;
use token_lock::ledger::Ledger;
use token_lock::lock::get_lock_info;

const ASSET: u64 = 7;
const AUTHORITY: u64 = 1;
const OWNER: u64 = 2;
const SEED: u8 = 255;

fn setup(owner_funds: u64) -> (Engine, Ledger) {
    let mut engine = Engine::new();
    let mut ledger = Ledger::new();
    engine.initialize_vault(ASSET, AUTHORITY, SEED).unwrap();
    ledger.credit(Holder::User(OWNER), ASSET, owner_funds).unwrap();
    (engine, ledger)
}

/// The full lifecycle: lock 1000 units at t=100 until t=200, query at t=150,
/// fail to unlock early, unlock at exactly t=200, then fail to unlock again.
#[test]
fn full_lifecycle() {
    let (mut engine, mut ledger) = setup(1000);
    let vault = derive_vault_address(ASSET);
    assert_eq!(engine.get_vault(vault).unwrap().total_locked, 0);

    let record = engine
        .lock_tokens(&mut ledger, vault, OWNER, 1000, 200, 100)
        .unwrap();
    assert_eq!(record.owner, OWNER);
    assert_eq!(record.amount, 1000);
    assert_eq!(record.locked_at, 100);
    assert_eq!(record.unlock_timestamp, 200);
    assert!(!record.released);
    assert_eq!(engine.get_vault(vault).unwrap().total_locked, 1000);
    assert_eq!(ledger.balance_of(Holder::User(OWNER), ASSET), 0);
    assert_eq!(ledger.balance_of(Holder::VaultEscrow(vault), ASSET), 1000);

    let address = derive_lock_address(vault, OWNER);
    let stored = engine.get_lock(address).unwrap();
    let info = get_lock_info(&stored, 150);
    assert_eq!(info.time_remaining, 50);
    assert!(!info.can_unlock);
    assert!(!info.released);
    assert_eq!(info.owner, OWNER);
    assert_eq!(info.amount, 1000);
    assert_eq!(info.locked_at, 100);
    assert_eq!(info.unlock_timestamp, 200);

    assert_eq!(
        engine.unlock_tokens(&mut ledger, address, OWNER, 150),
        Err(ErrorCode::LockPeriodNotExpired)
    );
    assert_eq!(engine.unlock_tokens(&mut ledger, address, OWNER, 200), Ok(()));
    assert_eq!(engine.get_vault(vault).unwrap().total_locked, 0);
    assert!(engine.get_lock(address).unwrap().released);
    assert_eq!(ledger.balance_of(Holder::User(OWNER), ASSET), 1000);
    assert_eq!(ledger.balance_of(Holder::VaultEscrow(vault), ASSET), 0);

    assert_eq!(
        engine.unlock_tokens(&mut ledger, address, OWNER, 250),
        Err(ErrorCode::AlreadyUnlocked)
    );
}

/// Unlocking at exactly the unlock timestamp succeeds with the full amount;
/// one timestamp earlier it fails with `LockPeriodNotExpired`.
#[test]
fn unlock_boundary() {
    let (mut engine, mut ledger) = setup(500);
    let vault = derive_vault_address(ASSET);
    engine.lock_tokens(&mut ledger, vault, OWNER, 500, 1000, 10).unwrap();
    let address = derive_lock_address(vault, OWNER);
    assert_eq!(
        engine.unlock_tokens(&mut ledger, address, OWNER, 999),
        Err(ErrorCode::LockPeriodNotExpired)
    );
    assert_eq!(engine.unlock_tokens(&mut ledger, address, OWNER, 1000), Ok(()));
    assert_eq!(ledger.balance_of(Holder::User(OWNER), ASSET), 500);
}

/// A second lock for the same (vault, owner) fails with `AlreadyExists`
/// while the first is outstanding, and succeeds after its release.
#[test]
fn relock_only_after_release() {
    let (mut engine, mut ledger) = setup(300);
    let vault = derive_vault_address(ASSET);
    engine.lock_tokens(&mut ledger, vault, OWNER, 100, 200, 100).unwrap();
    assert_eq!(
        engine.lock_tokens(&mut ledger, vault, OWNER, 100, 300, 100),
        Err(ErrorCode::AlreadyExists)
    );
    let address = derive_lock_address(vault, OWNER);
    engine.unlock_tokens(&mut ledger, address, OWNER, 200).unwrap();
    let second = engine
        .lock_tokens(&mut ledger, vault, OWNER, 250, 400, 210)
        .unwrap();
    assert_eq!(second.amount, 250);
    assert_eq!(second.locked_at, 210);
    assert!(!second.released);
    assert_eq!(engine.get_vault(vault).unwrap().total_locked, 250);
    assert_eq!(ledger.balance_of(Holder::User(OWNER), ASSET), 50);
}

/// A released record never releases twice, even much later and after a new
/// lock for the same owner replaced it.
#[test]
fn double_unlock_never_pays_twice() {
    let (mut engine, mut ledger) = setup(100);
    let vault = derive_vault_address(ASSET);
    engine.lock_tokens(&mut ledger, vault, OWNER, 100, 50, 0).unwrap();
    let address = derive_lock_address(vault, OWNER);
    assert_eq!(engine.unlock_tokens(&mut ledger, address, OWNER, 50), Ok(()));
    assert_eq!(ledger.balance_of(Holder::User(OWNER), ASSET), 100);
    assert_eq!(
        engine.unlock_tokens(&mut ledger, address, OWNER, 60),
        Err(ErrorCode::AlreadyUnlocked)
    );
    assert_eq!(
        engine.unlock_tokens(&mut ledger, address, OWNER, i64::MAX),
        Err(ErrorCode::AlreadyUnlocked)
    );
    assert_eq!(ledger.balance_of(Holder::User(OWNER), ASSET), 100);
}

/// Two owners lock under the same vault; the total tracks the sum of the
/// live locks as each is released.
#[test]
fn two_owners_share_a_vault() {
    let (mut engine, mut ledger) = setup(100);
    let other: u64 = 3;
    ledger.credit(Holder::User(other), ASSET, 40).unwrap();
    let vault = derive_vault_address(ASSET);
    engine.lock_tokens(&mut ledger, vault, OWNER, 100, 200, 100).unwrap();
    engine.lock_tokens(&mut ledger, vault, other, 40, 300, 100).unwrap();
    assert_eq!(engine.get_vault(vault).unwrap().total_locked, 140);
    assert_eq!(ledger.balance_of(Holder::VaultEscrow(vault), ASSET), 140);

    let first = derive_lock_address(vault, OWNER);
    engine.unlock_tokens(&mut ledger, first, OWNER, 200).unwrap();
    assert_eq!(engine.get_vault(vault).unwrap().total_locked, 40);

    let second = derive_lock_address(vault, other);
    engine.unlock_tokens(&mut ledger, second, other, 300).unwrap();
    assert_eq!(engine.get_vault(vault).unwrap().total_locked, 0);
    assert_eq!(ledger.balance_of(Holder::User(OWNER), ASSET), 100);
    assert_eq!(ledger.balance_of(Holder::User(other), ASSET), 40);
}
