use vstd::prelude::*;

use crate::addresses::{Holder, Identity, LockAddress, VaultAddress};
use crate::engine::{
    engine_wf, has_live_lock, has_lock, lemma_lock_record_at_index, lock_at, lock_success_transition,
    locked_sum, record_released, spec_lock_error, spec_lock_record, spec_unlock_error,
    unlock_success_transition, vault_at,
};
use crate::errors::ErrorCode;
use crate::ledger::{spec_balance, spec_transfer_ok, TokenAccount};
use crate::lock::LockRecord;
use crate::vault::Vault;

verus! {

/// A vault's `total_locked` always equals the sum of the amounts of its
/// non-released lock records. This is the engine's invariant: `Engine::new`
/// establishes `engine_wf` and every operation's contract preserves it, so it
/// holds at every observable point.
pub proof fn lemma_total_locked_is_live_sum(vaults: Seq<Vault>, locks: Seq<LockRecord>, i: int)
    requires
        engine_wf(vaults, locks),
        0 <= i < vaults.len(),
    ensures
        vaults[i].total_locked as int == locked_sum(locks, vaults[i].address()),
{
}

/// After a successful lock, the record the engine holds at the derived
/// address is exactly the record the lock created.
proof fn lemma_transition_pins_record(
    pre_locks: Seq<LockRecord>,
    mid_locks: Seq<LockRecord>,
    record: LockRecord,
)
    requires
        forall|i: int, j: int|
            0 <= i < j < mid_locks.len() ==> mid_locks[i].address() != mid_locks[j].address(),
        if has_lock(pre_locks, record.address()) {
            exists|j: int|
                lock_at(pre_locks, record.address(), j) && mid_locks == pre_locks.update(j, record)
        } else {
            mid_locks == pre_locks.push(record)
        },
    ensures
        spec_lock_record(mid_locks, record.address()) == record,
        has_lock(mid_locks, record.address()),
{
    if has_lock(pre_locks, record.address()) {
        let j = choose|j: int|
            lock_at(pre_locks, record.address(), j) && mid_locks == pre_locks.update(j, record);
        assert(lock_at(mid_locks, record.address(), j));
        lemma_lock_record_at_index(mid_locks, record.address(), j);
    } else {
        let j = pre_locks.len() as int;
        assert(lock_at(mid_locks, record.address(), j));
        lemma_lock_record_at_index(mid_locks, record.address(), j);
    }
}

/// A lock followed immediately by an unlock attempt at exactly the unlock
/// timestamp succeeds, and it hands back the full locked amount; one
/// timestamp earlier, the attempt fails with `LockPeriodNotExpired`.
pub proof fn lemma_lock_then_unlock(
    pre_vaults: Seq<Vault>,
    pre_locks: Seq<LockRecord>,
    pre_balances: Seq<TokenAccount>,
    mid_vaults: Seq<Vault>,
    mid_locks: Seq<LockRecord>,
    mid_balances: Seq<TokenAccount>,
    record: LockRecord,
    vault: VaultAddress,
    owner: Identity,
    amount: u64,
    unlock_timestamp: i64,
    current_time: i64,
)
    requires
        engine_wf(pre_vaults, pre_locks),
        engine_wf(mid_vaults, mid_locks),
        spec_lock_error(
            pre_locks,
            pre_balances,
            vault,
            owner,
            amount,
            unlock_timestamp,
            current_time,
        ) is None,
        lock_success_transition(
            pre_vaults,
            pre_locks,
            mid_vaults,
            mid_locks,
            record,
            vault,
            owner,
            amount,
            unlock_timestamp,
            current_time,
        ),
        // the deposit the lock performed, as `lock_tokens` guarantees it
        spec_balance(mid_balances, Holder::VaultEscrow(vault), vault.asset_type) == spec_balance(
            pre_balances,
            Holder::VaultEscrow(vault),
            vault.asset_type,
        ) + amount,
        spec_balance(mid_balances, Holder::User(owner), vault.asset_type) == spec_balance(
            pre_balances,
            Holder::User(owner),
            vault.asset_type,
        ) - amount,
    ensures
        spec_unlock_error(
            mid_locks,
            mid_balances,
            LockAddress { vault, owner },
            owner,
            unlock_timestamp,
        ) is None,
        spec_unlock_error(
            mid_locks,
            mid_balances,
            LockAddress { vault, owner },
            owner,
            (unlock_timestamp - 1) as i64,
        ) == Some(ErrorCode::LockPeriodNotExpired),
        // the full amount comes back: the owner's balance after the unlock's
        // withdrawal is the balance before the lock's deposit
        spec_lock_record(mid_locks, LockAddress { vault, owner }).amount == amount,
        spec_balance(mid_balances, Holder::User(owner), vault.asset_type) + amount == spec_balance(
            pre_balances,
            Holder::User(owner),
            vault.asset_type,
        ),
{
    lemma_transition_pins_record(pre_locks, mid_locks, record);
    assert(record.address() == (LockAddress { vault, owner }));
}

/// Locking an amount of zero always fails with `InvalidAmount`, whatever the
/// timestamps and whatever the rest of the state.
pub proof fn lemma_zero_amount_always_rejected(
    locks: Seq<LockRecord>,
    balances: Seq<TokenAccount>,
    vault: VaultAddress,
    owner: Identity,
    unlock_timestamp: i64,
    current_time: i64,
)
    ensures
        spec_lock_error(locks, balances, vault, owner, 0, unlock_timestamp, current_time) == Some(
            ErrorCode::InvalidAmount,
        ),
{
}

/// Locking with an unlock timestamp at or before the current time fails with
/// `InvalidUnlockTime`, whatever the rest of the state. The one input ranked
/// above it is an amount of zero, which is reported as `InvalidAmount`
/// instead.
pub proof fn lemma_stale_unlock_time_rejected(
    locks: Seq<LockRecord>,
    balances: Seq<TokenAccount>,
    vault: VaultAddress,
    owner: Identity,
    amount: u64,
    unlock_timestamp: i64,
    current_time: i64,
)
    requires
        amount > 0,
        unlock_timestamp <= current_time,
    ensures
        spec_lock_error(locks, balances, vault, owner, amount, unlock_timestamp, current_time)
            == Some(ErrorCode::InvalidUnlockTime),
{
}

/// While an owner's lock under a vault is outstanding, a second lock for the
/// same (vault, owner) — with inputs that pass the amount and time checks —
/// fails with `AlreadyExists`, whatever the balances.
pub proof fn lemma_second_lock_rejected(
    pre_vaults: Seq<Vault>,
    pre_locks: Seq<LockRecord>,
    mid_vaults: Seq<Vault>,
    mid_locks: Seq<LockRecord>,
    record: LockRecord,
    vault: VaultAddress,
    owner: Identity,
    amount: u64,
    unlock_timestamp: i64,
    current_time: i64,
    balances2: Seq<TokenAccount>,
    amount2: u64,
    unlock_timestamp2: i64,
    current_time2: i64,
)
    requires
        lock_success_transition(
            pre_vaults,
            pre_locks,
            mid_vaults,
            mid_locks,
            record,
            vault,
            owner,
            amount,
            unlock_timestamp,
            current_time,
        ),
        amount2 > 0,
        unlock_timestamp2 > current_time2,
    ensures
        spec_lock_error(
            mid_locks,
            balances2,
            vault,
            owner,
            amount2,
            unlock_timestamp2,
            current_time2,
        ) == Some(ErrorCode::AlreadyExists),
{
    let address = LockAddress { vault, owner };
    assert(record.address() == address);
    if has_lock(pre_locks, address) {
        let j = choose|j: int|
            lock_at(pre_locks, address, j) && mid_locks == pre_locks.update(j, record);
        assert(lock_at(mid_locks, address, j) && !mid_locks[j].released);
    } else {
        let j = pre_locks.len() as int;
        assert(lock_at(mid_locks, address, j) && !mid_locks[j].released);
    }
    assert(has_live_lock(mid_locks, address));
}

/// Once the outstanding lock is released, a fresh lock for the same
/// (vault, owner) succeeds again, provided its inputs pass the amount, time,
/// overflow and deposit checks.
pub proof fn lemma_relock_after_release(
    mid_vaults: Seq<Vault>,
    mid_locks: Seq<LockRecord>,
    post_vaults: Seq<Vault>,
    post_locks: Seq<LockRecord>,
    address: LockAddress,
    balances2: Seq<TokenAccount>,
    amount2: u64,
    unlock_timestamp2: i64,
    current_time2: i64,
)
    requires
        engine_wf(mid_vaults, mid_locks),
        has_lock(mid_locks, address),
        unlock_success_transition(mid_vaults, mid_locks, post_vaults, post_locks, address),
        amount2 > 0,
        unlock_timestamp2 > current_time2,
        locked_sum(post_locks, address.vault) + amount2 <= u64::MAX,
        spec_transfer_ok(
            balances2,
            address.vault.asset_type,
            Holder::User(address.owner),
            Holder::VaultEscrow(address.vault),
            Holder::User(address.owner),
            amount2,
        ),
    ensures
        spec_lock_error(
            post_locks,
            balances2,
            address.vault,
            address.owner,
            amount2,
            unlock_timestamp2,
            current_time2,
        ) is None,
{
    let record = spec_lock_record(mid_locks, address);
    let j = choose|j: int|
        lock_at(mid_locks, address, j) && post_locks == mid_locks.update(
            j,
            record_released(record),
        );
    lemma_lock_record_at_index(mid_locks, address, j);
    assert(!has_live_lock(post_locks, address)) by {
        if has_live_lock(post_locks, address) {
            let k = choose|k: int| lock_at(post_locks, address, k) && !post_locks[k].released;
            if k == j {
                assert(post_locks[k].released);
            } else {
                assert(post_locks[k] == mid_locks[k]);
                assert(lock_at(mid_locks, address, k) && lock_at(mid_locks, address, j));
            }
        }
    }
}

/// Release fails idempotently: after a successful unlock, any further unlock
/// attempt on the same record — by any caller, at any time, whatever the
/// balances — fails with `AlreadyUnlocked`, so the amount can never be handed
/// out twice.
pub proof fn lemma_second_unlock_rejected(
    mid_vaults: Seq<Vault>,
    mid_locks: Seq<LockRecord>,
    post_vaults: Seq<Vault>,
    post_locks: Seq<LockRecord>,
    address: LockAddress,
    balances2: Seq<TokenAccount>,
    caller2: Identity,
    current_time2: i64,
)
    requires
        engine_wf(mid_vaults, mid_locks),
        engine_wf(post_vaults, post_locks),
        has_lock(mid_locks, address),
        unlock_success_transition(mid_vaults, mid_locks, post_vaults, post_locks, address),
    ensures
        spec_unlock_error(post_locks, balances2, address, caller2, current_time2) == Some(
            ErrorCode::AlreadyUnlocked,
        ),
{
    let record = spec_lock_record(mid_locks, address);
    let j = choose|j: int|
        lock_at(mid_locks, address, j) && post_locks == mid_locks.update(
            j,
            record_released(record),
        );
    lemma_lock_record_at_index(mid_locks, address, j);
    assert(lock_at(post_locks, address, j));
    lemma_lock_record_at_index(post_locks, address, j);
}

/// A vault whose total already sits at the 64-bit maximum rejects any further
/// lock — with inputs that pass the amount, time and collision checks — with
/// `Overflow`; by `lock_tokens`' contract the failing call leaves the records
/// and every balance unchanged.
pub proof fn lemma_full_vault_overflows(
    vaults: Seq<Vault>,
    locks: Seq<LockRecord>,
    balances: Seq<TokenAccount>,
    i: int,
    vault: VaultAddress,
    owner: Identity,
    amount: u64,
    unlock_timestamp: i64,
    current_time: i64,
)
    requires
        engine_wf(vaults, locks),
        vault_at(vaults, vault, i),
        vaults[i].total_locked == u64::MAX,
        amount > 0,
        unlock_timestamp > current_time,
        !has_live_lock(locks, LockAddress { vault, owner }),
    ensures
        spec_lock_error(locks, balances, vault, owner, amount, unlock_timestamp, current_time)
            == Some(ErrorCode::Overflow),
{
    assert(locked_sum(locks, vault) == u64::MAX);
}

} // verus!
