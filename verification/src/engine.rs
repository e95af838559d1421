use vstd::prelude::*;

use crate::addresses::{derive_lock_address, derive_vault_address, Holder, Identity, LockAddress, VaultAddress};
use crate::errors::ErrorCode;
use crate::ledger::{spec_transfer_ok, Ledger, TokenAccount};
use crate::lock::LockRecord;
use crate::vault::Vault;

verus! {

// ---------------------------------------------------------------------------
// Lookups over the stored records
// ---------------------------------------------------------------------------
/// Whether index `i` of `vaults` holds the vault living at `address`.
pub open spec fn vault_at(vaults: Seq<Vault>, address: VaultAddress, i: int) -> bool {
    0 <= i < vaults.len() && vaults[i].address() == address
}

/// Whether some vault lives at `address`.
pub open spec fn has_vault(vaults: Seq<Vault>, address: VaultAddress) -> bool {
    exists|i: int| vault_at(vaults, address, i)
}

/// Whether index `i` of `locks` holds the lock record living at `address`.
pub open spec fn lock_at(locks: Seq<LockRecord>, address: LockAddress, i: int) -> bool {
    0 <= i < locks.len() && locks[i].address() == address
}

/// Whether some lock record lives at `address`.
pub open spec fn has_lock(locks: Seq<LockRecord>, address: LockAddress) -> bool {
    exists|i: int| lock_at(locks, address, i)
}

/// Whether a lock record lives at `address` whose amount is still escrowed.
pub open spec fn has_live_lock(locks: Seq<LockRecord>, address: LockAddress) -> bool {
    exists|i: int| lock_at(locks, address, i) && !locks[i].released
}

/// The lock record living at `address`; meaningful only under
/// [`has_lock`], and pinned to the stored record by
/// [`lemma_lock_record_at_index`] once addresses are unique.
pub open spec fn spec_lock_record(locks: Seq<LockRecord>, address: LockAddress) -> LockRecord
    decreases locks.len(),
{
    if locks.len() == 0 {
        LockRecord {
            owner: address.owner,
            vault: address.vault,
            amount: 0,
            locked_at: 0,
            unlock_timestamp: 0,
            released: false,
        }
    } else if locks.last().address() == address {
        locks.last()
    } else {
        spec_lock_record(locks.drop_last(), address)
    }
}

// ---------------------------------------------------------------------------
// The aggregate the vault totals are held to
// ---------------------------------------------------------------------------
/// What `record` contributes to the escrowed total of the vault at `address`:
/// its amount while it is live there, nothing otherwise.
pub open spec fn lock_contribution(record: LockRecord, address: VaultAddress) -> int {
    if record.vault == address && !record.released {
        record.amount as int
    } else {
        0
    }
}

/// The sum of the amounts of all non-released lock records of the vault at
/// `address`.
pub open spec fn locked_sum(locks: Seq<LockRecord>, address: VaultAddress) -> int
    decreases locks.len(),
{
    if locks.len() == 0 {
        0
    } else {
        locked_sum(locks.drop_last(), address) + lock_contribution(locks.last(), address)
    }
}

// ---------------------------------------------------------------------------
// Well-formedness: the engine's invariant
// ---------------------------------------------------------------------------
/// At most one vault per asset type, hence per derived address.
pub open spec fn vaults_unique(vaults: Seq<Vault>) -> bool {
    forall|i: int, j: int|
        0 <= i < j < vaults.len() ==> vaults[i].asset_type != vaults[j].asset_type
}

/// At most one lock record per derived address, hence per (vault, owner).
pub open spec fn locks_unique(locks: Seq<LockRecord>) -> bool {
    forall|i: int, j: int| 0 <= i < j < locks.len() ==> locks[i].address() != locks[j].address()
}

/// Every lock record was created with a positive amount and an unlock
/// timestamp strictly after its creation time.
pub open spec fn locks_well_formed(locks: Seq<LockRecord>) -> bool {
    forall|i: int|
        0 <= i < locks.len() ==> locks[i].amount > 0 && locks[i].unlock_timestamp
            > locks[i].locked_at
}

/// Every lock record belongs to a vault that exists.
pub open spec fn locks_have_vaults(vaults: Seq<Vault>, locks: Seq<LockRecord>) -> bool {
    forall|i: int| 0 <= i < locks.len() ==> has_vault(vaults, #[trigger] locks[i].vault)
}

/// Each vault's `total_locked` equals the sum of the amounts of its
/// non-released lock records.
pub open spec fn totals_match(vaults: Seq<Vault>, locks: Seq<LockRecord>) -> bool {
    forall|i: int|
        0 <= i < vaults.len() ==> #[trigger] vaults[i].total_locked as int == locked_sum(
            locks,
            vaults[i].address(),
        )
}

/// The engine's invariant, established at creation and preserved by every
/// operation.
pub open spec fn engine_wf(vaults: Seq<Vault>, locks: Seq<LockRecord>) -> bool {
    &&& vaults_unique(vaults)
    &&& locks_unique(locks)
    &&& locks_well_formed(locks)
    &&& locks_have_vaults(vaults, locks)
    &&& totals_match(vaults, locks)
}

// ---------------------------------------------------------------------------
// Outcomes: which error each operation returns, on exactly which inputs
// ---------------------------------------------------------------------------
/// The error `lock_tokens` returns, or `None` when it succeeds, as a function
/// of the state it starts from. The checks are ranked: a zero amount is
/// reported before a stale unlock time, both before an address collision,
/// that before an overflowing total, and the deposit transfer is attempted
/// only once everything else holds.
pub open spec fn spec_lock_error(
    locks: Seq<LockRecord>,
    balances: Seq<TokenAccount>,
    vault: VaultAddress,
    owner: Identity,
    amount: u64,
    unlock_timestamp: i64,
    current_time: i64,
) -> Option<ErrorCode> {
    if amount == 0 {
        Some(ErrorCode::InvalidAmount)
    } else if unlock_timestamp <= current_time {
        Some(ErrorCode::InvalidUnlockTime)
    } else if has_live_lock(locks, LockAddress { vault, owner }) {
        Some(ErrorCode::AlreadyExists)
    } else if locked_sum(locks, vault) + amount > u64::MAX {
        Some(ErrorCode::Overflow)
    } else if !spec_transfer_ok(
        balances,
        vault.asset_type,
        Holder::User(owner),
        Holder::VaultEscrow(vault),
        Holder::User(owner),
        amount,
    ) {
        Some(ErrorCode::TransferFailed)
    } else {
        None
    }
}

/// The error `unlock_tokens` returns, or `None` when it succeeds, as a
/// function of the state it starts from; meaningful when a record lives at
/// `address`. An already-released record is reported before a premature
/// attempt, both before a caller that is not the owner, and the withdrawal
/// transfer is attempted only once everything else holds.
pub open spec fn spec_unlock_error(
    locks: Seq<LockRecord>,
    balances: Seq<TokenAccount>,
    address: LockAddress,
    caller: Identity,
    current_time: i64,
) -> Option<ErrorCode> {
    let record = spec_lock_record(locks, address);
    if record.released {
        Some(ErrorCode::AlreadyUnlocked)
    } else if current_time < record.unlock_timestamp {
        Some(ErrorCode::LockPeriodNotExpired)
    } else if caller != record.owner {
        Some(ErrorCode::Unauthorized)
    } else if !spec_transfer_ok(
        balances,
        record.vault.asset_type,
        Holder::VaultEscrow(record.vault),
        Holder::User(record.owner),
        Holder::VaultEscrow(record.vault),
        record.amount,
    ) {
        Some(ErrorCode::TransferFailed)
    } else {
        None
    }
}

// ---------------------------------------------------------------------------
// Transitions: what a successful operation does to the stored records
// ---------------------------------------------------------------------------
/// `vault` with `amount` freshly added to its running total.
pub open spec fn vault_with_added(vault: Vault, amount: u64) -> Vault {
    Vault { total_locked: (vault.total_locked + amount) as u64, ..vault }
}

/// `vault` with `amount` removed from its running total.
pub open spec fn vault_with_removed(vault: Vault, amount: u64) -> Vault {
    Vault { total_locked: (vault.total_locked - amount) as u64, ..vault }
}

/// `record` after its single permitted transition to the released state.
pub open spec fn record_released(record: LockRecord) -> LockRecord {
    LockRecord { released: true, ..record }
}

/// How a successful `lock_tokens` call relates the records it ends with to
/// the records it started from: the new record carries the given fields and
/// was created at `current_time`; it either takes a fresh address or replaces
/// the released record that sat at its address; the vault's total grows by
/// `amount`; nothing else changes.
pub open spec fn lock_success_transition(
    pre_vaults: Seq<Vault>,
    pre_locks: Seq<LockRecord>,
    post_vaults: Seq<Vault>,
    post_locks: Seq<LockRecord>,
    record: LockRecord,
    vault: VaultAddress,
    owner: Identity,
    amount: u64,
    unlock_timestamp: i64,
    current_time: i64,
) -> bool {
    &&& record == (LockRecord {
        owner,
        vault,
        amount,
        locked_at: current_time,
        unlock_timestamp,
        released: false,
    })
    &&& exists|i: int|
        vault_at(pre_vaults, vault, i) && post_vaults == pre_vaults.update(
            i,
            vault_with_added(pre_vaults[i], amount),
        )
    &&& if has_lock(pre_locks, record.address()) {
        exists|j: int|
            lock_at(pre_locks, record.address(), j) && post_locks == pre_locks.update(j, record)
    } else {
        post_locks == pre_locks.push(record)
    }
}

/// How a successful `unlock_tokens` call relates the records it ends with to
/// the records it started from: the record at `address` is marked released,
/// its vault's total shrinks by the record's amount, and nothing else
/// changes.
pub open spec fn unlock_success_transition(
    pre_vaults: Seq<Vault>,
    pre_locks: Seq<LockRecord>,
    post_vaults: Seq<Vault>,
    post_locks: Seq<LockRecord>,
    address: LockAddress,
) -> bool {
    let record = spec_lock_record(pre_locks, address);
    &&& exists|j: int|
        lock_at(pre_locks, address, j) && post_locks == pre_locks.update(
            j,
            record_released(record),
        )
    &&& exists|i: int|
        vault_at(pre_vaults, record.vault, i) && post_vaults == pre_vaults.update(
            i,
            vault_with_removed(pre_vaults[i], record.amount),
        )
}

// ---------------------------------------------------------------------------
// Lemmas about the stored records and the aggregate
// ---------------------------------------------------------------------------
/// If entry `i` carries `address` and addresses are unique, the record the
/// engine associates with `address` is entry `i`.
pub proof fn lemma_lock_record_at_index(locks: Seq<LockRecord>, address: LockAddress, i: int)
    requires
        locks_unique(locks),
        lock_at(locks, address, i),
    ensures
        spec_lock_record(locks, address) == locks[i],
    decreases locks.len(),
{
    if i == locks.len() - 1 {
    } else {
        assert(locks.last().address() != address);
        assert(locks.drop_last()[i] == locks[i]);
        lemma_lock_record_at_index(locks.drop_last(), address, i);
    }
}

/// A vault's escrowed sum is never negative.
pub proof fn lemma_locked_sum_nonneg(locks: Seq<LockRecord>, address: VaultAddress)
    ensures
        locked_sum(locks, address) >= 0,
    decreases locks.len(),
{
    if locks.len() > 0 {
        lemma_locked_sum_nonneg(locks.drop_last(), address);
    }
}

/// Appending a record adds exactly its contribution to each vault's sum.
pub proof fn lemma_locked_sum_push(
    locks: Seq<LockRecord>,
    record: LockRecord,
    address: VaultAddress,
)
    ensures
        locked_sum(locks.push(record), address) == locked_sum(locks, address)
            + lock_contribution(record, address),
{
    assert(locks.push(record).drop_last() =~= locks);
}

/// Replacing the record at `i` swaps its old contribution for the new one in
/// each vault's sum.
pub proof fn lemma_locked_sum_update(
    locks: Seq<LockRecord>,
    i: int,
    record: LockRecord,
    address: VaultAddress,
)
    requires
        0 <= i < locks.len(),
    ensures
        locked_sum(locks.update(i, record), address) == locked_sum(locks, address)
            - lock_contribution(locks[i], address) + lock_contribution(record, address),
    decreases locks.len(),
{
    let updated = locks.update(i, record);
    if i == locks.len() - 1 {
        assert(updated.drop_last() =~= locks.drop_last());
        assert(updated.last() == record);
    } else {
        assert(updated.drop_last() =~= locks.drop_last().update(i, record));
        assert(updated.last() == locks.last());
        lemma_locked_sum_update(locks.drop_last(), i, record, address);
    }
}

/// A live record's amount never exceeds its vault's escrowed sum.
pub proof fn lemma_locked_sum_lower_bound(locks: Seq<LockRecord>, i: int, address: VaultAddress)
    requires
        0 <= i < locks.len(),
        locks[i].vault == address,
        !locks[i].released,
    ensures
        locked_sum(locks, address) >= locks[i].amount,
    decreases locks.len(),
{
    if i == locks.len() - 1 {
        lemma_locked_sum_nonneg(locks.drop_last(), address);
    } else {
        assert(locks.drop_last()[i] == locks[i]);
        lemma_locked_sum_lower_bound(locks.drop_last(), i, address);
        assert(lock_contribution(locks.last(), address) >= 0);
    }
}

/// A vault no record points at has an escrowed sum of zero.
pub proof fn lemma_locked_sum_no_locks(locks: Seq<LockRecord>, address: VaultAddress)
    requires
        forall|k: int| 0 <= k < locks.len() ==> (#[trigger] locks[k].vault) != address,
    ensures
        locked_sum(locks, address) == 0,
    decreases locks.len(),
{
    if locks.len() > 0 {
        assert(forall|k: int|
            0 <= k < locks.drop_last().len() ==> locks.drop_last()[k] == locks[k]);
        lemma_locked_sum_no_locks(locks.drop_last(), address);
    }
}

// ---------------------------------------------------------------------------
// The engine
// ---------------------------------------------------------------------------
/// The vault manager and lock engine: owns every vault record and every lock
/// record, maintains the invariant tying each vault's total to its live
/// locks, and drives the asset transfer at each lifecycle transition.
pub struct Engine {
    vaults: Vec<Vault>,
    locks: Vec<LockRecord>,
}

impl Engine {
    /// The stored vault records, in creation order.
    pub closed spec fn vaults_view(self) -> Seq<Vault> {
        self.vaults@
    }

    /// The stored lock records, in creation order.
    pub closed spec fn locks_view(self) -> Seq<LockRecord> {
        self.locks@
    }

    /// The engine's invariant; see [`engine_wf`].
    pub open spec fn wf(self) -> bool {
        engine_wf(self.vaults_view(), self.locks_view())
    }

    /// An engine with no vaults and no locks.
    pub fn new() -> (r: Engine)
        ensures
            r.wf(),
            r.vaults_view().len() == 0,
            r.locks_view().len() == 0,
    {
        Engine { vaults: Vec::new(), locks: Vec::new() }
    }

    /// Index of the vault living at `address`, if one exists.
    fn find_vault(&self, address: VaultAddress) -> (r: Option<usize>)
        ensures
            match r {
                Some(i) => vault_at(self.vaults_view(), address, i as int),
                None => !has_vault(self.vaults_view(), address),
            },
    {
        let mut i: usize = 0;
        while i < self.vaults.len()
            invariant
                i <= self.vaults_view().len(),
                forall|k: int| 0 <= k < i ==> !vault_at(self.vaults_view(), address, k),
            decreases self.vaults_view().len() - i,
        {
            if self.vaults[i].asset_type == address.asset_type {
                return Some(i);
            }
            i += 1;
        }
        None
    }

    /// Index of the lock record living at `address`, if one exists.
    fn find_lock(&self, address: LockAddress) -> (r: Option<usize>)
        ensures
            match r {
                Some(i) => lock_at(self.locks_view(), address, i as int),
                None => !has_lock(self.locks_view(), address),
            },
    {
        let mut i: usize = 0;
        while i < self.locks.len()
            invariant
                i <= self.locks_view().len(),
                forall|k: int| 0 <= k < i ==> !lock_at(self.locks_view(), address, k),
            decreases self.locks_view().len() - i,
        {
            if self.locks[i].owner == address.owner && self.locks[i].vault == address.vault {
                return Some(i);
            }
            i += 1;
        }
        None
    }

    /// Creates the vault for `asset_type` at its derived address, with an
    /// empty custodial escrow balance and a running total of zero.
    ///
    /// Fails with `AlreadyExists`, changing nothing, exactly when a vault for
    /// that asset type already exists: creation is first-writer-wins, never
    /// idempotent.
    pub fn initialize_vault(
        &mut self,
        asset_type: Identity,
        authority: Identity,
        derivation_seed: u8,
    ) -> (r: Result<VaultAddress, ErrorCode>)
        requires
            old(self).wf(),
        ensures
            final(self).wf(),
            r is Ok <==> !has_vault(old(self).vaults_view(), VaultAddress { asset_type }),
            r is Err ==> r == Err::<VaultAddress, ErrorCode>(ErrorCode::AlreadyExists)
                && final(self).vaults_view() == old(self).vaults_view(),
            r is Ok ==> r == Ok::<VaultAddress, ErrorCode>(VaultAddress { asset_type })
                && final(self).vaults_view() == old(self).vaults_view().push(
                Vault { authority, asset_type, derivation_seed, total_locked: 0 },
            ),
            final(self).locks_view() == old(self).locks_view(),
    {
        let address = derive_vault_address(asset_type);
        if self.find_vault(address).is_some() {
            return Err(ErrorCode::AlreadyExists);
        }
        let vault = Vault { authority, asset_type, derivation_seed, total_locked: 0 };
        let ghost pre_vaults = self.vaults_view();
        let ghost locks = self.locks_view();
        self.vaults.push(vault);
        proof {
            let post_vaults = self.vaults_view();
            assert forall|i: int, j: int| 0 <= i < j < post_vaults.len() implies post_vaults[i].asset_type
                != post_vaults[j].asset_type by {
                if j < pre_vaults.len() {
                } else {
                    assert(post_vaults[j] == vault);
                    assert(!vault_at(pre_vaults, address, i));
                }
            }
            assert forall|i: int| 0 <= i < locks.len() implies has_vault(
                post_vaults,
                #[trigger] locks[i].vault,
            ) by {
                let w = choose|w: int| vault_at(pre_vaults, locks[i].vault, w);
                assert(vault_at(post_vaults, locks[i].vault, w));
            }
            assert forall|i: int| 0 <= i < post_vaults.len() implies #[trigger] post_vaults[i].total_locked as int
                == locked_sum(locks, post_vaults[i].address()) by {
                if i < pre_vaults.len() {
                    assert(post_vaults[i] == pre_vaults[i]);
                } else {
                    assert(post_vaults[i] == vault);
                    assert forall|k: int| 0 <= k < locks.len() implies (#[trigger] locks[k].vault)
                        != vault.address() by {
                        assert(has_vault(pre_vaults, locks[k].vault));
                        assert(!has_vault(pre_vaults, address));
                    }
                    lemma_locked_sum_no_locks(locks, vault.address());
                }
            }
        }
        Ok(address)
    }

    /// Locks `amount` of the vault's asset for `owner` until
    /// `unlock_timestamp`: moves the amount from the owner's balance into the
    /// vault's custodial escrow, creates the lock record at its derived
    /// address with `locked_at = current_time`, and grows the vault's running
    /// total — all or nothing.
    ///
    /// Which error is returned on which inputs, and that a failure changes
    /// nothing, is pinned by [`spec_lock_error`]; the successful new state by
    /// [`lock_success_transition`].
    pub fn lock_tokens(
        &mut self,
        ledger: &mut Ledger,
        vault: VaultAddress,
        owner: Identity,
        amount: u64,
        unlock_timestamp: i64,
        current_time: i64,
    ) -> (r: Result<LockRecord, ErrorCode>)
        requires
            old(self).wf(),
            old(ledger).wf(),
            has_vault(old(self).vaults_view(), vault),
        ensures
            final(self).wf(),
            final(ledger).wf(),
            r matches Err(e) ==> spec_lock_error(
                old(self).locks_view(),
                old(ledger)@,
                vault,
                owner,
                amount,
                unlock_timestamp,
                current_time,
            ) == Some(e) && final(self).vaults_view() == old(self).vaults_view()
                && final(self).locks_view() == old(self).locks_view()
                && final(ledger)@ == old(ledger)@,
            r matches Ok(record) ==> spec_lock_error(
                old(self).locks_view(),
                old(ledger)@,
                vault,
                owner,
                amount,
                unlock_timestamp,
                current_time,
            ) is None && lock_success_transition(
                old(self).vaults_view(),
                old(self).locks_view(),
                final(self).vaults_view(),
                final(self).locks_view(),
                record,
                vault,
                owner,
                amount,
                unlock_timestamp,
                current_time,
            ),
            r is Ok ==> final(ledger).balance(Holder::User(owner), vault.asset_type)
                == old(ledger).balance(Holder::User(owner), vault.asset_type) - amount,
            r is Ok ==> final(ledger).balance(Holder::VaultEscrow(vault), vault.asset_type)
                == old(ledger).balance(Holder::VaultEscrow(vault), vault.asset_type) + amount,
            forall|h: Holder, a: Identity|
                !(h == Holder::User(owner) && a == vault.asset_type) && !(h
                    == Holder::VaultEscrow(vault) && a == vault.asset_type)
                    ==> final(ledger).balance(h, a) == old(ledger).balance(h, a),
    {
        if amount == 0 {
            return Err(ErrorCode::InvalidAmount);
        }
        if unlock_timestamp <= current_time {
            return Err(ErrorCode::InvalidUnlockTime);
        }
        let lock_address = derive_lock_address(vault, owner);
        let existing = self.find_lock(lock_address);
        if let Some(j) = existing {
            if !self.locks[j].released {
                proof {
                    assert(has_live_lock(self.locks_view(), lock_address));
                }
                return Err(ErrorCode::AlreadyExists);
            }
        }
        proof {
            assert(!has_live_lock(self.locks_view(), lock_address)) by {
                if has_live_lock(self.locks_view(), lock_address) {
                    let k = choose|k: int|
                        lock_at(self.locks_view(), lock_address, k) && !self.locks_view()[k].released;
                    match existing {
                        Some(j) => {
                            assert(lock_at(self.locks_view(), lock_address, j as int));
                            assert(k == j as int);
                        },
                        None => {
                            assert(!has_lock(self.locks_view(), lock_address));
                        },
                    }
                }
            }
        }
        let vault_index: usize = match self.find_vault(vault) {
            Some(i) => i,
            None => {
                proof {
                    // a vault lives at `vault` by precondition
                    assert(false);
                }
                0
            },
        };
        let mut updated_vault = self.vaults[vault_index];
        let increase = updated_vault.increase_locked(amount);
        proof {
            assert(self.vaults_view()[vault_index as int].total_locked as int == locked_sum(
                self.locks_view(),
                vault,
            ));
        }
        if let Err(e) = increase {
            return Err(e);
        }
        let user = Holder::User(owner);
        let escrow = Holder::VaultEscrow(vault);
        if let Err(e) = ledger.transfer(vault.asset_type, user, escrow, user, amount) {
            return Err(e);
        }
        let ghost pre_vaults = self.vaults_view();
        let ghost pre_locks = self.locks_view();
        self.vaults[vault_index] = updated_vault;
        let record = LockRecord {
            owner,
            vault,
            amount,
            locked_at: current_time,
            unlock_timestamp,
            released: false,
        };
        match existing {
            Some(j) => {
                self.locks[j] = record;
            },
            None => {
                self.locks.push(record);
            },
        }
        proof {
            let post_vaults = self.vaults_view();
            let post_locks = self.locks_view();
            assert(record.address() == lock_address);
            assert(updated_vault == vault_with_added(pre_vaults[vault_index as int], amount));
            // the success transition holds, with the found indices as
            // witnesses
            assert(vault_at(pre_vaults, vault, vault_index as int) && post_vaults
                == pre_vaults.update(
                vault_index as int,
                vault_with_added(pre_vaults[vault_index as int], amount),
            ));
            match existing {
                Some(j) => {
                    assert(has_lock(pre_locks, record.address()));
                    assert(lock_at(pre_locks, record.address(), j as int) && post_locks
                        == pre_locks.update(j as int, record));
                },
                None => {
                    assert(!has_lock(pre_locks, record.address()));
                },
            }
            // the invariant is preserved
            assert(engine_wf(post_vaults, post_locks)) by {
                assert forall|i: int, j: int| 0 <= i < j < post_vaults.len() implies post_vaults[i].asset_type
                    != post_vaults[j].asset_type by {
                    assert(post_vaults[i].asset_type == pre_vaults[i].asset_type);
                    assert(post_vaults[j].asset_type == pre_vaults[j].asset_type);
                }
                assert forall|i: int, j: int| 0 <= i < j < post_locks.len() implies post_locks[i].address()
                    != post_locks[j].address() by {
                    match existing {
                        Some(w) => {
                            assert(post_locks[i].address() == pre_locks[i].address());
                            assert(post_locks[j].address() == pre_locks[j].address());
                        },
                        None => {
                            if j < pre_locks.len() {
                            } else {
                                assert(post_locks[j] == record);
                                assert(!lock_at(pre_locks, lock_address, i));
                            }
                        },
                    }
                }
                assert forall|i: int| 0 <= i < post_locks.len() implies post_locks[i].amount > 0
                    && post_locks[i].unlock_timestamp > post_locks[i].locked_at by {
                    match existing {
                        Some(w) => {
                            if i != w as int {
                                assert(post_locks[i] == pre_locks[i]);
                            }
                        },
                        None => {
                            if i < pre_locks.len() {
                                assert(post_locks[i] == pre_locks[i]);
                            }
                        },
                    }
                }
                assert forall|i: int| 0 <= i < post_locks.len() implies has_vault(
                    post_vaults,
                    #[trigger] post_locks[i].vault,
                ) by {
                    let a = post_locks[i].vault;
                    if post_locks[i] == record {
                        assert(vault_at(post_vaults, vault, vault_index as int));
                    } else {
                        assert(post_locks[i] == pre_locks[i]);
                        assert(has_vault(pre_vaults, a));
                        let w = choose|w: int| vault_at(pre_vaults, a, w);
                        assert(vault_at(post_vaults, a, w));
                    }
                }
                assert forall|i: int| 0 <= i < post_vaults.len() implies #[trigger] post_vaults[i].total_locked as int
                    == locked_sum(post_locks, post_vaults[i].address()) by {
                    let a = post_vaults[i].address();
                    match existing {
                        Some(w) => {
                            lemma_locked_sum_update(pre_locks, w as int, record, a);
                            assert(pre_locks[w as int].vault == vault);
                            assert(pre_locks[w as int].released);
                        },
                        None => {
                            lemma_locked_sum_push(pre_locks, record, a);
                        },
                    }
                    if i == vault_index as int {
                        assert(a == vault);
                    } else {
                        assert(post_vaults[i] == pre_vaults[i]);
                        assert(pre_vaults[i].asset_type
                            != pre_vaults[vault_index as int].asset_type);
                        assert(a != vault);
                    }
                }
            }
        }
        Ok(record)
    }

    /// Releases the lock record at `address`: hands its amount back from the
    /// vault's custodial escrow to the owner — the vault authorizing its own
    /// outbound transfer — marks the record released, and shrinks the vault's
    /// running total. Applied exactly once per record; no partial or repeated
    /// release.
    ///
    /// Which error is returned on which inputs, and that a failure changes
    /// nothing, is pinned by [`spec_unlock_error`]; the successful new state
    /// by [`unlock_success_transition`]. Under the invariant the defensive
    /// `Underflow` check can never fire, so `Underflow` is never returned.
    pub fn unlock_tokens(
        &mut self,
        ledger: &mut Ledger,
        address: LockAddress,
        caller: Identity,
        current_time: i64,
    ) -> (r: Result<(), ErrorCode>)
        requires
            old(self).wf(),
            old(ledger).wf(),
            has_lock(old(self).locks_view(), address),
        ensures
            final(self).wf(),
            final(ledger).wf(),
            r matches Err(e) ==> spec_unlock_error(
                old(self).locks_view(),
                old(ledger)@,
                address,
                caller,
                current_time,
            ) == Some(e) && final(self).vaults_view() == old(self).vaults_view()
                && final(self).locks_view() == old(self).locks_view()
                && final(ledger)@ == old(ledger)@,
            r is Ok ==> spec_unlock_error(
                old(self).locks_view(),
                old(ledger)@,
                address,
                caller,
                current_time,
            ) is None && unlock_success_transition(
                old(self).vaults_view(),
                old(self).locks_view(),
                final(self).vaults_view(),
                final(self).locks_view(),
                address,
            ),
            r is Ok ==> {
                let record = spec_lock_record(old(self).locks_view(), address);
                &&& final(ledger).balance(Holder::VaultEscrow(record.vault), record.vault.asset_type)
                    == old(ledger).balance(Holder::VaultEscrow(record.vault), record.vault.asset_type)
                    - record.amount
                &&& final(ledger).balance(Holder::User(record.owner), record.vault.asset_type)
                    == old(ledger).balance(Holder::User(record.owner), record.vault.asset_type)
                    + record.amount
            },
            forall|h: Holder, a: Identity|
                ({
                    let record = spec_lock_record(old(self).locks_view(), address);
                    !(h == Holder::VaultEscrow(record.vault) && a == record.vault.asset_type) && !(h
                        == Holder::User(record.owner) && a == record.vault.asset_type)
                        ==> #[trigger] final(ledger).balance(h, a) == old(ledger).balance(h, a)
                }),
    {
        let lock_index: usize = match self.find_lock(address) {
            Some(j) => j,
            None => {
                proof {
                    // a record lives at `address` by precondition
                    assert(false);
                }
                0
            },
        };
        let record = self.locks[lock_index];
        proof {
            lemma_lock_record_at_index(self.locks_view(), address, lock_index as int);
        }
        if record.released {
            return Err(ErrorCode::AlreadyUnlocked);
        }
        if current_time < record.unlock_timestamp {
            return Err(ErrorCode::LockPeriodNotExpired);
        }
        if caller != record.owner {
            return Err(ErrorCode::Unauthorized);
        }
        let escrow = Holder::VaultEscrow(record.vault);
        let user = Holder::User(record.owner);
        proof {
            assert(self.locks_view()[lock_index as int].amount > 0);
        }
        if let Err(e) = ledger.transfer(record.vault.asset_type, escrow, user, escrow, record.amount)
        {
            return Err(e);
        }
        let vault_index: usize = match self.find_vault(record.vault) {
            Some(i) => i,
            None => {
                proof {
                    // every stored lock's vault exists, by the invariant
                    assert(has_vault(self.vaults_view(), self.locks_view()[lock_index as int].vault));
                    assert(false);
                }
                0
            },
        };
        let mut updated_vault = self.vaults[vault_index];
        proof {
            lemma_locked_sum_lower_bound(self.locks_view(), lock_index as int, record.vault);
            assert(self.vaults_view()[vault_index as int].total_locked as int == locked_sum(
                self.locks_view(),
                record.vault,
            ));
        }
        if let Err(e) = updated_vault.decrease_locked(record.amount) {
            proof {
                // the invariant bounds the record's amount by the vault's
                // total, so the defensive underflow check cannot fire
                assert(false);
            }
            return Err(e);
        }
        let ghost pre_vaults = self.vaults_view();
        let ghost pre_locks = self.locks_view();
        self.vaults[vault_index] = updated_vault;
        let released_record = LockRecord { released: true, ..record };
        self.locks[lock_index] = released_record;
        proof {
            let post_vaults = self.vaults_view();
            let post_locks = self.locks_view();
            assert(released_record == record_released(record));
            assert(updated_vault == vault_with_removed(
                pre_vaults[vault_index as int],
                record.amount,
            ));
            // the success transition holds, with the found indices as
            // witnesses
            assert(lock_at(pre_locks, address, lock_index as int) && post_locks
                == pre_locks.update(lock_index as int, record_released(record)));
            assert(vault_at(pre_vaults, record.vault, vault_index as int) && post_vaults
                == pre_vaults.update(
                vault_index as int,
                vault_with_removed(pre_vaults[vault_index as int], record.amount),
            ));
            // the invariant is preserved
            assert(engine_wf(post_vaults, post_locks)) by {
                assert forall|i: int, j: int| 0 <= i < j < post_vaults.len() implies post_vaults[i].asset_type
                    != post_vaults[j].asset_type by {
                    assert(post_vaults[i].asset_type == pre_vaults[i].asset_type);
                    assert(post_vaults[j].asset_type == pre_vaults[j].asset_type);
                }
                assert forall|i: int, j: int| 0 <= i < j < post_locks.len() implies post_locks[i].address()
                    != post_locks[j].address() by {
                    assert(post_locks[i].address() == pre_locks[i].address());
                    assert(post_locks[j].address() == pre_locks[j].address());
                }
                assert forall|i: int| 0 <= i < post_locks.len() implies post_locks[i].amount > 0
                    && post_locks[i].unlock_timestamp > post_locks[i].locked_at by {
                    if i != lock_index as int {
                        assert(post_locks[i] == pre_locks[i]);
                    }
                }
                assert forall|i: int| 0 <= i < post_locks.len() implies has_vault(
                    post_vaults,
                    #[trigger] post_locks[i].vault,
                ) by {
                    let a = post_locks[i].vault;
                    assert(a == pre_locks[i].vault);
                    assert(has_vault(pre_vaults, a));
                    let w = choose|w: int| vault_at(pre_vaults, a, w);
                    assert(vault_at(post_vaults, a, w));
                }
                assert forall|i: int| 0 <= i < post_vaults.len() implies #[trigger] post_vaults[i].total_locked as int
                    == locked_sum(post_locks, post_vaults[i].address()) by {
                    let a = post_vaults[i].address();
                    lemma_locked_sum_update(pre_locks, lock_index as int, released_record, a);
                    if i == vault_index as int {
                        assert(a == record.vault);
                    } else {
                        assert(post_vaults[i] == pre_vaults[i]);
                        assert(pre_vaults[i].asset_type
                            != pre_vaults[vault_index as int].asset_type);
                        assert(a != record.vault);
                    }
                }
            }
        }
        Ok(())
    }

    /// The vault living at `address`, if one exists. Read-only.
    pub fn get_vault(&self, address: VaultAddress) -> (r: Option<Vault>)
        ensures
            match r {
                Some(v) => exists|i: int|
                    vault_at(self.vaults_view(), address, i) && self.vaults_view()[i] == v,
                None => !has_vault(self.vaults_view(), address),
            },
    {
        match self.find_vault(address) {
            Some(i) => Some(self.vaults[i]),
            None => None,
        }
    }

    /// The lock record living at `address`, if one exists. Read-only.
    pub fn get_lock(&self, address: LockAddress) -> (r: Option<LockRecord>)
        ensures
            match r {
                Some(record) => exists|i: int|
                    lock_at(self.locks_view(), address, i) && self.locks_view()[i] == record,
                None => !has_lock(self.locks_view(), address),
            },
    {
        match self.find_lock(address) {
            Some(i) => Some(self.locks[i]),
            None => None,
        }
    }
}

} // verus!
