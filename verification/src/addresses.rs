use vstd::prelude::*;

verus! {

/// Opaque identity of an external principal (a depositor, a vault authority)
/// or of an asset type. The engine only compares identities for equality and
/// composes them into derived addresses, so a plain 64-bit value stands for
/// one.
pub type Identity = u64;

/// The derived address of a vault. There is exactly one per asset type: the
/// address is the composition of the vault domain tag (here, this very type)
/// with the asset identifier, so distinct asset types yield distinct
/// addresses and equal asset types always yield the same address.
#[derive(Clone, Copy, Debug, PartialEq, Eq, Structural)]
pub struct VaultAddress {
    pub asset_type: Identity,
}

/// The derived address of a lock record: the composition of the lock domain
/// tag (this type) with the owning vault's address and the depositor's
/// identity. Any party can compute it from public identifiers alone.
#[derive(Clone, Copy, Debug, PartialEq, Eq, Structural)]
pub struct LockAddress {
    pub vault: VaultAddress,
    pub owner: Identity,
}

/// The party a balance in the ledger belongs to: either an external
/// principal, or a vault's custodial escrow sub-account.
#[derive(Clone, Copy, Debug, PartialEq, Eq, Structural)]
pub enum Holder {
    User(Identity),
    VaultEscrow(VaultAddress),
}

/// Derives the unique address of the vault for `asset_type`.
///
/// Pure and deterministic: equal inputs give equal addresses, and
/// [`lemma_vault_address_collision_free`] shows distinct inputs never
/// collide.
pub fn derive_vault_address(asset_type: Identity) -> (r: VaultAddress)
    ensures
        r == (VaultAddress { asset_type }),
{
    VaultAddress { asset_type }
}

/// Derives the unique address of the lock record held by `owner` under the
/// vault at `vault`.
///
/// Pure and deterministic: equal inputs give equal addresses, and
/// [`lemma_lock_address_collision_free`] shows distinct inputs never
/// collide.
pub fn derive_lock_address(vault: VaultAddress, owner: Identity) -> (r: LockAddress)
    ensures
        r == (LockAddress { vault, owner }),
{
    LockAddress { vault, owner }
}

/// Vault addressing is collision-free: two asset types share a vault address
/// only if they are the same asset type.
pub proof fn lemma_vault_address_collision_free(a: Identity, b: Identity)
    ensures
        (VaultAddress { asset_type: a }) == (VaultAddress { asset_type: b }) ==> a == b,
{
}

/// Lock addressing is collision-free: two (vault, owner) pairs share a lock
/// address only if they are the same pair.
pub proof fn lemma_lock_address_collision_free(
    va: VaultAddress,
    oa: Identity,
    vb: VaultAddress,
    ob: Identity,
)
    ensures
        (LockAddress { vault: va, owner: oa }) == (LockAddress { vault: vb, owner: ob }) ==> (va
            == vb && oa == ob),
{
}

} // verus!
