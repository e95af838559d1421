use vstd::prelude::*;

use crate::addresses::{Holder, Identity};
use crate::errors::ErrorCode;

verus! {

/// One balance in the ledger: how much of `asset_type` the party `holder`
/// currently holds.
#[derive(Clone, Copy, Debug, PartialEq, Eq, Structural)]
pub struct TokenAccount {
    pub holder: Holder,
    pub asset_type: Identity,
    pub balance: u64,
}

/// Whether `account` is the balance entry for `holder`'s holdings of
/// `asset_type`.
pub open spec fn account_matches(account: TokenAccount, holder: Holder, asset_type: Identity) -> bool {
    account.holder == holder && account.asset_type == asset_type
}

/// No two entries carry the same (holder, asset type) key.
pub open spec fn unique_keys(accounts: Seq<TokenAccount>) -> bool {
    forall|i: int, j: int|
        0 <= i < j < accounts.len() ==> !(accounts[i].holder == accounts[j].holder
            && accounts[i].asset_type == accounts[j].asset_type)
}

/// The balance `holder` has of `asset_type` in `accounts`; a party without
/// an entry holds zero.
pub open spec fn spec_balance(accounts: Seq<TokenAccount>, holder: Holder, asset_type: Identity) -> u64
    decreases accounts.len(),
{
    if accounts.len() == 0 {
        0u64
    } else if account_matches(accounts.last(), holder, asset_type) {
        accounts.last().balance
    } else {
        spec_balance(accounts.drop_last(), holder, asset_type)
    }
}

/// A transfer of `amount` of `asset_type` from `from` to `to` on the balances
/// `accounts` goes through exactly when the mover is the holder of the source
/// balance, the source balance covers the amount, and the destination balance
/// stays within the 64-bit range.
pub open spec fn spec_transfer_ok(
    accounts: Seq<TokenAccount>,
    asset_type: Identity,
    from: Holder,
    to: Holder,
    authorizer: Holder,
    amount: u64,
) -> bool {
    &&& authorizer == from
    &&& amount <= spec_balance(accounts, from, asset_type)
    &&& spec_balance(accounts, to, asset_type) + amount <= u64::MAX
}

/// If entry `i` carries the key (`holder`, `asset_type`) and keys are unique,
/// the ledger-wide balance for that key is entry `i`'s balance.
pub proof fn lemma_balance_at_index(
    accounts: Seq<TokenAccount>,
    i: int,
    holder: Holder,
    asset_type: Identity,
)
    requires
        unique_keys(accounts),
        0 <= i < accounts.len(),
        account_matches(accounts[i], holder, asset_type),
    ensures
        spec_balance(accounts, holder, asset_type) == accounts[i].balance,
    decreases accounts.len(),
{
    if i == accounts.len() - 1 {
    } else {
        assert(!account_matches(accounts.last(), holder, asset_type));
        assert(accounts.drop_last()[i] == accounts[i]);
        lemma_balance_at_index(accounts.drop_last(), i, holder, asset_type);
    }
}

/// A key no entry carries has balance zero.
pub proof fn lemma_balance_absent(accounts: Seq<TokenAccount>, holder: Holder, asset_type: Identity)
    requires
        forall|k: int| 0 <= k < accounts.len() ==> !account_matches(accounts[k], holder, asset_type),
    ensures
        spec_balance(accounts, holder, asset_type) == 0,
    decreases accounts.len(),
{
    if accounts.len() > 0 {
        assert(forall|k: int|
            0 <= k < accounts.drop_last().len() ==> accounts.drop_last()[k] == accounts[k]);
        lemma_balance_absent(accounts.drop_last(), holder, asset_type);
    }
}

/// Replacing entry `i` with an entry of the same key moves that key's balance
/// to the new entry's and leaves every other key's balance alone.
pub proof fn lemma_balance_update(accounts: Seq<TokenAccount>, i: int, account: TokenAccount)
    requires
        unique_keys(accounts),
        0 <= i < accounts.len(),
        account.holder == accounts[i].holder,
        account.asset_type == accounts[i].asset_type,
    ensures
        unique_keys(accounts.update(i, account)),
        spec_balance(accounts.update(i, account), account.holder, account.asset_type)
            == account.balance,
        forall|h: Holder, a: Identity|
            !(h == account.holder && a == account.asset_type) ==> spec_balance(
                accounts.update(i, account),
                h,
                a,
            ) == spec_balance(accounts, h, a),
{
    let updated = accounts.update(i, account);
    assert(unique_keys(updated)) by {
        assert(forall|k: int| 0 <= k < updated.len() && k != i ==> updated[k] == accounts[k]);
    }
    lemma_balance_at_index(updated, i, account.holder, account.asset_type);
    assert forall|h: Holder, a: Identity|
        !(h == account.holder && a == account.asset_type) implies spec_balance(updated, h, a)
        == spec_balance(accounts, h, a) by {
        if exists|j: int| 0 <= j < accounts.len() && account_matches(accounts[j], h, a) {
            let j = choose|j: int| 0 <= j < accounts.len() && account_matches(accounts[j], h, a);
            assert(j != i);
            lemma_balance_at_index(accounts, j, h, a);
            lemma_balance_at_index(updated, j, h, a);
        } else {
            assert(forall|k: int| 0 <= k < accounts.len() ==> !account_matches(accounts[k], h, a));
            assert(forall|k: int| 0 <= k < updated.len() ==> !account_matches(updated[k], h, a));
            lemma_balance_absent(accounts, h, a);
            lemma_balance_absent(updated, h, a);
        }
    }
}

/// Appending an entry whose key was absent gives that key the entry's balance
/// and leaves every other key's balance alone.
pub proof fn lemma_balance_push(accounts: Seq<TokenAccount>, account: TokenAccount)
    requires
        unique_keys(accounts),
        forall|k: int|
            0 <= k < accounts.len() ==> !account_matches(
                accounts[k],
                account.holder,
                account.asset_type,
            ),
    ensures
        unique_keys(accounts.push(account)),
        spec_balance(accounts.push(account), account.holder, account.asset_type)
            == account.balance,
        forall|h: Holder, a: Identity|
            !(h == account.holder && a == account.asset_type) ==> spec_balance(
                accounts.push(account),
                h,
                a,
            ) == spec_balance(accounts, h, a),
{
    let extended = accounts.push(account);
    assert(extended.last() == account);
    assert(extended.drop_last() =~= accounts);
    assert(forall|k: int| 0 <= k < accounts.len() ==> extended[k] == accounts[k]);
}

/// The asset-transfer collaborator: a store of balances keyed by (holder,
/// asset type). Escrow funds move only through [`Ledger::transfer`], which is
/// private to the crate so that the lock engine is the sole code path able to
/// move a vault's custodial holdings.
pub struct Ledger {
    accounts: Vec<TokenAccount>,
}

impl Ledger {
    /// The balance entries, in insertion order.
    pub closed spec fn view(self) -> Seq<TokenAccount> {
        self.accounts@
    }

    /// Every (holder, asset type) key has at most one entry.
    pub closed spec fn wf(self) -> bool {
        unique_keys(self.accounts@)
    }

    /// The balances each key carries; what every operation's contract is
    /// stated over.
    pub open spec fn balance(self, holder: Holder, asset_type: Identity) -> u64 {
        spec_balance(self.view(), holder, asset_type)
    }

    /// An empty ledger: every party holds zero of everything.
    pub fn new() -> (r: Ledger)
        ensures
            r.wf(),
            forall|h: Holder, a: Identity| r.balance(h, a) == 0,
    {
        let ledger = Ledger { accounts: Vec::new() };
        proof {
            assert forall|h: Holder, a: Identity| ledger.balance(h, a) == 0 by {
                lemma_balance_absent(ledger.accounts@, h, a);
            }
        }
        ledger
    }

    /// Index of the entry for (`holder`, `asset_type`), if one exists.
    fn find_account(&self, holder: Holder, asset_type: Identity) -> (r: Option<usize>)
        ensures
            match r {
                Some(i) => i < self@.len() && account_matches(self@[i as int], holder, asset_type),
                None => forall|k: int|
                    0 <= k < self@.len() ==> !account_matches(self@[k], holder, asset_type),
            },
    {
        let mut i: usize = 0;
        while i < self.accounts.len()
            invariant
                i <= self@.len(),
                forall|k: int| 0 <= k < i ==> !account_matches(self@[k], holder, asset_type),
            decreases self@.len() - i,
        {
            if self.accounts[i].holder == holder && self.accounts[i].asset_type == asset_type {
                return Some(i);
            }
            i += 1;
        }
        None
    }

    /// The balance `holder` has of `asset_type`; a party without an entry
    /// holds zero.
    pub fn balance_of(&self, holder: Holder, asset_type: Identity) -> (r: u64)
        requires
            self.wf(),
        ensures
            r == self.balance(holder, asset_type),
    {
        match self.find_account(holder, asset_type) {
            Some(i) => {
                proof {
                    lemma_balance_at_index(self@, i as int, holder, asset_type);
                }
                self.accounts[i].balance
            },
            None => {
                proof {
                    lemma_balance_absent(self@, holder, asset_type);
                }
                0
            },
        }
    }

    /// Brings `amount` new units of `asset_type` into circulation under
    /// `holder`: how parties outside the engine come to hold anything at all.
    ///
    /// Fails with `Overflow`, changing nothing, exactly when the holder's
    /// balance would leave the 64-bit range.
    pub fn credit(&mut self, holder: Holder, asset_type: Identity, amount: u64) -> (r: Result<
        (),
        ErrorCode,
    >)
        requires
            old(self).wf(),
        ensures
            final(self).wf(),
            r is Ok <==> old(self).balance(holder, asset_type) + amount <= u64::MAX,
            r is Err ==> r == Err::<(), ErrorCode>(ErrorCode::Overflow)
                && final(self)@ == old(self)@,
            r is Ok ==> final(self).balance(holder, asset_type)
                == old(self).balance(holder, asset_type) + amount,
            forall|h: Holder, a: Identity|
                !(h == holder && a == asset_type) ==> final(self).balance(h, a)
                    == old(self).balance(h, a),
    {
        match self.find_account(holder, asset_type) {
            Some(i) => {
                proof {
                    lemma_balance_at_index(self@, i as int, holder, asset_type);
                }
                match self.accounts[i].balance.checked_add(amount) {
                    Some(balance) => {
                        let ghost before = self@;
                        let account = TokenAccount { holder, asset_type, balance };
                        self.accounts[i] = account;
                        proof {
                            lemma_balance_update(before, i as int, account);
                        }
                        Ok(())
                    },
                    None => Err(ErrorCode::Overflow),
                }
            },
            None => {
                proof {
                    lemma_balance_absent(self@, holder, asset_type);
                }
                let ghost before = self@;
                let account = TokenAccount { holder, asset_type, balance: amount };
                self.accounts.push(account);
                proof {
                    lemma_balance_push(before, account);
                }
                Ok(())
            },
        }
    }

    /// The transfer service of the engine: moves `amount` of `asset_type`
    /// from `from` to `to`, provided `authorizer` is the holder of the source
    /// balance.
    ///
    /// Succeeds exactly when [`spec_transfer_ok`] holds of the prior
    /// balances; any failure changes nothing and is reported as
    /// `TransferFailed`. Crate-private on purpose: only the lock engine may
    /// move escrowed funds (the vault authorizes its own outbound transfer by
    /// standing as `authorizer` for its escrow sub-account).
    pub(crate) fn transfer(
        &mut self,
        asset_type: Identity,
        from: Holder,
        to: Holder,
        authorizer: Holder,
        amount: u64,
    ) -> (r: Result<(), ErrorCode>)
        requires
            old(self).wf(),
            from != to,
            amount > 0,
        ensures
            final(self).wf(),
            r is Ok <==> spec_transfer_ok(old(self)@, asset_type, from, to, authorizer, amount),
            r is Err ==> r == Err::<(), ErrorCode>(ErrorCode::TransferFailed)
                && final(self)@ == old(self)@,
            r is Ok ==> final(self).balance(from, asset_type)
                == old(self).balance(from, asset_type) - amount,
            r is Ok ==> final(self).balance(to, asset_type)
                == old(self).balance(to, asset_type) + amount,
            forall|h: Holder, a: Identity|
                !(h == from && a == asset_type) && !(h == to && a == asset_type)
                    ==> final(self).balance(h, a) == old(self).balance(h, a),
    {
        if !(authorizer == from) {
            return Err(ErrorCode::TransferFailed);
        }
        let from_balance = self.balance_of(from, asset_type);
        if amount > from_balance {
            return Err(ErrorCode::TransferFailed);
        }
        let to_balance = self.balance_of(to, asset_type);
        if to_balance > u64::MAX - amount {
            return Err(ErrorCode::TransferFailed);
        }
        // Debit the source. Its entry must exist: its balance covers a
        // positive amount.
        let from_index = match self.find_account(from, asset_type) {
            Some(i) => i,
            None => {
                proof {
                    lemma_balance_absent(self@, from, asset_type);
                }
                return Err(ErrorCode::TransferFailed);
            },
        };
        let ghost before_debit = self@;
        proof {
            lemma_balance_at_index(self@, from_index as int, from, asset_type);
        }
        let debited = TokenAccount {
            holder: from,
            asset_type,
            balance: self.accounts[from_index].balance - amount,
        };
        self.accounts[from_index] = debited;
        proof {
            lemma_balance_update(before_debit, from_index as int, debited);
        }
        // Credit the destination, creating its entry if it has none.
        match self.find_account(to, asset_type) {
            Some(i) => {
                proof {
                    lemma_balance_at_index(self@, i as int, to, asset_type);
                }
                let ghost before_credit = self@;
                let credited = TokenAccount {
                    holder: to,
                    asset_type,
                    balance: self.accounts[i].balance + amount,
                };
                self.accounts[i] = credited;
                proof {
                    lemma_balance_update(before_credit, i as int, credited);
                }
            },
            None => {
                proof {
                    lemma_balance_absent(self@, to, asset_type);
                }
                let ghost before_credit = self@;
                let created = TokenAccount { holder: to, asset_type, balance: amount };
                self.accounts.push(created);
                proof {
                    lemma_balance_push(before_credit, created);
                }
            },
        }
        Ok(())
    }
}

} // verus!
