//! The token ledger: which asset types there are, and who holds how much of
//! each. Value moves between accounts by checked transfers and is never made
//! or lost by one.
//!
//! Who signs for a call is given with it. The ledger holds the signer against
//! the owner of the account and does not ask how the signature was made.

use crate::error::EscrowError;
use crate::state::{AccountKey, Authority, Identity};
use crate::table::{
    as_map, distinct_keys, has_key, index_of, lemma_entry, lemma_push, lemma_remove, lemma_update,
};
use vstd::prelude::*;

verus! {

/// What the ledger keeps of one asset type.
#[derive(Clone, Copy, Debug, PartialEq, Eq, Structural, Hash)]
pub struct MintInfo {
    /// The decimal precision that every checked transfer has to state.
    pub decimals: u8,
    /// How much of the asset all accounts hold together.
    pub supply: u64,
}

/// The accounts of one checked transfer.
#[derive(Clone, Copy, Debug, PartialEq, Eq, Structural, Hash)]
pub struct TransferChecked {
    /// The account that pays.
    pub from: AccountKey,
    /// The account that receives.
    pub to: AccountKey,
    /// The asset that both accounts have to hold.
    pub mint: Identity,
    /// Who signs for the transfer.
    pub authority: Authority,
}

/// The accounts of one closure. The storage deposit of the closed account is
/// not on this ledger's books; `destination` names who is to receive it.
#[derive(Clone, Copy, Debug, PartialEq, Eq, Structural, Hash)]
pub struct CloseAccount {
    /// The account that is closed.
    pub account: AccountKey,
    /// Who receives what is left of it.
    pub destination: Identity,
    /// Who signs for the closure.
    pub authority: Authority,
}

/// One call on the token ledger.
#[derive(Clone, Copy, Debug, PartialEq, Eq, Structural, Hash)]
pub enum TokenInstruction {
    /// Move `amount` between the accounts named, stating the precision
    /// `decimals` of the asset.
    TransferChecked { transfer: TransferChecked, amount: u64, decimals: u8 },
    /// Close the empty account named.
    CloseAccount { closure: CloseAccount },
}

/// The asset types and the token accounts, each found by its key.
#[derive(Clone, Debug, PartialEq, Eq)]
pub struct Ledger {
    mints: Vec<(Identity, MintInfo)>,
    accounts: Vec<(AccountKey, u64)>,
}

/// What the accounts in `accounts` hold of asset `mint`, all together.
pub open spec fn circulating(accounts: Seq<(AccountKey, u64)>, mint: Identity) -> nat
    decreases accounts.len(),
{
    if accounts.len() == 0 {
        0
    } else {
        circulating(accounts.drop_last(), mint) + held_of(accounts.last(), mint)
    }
}

/// What one account adds to the supply of `mint`.
pub open spec fn held_of(account: (AccountKey, u64), mint: Identity) -> nat {
    if account.0.mint == mint {
        account.1 as nat
    } else {
        0
    }
}

/// The balances after `amount` went from `from` to `to`. A transfer from an
/// account to itself changes nothing.
pub open spec fn moved(
    balances: Map<AccountKey, u64>,
    from: AccountKey,
    to: AccountKey,
    amount: u64,
) -> Map<AccountKey, u64> {
    if from == to {
        balances
    } else {
        balances.insert(from, (balances[from] - amount) as u64).insert(
            to,
            (balances[to] + amount) as u64,
        )
    }
}

/// The credit of `amount` to `to` fits in 64 bits, or the transfer is from an
/// account to itself and credits nothing.
pub open spec fn credit_fits(
    balances: Map<AccountKey, u64>,
    from: AccountKey,
    to: AccountKey,
    amount: u64,
) -> bool {
    from == to || balances[to] + amount <= u64::MAX
}

/// The balances after `instruction` went through.
pub open spec fn applied(balances: Map<AccountKey, u64>, instruction: TokenInstruction) -> Map<
    AccountKey,
    u64,
> {
    match instruction {
        TokenInstruction::TransferChecked { transfer, amount, decimals } => moved(
            balances,
            transfer.from,
            transfer.to,
            amount,
        ),
        TokenInstruction::CloseAccount { closure } => balances.remove(closure.account),
    }
}

/// The balances once `key` is open: a new account starts empty, an open one
/// keeps what it holds.
pub open spec fn opened(balances: Map<AccountKey, u64>, key: AccountKey) -> Map<AccountKey, u64> {
    if balances.contains_key(key) {
        balances
    } else {
        balances.insert(key, 0)
    }
}

proof fn lemma_circulating_none(accounts: Seq<(AccountKey, u64)>, mint: Identity)
    requires
        forall|i: int| 0 <= i < accounts.len() ==> (#[trigger] accounts[i]).0.mint != mint,
    ensures
        circulating(accounts, mint) == 0,
    decreases accounts.len(),
{
    if accounts.len() > 0 {
        let front = accounts.drop_last();
        assert forall|i: int| 0 <= i < front.len() implies (#[trigger] front[i]).0.mint != mint by {
            assert(front[i] == accounts[i]);
        }
        lemma_circulating_none(front, mint);
        assert(accounts.last() == accounts[accounts.len() - 1]);
    }
}

proof fn lemma_circulating_update(accounts: Seq<(AccountKey, u64)>, i: int, amount: u64, mint: Identity)
    requires
        0 <= i < accounts.len(),
    ensures
        circulating(accounts.update(i, (accounts[i].0, amount)), mint) + held_of(accounts[i], mint)
            == circulating(accounts, mint) + held_of((accounts[i].0, amount), mint),
    decreases accounts.len(),
{
    let next = accounts.update(i, (accounts[i].0, amount));
    if i == accounts.len() - 1 {
        assert(next.drop_last() =~= accounts.drop_last());
    } else {
        assert(next.drop_last() =~= accounts.drop_last().update(i, (accounts[i].0, amount)));
        lemma_circulating_update(accounts.drop_last(), i, amount, mint);
    }
}

proof fn lemma_circulating_push(accounts: Seq<(AccountKey, u64)>, account: (AccountKey, u64), mint: Identity)
    ensures
        circulating(accounts.push(account), mint) == circulating(accounts, mint) + held_of(
            account,
            mint,
        ),
{
    assert(accounts.push(account).drop_last() =~= accounts);
}

proof fn lemma_circulating_remove(accounts: Seq<(AccountKey, u64)>, i: int, mint: Identity)
    requires
        0 <= i < accounts.len(),
    ensures
        circulating(accounts.remove(i), mint) + held_of(accounts[i], mint) == circulating(
            accounts,
            mint,
        ),
    decreases accounts.len(),
{
    if i == accounts.len() - 1 {
        assert(accounts.remove(i) =~= accounts.drop_last());
    } else {
        assert(accounts.remove(i).drop_last() =~= accounts.drop_last().remove(i));
        assert(accounts.remove(i).last() == accounts.last());
        lemma_circulating_remove(accounts.drop_last(), i, mint);
    }
}

/// The supply is a matter of the balances alone, not of the order in which
/// the accounts are stored.
proof fn lemma_circulating_by_map(
    one: Seq<(AccountKey, u64)>,
    other: Seq<(AccountKey, u64)>,
    mint: Identity,
)
    requires
        distinct_keys(one),
        distinct_keys(other),
        as_map(one) == as_map(other),
    ensures
        circulating(one, mint) == circulating(other, mint),
    decreases one.len(),
{
    if one.len() == 0 {
        if other.len() > 0 {
            lemma_entry(other, 0);
            assert(as_map(one).contains_key(other[0].0));
        }
    } else {
        let i = one.len() - 1;
        let last = one[i];
        lemma_entry(one, i);
        assert(as_map(other).contains_key(last.0));
        let j = index_of(other, last.0);
        lemma_entry(other, j);
        assert(other[j] == last);
        lemma_remove(one, i);
        lemma_remove(other, j);
        assert(one.remove(i) =~= one.drop_last());
        lemma_circulating_by_map(one.remove(i), other.remove(j), mint);
        lemma_circulating_remove(other, j, mint);
    }
}

/// No account holds more than the whole supply of its asset.
proof fn lemma_circulating_covers(accounts: Seq<(AccountKey, u64)>, i: int)
    requires
        0 <= i < accounts.len(),
    ensures
        accounts[i].1 <= circulating(accounts, accounts[i].0.mint),
    decreases accounts.len(),
{
    if i < accounts.len() - 1 {
        lemma_circulating_covers(accounts.drop_last(), i);
    }
}

/// Two accounts of one asset hold no more than its whole supply between them.
proof fn lemma_circulating_covers_two(accounts: Seq<(AccountKey, u64)>, i: int, j: int)
    requires
        0 <= i < accounts.len(),
        0 <= j < accounts.len(),
        i != j,
        accounts[i].0.mint == accounts[j].0.mint,
    ensures
        accounts[i].1 + accounts[j].1 <= circulating(accounts, accounts[i].0.mint),
{
    let mint = accounts[i].0.mint;
    let rest = accounts.update(i, (accounts[i].0, 0));
    lemma_circulating_update(accounts, i, 0, mint);
    lemma_circulating_covers(rest, j);
}

impl Ledger {
    /// The token accounts in the order in which they are stored.
    pub closed spec fn entries(&self) -> Seq<(AccountKey, u64)> {
        self.accounts@
    }

    /// The asset types in the order in which they are stored.
    pub closed spec fn mint_entries(&self) -> Seq<(Identity, MintInfo)> {
        self.mints@
    }

    /// What each open account holds.
    pub open spec fn balances(&self) -> Map<AccountKey, u64> {
        as_map(self.entries())
    }

    /// The registered asset types.
    pub open spec fn mints(&self) -> Map<Identity, MintInfo> {
        as_map(self.mint_entries())
    }

    /// What all accounts hold of `mint` together.
    pub open spec fn supply(&self, mint: Identity) -> nat {
        circulating(self.entries(), mint)
    }

    /// The decimal precision registered for `mint`.
    pub open spec fn precision(&self, mint: Identity) -> u8 {
        self.mints()[mint].decimals
    }

    /// What the account at `key` has to give: nothing if it is not open.
    pub open spec fn held(&self, key: AccountKey) -> u64 {
        if self.balances().contains_key(key) {
            self.balances()[key]
        } else {
            0
        }
    }

    /// Every key is stored once, every account holds a registered asset, and
    /// the supply recorded for an asset is what its accounts hold.
    pub open spec fn wf(&self) -> bool {
        &&& distinct_keys(self.entries())
        &&& distinct_keys(self.mint_entries())
        &&& forall|key: AccountKey| #[trigger]
            self.balances().contains_key(key) ==> self.mints().contains_key(key.mint)
        &&& forall|mint: Identity| #[trigger]
            self.mints().contains_key(mint) ==> self.mints()[mint].supply == self.supply(mint)
    }

    /// No balance outgrows 64 bits by a transfer: two open accounts of one
    /// asset hold no more than its supply between them, and the supply is the
    /// one recorded, a 64-bit number.
    pub proof fn two_accounts_fit(&self, one: AccountKey, other: AccountKey)
        requires
            self.wf(),
            self.balances().contains_key(one),
            self.balances().contains_key(other),
            one != other,
            one.mint == other.mint,
        ensures
            self.balances()[one] + self.balances()[other] <= self.supply(one.mint),
            self.supply(one.mint) == self.mints()[one.mint].supply,
            self.supply(one.mint) <= u64::MAX,
    {
        let i = index_of(self.entries(), one);
        let j = index_of(self.entries(), other);
        lemma_entry(self.entries(), i);
        lemma_entry(self.entries(), j);
        lemma_circulating_covers_two(self.entries(), i, j);
        assert(self.mints().contains_key(one.mint));
    }

    /// The supply of an asset is the sum of what the balances show of it:
    /// two ledgers with the same balances have the same supply of every
    /// asset.
    pub proof fn supply_follows_balances(&self, other: &Ledger, mint: Identity)
        requires
            self.wf(),
            other.wf(),
            self.balances() == other.balances(),
        ensures
            self.supply(mint) == other.supply(mint),
    {
        lemma_circulating_by_map(self.entries(), other.entries(), mint);
    }

    /// A ledger without asset types or accounts: nothing is held on it of
    /// any asset.
    pub fn new() -> (ledger: Ledger)
        ensures
            ledger.wf(),
            ledger.balances() == Map::<AccountKey, u64>::empty(),
            ledger.mints() == Map::<Identity, MintInfo>::empty(),
            forall|mint: Identity| ledger.supply(mint) == 0,
    {
        let ledger = Ledger { mints: Vec::new(), accounts: Vec::new() };
        assert(ledger.balances() =~= Map::<AccountKey, u64>::empty());
        assert(ledger.mints() =~= Map::<Identity, MintInfo>::empty());
        ledger
    }

    fn find_account(&self, key: &AccountKey) -> (found: Option<usize>)
        ensures
            match found {
                Some(i) => i < self.accounts.len() && self.accounts[i as int].0 == *key,
                None => !has_key(self.accounts@, *key),
            },
    {
        let mut i: usize = 0;
        while i < self.accounts.len()
            invariant
                i <= self.accounts.len(),
                forall|j: int| 0 <= j < i ==> (#[trigger] self.accounts[j]).0 != *key,
            decreases self.accounts.len() - i,
        {
            if self.accounts[i].0 == *key {
                return Some(i);
            }
            i += 1;
        }
        None
    }

    fn find_mint(&self, mint: &Identity) -> (found: Option<usize>)
        ensures
            match found {
                Some(i) => i < self.mints.len() && self.mints[i as int].0 == *mint,
                None => !has_key(self.mints@, *mint),
            },
    {
        let mut i: usize = 0;
        while i < self.mints.len()
            invariant
                i <= self.mints.len(),
                forall|j: int| 0 <= j < i ==> (#[trigger] self.mints[j]).0 != *mint,
            decreases self.mints.len() - i,
        {
            if self.mints[i].0 == *mint {
                return Some(i);
            }
            i += 1;
        }
        None
    }

    /// How a checked transfer ends on this ledger. The asset and its
    /// precision are checked first, then the two accounts, then the
    /// authority, then the funds.
    pub open spec fn transfer_outcome(
        &self,
        accounts: TransferChecked,
        amount: u64,
        decimals: u8,
    ) -> Result<(), EscrowError> {
        if !self.mints().contains_key(accounts.mint) || self.mints()[accounts.mint].decimals
            != decimals || accounts.from.mint != accounts.mint || accounts.to.mint
            != accounts.mint {
            Err(EscrowError::AssetMismatch)
        } else if !self.balances().contains_key(accounts.from) {
            Err(EscrowError::InsufficientFunds)
        } else if !self.balances().contains_key(accounts.to) {
            Err(EscrowError::AccountMismatch)
        } else if accounts.authority != accounts.from.authority {
            Err(EscrowError::InvalidAuthority)
        } else if self.balances()[accounts.from] < amount {
            Err(EscrowError::InsufficientFunds)
        } else {
            Ok(())
        }
    }

    /// How a closure ends on this ledger: only the owner closes an account,
    /// and only an empty one.
    pub open spec fn close_outcome(&self, accounts: CloseAccount) -> Result<(), EscrowError> {
        if !self.balances().contains_key(accounts.account) {
            Err(EscrowError::AccountMismatch)
        } else if accounts.authority != accounts.account.authority {
            Err(EscrowError::InvalidAuthority)
        } else if self.balances()[accounts.account] != 0 {
            Err(EscrowError::AccountMismatch)
        } else {
            Ok(())
        }
    }

    /// How `instruction` ends on this ledger.
    pub open spec fn outcome_of(&self, instruction: TokenInstruction) -> Result<(), EscrowError> {
        match instruction {
            TokenInstruction::TransferChecked { transfer, amount, decimals } => self.transfer_outcome(
                transfer,
                amount,
                decimals,
            ),
            TokenInstruction::CloseAccount { closure } => self.close_outcome(closure),
        }
    }

    /// Registers the asset type `mint` with its decimal precision and no
    /// supply. Returns `false`, and changes nothing, if it is registered
    /// already.
    pub fn register_mint(&mut self, mint: Identity, decimals: u8) -> (registered: bool)
        requires
            old(self).wf(),
        ensures
            final(self).wf(),
            registered == !old(self).mints().contains_key(mint),
            !registered ==> *final(self) == *old(self),
            registered ==> final(self).mints() == old(self).mints().insert(
                mint,
                MintInfo { decimals, supply: 0 },
            ),
            final(self).balances() == old(self).balances(),
            forall|m: Identity| final(self).supply(m) == old(self).supply(m),
    {
        match self.find_mint(&mint) {
            Some(i) => {
                proof {
                    lemma_entry(self.mints@, i as int);
                }
                false
            },
            None => {
                proof {
                    lemma_push(self.mints@, mint, MintInfo { decimals, supply: 0 });
                    assert forall|i: int| 0 <= i < self.accounts.len() implies (
                    #[trigger] self.accounts[i]).0.mint != mint by {
                        lemma_entry(self.accounts@, i);
                        assert(self.balances().contains_key(self.accounts[i].0));
                    }
                    lemma_circulating_none(self.accounts@, mint);
                }
                self.mints.push((mint, MintInfo { decimals, supply: 0 }));
                proof {
                    assert forall|key: AccountKey| #[trigger]
                        self.balances().contains_key(key) implies self.mints().contains_key(
                        key.mint,
                    ) by {
                        assert(old(self).balances().contains_key(key));
                    }
                    assert forall|m: Identity| #[trigger]
                        self.mints().contains_key(m) implies self.mints()[m].supply == self.supply(
                        m,
                    ) by {
                        assert(m == mint || old(self).mints().contains_key(m));
                    }
                }
                true
            },
        }
    }

    /// Opens the account at `key`, empty, unless it is open already. Fails
    /// with `AssetMismatch`, and changes nothing, if the asset of `key` is
    /// not registered.
    pub fn open_account(&mut self, key: AccountKey) -> (r: Result<(), EscrowError>)
        requires
            old(self).wf(),
        ensures
            final(self).wf(),
            r == if old(self).mints().contains_key(key.mint) {
                Ok::<(), EscrowError>(())
            } else {
                Err(EscrowError::AssetMismatch)
            },
            r is Err ==> *final(self) == *old(self),
            r is Ok ==> final(self).balances() == opened(old(self).balances(), key),
            final(self).mints() == old(self).mints(),
            forall|m: Identity| final(self).supply(m) == old(self).supply(m),
    {
        match self.find_mint(&key.mint) {
            Some(i) => {
                proof {
                    lemma_entry(self.mints@, i as int);
                }
            },
            None => {
                return Err(EscrowError::AssetMismatch);
            },
        }
        match self.find_account(&key) {
            Some(i) => {
                proof {
                    lemma_entry(self.accounts@, i as int);
                }
            },
            None => {
                proof {
                    lemma_push(self.accounts@, key, 0);
                    assert forall|m: Identity|
                        circulating(self.accounts@.push((key, 0)), m) == circulating(
                            self.accounts@,
                            m,
                        ) by {
                        lemma_circulating_push(self.accounts@, (key, 0), m);
                    }
                }
                self.accounts.push((key, 0));
                proof {
                    assert forall|k: AccountKey| #[trigger]
                        self.balances().contains_key(k) implies self.mints().contains_key(k.mint) by {
                        assert(k == key || old(self).balances().contains_key(k));
                    }
                }
            },
        }
        Ok(())
    }

    /// Credits `amount` of new supply to the open account at `key`. Returns
    /// `false`, and changes nothing, if the account is not open or the supply
    /// of its asset would no longer fit in 64 bits.
    pub fn mint_to(&mut self, key: &AccountKey, amount: u64) -> (minted: bool)
        requires
            old(self).wf(),
        ensures
            final(self).wf(),
            minted == (old(self).balances().contains_key(*key) && old(self).supply(key.mint)
                + amount <= u64::MAX),
            !minted ==> *final(self) == *old(self),
            minted ==> final(self).balances() == old(self).balances().insert(
                *key,
                (old(self).balances()[*key] + amount) as u64,
            ),
            minted ==> final(self).mints() == old(self).mints().insert(
                key.mint,
                MintInfo {
                    decimals: old(self).mints()[key.mint].decimals,
                    supply: (old(self).supply(key.mint) + amount) as u64,
                },
            ),
            forall|m: Identity|
                final(self).supply(m) == old(self).supply(m) + if minted && m == key.mint {
                    amount as nat
                } else {
                    0
                },
    {
        let at = match self.find_account(key) {
            Some(i) => i,
            None => {
                return false;
            },
        };
        proof {
            lemma_entry(self.accounts@, at as int);
            assert(self.balances().contains_key(*key));
        }
        let of = match self.find_mint(&key.mint) {
            Some(i) => i,
            None => {
                return false;
            },
        };
        proof {
            lemma_entry(self.mints@, of as int);
            assert(self.mints().contains_key(key.mint));
            lemma_circulating_covers(self.accounts@, at as int);
        }
        let info = self.mints[of].1;
        let held = self.accounts[at].1;
        if amount > u64::MAX - info.supply {
            return false;
        }
        proof {
            lemma_update(self.accounts@, at as int, (held + amount) as u64);
            lemma_update(
                self.mints@,
                of as int,
                MintInfo { decimals: info.decimals, supply: (info.supply + amount) as u64 },
            );
            assert forall|m: Identity|
                circulating(self.accounts@.update(at as int, (*key, (held + amount) as u64)), m)
                    == circulating(self.accounts@, m) + if m == key.mint {
                    amount as nat
                } else {
                    0
                } by {
                lemma_circulating_update(self.accounts@, at as int, (held + amount) as u64, m);
            }
        }
        self.accounts[at] = (*key, held + amount);
        self.mints[of] = (key.mint, MintInfo { decimals: info.decimals, supply: info.supply + amount });
        proof {
            assert forall|m: Identity| #[trigger]
                self.mints().contains_key(m) implies self.mints()[m].supply == self.supply(m) by {
                assert(old(self).mints().contains_key(m) || m == key.mint);
            }
        }
        true
    }

    /// Moves `amount` of asset `accounts.mint` from `accounts.from` to
    /// `accounts.to`, signed for by `accounts.authority`. Either the whole
    /// amount moves or nothing changes.
    pub fn transfer_checked(&mut self, accounts: &TransferChecked, amount: u64, decimals: u8) -> (r:
        Result<(), EscrowError>)
        requires
            old(self).wf(),
        ensures
            final(self).wf(),
            r == old(self).transfer_outcome(*accounts, amount, decimals),
            r is Err || accounts.from == accounts.to ==> *final(self) == *old(self),
            r is Ok ==> final(self).balances() == moved(
                old(self).balances(),
                accounts.from,
                accounts.to,
                amount,
            ),
            r is Ok ==> credit_fits(old(self).balances(), accounts.from, accounts.to, amount),
            final(self).mints() == old(self).mints(),
            forall|m: Identity| final(self).supply(m) == old(self).supply(m),
    {
        let of = match self.find_mint(&accounts.mint) {
            Some(i) => i,
            None => {
                return Err(EscrowError::AssetMismatch);
            },
        };
        proof {
            lemma_entry(self.mints@, of as int);
            assert(self.mints().contains_key(accounts.mint));
        }
        if self.mints[of].1.decimals != decimals || accounts.from.mint != accounts.mint
            || accounts.to.mint != accounts.mint {
            return Err(EscrowError::AssetMismatch);
        }
        let source = match self.find_account(&accounts.from) {
            Some(i) => i,
            None => {
                return Err(EscrowError::InsufficientFunds);
            },
        };
        let target = match self.find_account(&accounts.to) {
            Some(i) => i,
            None => {
                proof {
                    lemma_entry(self.accounts@, source as int);
                }
                return Err(EscrowError::AccountMismatch);
            },
        };
        proof {
            lemma_entry(self.accounts@, source as int);
            lemma_entry(self.accounts@, target as int);
        }
        if accounts.authority != accounts.from.authority {
            return Err(EscrowError::InvalidAuthority);
        }
        let held = self.accounts[source].1;
        if held < amount {
            return Err(EscrowError::InsufficientFunds);
        }
        if source != target {
            let credit = self.accounts[target].1;
            proof {
                lemma_circulating_covers_two(self.accounts@, source as int, target as int);
                let debited = self.accounts@.update(source as int, (accounts.from, (held - amount) as u64));
                lemma_update(self.accounts@, source as int, (held - amount) as u64);
                lemma_update(debited, target as int, (credit + amount) as u64);
                assert forall|m: Identity|
                    circulating(
                        debited.update(target as int, (accounts.to, (credit + amount) as u64)),
                        m,
                    ) == circulating(self.accounts@, m) by {
                    lemma_circulating_update(self.accounts@, source as int, (held - amount) as u64, m);
                    lemma_circulating_update(debited, target as int, (credit + amount) as u64, m);
                }
            }
            self.accounts[source] = (accounts.from, held - amount);
            self.accounts[target] = (accounts.to, credit + amount);
            proof {
                assert forall|key: AccountKey| #[trigger]
                    self.balances().contains_key(key) implies self.mints().contains_key(key.mint) by {
                    assert(old(self).balances().contains_key(key));
                }
            }
        }
        Ok(())
    }

    /// Closes the empty account at `accounts.account`, signed for by
    /// `accounts.authority`. Either the account is gone or nothing changes.
    pub fn close_account(&mut self, accounts: &CloseAccount) -> (r: Result<(), EscrowError>)
        requires
            old(self).wf(),
        ensures
            final(self).wf(),
            r == old(self).close_outcome(*accounts),
            r is Err ==> *final(self) == *old(self),
            r is Ok ==> final(self).balances() == old(self).balances().remove(accounts.account),
            final(self).mints() == old(self).mints(),
            forall|m: Identity| final(self).supply(m) == old(self).supply(m),
    {
        let at = match self.find_account(&accounts.account) {
            Some(i) => i,
            None => {
                return Err(EscrowError::AccountMismatch);
            },
        };
        proof {
            lemma_entry(self.accounts@, at as int);
        }
        if accounts.authority != accounts.account.authority {
            return Err(EscrowError::InvalidAuthority);
        }
        if self.accounts[at].1 != 0 {
            return Err(EscrowError::AccountMismatch);
        }
        proof {
            lemma_remove(self.accounts@, at as int);
            assert forall|m: Identity|
                circulating(self.accounts@.remove(at as int), m) == circulating(
                    self.accounts@,
                    m,
                ) by {
                lemma_circulating_remove(self.accounts@, at as int, m);
            }
        }
        self.accounts.remove(at);
        proof {
            assert forall|key: AccountKey| #[trigger]
                self.balances().contains_key(key) implies self.mints().contains_key(key.mint) by {
                assert(old(self).balances().contains_key(key));
            }
        }
        Ok(())
    }

    /// Carries out `instruction`: a checked transfer or a closure. Either it
    /// goes through as a whole or nothing changes.
    pub fn process(&mut self, instruction: &TokenInstruction) -> (r: Result<(), EscrowError>)
        requires
            old(self).wf(),
        ensures
            final(self).wf(),
            r == old(self).outcome_of(*instruction),
            r is Err ==> *final(self) == *old(self),
            r is Ok ==> final(self).balances() == applied(old(self).balances(), *instruction),
            final(self).mints() == old(self).mints(),
            forall|m: Identity| final(self).supply(m) == old(self).supply(m),
    {
        match instruction {
            TokenInstruction::TransferChecked { transfer, amount, decimals } => self.transfer_checked(
                transfer,
                *amount,
                *decimals,
            ),
            TokenInstruction::CloseAccount { closure } => self.close_account(closure),
        }
    }

    /// What the account at `key` holds, if it is open.
    pub open spec fn spec_balance(&self, key: &AccountKey) -> Option<u64> {
        if self.balances().contains_key(*key) {
            Some(self.balances()[*key])
        } else {
            None
        }
    }

    /// What the account at `key` holds, if it is open.
    #[verifier::when_used_as_spec(spec_balance)]
    pub fn balance(&self, key: &AccountKey) -> (held: Option<u64>)
        requires
            self.wf(),
        ensures
            held == self.spec_balance(key),
    {
        match self.find_account(key) {
            Some(i) => {
                proof {
                    lemma_entry(self.accounts@, i as int);
                }
                Some(self.accounts[i].1)
            },
            None => None,
        }
    }

    /// The decimal precision of `mint`, if it is registered.
    pub open spec fn spec_decimals(&self, mint: &Identity) -> Option<u8> {
        if self.mints().contains_key(*mint) {
            Some(self.mints()[*mint].decimals)
        } else {
            None
        }
    }

    /// The decimal precision of `mint`, if it is registered.
    #[verifier::when_used_as_spec(spec_decimals)]
    pub fn decimals(&self, mint: &Identity) -> (precision: Option<u8>)
        requires
            self.wf(),
        ensures
            precision == self.spec_decimals(mint),
    {
        match self.find_mint(mint) {
            Some(i) => {
                proof {
                    lemma_entry(self.mints@, i as int);
                }
                Some(self.mints[i].1.decimals)
            },
            None => None,
        }
    }

    /// What all accounts hold of `mint` together, if it is registered.
    pub fn total_supply(&self, mint: &Identity) -> (total: Option<u64>)
        requires
            self.wf(),
        ensures
            match total {
                Some(amount) => self.mints().contains_key(*mint) && amount == self.supply(*mint),
                None => !self.mints().contains_key(*mint),
            },
    {
        match self.find_mint(mint) {
            Some(i) => {
                proof {
                    lemma_entry(self.mints@, i as int);
                    assert(self.mints().contains_key(*mint));
                }
                Some(self.mints[i].1.supply)
            },
            None => None,
        }
    }
}

} // verus!
