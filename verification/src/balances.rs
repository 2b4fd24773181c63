//! The balance ledger: a persistent map from `(user, asset)` to a
//! signed 128-bit amount, with absent entries read as zero.
//!
//! The store is an association list with unique keys.  Its invariant —
//! no balance is ever persisted negative — is what the vault's
//! non-negativity guarantee rests on.

use vstd::prelude::*;

use crate::types::AccountId;
use crate::types::AssetId;
use crate::types::VaultError;

verus! {

/// The key of one ledger cell: an account holding one asset.
#[derive(Clone, Copy, PartialEq, Eq, Structural, Debug)]
pub struct BalanceDataKey {
    pub user: AccountId,
    pub asset: AssetId,
}

/// One ledger cell: a key and the amount held under it.
#[derive(Clone, Copy, PartialEq, Eq, Structural, Debug)]
pub struct BalanceEntry {
    pub key: BalanceDataKey,
    pub amount: i128,
}

/// The amount stored under `k`, or zero when no entry carries `k`.
pub open spec fn find_amount(s: Seq<BalanceEntry>, k: BalanceDataKey) -> i128
    decreases s.len(),
{
    if s.len() == 0 {
        0
    } else if s.last().key == k {
        s.last().amount
    } else {
        find_amount(s.drop_last(), k)
    }
}

/// No two entries share a key.
pub open spec fn unique_keys(s: Seq<BalanceEntry>) -> bool {
    forall|i: int, j: int| 0 <= i < j < s.len() ==> (#[trigger] s[i]).key != (#[trigger] s[j]).key
}

/// Every stored amount is non-negative.
pub open spec fn nonneg_amounts(s: Seq<BalanceEntry>) -> bool {
    forall|i: int| 0 <= i < s.len() ==> (#[trigger] s[i]).amount >= 0
}

/// With unique keys, the entry at `i` decides the amount of its key.
proof fn lemma_find_present(s: Seq<BalanceEntry>, k: BalanceDataKey, i: int)
    requires
        unique_keys(s),
        0 <= i < s.len(),
        s[i].key == k,
    ensures
        find_amount(s, k) == s[i].amount,
    decreases s.len(),
{
    if i == s.len() - 1 {
    } else {
        assert(s.last().key != k);
        assert(s.drop_last()[i] == s[i]);
        lemma_find_present(s.drop_last(), k, i);
    }
}

/// A key that no entry carries reads as zero.
proof fn lemma_find_absent(s: Seq<BalanceEntry>, k: BalanceDataKey)
    requires
        forall|i: int| 0 <= i < s.len() ==> (#[trigger] s[i]).key != k,
    ensures
        find_amount(s, k) == 0,
    decreases s.len(),
{
    if s.len() > 0 {
        assert(s.last() == s[s.len() - 1]);
        assert(forall|i: int|
            0 <= i < s.drop_last().len() ==> (#[trigger] s.drop_last()[i]).key != k);
        lemma_find_absent(s.drop_last(), k);
    }
}

/// When every stored amount is non-negative, so is every reading.
proof fn lemma_find_nonneg(s: Seq<BalanceEntry>, k: BalanceDataKey)
    requires
        nonneg_amounts(s),
    ensures
        find_amount(s, k) >= 0,
    decreases s.len(),
{
    if s.len() > 0 {
        assert(s.last() == s[s.len() - 1]);
        assert(forall|i: int|
            0 <= i < s.drop_last().len() ==> (#[trigger] s.drop_last()[i]).amount >= 0);
        lemma_find_nonneg(s.drop_last(), k);
    }
}

/// Overwriting the entry of `k` in place moves its reading to the new
/// amount.
proof fn lemma_find_update_same(s: Seq<BalanceEntry>, k: BalanceDataKey, i: int, x: i128)
    requires
        unique_keys(s),
        0 <= i < s.len(),
        s[i].key == k,
    ensures
        find_amount(s.update(i, BalanceEntry { key: k, amount: x }), k) == x,
    decreases s.len(),
{
    let s2 = s.update(i, BalanceEntry { key: k, amount: x });
    if i == s.len() - 1 {
        assert(s2.last() == BalanceEntry { key: k, amount: x });
    } else {
        assert(s.last().key != k);
        assert(s2.last() == s.last());
        assert(s2.drop_last() =~= s.drop_last().update(i, BalanceEntry { key: k, amount: x }));
        assert(s.drop_last()[i] == s[i]);
        lemma_find_update_same(s.drop_last(), k, i, x);
    }
}

/// Overwriting the entry of `k` leaves every other key's reading
/// untouched.
proof fn lemma_find_update_other(
    s: Seq<BalanceEntry>,
    k: BalanceDataKey,
    i: int,
    x: i128,
    k2: BalanceDataKey,
)
    requires
        0 <= i < s.len(),
        s[i].key == k,
        k2 != k,
    ensures
        find_amount(s.update(i, BalanceEntry { key: k, amount: x }), k2) == find_amount(s, k2),
    decreases s.len(),
{
    let s2 = s.update(i, BalanceEntry { key: k, amount: x });
    if i == s.len() - 1 {
        assert(s2.last() == BalanceEntry { key: k, amount: x });
        assert(s.last() == s[i]);
        assert(s2.drop_last() =~= s.drop_last());
    } else {
        assert(s2.last() == s.last());
        assert(s2.drop_last() =~= s.drop_last().update(i, BalanceEntry { key: k, amount: x }));
        assert(s.drop_last()[i] == s[i]);
        lemma_find_update_other(s.drop_last(), k, i, x, k2);
    }
}

/// Appending an entry with a fresh key leaves every other key's
/// reading untouched.
proof fn lemma_find_push_other(s: Seq<BalanceEntry>, e: BalanceEntry, k2: BalanceDataKey)
    requires
        k2 != e.key,
    ensures
        find_amount(s.push(e), k2) == find_amount(s, k2),
{
    assert(s.push(e).last() == e);
    assert(s.push(e).drop_last() =~= s);
}

/// The balance ledger itself.
pub struct Balances {
    pub entries: Vec<BalanceEntry>,
}

impl Balances {
    /// The balance of `user` in `asset`; zero when never touched.
    pub open spec fn bal(self, user: AccountId, asset: AssetId) -> i128 {
        find_amount(self.entries@, BalanceDataKey { user: user, asset: asset })
    }

    /// Ledger well-formedness: one entry per key, nothing negative.
    pub open spec fn wf(self) -> bool {
        &&& unique_keys(self.entries@)
        &&& nonneg_amounts(self.entries@)
    }

    /// A well-formed ledger never reads a negative balance.
    pub proof fn lemma_bal_nonneg(self, user: AccountId, asset: AssetId)
        requires
            self.wf(),
        ensures
            self.bal(user, asset) >= 0,
    {
        lemma_find_nonneg(self.entries@, BalanceDataKey { user: user, asset: asset });
    }

    /// An empty ledger: every balance reads zero.
    pub fn new() -> (r: Balances)
        ensures
            r.wf(),
            forall|u: AccountId, a: AssetId| #[trigger] r.bal(u, a) == 0,
    {
        let r = Balances { entries: Vec::new() };
        assert(forall|u: AccountId, a: AssetId| #[trigger] r.bal(u, a) == 0);
        r
    }

    /// The stored balance of `user` in `asset`, zero for unknown keys.
    #[verifier::loop_isolation(false)]
    pub fn get_balance(&self, user: AccountId, asset: AssetId) -> (r: i128)
        requires
            self.wf(),
        ensures
            r == self.bal(user, asset),
    {
        let key = BalanceDataKey { user: user, asset: asset };
        let mut i: usize = 0;
        while i < self.entries.len()
            invariant
                0 <= i <= self.entries.len(),
                forall|j: int| 0 <= j < i ==> (#[trigger] self.entries@[j]).key != key,
            decreases self.entries.len() - i,
        {
            if self.entries[i].key == key {
                proof {
                    lemma_find_present(self.entries@, key, i as int);
                }
                return self.entries[i].amount;
            }
            i = i + 1;
        }
        proof {
            lemma_find_absent(self.entries@, key);
        }
        0
    }

    /// Store `amount` as the balance of `user` in `asset`, creating
    /// the entry on first touch.
    #[verifier::loop_isolation(false)]
    pub fn set_balance(&mut self, user: AccountId, asset: AssetId, amount: i128)
        requires
            old(self).wf(),
            amount >= 0,
        ensures
            final(self).wf(),
            final(self).bal(user, asset) == amount,
            forall|u2: AccountId, a2: AssetId|
                !(u2 == user && a2 == asset)
                    ==> #[trigger] final(self).bal(u2, a2) == old(self).bal(u2, a2),
    {
        let key = BalanceDataKey { user: user, asset: asset };
        let entry = BalanceEntry { key: key, amount: amount };
        let ghost s0 = self.entries@;
        let mut i: usize = 0;
        while i < self.entries.len()
            invariant
                0 <= i <= self.entries.len(),
                self.entries@ == s0,
                forall|j: int| 0 <= j < i ==> (#[trigger] self.entries@[j]).key != key,
            decreases self.entries.len() - i,
        {
            if self.entries[i].key == key {
                self.entries[i] = entry;
                proof {
                    lemma_find_update_same(s0, key, i as int, amount);
                    assert forall|u2: AccountId, a2: AssetId| !(u2 == user && a2 == asset) implies
                        #[trigger] final(self).bal(u2, a2) == old(self).bal(u2, a2) by {
                        let k2 = BalanceDataKey { user: u2, asset: a2 };
                        lemma_find_update_other(s0, key, i as int, amount, k2);
                    }
                    assert(forall|j: int|
                        0 <= j < self.entries@.len() ==> (#[trigger] self.entries@[j]).key
                            == s0[j].key);
                    assert(unique_keys(self.entries@));
                    assert(nonneg_amounts(self.entries@));
                }
                return ;
            }
            i = i + 1;
        }
        self.entries.push(entry);
        proof {
            assert(self.entries@.last() == entry);
            assert(self.entries@.drop_last() =~= s0);
            assert forall|u2: AccountId, a2: AssetId| !(u2 == user && a2 == asset) implies
                #[trigger] final(self).bal(u2, a2) == old(self).bal(u2, a2) by {
                let k2 = BalanceDataKey { user: u2, asset: a2 };
                lemma_find_push_other(s0, entry, k2);
            }
            assert(unique_keys(self.entries@));
            assert(nonneg_amounts(self.entries@));
        }
    }

    /// Credit `amount` to `user`'s balance of `asset`; refused, with
    /// nothing changed, when the sum would pass `i128::MAX`.
    pub fn add_balance(&mut self, user: AccountId, asset: AssetId, amount: i128) -> (r: Result<
        (),
        VaultError,
    >)
        requires
            old(self).wf(),
            amount >= 0,
        ensures
            final(self).wf(),
            r is Ok <==> old(self).bal(user, asset) + amount <= i128::MAX,
            r is Ok ==> final(self).bal(user, asset) == old(self).bal(user, asset) + amount,
            r is Ok ==> forall|u2: AccountId, a2: AssetId|
                !(u2 == user && a2 == asset)
                    ==> #[trigger] final(self).bal(u2, a2) == old(self).bal(u2, a2),
            r is Err ==> r == Result::<(), VaultError>::Err(VaultError::BalanceOverflow)
                && *final(self) == *old(self),
    {
        proof {
            self.lemma_bal_nonneg(user, asset);
        }
        let current = self.get_balance(user, asset);
        if amount <= i128::MAX - current {
            self.set_balance(user, asset, current + amount);
            Ok(())
        } else {
            Err(VaultError::BalanceOverflow)
        }
    }

    /// Debit `amount` from `user`'s balance of `asset`; refused, with
    /// nothing changed, when the balance does not cover it.
    pub fn subtract_balance(&mut self, user: AccountId, asset: AssetId, amount: i128) -> (r: Result<
        (),
        VaultError,
    >)
        requires
            old(self).wf(),
            amount >= 0,
        ensures
            final(self).wf(),
            r is Ok <==> old(self).bal(user, asset) >= amount,
            r is Ok ==> final(self).bal(user, asset) == old(self).bal(user, asset) - amount,
            r is Ok ==> forall|u2: AccountId, a2: AssetId|
                !(u2 == user && a2 == asset)
                    ==> #[trigger] final(self).bal(u2, a2) == old(self).bal(u2, a2),
            r is Err ==> r == Result::<(), VaultError>::Err(VaultError::InsufficientBalance)
                && *final(self) == *old(self),
    {
        let current = self.get_balance(user, asset);
        if current >= amount {
            self.set_balance(user, asset, current - amount);
            Ok(())
        } else {
            Err(VaultError::InsufficientBalance)
        }
    }

    /// A copy of the ledger, entry for entry, used to stage a
    /// multi-step mutation that must apply atomically.
    #[verifier::loop_isolation(false)]
    pub fn snapshot(&self) -> (r: Balances)
        ensures
            r.entries@ == self.entries@,
    {
        let mut out: Vec<BalanceEntry> = Vec::new();
        let mut i: usize = 0;
        while i < self.entries.len()
            invariant
                0 <= i <= self.entries.len(),
                out@ =~= self.entries@.subrange(0, i as int),
            decreases self.entries.len() - i,
        {
            out.push(self.entries[i]);
            i = i + 1;
        }
        assert(out@ =~= self.entries@);
        Balances { entries: out }
    }
}

} // verus!
