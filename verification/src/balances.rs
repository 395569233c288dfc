//! Point-lookup balance store: account -> amount, an absent entry meaning
//! zero. Backed by a vector of entries with pairwise-distinct accounts, with
//! the sum of all amounts available to specifications, so that a ledger can
//! tie a running total to its entries.

use vstd::prelude::*;

verus! {

/// One account's balance.
#[derive(Clone, Copy, Debug, PartialEq, Eq, Structural)]
pub struct BalanceEntry {
    pub account: u64,
    pub amount: u128,
}

/// The balance the store gives an account: its first entry, or zero.
pub open spec fn bal_of(s: Seq<BalanceEntry>, k: u64) -> u128
    decreases s.len(),
{
    if s.len() == 0 {
        0u128
    } else if s[0].account == k {
        s[0].amount
    } else {
        bal_of(s.drop_first(), k)
    }
}

/// Sum of all amounts held in the store.
pub open spec fn sum_amounts(s: Seq<BalanceEntry>) -> int
    decreases s.len(),
{
    if s.len() == 0 {
        0
    } else {
        s[0].amount + sum_amounts(s.drop_first())
    }
}

/// No two entries name the same account.
pub open spec fn unique_keys(s: Seq<BalanceEntry>) -> bool {
    forall|i: int, j: int|
        0 <= i < j < s.len() ==> s[i].account != s[j].account
}

pub proof fn lemma_sum_nonneg(s: Seq<BalanceEntry>)
    ensures
        sum_amounts(s) >= 0,
    decreases s.len(),
{
    if s.len() > 0 {
        lemma_sum_nonneg(s.drop_first());
    }
}

pub proof fn lemma_bal_le_sum(s: Seq<BalanceEntry>, k: u64)
    ensures
        bal_of(s, k) <= sum_amounts(s),
    decreases s.len(),
{
    if s.len() > 0 {
        if s[0].account == k {
            lemma_sum_nonneg(s.drop_first());
        } else {
            lemma_bal_le_sum(s.drop_first(), k);
        }
    }
}

pub proof fn lemma_two_bals_le_sum(s: Seq<BalanceEntry>, k1: u64, k2: u64)
    requires
        k1 != k2,
    ensures
        bal_of(s, k1) + bal_of(s, k2) <= sum_amounts(s),
    decreases s.len(),
{
    if s.len() > 0 {
        if s[0].account == k1 {
            lemma_bal_le_sum(s.drop_first(), k2);
        } else if s[0].account == k2 {
            lemma_bal_le_sum(s.drop_first(), k1);
        } else {
            lemma_two_bals_le_sum(s.drop_first(), k1, k2);
        }
    }
}

proof fn lemma_bal_absent(s: Seq<BalanceEntry>, k: u64)
    requires
        forall|i: int| 0 <= i < s.len() ==> s[i].account != k,
    ensures
        bal_of(s, k) == 0,
    decreases s.len(),
{
    if s.len() > 0 {
        assert(forall|i: int| 0 <= i < s.drop_first().len()
            ==> s.drop_first()[i].account != k);
        lemma_bal_absent(s.drop_first(), k);
    }
}

proof fn lemma_bal_first_match(s: Seq<BalanceEntry>, i: int, k: u64)
    requires
        0 <= i < s.len(),
        s[i].account == k,
        forall|j: int| 0 <= j < i ==> s[j].account != k,
    ensures
        bal_of(s, k) == s[i].amount,
    decreases i,
{
    if i > 0 {
        assert(forall|j: int| 0 <= j < i - 1
            ==> s.drop_first()[j].account != k);
        lemma_bal_first_match(s.drop_first(), i - 1, k);
    }
}

proof fn lemma_sum_update(s: Seq<BalanceEntry>, i: int, e: BalanceEntry)
    requires
        0 <= i < s.len(),
    ensures
        sum_amounts(s.update(i, e)) == sum_amounts(s) - s[i].amount + e.amount,
    decreases i,
{
    if i == 0 {
        assert(s.update(0, e).drop_first() =~= s.drop_first());
    } else {
        assert(s.update(i, e).drop_first() =~= s.drop_first().update(i - 1, e));
        lemma_sum_update(s.drop_first(), i - 1, e);
    }
}

proof fn lemma_bal_update(s: Seq<BalanceEntry>, i: int, e: BalanceEntry)
    requires
        0 <= i < s.len(),
        s[i].account == e.account,
        forall|j: int| 0 <= j < i ==> s[j].account != e.account,
    ensures
        bal_of(s.update(i, e), e.account) == e.amount,
        forall|k2: u64| k2 != e.account
            ==> bal_of(s.update(i, e), k2) == bal_of(s, k2),
    decreases i,
{
    lemma_bal_first_match(s.update(i, e), i, e.account);
    assert forall|k2: u64| k2 != e.account
        implies bal_of(s.update(i, e), k2) == bal_of(s, k2) by {
        lemma_bal_update_other(s, i, e, k2);
    }
}

proof fn lemma_bal_update_other(s: Seq<BalanceEntry>, i: int, e: BalanceEntry,
    k2: u64)
    requires
        0 <= i < s.len(),
        s[i].account == e.account,
        k2 != e.account,
    ensures
        bal_of(s.update(i, e), k2) == bal_of(s, k2),
    decreases i,
{
    if i == 0 {
        assert(s.update(0, e).drop_first() =~= s.drop_first());
    } else {
        assert(s.update(i, e).drop_first() =~= s.drop_first().update(i - 1, e));
        lemma_bal_update_other(s.drop_first(), i - 1, e, k2);
    }
}

proof fn lemma_sum_push(s: Seq<BalanceEntry>, e: BalanceEntry)
    ensures
        sum_amounts(s.push(e)) == sum_amounts(s) + e.amount,
    decreases s.len(),
{
    if s.len() == 0 {
        assert(s.push(e)[0] == e);
        assert(s.push(e).drop_first() =~= Seq::<BalanceEntry>::empty());
        assert(sum_amounts(Seq::<BalanceEntry>::empty()) == 0);
    } else {
        assert(s.push(e)[0] == s[0]);
        assert(s.push(e).drop_first() =~= s.drop_first().push(e));
        lemma_sum_push(s.drop_first(), e);
    }
}

proof fn lemma_bal_push(s: Seq<BalanceEntry>, e: BalanceEntry, k2: u64)
    ensures
        k2 == e.account && (forall|i: int| 0 <= i < s.len()
            ==> s[i].account != e.account)
            ==> bal_of(s.push(e), k2) == e.amount,
        k2 != e.account ==> bal_of(s.push(e), k2) == bal_of(s, k2),
    decreases s.len(),
{
    if s.len() == 0 {
        assert(s.push(e)[0] == e);
        if k2 != e.account {
            assert(s.push(e).drop_first() =~= Seq::<BalanceEntry>::empty());
            assert(bal_of(Seq::<BalanceEntry>::empty(), k2) == 0);
        }
    } else {
        assert(s.push(e)[0] == s[0]);
        assert(s.push(e).drop_first() =~= s.drop_first().push(e));
        lemma_bal_push(s.drop_first(), e, k2);
    }
}

/// Associative store of balances keyed by account identity.
pub struct BalanceMap {
    pub entries: Vec<BalanceEntry>,
}

impl BalanceMap {
    /// Every account appears at most once.
    pub open spec fn wf(&self) -> bool {
        unique_keys(self.entries@)
    }

    /// The balance recorded for an account, zero when absent.
    pub open spec fn spec_get(&self, k: u64) -> u128 {
        bal_of(self.entries@, k)
    }

    /// Sum of every recorded balance.
    pub open spec fn spec_sum(&self) -> int {
        sum_amounts(self.entries@)
    }

    /// An empty store: every account reads zero.
    pub fn new() -> (r: Self)
        ensures
            r.wf(),
            r.entries@.len() == 0,
            r.spec_sum() == 0,
            forall|k: u64| r.spec_get(k) == 0,
    {
        BalanceMap { entries: Vec::new() }
    }

    /// Reads an account's balance.
    pub fn get(&self, k: u64) -> (r: u128)
        ensures
            r == self.spec_get(k),
    {
        let n = self.entries.len();
        let mut i: usize = 0;
        while i < n
            invariant
                n == self.entries@.len(),
                0 <= i <= n,
                forall|j: int| 0 <= j < i ==> self.entries@[j].account != k,
            decreases n - i,
        {
            if self.entries[i].account == k {
                proof {
                    lemma_bal_first_match(self.entries@, i as int, k);
                }
                return self.entries[i].amount;
            }
            i += 1;
        }
        proof {
            lemma_bal_absent(self.entries@, k);
        }
        0
    }

    /// Writes an account's balance, keeping every other account's reading
    /// and moving the sum by exactly the difference.
    pub fn set(&mut self, k: u64, v: u128)
        requires
            old(self).wf(),
        ensures
            final(self).wf(),
            final(self).spec_get(k) == v,
            forall|k2: u64| k2 != k
                ==> final(self).spec_get(k2) == old(self).spec_get(k2),
            final(self).spec_sum()
                == old(self).spec_sum() - old(self).spec_get(k) + v,
    {
        let n = self.entries.len();
        let mut i: usize = 0;
        while i < n
            invariant
                old(self).wf(),
                self.entries@ == old(self).entries@,
                n == self.entries@.len(),
                0 <= i <= n,
                forall|j: int| 0 <= j < i ==> self.entries@[j].account != k,
            decreases n - i,
        {
            if self.entries[i].account == k {
                let e = BalanceEntry { account: k, amount: v };
                proof {
                    let s0 = self.entries@;
                    let s2 = s0.update(i as int, e);
                    lemma_bal_first_match(s0, i as int, k);
                    lemma_bal_update(s0, i as int, e);
                    lemma_sum_update(s0, i as int, e);
                    assert forall|i2: int, j2: int| 0 <= i2 < j2 < s2.len()
                        implies s2[i2].account != s2[j2].account by {
                        assert(s2[i2].account == s0[i2].account);
                        assert(s2[j2].account == s0[j2].account);
                    }
                }
                self.entries.set(i, e);
                return;
            }
            i += 1;
        }
        let e = BalanceEntry { account: k, amount: v };
        proof {
            let s0 = self.entries@;
            let s2 = s0.push(e);
            lemma_bal_absent(s0, k);
            lemma_sum_push(s0, e);
            assert forall|k2: u64|
                bal_of(s2, k2)
                    == (if k2 == k { v } else { bal_of(s0, k2) }) by {
                lemma_bal_push(s0, e, k2);
            }
            assert forall|i2: int, j2: int| 0 <= i2 < j2 < s2.len()
                implies s2[i2].account != s2[j2].account by {
                if j2 < s0.len() {
                    assert(s2[i2] == s0[i2] && s2[j2] == s0[j2]);
                } else {
                    assert(s2[j2] == e);
                    assert(s2[i2] == s0[i2]);
                    assert(s0[i2].account != k);
                }
            }
        }
        self.entries.push(e);
    }
}

} // verus!
