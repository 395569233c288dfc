//! Point-lookup store of records keyed by a 64-bit identifier, an absent key
//! reading as `None`. Insertion order is kept, so a registry can also serve
//! lookups by index.

use vstd::prelude::*;

verus! {

/// The record the store gives a key: its first entry, if any.
pub open spec fn val_of<V>(s: Seq<(u64, V)>, k: u64) -> Option<V>
    decreases s.len(),
{
    if s.len() == 0 {
        None
    } else if s[0].0 == k {
        Some(s[0].1)
    } else {
        val_of(s.drop_first(), k)
    }
}

/// No two entries share a key.
pub open spec fn distinct_keys<V>(s: Seq<(u64, V)>) -> bool {
    forall|i: int, j: int| 0 <= i < j < s.len() ==> s[i].0 != s[j].0
}

proof fn lemma_val_absent<V>(s: Seq<(u64, V)>, k: u64)
    requires
        forall|i: int| 0 <= i < s.len() ==> s[i].0 != k,
    ensures
        val_of(s, k) is None,
    decreases s.len(),
{
    if s.len() > 0 {
        assert(forall|i: int| 0 <= i < s.drop_first().len()
            ==> s.drop_first()[i].0 != k);
        lemma_val_absent(s.drop_first(), k);
    }
}

proof fn lemma_val_first_match<V>(s: Seq<(u64, V)>, i: int, k: u64)
    requires
        0 <= i < s.len(),
        s[i].0 == k,
        forall|j: int| 0 <= j < i ==> s[j].0 != k,
    ensures
        val_of(s, k) == Some(s[i].1),
    decreases i,
{
    if i > 0 {
        assert(forall|j: int| 0 <= j < i - 1 ==> s.drop_first()[j].0 != k);
        lemma_val_first_match(s.drop_first(), i - 1, k);
    }
}

proof fn lemma_val_update_other<V>(s: Seq<(u64, V)>, i: int, e: (u64, V),
    k2: u64)
    requires
        0 <= i < s.len(),
        s[i].0 == e.0,
        k2 != e.0,
    ensures
        val_of(s.update(i, e), k2) == val_of(s, k2),
    decreases i,
{
    if i == 0 {
        assert(s.update(0, e).drop_first() =~= s.drop_first());
    } else {
        assert(s.update(i, e).drop_first() =~= s.drop_first().update(i - 1, e));
        lemma_val_update_other(s.drop_first(), i - 1, e, k2);
    }
}

proof fn lemma_val_push<V>(s: Seq<(u64, V)>, e: (u64, V), k2: u64)
    ensures
        k2 != e.0 ==> val_of(s.push(e), k2) == val_of(s, k2),
    decreases s.len(),
{
    if s.len() == 0 {
        assert(s.push(e)[0] == e);
        if k2 != e.0 {
            assert(s.push(e).drop_first() =~= Seq::<(u64, V)>::empty());
            assert(val_of(Seq::<(u64, V)>::empty(), k2) is None);
        }
    } else {
        assert(s.push(e)[0] == s[0]);
        assert(s.push(e).drop_first() =~= s.drop_first().push(e));
        lemma_val_push(s.drop_first(), e, k2);
    }
}

/// Associative store of records keyed by a 64-bit identity, keeping the
/// order in which keys first appeared.
pub struct KeyedStore<V> {
    pub pairs: Vec<(u64, V)>,
}

impl<V: Copy> KeyedStore<V> {
    /// Every key appears at most once.
    pub open spec fn wf(&self) -> bool {
        distinct_keys(self.pairs@)
    }

    /// The record stored under a key, if any.
    pub open spec fn spec_get(&self, k: u64) -> Option<V> {
        val_of(self.pairs@, k)
    }

    /// Whether a record is stored under the key.
    pub open spec fn spec_has(&self, k: u64) -> bool {
        self.spec_get(k) is Some
    }

    /// An empty store: every key reads `None`.
    pub fn new() -> (r: Self)
        ensures
            r.wf(),
            r.pairs@.len() == 0,
            forall|k: u64| r.spec_get(k) is None,
    {
        KeyedStore { pairs: Vec::new() }
    }

    /// Number of stored records.
    pub fn len(&self) -> (r: usize)
        ensures
            r == self.pairs@.len(),
    {
        self.pairs.len()
    }

    /// The key that arrived in the given position.
    pub fn key_at(&self, i: usize) -> (r: u64)
        requires
            i < self.pairs@.len(),
        ensures
            r == self.pairs@[i as int].0,
    {
        self.pairs[i].0
    }

    /// Reads the record stored under a key.
    pub fn get(&self, k: u64) -> (r: Option<V>)
        ensures
            r == self.spec_get(k),
    {
        let n = self.pairs.len();
        let mut i: usize = 0;
        while i < n
            invariant
                n == self.pairs@.len(),
                0 <= i <= n,
                forall|j: int| 0 <= j < i ==> self.pairs@[j].0 != k,
            decreases n - i,
        {
            if self.pairs[i].0 == k {
                proof {
                    lemma_val_first_match(self.pairs@, i as int, k);
                }
                return Some(self.pairs[i].1);
            }
            i += 1;
        }
        proof {
            lemma_val_absent(self.pairs@, k);
        }
        None
    }

    /// Writes the record under a key, keeping every other key's reading and
    /// the positions of the keys already present; a new key goes to the end.
    pub fn set(&mut self, k: u64, v: V)
        requires
            old(self).wf(),
        ensures
            final(self).wf(),
            final(self).spec_get(k) == Some(v),
            forall|k2: u64| k2 != k
                ==> final(self).spec_get(k2) == old(self).spec_get(k2),
            old(self).spec_has(k) ==> final(self).pairs@.len()
                == old(self).pairs@.len(),
            !old(self).spec_has(k) ==> final(self).pairs@.len()
                == old(self).pairs@.len() + 1,
            !old(self).spec_has(k) ==> final(self).pairs@[
                old(self).pairs@.len() as int].0 == k,
            forall|i: int| 0 <= i < old(self).pairs@.len()
                ==> final(self).pairs@[i].0 == old(self).pairs@[i].0,
    {
        let n = self.pairs.len();
        let mut i: usize = 0;
        while i < n
            invariant
                old(self).wf(),
                self.pairs@ == old(self).pairs@,
                n == self.pairs@.len(),
                0 <= i <= n,
                forall|j: int| 0 <= j < i ==> self.pairs@[j].0 != k,
            decreases n - i,
        {
            if self.pairs[i].0 == k {
                let e = (k, v);
                proof {
                    let s0 = self.pairs@;
                    let s2 = s0.update(i as int, e);
                    lemma_val_first_match(s0, i as int, k);
                    lemma_val_first_match(s2, i as int, k);
                    assert forall|k2: u64| k2 != k
                        implies val_of(s2, k2) == val_of(s0, k2) by {
                        lemma_val_update_other(s0, i as int, e, k2);
                    }
                    assert forall|i2: int, j2: int| 0 <= i2 < j2 < s2.len()
                        implies s2[i2].0 != s2[j2].0 by {
                        assert(s2[i2].0 == s0[i2].0);
                        assert(s2[j2].0 == s0[j2].0);
                    }
                }
                self.pairs.set(i, e);
                return;
            }
            i += 1;
        }
        let e = (k, v);
        proof {
            let s0 = self.pairs@;
            let s2 = s0.push(e);
            lemma_val_absent(s0, k);
            lemma_val_first_match(s2, s0.len() as int, k);
            assert forall|k2: u64| k2 != k
                implies val_of(s2, k2) == val_of(s0, k2) by {
                lemma_val_push(s0, e, k2);
            }
            assert forall|i2: int, j2: int| 0 <= i2 < j2 < s2.len()
                implies s2[i2].0 != s2[j2].0 by {
                if j2 < s0.len() {
                    assert(s2[i2] == s0[i2] && s2[j2] == s0[j2]);
                } else {
                    assert(s2[j2] == e);
                    assert(s2[i2] == s0[i2]);
                    assert(s0[i2].0 != k);
                }
            }
        }
        self.pairs.push(e);
    }
}

} // verus!
