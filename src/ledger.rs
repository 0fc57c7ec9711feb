use vstd::prelude::*;

verus! {

/// A public key as the raw bytes that identify it (curve tag and key data).
#[derive(Clone, Debug, PartialEq, Eq)]
pub struct PublicKey {
    pub data: Vec<u8>,
}

impl View for PublicKey {
    type V = Seq<u8>;

    open spec fn view(&self) -> Seq<u8> {
        self.data@
    }
}

/// Byte-wise comparison of two keys.
pub fn same_key(a: &PublicKey, b: &PublicKey) -> (r: bool)
    ensures
        r == (a@ == b@),
{
    let n = a.data.len();
    if n != b.data.len() {
        return false;
    }
    let mut i: usize = 0;
    while i < n
        invariant
            n == a@.len(),
            n == b@.len(),
            i <= n,
            forall|j: int| 0 <= j < i ==> a@[j] == b@[j],
        decreases n - i,
    {
        if a.data[i] != b.data[i] {
            return false;
        }
        i = i + 1;
    }
    assert(a@ =~= b@);
    true
}

/// One reserved balance and the key it can be claimed with.
#[derive(Clone, Debug, PartialEq, Eq)]
pub struct LedgerEntry {
    pub key: PublicKey,
    pub balance: u128,
}

/// No key occurs twice among the entries.
pub open spec fn keys_unique(s: Seq<LedgerEntry>) -> bool {
    forall|i: int, j: int|
        0 <= i < s.len() && 0 <= j < s.len() && i != j ==> s[i].key@ != s[j].key@
}

/// The key-to-balance mapping that a sequence of entries describes.
pub open spec fn entries_map(s: Seq<LedgerEntry>) -> Map<Seq<u8>, u128>
    decreases s.len(),
{
    if s.len() == 0 {
        Map::empty()
    } else {
        entries_map(s.drop_last()).insert(s.last().key@, s.last().balance)
    }
}

/// The sum of the balances of a sequence of entries.
pub open spec fn entries_total(s: Seq<LedgerEntry>) -> int
    decreases s.len(),
{
    if s.len() == 0 {
        0
    } else {
        entries_total(s.drop_last()) + s.last().balance
    }
}

proof fn lemma_map_absent(s: Seq<LedgerEntry>, k: Seq<u8>)
    requires
        forall|i: int| 0 <= i < s.len() ==> s[i].key@ != k,
    ensures
        !entries_map(s).contains_key(k),
    decreases s.len(),
{
    if s.len() > 0 {
        lemma_map_absent(s.drop_last(), k);
    }
}

proof fn lemma_map_lookup(s: Seq<LedgerEntry>, i: int)
    requires
        keys_unique(s),
        0 <= i < s.len(),
    ensures
        entries_map(s).contains_key(s[i].key@),
        entries_map(s)[s[i].key@] == s[i].balance,
    decreases s.len(),
{
    if i < s.len() - 1 {
        lemma_map_lookup(s.drop_last(), i);
    }
}

proof fn lemma_update(s: Seq<LedgerEntry>, i: int, e: LedgerEntry)
    requires
        keys_unique(s),
        0 <= i < s.len(),
        e.key@ == s[i].key@,
    ensures
        keys_unique(s.update(i, e)),
        entries_map(s.update(i, e)) == entries_map(s).insert(e.key@, e.balance),
        entries_total(s.update(i, e)) == entries_total(s) - s[i].balance + e.balance,
    decreases s.len(),
{
    let t = s.update(i, e);
    let k = e.key@;
    if i == s.len() - 1 {
        assert(t.drop_last() =~= s.drop_last());
        assert(entries_map(t) =~= entries_map(s).insert(k, e.balance));
    } else {
        assert(t.drop_last() =~= s.drop_last().update(i, e));
        lemma_update(s.drop_last(), i, e);
        assert(s.last().key@ != k);
        assert(entries_map(t) =~= entries_map(s).insert(k, e.balance));
    }
}

proof fn lemma_remove(s: Seq<LedgerEntry>, i: int)
    requires
        keys_unique(s),
        0 <= i < s.len(),
    ensures
        keys_unique(s.remove(i)),
        entries_map(s.remove(i)) == entries_map(s).remove(s[i].key@),
        entries_total(s.remove(i)) == entries_total(s) - s[i].balance,
    decreases s.len(),
{
    let t = s.remove(i);
    let k = s[i].key@;
    if i == s.len() - 1 {
        assert(t =~= s.drop_last());
        lemma_map_absent(s.drop_last(), k);
        assert(entries_map(t) =~= entries_map(s).remove(k));
    } else {
        assert(t.drop_last() =~= s.drop_last().remove(i));
        lemma_remove(s.drop_last(), i);
        assert(s.last().key@ != k);
        assert(entries_map(t) =~= entries_map(s).remove(k));
    }
}

proof fn lemma_push(s: Seq<LedgerEntry>, e: LedgerEntry)
    requires
        keys_unique(s),
        forall|i: int| 0 <= i < s.len() ==> s[i].key@ != e.key@,
    ensures
        keys_unique(s.push(e)),
        entries_map(s.push(e)) == entries_map(s).insert(e.key@, e.balance),
        entries_total(s.push(e)) == entries_total(s) + e.balance,
{
    assert(s.push(e).drop_last() =~= s);
}

/// The reserved balances, one per key.
pub struct Ledger {
    entries: Vec<LedgerEntry>,
}

impl View for Ledger {
    type V = Map<Seq<u8>, u128>;

    closed spec fn view(&self) -> Map<Seq<u8>, u128> {
        entries_map(self.entries@)
    }
}

impl Ledger {
    /// Every key is held at most once.
    pub closed spec fn wf(&self) -> bool {
        keys_unique(self.entries@)
    }

    /// The sum of all reserved balances.
    pub closed spec fn total(&self) -> int {
        entries_total(self.entries@)
    }

    /// An empty ledger.
    pub fn new() -> (r: Ledger)
        ensures
            r.wf(),
            r@ == Map::<Seq<u8>, u128>::empty(),
            r.total() == 0,
    {
        Ledger { entries: Vec::new() }
    }

    fn find(&self, key: &PublicKey) -> (r: Option<usize>)
        requires
            self.wf(),
        ensures
            match r {
                Some(i) => i < self.entries@.len() && self.entries@[i as int].key@ == key@,
                None => forall|i: int|
                    0 <= i < self.entries@.len() ==> self.entries@[i].key@ != key@,
            },
    {
        let mut i: usize = 0;
        while i < self.entries.len()
            invariant
                i <= self.entries@.len(),
                forall|j: int| 0 <= j < i ==> self.entries@[j].key@ != key@,
            decreases self.entries@.len() - i,
        {
            if same_key(&self.entries[i].key, key) {
                return Some(i);
            }
            i = i + 1;
        }
        None
    }

    /// The balance reserved under `key`, if any.
    pub fn get(&self, key: &PublicKey) -> (r: Option<u128>)
        requires
            self.wf(),
        ensures
            r == (if self@.contains_key(key@) {
                Some(self@[key@])
            } else {
                None::<u128>
            }),
    {
        match self.find(key) {
            Some(i) => {
                proof {
                    lemma_map_lookup(self.entries@, i as int);
                }
                Some(self.entries[i].balance)
            },
            None => {
                proof {
                    lemma_map_absent(self.entries@, key@);
                }
                None
            },
        }
    }

    /// Sets the balance reserved under `key`; returns the balance it replaced.
    pub fn insert(&mut self, key: PublicKey, balance: u128) -> (r: Option<u128>)
        requires
            old(self).wf(),
        ensures
            final(self).wf(),
            final(self)@ == old(self)@.insert(key@, balance),
            r == (if old(self)@.contains_key(key@) {
                Some(old(self)@[key@])
            } else {
                None::<u128>
            }),
            final(self).total() == old(self).total() - (if old(self)@.contains_key(key@) {
                old(self)@[key@] as int
            } else {
                0
            }) + balance,
    {
        match self.find(&key) {
            Some(i) => {
                proof {
                    lemma_map_lookup(self.entries@, i as int);
                }
                let previous = self.entries[i].balance;
                let entry = LedgerEntry { key, balance };
                proof {
                    lemma_update(self.entries@, i as int, entry);
                }
                self.entries.set(i, entry);
                Some(previous)
            },
            None => {
                proof {
                    lemma_map_absent(self.entries@, key@);
                }
                let entry = LedgerEntry { key, balance };
                proof {
                    lemma_push(self.entries@, entry);
                }
                self.entries.push(entry);
                None
            },
        }
    }

    /// Takes `key` out of the ledger; returns the balance it held.
    pub fn remove(&mut self, key: &PublicKey) -> (r: Option<u128>)
        requires
            old(self).wf(),
        ensures
            final(self).wf(),
            final(self)@ == old(self)@.remove(key@),
            r == (if old(self)@.contains_key(key@) {
                Some(old(self)@[key@])
            } else {
                None::<u128>
            }),
            final(self).total() == old(self).total() - (if old(self)@.contains_key(key@) {
                old(self)@[key@] as int
            } else {
                0
            }),
    {
        match self.find(key) {
            Some(i) => {
                proof {
                    lemma_map_lookup(self.entries@, i as int);
                    lemma_remove(self.entries@, i as int);
                }
                let entry = self.entries.remove(i);
                Some(entry.balance)
            },
            None => {
                proof {
                    lemma_map_absent(self.entries@, key@);
                    assert(self@.remove(key@) =~= self@);
                }
                None
            },
        }
    }
}

} // verus!
