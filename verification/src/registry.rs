//! The connection registry: the authoritative mapping from a peer address
//! to the handle of that peer's live connection actor.
//!
//! The registry is the single source of truth for "is this peer currently
//! connected". Its abstract value is a finite map from address keys to
//! connection handles; every operation is specified against that map.

use crate::addr::PeerAddr;
use vstd::prelude::*;

verus! {

/// The map denoted by two parallel sequences of keys and values, a later
/// entry winning over an earlier one with the same key.
pub open spec fn assoc_map(keys: Seq<PeerAddr>, vals: Seq<u64>) -> Map<PeerAddr, u64>
    decreases keys.len(),
{
    if keys.len() == 0 || vals.len() == 0 {
        Map::empty()
    } else {
        assoc_map(keys.drop_last(), vals.drop_last()).insert(keys.last(), vals.last())
    }
}

/// A key is in the association map exactly when it occurs among the keys.
proof fn lemma_assoc_dom(keys: Seq<PeerAddr>, vals: Seq<u64>, k: PeerAddr)
    requires
        keys.len() == vals.len(),
    ensures
        assoc_map(keys, vals).contains_key(k) <==> keys.contains(k),
    decreases keys.len(),
{
    if keys.len() == 0 {
        assert(!keys.contains(k));
    } else {
        lemma_assoc_dom(keys.drop_last(), vals.drop_last(), k);
        if keys.contains(k) {
            let i = choose|i: int| 0 <= i < keys.len() && keys[i] == k;
            if i < keys.len() - 1 {
                assert(keys.drop_last()[i] == k);
                assert(keys.drop_last().contains(k));
            }
        }
        if keys.drop_last().contains(k) {
            let i = choose|i: int| 0 <= i < keys.drop_last().len() && keys.drop_last()[i] == k;
            assert(keys[i] == k);
            assert(keys.contains(k));
        }
    }
}

/// With distinct keys, the association map sends each key to the value that
/// stands beside it.
proof fn lemma_assoc_get(keys: Seq<PeerAddr>, vals: Seq<u64>, i: int)
    requires
        keys.len() == vals.len(),
        keys.no_duplicates(),
        0 <= i < keys.len(),
    ensures
        assoc_map(keys, vals).contains_key(keys[i]),
        assoc_map(keys, vals)[keys[i]] == vals[i],
    decreases keys.len(),
{
    if i == keys.len() - 1 {
    } else {
        assert(keys.drop_last().no_duplicates());
        lemma_assoc_get(keys.drop_last(), vals.drop_last(), i);
        assert(keys.drop_last()[i] == keys[i]);
        assert(keys[i] != keys[keys.len() - 1]);
    }
}

/// Removing the entry at a distinct key's index removes exactly that key
/// from the association map.
proof fn lemma_assoc_remove(keys: Seq<PeerAddr>, vals: Seq<u64>, i: int)
    requires
        keys.len() == vals.len(),
        keys.no_duplicates(),
        0 <= i < keys.len(),
    ensures
        assoc_map(keys.remove(i), vals.remove(i)) == assoc_map(keys, vals).remove(keys[i]),
    decreases keys.len(),
{
    let k = keys[i];
    let m = assoc_map(keys, vals);
    if i == keys.len() - 1 {
        assert(keys.remove(i) =~= keys.drop_last());
        assert(vals.remove(i) =~= vals.drop_last());
        assert(!keys.drop_last().contains(k)) by {
            if keys.drop_last().contains(k) {
                let j = choose|j: int| 0 <= j < keys.drop_last().len() && keys.drop_last()[j] == k;
                assert(keys[j] == k);
                assert(false);
            }
        }
        lemma_assoc_dom(keys.drop_last(), vals.drop_last(), k);
        assert(assoc_map(keys.drop_last(), vals.drop_last()) =~= m.remove(k));
    } else {
        assert(keys.drop_last().no_duplicates());
        lemma_assoc_remove(keys.drop_last(), vals.drop_last(), i);
        assert(keys.remove(i).drop_last() =~= keys.drop_last().remove(i));
        assert(vals.remove(i).drop_last() =~= vals.drop_last().remove(i));
        assert(keys.remove(i).last() == keys.last());
        assert(vals.remove(i).last() == vals.last());
        assert(k != keys.last());
        assert(assoc_map(keys.remove(i), vals.remove(i)) == assoc_map(
            keys.drop_last().remove(i),
            vals.drop_last().remove(i),
        ).insert(keys.last(), vals.last()));
        assert(assoc_map(keys.drop_last(), vals.drop_last()).remove(k).insert(
            keys.last(),
            vals.last(),
        ) =~= m.remove(k));
    }
}

/// Removing an index keeps the remaining keys distinct.
proof fn lemma_nodup_remove(s: Seq<PeerAddr>, i: int)
    requires
        s.no_duplicates(),
        0 <= i < s.len(),
    ensures
        s.remove(i).no_duplicates(),
{
    s.remove_ensures(i);
    assert forall|p: int, q: int|
        0 <= p < s.remove(i).len() && 0 <= q < s.remove(i).len() && p != q implies s.remove(i)[p]
        != s.remove(i)[q] by {
        let p0 = if p < i { p } else { p + 1 };
        let q0 = if q < i { q } else { q + 1 };
        assert(s.remove(i)[p] == s[p0]);
        assert(s.remove(i)[q] == s[q0]);
    }
}

/// With distinct keys, removing a key's index removes its only occurrence.
proof fn lemma_remove_only_occurrence(s: Seq<PeerAddr>, i: int)
    requires
        s.no_duplicates(),
        0 <= i < s.len(),
    ensures
        !s.remove(i).contains(s[i]),
{
    s.remove_ensures(i);
    if s.remove(i).contains(s[i]) {
        let j = choose|j: int| 0 <= j < s.remove(i).len() && s.remove(i)[j] == s[i];
        let j0 = if j < i { j } else { j + 1 };
        assert(s[j0] == s[i]);
        assert(false);
    }
}

/// The registry: a finite map from peer address key to connection handle,
/// held as parallel vectors with distinct keys.
pub struct Registry {
    keys: Vec<PeerAddr>,
    vals: Vec<u64>,
}

impl View for Registry {
    type V = Map<PeerAddr, u64>;

    closed spec fn view(&self) -> Map<PeerAddr, u64> {
        assoc_map(self.keys@, self.vals@)
    }
}

impl Registry {
    #[verifier::type_invariant]
    spec fn wf(self) -> bool {
        &&& self.keys@.len() == self.vals@.len()
        &&& self.keys@.no_duplicates()
    }

    /// An empty registry: no peer is connected.
    pub fn new() -> (r: Self)
        ensures
            r@ == Map::<PeerAddr, u64>::empty(),
    {
        Registry { keys: Vec::new(), vals: Vec::new() }
    }

    /// The index of a key among the stored keys, if it occurs.
    fn find_index(&self, k: PeerAddr) -> (r: Option<usize>)
        ensures
            match r {
                Some(i) => i < self.keys@.len() && self.keys@[i as int] == k,
                None => !self.keys@.contains(k),
            },
    {
        let mut i: usize = 0;
        while i < self.keys.len()
            invariant
                i <= self.keys@.len(),
                forall|j: int| 0 <= j < i ==> self.keys@[j] != k,
            decreases self.keys@.len() - i,
        {
            if self.keys[i] == k {
                return Some(i);
            }
            i += 1;
        }
        None
    }

    /// Whether the address key is currently connected.
    pub fn contains(&self, k: PeerAddr) -> (r: bool)
        ensures
            r == self@.contains_key(k),
    {
        proof {
            use_type_invariant(&*self);
            lemma_assoc_dom(self.keys@, self.vals@, k);
        }
        match self.find_index(k) {
            Some(i) => {
                proof {
                    assert(self.keys@[i as int] == k);
                    assert(self.keys@.contains(k));
                }
                true
            },
            None => false,
        }
    }

    /// The handle registered for the address key, if any.
    pub fn get(&self, k: PeerAddr) -> (r: Option<u64>)
        ensures
            match r {
                Some(v) => self@.contains_key(k) && self@[k] == v,
                None => !self@.contains_key(k),
            },
    {
        proof {
            use_type_invariant(&*self);
            lemma_assoc_dom(self.keys@, self.vals@, k);
        }
        match self.find_index(k) {
            Some(i) => {
                proof {
                    lemma_assoc_get(self.keys@, self.vals@, i as int);
                }
                Some(self.vals[i])
            },
            None => None,
        }
    }

    /// Register a handle for an address key, replacing any earlier handle.
    pub fn insert(&mut self, k: PeerAddr, v: u64)
        ensures
            final(self)@ == old(self)@.insert(k, v),
    {
        proof {
            use_type_invariant(&*self);
        }
        let idx = self.find_index(k);
        let mut tmp = Registry { keys: Vec::new(), vals: Vec::new() };
        std::mem::swap(self, &mut tmp);
        let Registry { mut keys, mut vals } = tmp;
        let ghost keys0 = keys@;
        let ghost vals0 = vals@;
        match idx {
            Some(i) => {
                keys.remove(i);
                vals.remove(i);
                proof {
                    lemma_assoc_remove(keys0, vals0, i as int);
                    lemma_nodup_remove(keys0, i as int);
                    lemma_remove_only_occurrence(keys0, i as int);
                }
            },
            None => {},
        }
        keys.push(k);
        vals.push(v);
        proof {
            assert(keys@.drop_last() =~= keys@.take(keys@.len() - 1));
            assert(!keys@.drop_last().contains(k) ==> keys@.no_duplicates()) by {
                if !keys@.drop_last().contains(k) {
                    assert forall|p: int, q: int|
                        0 <= p < keys@.len() && 0 <= q < keys@.len() && p != q implies keys@[p]
                        != keys@[q] by {
                        if p < keys@.len() - 1 && q < keys@.len() - 1 {
                        } else if p == keys@.len() - 1 {
                            assert(keys@.drop_last()[q] == keys@[q]);
                        } else {
                            assert(keys@.drop_last()[p] == keys@[p]);
                        }
                    }
                }
            }
            match idx {
                Some(i) => {
                    assert(keys@.drop_last() =~= keys0.remove(i as int));
                    assert(vals@.drop_last() =~= vals0.remove(i as int));
                    assert(assoc_map(keys@, vals@) == assoc_map(keys0, vals0).remove(
                        keys0[i as int],
                    ).insert(k, v));
                    assert(assoc_map(keys0, vals0).remove(k).insert(k, v) =~= assoc_map(
                        keys0,
                        vals0,
                    ).insert(k, v));
                },
                None => {
                    assert(keys@.drop_last() =~= keys0);
                    assert(vals@.drop_last() =~= vals0);
                },
            }
        }
        *self = Registry { keys, vals };
    }

    /// Unregister an address key, returning the handle that was registered
    /// for it, if any.
    pub fn remove(&mut self, k: PeerAddr) -> (r: Option<u64>)
        ensures
            final(self)@ == old(self)@.remove(k),
            r == (if old(self)@.contains_key(k) {
                Some(old(self)@[k])
            } else {
                None::<u64>
            }),
    {
        proof {
            use_type_invariant(&*self);
            lemma_assoc_dom(self.keys@, self.vals@, k);
        }
        let idx = self.find_index(k);
        match idx {
            Some(i) => {
                proof {
                    lemma_assoc_get(self.keys@, self.vals@, i as int);
                }
                let mut tmp = Registry { keys: Vec::new(), vals: Vec::new() };
                std::mem::swap(self, &mut tmp);
                let Registry { mut keys, mut vals } = tmp;
                let ghost keys0 = keys@;
                let ghost vals0 = vals@;
                keys.remove(i);
                let v = vals.remove(i);
                proof {
                    lemma_assoc_remove(keys0, vals0, i as int);
                    lemma_nodup_remove(keys0, i as int);
                }
                *self = Registry { keys, vals };
                Some(v)
            },
            None => {
                proof {
                    assert(self@.remove(k) =~= self@);
                }
                None
            },
        }
    }

    /// Every currently connected address key, each exactly once. Used for
    /// bulk teardown.
    pub fn snapshot_addresses(&self) -> (r: Vec<PeerAddr>)
        ensures
            r@.no_duplicates(),
            forall|k: PeerAddr| #[trigger] r@.contains(k) <==> self@.contains_key(k),
    {
        proof {
            use_type_invariant(&*self);
        }
        let mut out: Vec<PeerAddr> = Vec::new();
        let mut i: usize = 0;
        while i < self.keys.len()
            invariant
                i <= self.keys@.len(),
                out@ == self.keys@.take(i as int),
            decreases self.keys@.len() - i,
        {
            let x = self.keys[i];
            out.push(x);
            proof {
                assert(out@ =~= self.keys@.take(i as int + 1));
            }
            i += 1;
        }
        proof {
            assert(out@ =~= self.keys@);
            assert forall|k: PeerAddr| #[trigger] out@.contains(k) <==> self@.contains_key(k) by {
                lemma_assoc_dom(self.keys@, self.vals@, k);
            }
        }
        out
    }
}

} // verus!
