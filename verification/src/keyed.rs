//! String-keyed maps and sets, kept as entry lists with distinct keys.
use vstd::prelude::*;

use crate::text::{lemma_str_less_total, lemma_str_less_transitive, str_less, str_lt, strictly_sorted};

verus! {

/// Whether the two strings are equal.
pub fn str_eq(a: &str, b: &str) -> (r: bool)
    ensures
        r == (a@ == b@),
{
    let x = String::from_str(a);
    let y = String::from_str(b);
    x == y
}

/// A map from strings to values, held as a list of entries with distinct keys.
pub struct StrMap<V: View> {
    entries: Vec<(String, V)>,
}

impl<V: View> StrMap<V> {
    /// The keys, in entry order.
    pub closed spec fn key_seq(self) -> Seq<Seq<char>> {
        Seq::new(self.entries@.len(), |i: int| self.entries@[i].0@)
    }

    /// The values, in entry order.
    pub closed spec fn val_seq(self) -> Seq<V::V> {
        Seq::new(self.entries@.len(), |i: int| self.entries@[i].1@)
    }

    #[verifier::type_invariant]
    closed spec fn keys_distinct(self) -> bool {
        self.key_seq().no_duplicates()
    }

    proof fn lemma_lookup(self, i: int)
        requires
            self.keys_distinct(),
            0 <= i < self.entries@.len(),
        ensures
            self@.contains_key(self.key_seq()[i]),
            self@[self.key_seq()[i]] == self.val_seq()[i],
    {
        let k = self.key_seq()[i];
        assert(self.key_seq().contains(k));
        let j = self.key_seq().index_of(k);
        assert(self.key_seq()[j] == k);
    }

    /// The empty map.
    pub fn new() -> (m: Self)
        ensures
            m@ == Map::<Seq<char>, V::V>::empty(),
            m.key_seq().len() == 0,
    {
        let m = StrMap { entries: Vec::new() };
        assert(m@ =~= Map::<Seq<char>, V::V>::empty());
        m
    }

    /// The number of entries; the keys are exactly those of `key_seq`, each once.
    pub fn len(&self) -> (r: usize)
        ensures
            r == self@.dom().len(),
            r == self.key_seq().len(),
            self.key_seq().no_duplicates(),
            forall|k: Seq<char>| self@.contains_key(k) <==> self.key_seq().contains(k),
            self@.dom().finite(),
    {
        proof {
            use_type_invariant(self);
            self.key_seq().unique_seq_to_set();
            vstd::seq_lib::seq_to_set_is_finite(self.key_seq());
            assert(self@.dom() =~= self.key_seq().to_set());
        }
        self.entries.len()
    }

    /// The key of entry `i`.
    pub fn key_at(&self, i: usize) -> (r: &String)
        requires
            i < self.key_seq().len(),
        ensures
            r@ == self.key_seq()[i as int],
            self@.contains_key(r@),
    {
        proof {
            use_type_invariant(self);
            self.lemma_lookup(i as int);
        }
        &self.entries[i].0
    }

    /// The value of entry `i`.
    pub fn value_at(&self, i: usize) -> (r: &V)
        requires
            i < self.key_seq().len(),
        ensures
            self@.contains_key(self.key_seq()[i as int]),
            r@ == self@[self.key_seq()[i as int]],
    {
        proof {
            use_type_invariant(self);
            self.lemma_lookup(i as int);
        }
        &self.entries[i].1
    }

    /// The entry holding `key`, if any.
    pub fn find(&self, key: &str) -> (r: Option<usize>)
        ensures
            match r {
                Some(i) => i < self.key_seq().len() && self.key_seq()[i as int] == key@,
                None => !self@.contains_key(key@),
            },
    {
        let target = String::from_str(key);
        let n = self.entries.len();
        let mut i: usize = 0;
        while i < n
            invariant
                n == self.entries@.len(),
                i <= n,
                target@ == key@,
                forall|j: int| 0 <= j < i ==> self.key_seq()[j] != key@,
            decreases n - i,
        {
            if self.entries[i].0 == target {
                return Some(i);
            }
            i = i + 1;
        }
        None
    }

    pub fn contains_key(&self, key: &str) -> (r: bool)
        ensures
            r == self@.contains_key(key@),
    {
        match self.find(key) {
            Some(_) => true,
            None => false,
        }
    }

    pub fn get(&self, key: &str) -> (r: Option<&V>)
        ensures
            match r {
                Some(v) => self@.contains_key(key@) && self@[key@] == v@,
                None => !self@.contains_key(key@),
            },
    {
        match self.find(key) {
            Some(i) => Some(self.value_at(i)),
            None => None,
        }
    }

    /// Sets the value of entry `i`.
    pub fn set_at(&mut self, i: usize, value: V)
        requires
            i < old(self).key_seq().len(),
        ensures
            final(self)@ == old(self)@.insert(old(self).key_seq()[i as int], value@),
            final(self).key_seq() == old(self).key_seq(),
    {
        proof {
            use_type_invariant(&*self);
        }
        let ghost old_self = *self;
        let key = self.entries[i].0.clone();
        let mut entries: Vec<(String, V)> = Vec::new();
        std::mem::swap(&mut entries, &mut self.entries);
        entries.set(i, (key, value));
        proof {
            assert(Seq::new(entries@.len(), |j: int| entries@[j].0@) =~= old_self.key_seq());
        }
        self.entries = entries;
        proof {
            assert(self.key_seq() =~= old_self.key_seq());
            use_type_invariant(&*self);
            assert forall|k: Seq<char>| #[trigger] self@.contains_key(k) implies self@[k]
                == old_self@.insert(old_self.key_seq()[i as int], value@)[k] by {
                let j = self.key_seq().index_of(k);
                self.lemma_lookup(j);
                if j != i {
                    old_self.lemma_lookup(j);
                }
            }
            assert(self@ =~= old_self@.insert(old_self.key_seq()[i as int], value@));
        }
    }

    /// Maps `key` to `value`, replacing any earlier value.
    pub fn insert(&mut self, key: String, value: V)
        ensures
            final(self)@ == old(self)@.insert(key@, value@),
    {
        match self.find(key.as_str()) {
            Some(i) => {
                self.set_at(i, value);
            },
            None => {
                proof {
                    use_type_invariant(&*self);
                }
                let ghost old_self = *self;
                let mut entries: Vec<(String, V)> = Vec::new();
                std::mem::swap(&mut entries, &mut self.entries);
                entries.push((key, value));
                proof {
                    assert(Seq::new(entries@.len(), |j: int| entries@[j].0@) =~= old_self.key_seq().push(key@));
                    let ks = old_self.key_seq().push(key@);
                    assert forall|a: int, b: int| 0 <= a < ks.len() && 0 <= b < ks.len() && a != b implies ks[a] != ks[b] by {
                        if a == ks.len() - 1 {
                            assert(old_self.key_seq().contains(ks[b]));
                        } else if b == ks.len() - 1 {
                            assert(old_self.key_seq().contains(ks[a]));
                        }
                    }
                }
                self.entries = entries;
                proof {
                    assert(self.key_seq() =~= old_self.key_seq().push(key@));
                    use_type_invariant(&*self);
                    let n = old_self.entries@.len() as int;
                    assert forall|k: Seq<char>| #[trigger] self@.contains_key(k) implies self@[k]
                        == old_self@.insert(key@, value@)[k] by {
                        let j = self.key_seq().index_of(k);
                        self.lemma_lookup(j);
                        if j != n {
                            old_self.lemma_lookup(j);
                        }
                    }
                    assert forall|k: Seq<char>| #[trigger] old_self@.insert(key@, value@).contains_key(k)
                        implies self@.contains_key(k) by {
                        if k != key@ {
                            let j = old_self.key_seq().index_of(k);
                            assert(self.key_seq()[j] == k);
                        } else {
                            assert(self.key_seq()[n] == k);
                        }
                    }
                    assert(self@ =~= old_self@.insert(key@, value@));
                }
            },
        }
    }

    /// Removes `key`, returning its value if it was there.
    pub fn remove(&mut self, key: &str) -> (r: Option<V>)
        ensures
            final(self)@ == old(self)@.remove(key@),
            match r {
                Some(v) => old(self)@.contains_key(key@) && old(self)@[key@] == v@,
                None => !old(self)@.contains_key(key@),
            },
    {
        match self.find(key) {
            Some(i) => {
                proof {
                    use_type_invariant(&*self);
                    self.lemma_lookup(i as int);
                }
                let ghost old_self = *self;
                let mut entries: Vec<(String, V)> = Vec::new();
                std::mem::swap(&mut entries, &mut self.entries);
                let (_k, v) = entries.remove(i);
                proof {
                    assert(Seq::new(entries@.len(), |j: int| entries@[j].0@) =~= old_self.key_seq().remove(i as int));
                }
                self.entries = entries;
                proof {
                    assert(self.key_seq() =~= old_self.key_seq().remove(i as int));
                    use_type_invariant(&*self);
                    assert forall|k: Seq<char>| #[trigger] self@.contains_key(k) implies old_self@.remove(
                        key@,
                    ).contains_key(k) && self@[k] == old_self@.remove(key@)[k] by {
                        let j = self.key_seq().index_of(k);
                        self.lemma_lookup(j);
                        if j < i {
                            old_self.lemma_lookup(j);
                        } else {
                            old_self.lemma_lookup(j + 1);
                        }
                    }
                    assert forall|k: Seq<char>| #[trigger] old_self@.remove(key@).contains_key(k)
                        implies self@.contains_key(k) by {
                        let j = old_self.key_seq().index_of(k);
                        if j < i {
                            assert(self.key_seq()[j] == k);
                        } else {
                            assert(self.key_seq()[j - 1] == k);
                        }
                    }
                    assert(self@ =~= old_self@.remove(key@));
                }
                Some(v)
            },
            None => {
                proof {
                    assert(self@ =~= self@.remove(key@));
                }
                None
            },
        }
    }
}

impl<V: View> View for StrMap<V> {
    type V = Map<Seq<char>, V::V>;

    closed spec fn view(&self) -> Map<Seq<char>, V::V> {
        Map::new(
            |k: Seq<char>| self.key_seq().contains(k),
            |k: Seq<char>| self.val_seq()[self.key_seq().index_of(k)],
        )
    }
}

/// A set of strings.
pub struct StrSet {
    members: StrMap<()>,
}

impl StrSet {
    /// The members, in insertion order.
    pub closed spec fn member_seq(self) -> Seq<Seq<char>> {
        self.members.key_seq()
    }

    pub fn new() -> (s: Self)
        ensures
            s@ == Set::<Seq<char>>::empty(),
    {
        let s = StrSet { members: StrMap::new() };
        assert(s@ =~= Set::<Seq<char>>::empty());
        s
    }

    /// The number of members; the members are exactly those of `member_seq`, each once.
    pub fn len(&self) -> (r: usize)
        ensures
            r == self@.len(),
            r == self.member_seq().len(),
            self.member_seq().no_duplicates(),
            forall|k: Seq<char>| self@.contains(k) <==> self.member_seq().contains(k),
            self@.finite(),
    {
        self.members.len()
    }

    /// Member `i`.
    pub fn at(&self, i: usize) -> (r: &String)
        requires
            i < self.member_seq().len(),
        ensures
            r@ == self.member_seq()[i as int],
            self@.contains(r@),
    {
        self.members.key_at(i)
    }

    pub fn contains(&self, k: &str) -> (r: bool)
        ensures
            r == self@.contains(k@),
    {
        self.members.contains_key(k)
    }

    /// Adds `k`; tells whether it was new.
    pub fn insert(&mut self, k: String) -> (r: bool)
        ensures
            final(self)@ == old(self)@.insert(k@),
            r == !old(self)@.contains(k@),
    {
        let fresh = !self.members.contains_key(k.as_str());
        self.members.insert(k, ());
        assert(self@ =~= old(self)@.insert(k@));
        fresh
    }

    /// Removes `k`; tells whether it was there.
    pub fn remove(&mut self, k: &str) -> (r: bool)
        ensures
            final(self)@ == old(self)@.remove(k@),
            r == old(self)@.contains(k@),
    {
        let was = self.members.remove(k);
        assert(self@ =~= old(self)@.remove(k@));
        was.is_some()
    }

    /// The members as a list, in insertion order.
    pub fn to_vec(&self) -> (r: Vec<String>)
        ensures
            r@.map_values(|m: String| m@) == self.member_seq(),
            self.member_seq().no_duplicates(),
            self.member_seq().to_set() == self@,
    {
        let n = self.len();
        let mut out: Vec<String> = Vec::new();
        let mut i: usize = 0;
        while i < n
            invariant
                n == self.member_seq().len(),
                i <= n,
                out@.len() == i,
                forall|k: int| 0 <= k < i ==> out@[k]@ == self.member_seq()[k],
            decreases n - i,
        {
            out.push(self.at(i).clone());
            i = i + 1;
        }
        proof {
            assert(out@.map_values(|m: String| m@) =~= self.member_seq());
            assert(self.member_seq().to_set() =~= self@);
        }
        out
    }

    /// The members in increasing order of strings.
    pub fn to_sorted_vec(&self) -> (r: Vec<String>)
        ensures
            strictly_sorted(r@.map_values(|m: String| m@)),
            r@.map_values(|m: String| m@).no_duplicates(),
            r@.map_values(|m: String| m@).to_set() == self@,
    {
        let items = self.to_vec();
        let ghost ms = self.member_seq();
        let n = items.len();
        let mut out: Vec<String> = Vec::new();
        let mut i: usize = 0;
        while i < n
            invariant
                n == ms.len(),
                items@.map_values(|m: String| m@) == ms,
                ms.no_duplicates(),
                i <= n,
                strictly_sorted(out@.map_values(|m: String| m@)),
                out@.map_values(|m: String| m@).to_set() == ms.take(i as int).to_set(),
            decreases n - i,
        {
            let x = items[i].clone();
            let ghost ov = out@.map_values(|m: String| m@);
            assert(x@ == ms[i as int]);
            assert(!ov.contains(x@)) by {
                if ov.contains(x@) {
                    assert(ov.to_set().contains(x@));
                    assert(ms.take(i as int).to_set().contains(x@));
                    let j = choose|j: int| 0 <= j < i && #[trigger] ms.take(i as int)[j] == x@;
                    assert(ms[j] == ms[i as int]);
                }
            }
            let mut p: usize = 0;
            while p < out.len() && !str_lt(x.as_str(), out[p].as_str())
                invariant
                    ov == out@.map_values(|m: String| m@),
                    !ov.contains(x@),
                    p <= out.len(),
                    forall|j: int| 0 <= j < p ==> str_less(#[trigger] ov[j], x@),
                decreases out.len() - p,
            {
                proof {
                    lemma_str_less_total(x@, ov[p as int]);
                    assert(ov[p as int] != x@);
                }
                p = p + 1;
            }
            out.insert(p, x);
            proof {
                let nv = out@.map_values(|m: String| m@);
                assert(nv =~= ov.insert(p as int, x@));
                assert forall|a: int, b: int| 0 <= a < b < nv.len() implies str_less(
                    #[trigger] nv[a],
                    #[trigger] nv[b],
                ) by {
                    if b < p {
                        assert(str_less(ov[a], ov[b]));
                    } else if b == p {
                        assert(str_less(ov[a], x@));
                    } else if a < p {
                        assert(str_less(ov[a], ov[b - 1]));
                    } else if a == p {
                        if b - 1 == p {
                            assert(str_less(x@, ov[p as int]));
                        } else {
                            assert(str_less(x@, ov[p as int]));
                            assert(str_less(ov[p as int], ov[b - 1]));
                            lemma_str_less_transitive(x@, ov[p as int], ov[b - 1]);
                        }
                    } else {
                        assert(str_less(ov[a - 1], ov[b - 1]));
                    }
                }
                assert(ms.take(i + 1) =~= ms.take(i as int).push(ms[i as int]));
                assert(nv.to_set() =~= ms.take(i + 1).to_set()) by {
                    assert forall|e: Seq<char>| nv.to_set().contains(e) <==> ms.take(i + 1).to_set().contains(e) by {
                        if nv.contains(e) {
                            let k = choose|k: int| 0 <= k < nv.len() && #[trigger] nv[k] == e;
                            if k < p {
                                assert(ov[k] == e);
                                assert(ov.to_set().contains(e));
                            } else if k > p {
                                assert(ov[k - 1] == e);
                                assert(ov.to_set().contains(e));
                            } else {
                                assert(ms.take(i + 1)[i as int] == e);
                            }
                        }
                        if ms.take(i + 1).contains(e) {
                            let k = choose|k: int| 0 <= k < i + 1 && #[trigger] ms.take(i + 1)[k] == e;
                            if k < i {
                                assert(ms.take(i as int)[k] == e);
                                assert(ms.take(i as int).to_set().contains(e));
                                assert(ov.contains(e));
                                let k2 = choose|k2: int| 0 <= k2 < ov.len() && #[trigger] ov[k2] == e;
                                if k2 < p {
                                    assert(nv[k2] == e);
                                } else {
                                    assert(nv[k2 + 1] == e);
                                }
                            } else {
                                assert(nv[p as int] == e);
                            }
                        }
                    }
                }
            }
            i = i + 1;
        }
        proof {
            let ov = out@.map_values(|m: String| m@);
            assert(ms.take(n as int) =~= ms);
            assert forall|a: int, b: int| 0 <= a < ov.len() && 0 <= b < ov.len() && a != b implies ov[a] != ov[b] by {
                if a < b {
                    assert(str_less(ov[a], ov[b]));
                    lemma_str_less_total(ov[a], ov[b]);
                } else {
                    assert(str_less(ov[b], ov[a]));
                    lemma_str_less_total(ov[b], ov[a]);
                }
            }
        }
        out
    }

    /// A copy of the set.
    pub fn duplicate(&self) -> (r: Self)
        ensures
            r@ == self@,
    {
        let mut out = StrSet::new();
        let n = self.len();
        let mut i: usize = 0;
        while i < n
            invariant
                n == self.member_seq().len(),
                i <= n,
                forall|k: Seq<char>| self@.contains(k) <==> self.member_seq().contains(k),
                out@ == self.member_seq().take(i as int).to_set(),
            decreases n - i,
        {
            let k = self.at(i).clone();
            out.insert(k);
            proof {
                assert(self.member_seq().take(i + 1) =~= self.member_seq().take(i as int).push(
                    self.member_seq()[i as int],
                ));
                let t = self.member_seq().take(i as int);
                let x = self.member_seq()[i as int];
                assert forall|a: Seq<char>| t.push(x).contains(a) <==> (t.contains(a) || a == x) by {
                    if a == x {
                        assert(t.push(x)[t.len() as int] == x);
                    }
                    if t.contains(a) {
                        let j = choose|j: int| 0 <= j < t.len() && t[j] == a;
                        assert(t.push(x)[j] == a);
                    }
                }
                assert(out@ =~= self.member_seq().take(i + 1).to_set());
            }
            i = i + 1;
        }
        proof {
            assert(self.member_seq().take(n as int) =~= self.member_seq());
            assert(out@ =~= self@);
        }
        out
    }
}

impl View for StrSet {
    type V = Set<Seq<char>>;

    closed spec fn view(&self) -> Set<Seq<char>> {
        self.members@.dom()
    }
}

} // verus!
