//! A map from numeric ids to values that carry their own id, kept in insertion order.
use vstd::prelude::*;

verus! {

/// A value that carries its own id.
pub trait Keyed {
    spec fn key_of(&self) -> u64;

    fn key(&self) -> (r: u64)
        ensures
            r == self.key_of(),
    ;
}

/// The map that a list of keyed values stands for; a later value replaces an earlier one.
pub open spec fn keyed_map<T: Keyed>(s: Seq<T>) -> Map<u64, T>
    decreases s.len(),
{
    if s.len() == 0 {
        Map::empty()
    } else {
        keyed_map(s.drop_last()).insert(s.last().key_of(), s.last())
    }
}

/// No id occurs twice.
pub open spec fn keys_unique<T: Keyed>(s: Seq<T>) -> bool {
    forall|i: int, j: int|
        0 <= i < s.len() && 0 <= j < s.len() && i != j ==> (#[trigger] s[i]).key_of() != (
        #[trigger] s[j]).key_of()
}

/// The ids, in order.
pub open spec fn keys_of<T: Keyed>(s: Seq<T>) -> Seq<u64> {
    s.map_values(|t: T| t.key_of())
}

/// Each value of a list without repeated ids is in the map under its id.
pub proof fn lemma_keyed_map_index<T: Keyed>(s: Seq<T>, i: int)
    requires
        keys_unique(s),
        0 <= i < s.len(),
    ensures
        keyed_map(s).contains_key(s[i].key_of()),
        keyed_map(s)[s[i].key_of()] == s[i],
    decreases s.len(),
{
    if i < s.len() - 1 {
        let t = s.drop_last();
        assert(keys_unique(t)) by {
            assert forall|a: int, b: int|
                0 <= a < t.len() && 0 <= b < t.len() && a != b implies (#[trigger] t[a]).key_of()
                != (#[trigger] t[b]).key_of() by {
                assert(s[a] == t[a] && s[b] == t[b]);
            }
        }
        lemma_keyed_map_index(t, i);
        assert(s[s.len() - 1].key_of() != s[i].key_of());
    }
}

/// Each value of the map sits under its own id.
pub proof fn lemma_keyed_map_value_key<T: Keyed>(s: Seq<T>, k: u64)
    requires
        keyed_map(s).contains_key(k),
    ensures
        keyed_map(s)[k].key_of() == k,
    decreases s.len(),
{
    if s.len() > 0 && s.last().key_of() != k {
        lemma_keyed_map_value_key(s.drop_last(), k);
    }
}

/// Each value of the map is one of the list's values.
pub proof fn lemma_keyed_map_member<T: Keyed>(s: Seq<T>, k: u64)
    requires
        keyed_map(s).contains_key(k),
    ensures
        exists|j: int| 0 <= j < s.len() && s[j] == keyed_map(s)[k],
    decreases s.len(),
{
    if s.last().key_of() == k {
        assert(s[s.len() - 1] == keyed_map(s)[k]);
    } else {
        let t = s.drop_last();
        lemma_keyed_map_member(t, k);
        let j = choose|j: int| 0 <= j < t.len() && t[j] == keyed_map(t)[k];
        assert(s[j] == t[j]);
    }
}

/// With distinct ids, the map has one entry per value.
pub proof fn lemma_keyed_map_len<T: Keyed>(s: Seq<T>)
    requires
        keys_unique(s),
    ensures
        keyed_map(s).dom().finite(),
        keyed_map(s).dom().len() == s.len(),
    decreases s.len(),
{
    if s.len() > 0 {
        let t = s.drop_last();
        assert(keys_unique(t)) by {
            assert forall|a: int, b: int|
                0 <= a < t.len() && 0 <= b < t.len() && a != b implies (#[trigger] t[a]).key_of()
                != (#[trigger] t[b]).key_of() by {
                assert(s[a] == t[a] && s[b] == t[b]);
            }
        }
        lemma_keyed_map_len(t);
        assert forall|j: int| 0 <= j < t.len() implies (#[trigger] t[j]).key_of() != s.last().key_of() by {
            assert(s[j] == t[j]);
            assert(s[s.len() - 1] == s.last());
        }
        lemma_keyed_map_absent(t, s.last().key_of());
    }
}

/// An id that no value has is not in the map.
pub proof fn lemma_keyed_map_absent<T: Keyed>(s: Seq<T>, k: u64)
    requires
        forall|j: int| 0 <= j < s.len() ==> (#[trigger] s[j]).key_of() != k,
    ensures
        !keyed_map(s).contains_key(k),
    decreases s.len(),
{
    if s.len() > 0 {
        let t = s.drop_last();
        assert forall|j: int| 0 <= j < t.len() implies (#[trigger] t[j]).key_of() != k by {
            assert(s[j] == t[j]);
        }
        lemma_keyed_map_absent(t, k);
        assert(s[s.len() - 1].key_of() != k);
    }
}

/// The map's domain is exactly the ids of the list.
pub proof fn lemma_keyed_map_dom<T: Keyed>(s: Seq<T>, k: u64)
    ensures
        keyed_map(s).contains_key(k) <==> exists|j: int| 0 <= j < s.len() && (#[trigger] s[j]).key_of() == k,
    decreases s.len(),
{
    if s.len() > 0 {
        let t = s.drop_last();
        lemma_keyed_map_dom(t, k);
        if keyed_map(s).contains_key(k) {
            if s.last().key_of() == k {
                assert(s[s.len() - 1].key_of() == k);
            } else {
                let j = choose|j: int| 0 <= j < t.len() && (#[trigger] t[j]).key_of() == k;
                assert(s[j] == t[j]);
            }
        }
        if exists|j: int| 0 <= j < s.len() && (#[trigger] s[j]).key_of() == k {
            let j = choose|j: int| 0 <= j < s.len() && (#[trigger] s[j]).key_of() == k;
            if j < s.len() - 1 {
                assert(t[j] == s[j]);
            }
        }
    }
}

proof fn lemma_keyed_map_update<T: Keyed>(s: Seq<T>, i: int, e: T)
    requires
        keys_unique(s),
        0 <= i < s.len(),
        s[i].key_of() == e.key_of(),
    ensures
        keyed_map(s.update(i, e)) == keyed_map(s).insert(e.key_of(), e),
        keys_unique(s.update(i, e)),
    decreases s.len(),
{
    let u = s.update(i, e);
    assert(keys_unique(u)) by {
        assert forall|a: int, b: int|
            0 <= a < u.len() && 0 <= b < u.len() && a != b implies (#[trigger] u[a]).key_of() != (
            #[trigger] u[b]).key_of() by {
            assert(s[a].key_of() != s[b].key_of());
        }
    }
    if i == s.len() - 1 {
        assert(u.drop_last() =~= s.drop_last());
        assert(keyed_map(u) =~= keyed_map(s).insert(e.key_of(), e));
    } else {
        let t = s.drop_last();
        assert(u.drop_last() =~= t.update(i, e));
        assert(keys_unique(t)) by {
            assert forall|a: int, b: int|
                0 <= a < t.len() && 0 <= b < t.len() && a != b implies (#[trigger] t[a]).key_of()
                != (#[trigger] t[b]).key_of() by {
                assert(s[a] == t[a] && s[b] == t[b]);
            }
        }
        lemma_keyed_map_update(t, i, e);
        assert(s[s.len() - 1].key_of() != e.key_of());
        assert(keyed_map(u) =~= keyed_map(s).insert(e.key_of(), e));
    }
}

/// A map from ids to values, in insertion order, each id at most once.
#[derive(Debug)]
pub struct IdMap<T> {
    items: Vec<T>,
}

impl<T: Keyed> View for IdMap<T> {
    type V = Map<u64, T>;

    open spec fn view(&self) -> Map<u64, T> {
        keyed_map(self.seq())
    }
}

impl<T: Keyed> IdMap<T> {
    /// The values, in order.
    pub closed spec fn seq(&self) -> Seq<T> {
        self.items@
    }

    /// No id occurs twice.
    pub open spec fn wf(&self) -> bool {
        keys_unique(self.seq())
    }

    /// An empty table.
    pub fn new() -> (r: Self)
        ensures
            r.wf(),
            r@ == Map::<u64, T>::empty(),
            r.seq() == Seq::<T>::empty(),
    {
        IdMap { items: Vec::new() }
    }

    /// The number of values.
    pub fn len(&self) -> (r: usize)
        ensures
            r == self.seq().len(),
    {
        self.items.len()
    }

    /// The value at a position.
    pub fn at(&self, i: usize) -> (r: &T)
        requires
            i < self.seq().len(),
        ensures
            *r == self.seq()[i as int],
    {
        &self.items[i]
    }

    /// The position of the value with id `k`.
    pub fn find(&self, k: u64) -> (r: Option<usize>)
        requires
            self.wf(),
        ensures
            r matches Some(i) ==> i < self.seq().len() && self.seq()[i as int].key_of() == k
                && self@.contains_key(k) && self@[k] == self.seq()[i as int],
            r is None ==> !self@.contains_key(k),
    {
        let mut i: usize = 0;
        while i < self.items.len()
            invariant
                self.wf(),
                i <= self.items@.len(),
                forall|j: int| 0 <= j < i ==> (#[trigger] self.items@[j]).key_of() != k,
            decreases self.items@.len() - i,
        {
            if self.items[i].key() == k {
                proof {
                    lemma_keyed_map_index(self.items@, i as int);
                }
                return Some(i);
            }
            i = i + 1;
        }
        proof {
            lemma_keyed_map_absent(self.items@, k);
        }
        None
    }

    /// Whether a value has this id.
    pub fn contains(&self, k: u64) -> (r: bool)
        requires
            self.wf(),
        ensures
            r == self@.contains_key(k),
    {
        self.find(k).is_some()
    }

    /// The value with this id, if any.
    pub fn get(&self, k: u64) -> (r: Option<&T>)
        requires
            self.wf(),
        ensures
            r matches Some(v) ==> self@.contains_key(k) && *v == self@[k] && v.key_of() == k,
            r is None ==> !self@.contains_key(k),
    {
        match self.find(k) {
            Some(i) => Some(&self.items[i]),
            None => None,
        }
    }

    /// Puts `item` under its id: in place of the value with that id, or at the end.
    pub fn upsert(&mut self, item: T)
        requires
            old(self).wf(),
        ensures
            final(self).wf(),
            final(self)@ == old(self)@.insert(item.key_of(), item),
            old(self)@.contains_key(item.key_of()) ==> keys_of(final(self).seq()) == keys_of(
                old(self).seq(),
            ),
            !old(self)@.contains_key(item.key_of()) ==> keys_of(final(self).seq()) == keys_of(
                old(self).seq(),
            ).push(item.key_of()),
    {
        let k = item.key();
        match self.find(k) {
            Some(i) => {
                proof {
                    lemma_keyed_map_update(self.items@, i as int, item);
                }
                let ghost before = self.items@;
                self.items.set(i, item);
                assert(keys_of(self.items@) =~= keys_of(before));
            },
            None => {
                let ghost before = self.items@;
                proof {
                    lemma_keyed_map_dom(before, k);
                }
                self.items.push(item);
                assert(self.items@.drop_last() =~= before);
                assert(keys_unique(self.items@)) by {
                    assert forall|a: int, b: int|
                        0 <= a < self.items@.len() && 0 <= b < self.items@.len() && a != b implies (
                        #[trigger] self.items@[a]).key_of() != (
                        #[trigger] self.items@[b]).key_of() by {
                        if a < before.len() && b < before.len() {
                            assert(before[a] == self.items@[a] && before[b] == self.items@[b]);
                        } else if a < before.len() {
                            assert(before[a] == self.items@[a]);
                        } else {
                            assert(before[b] == self.items@[b]);
                        }
                    }
                }
                assert(keys_of(self.items@) =~= keys_of(before).push(k));
            },
        }
    }

    /// Drops the values whose id `keep` rejects, keeping the order of the others.
    pub fn retain_ids(&mut self, keep: &Vec<u64>)
        requires
            old(self).wf(),
        ensures
            final(self).wf(),
            forall|k: u64|
                #![trigger final(self)@.contains_key(k)]
                final(self)@.contains_key(k) <==> (old(self)@.contains_key(k) && keep@.contains(k)),
            forall|k: u64| #[trigger] final(self)@.contains_key(k) ==> final(self)@[k] == old(self)@[k],
    {
        let ghost before = self.items@;
        let mut rest: Vec<T> = Vec::new();
        std::mem::swap(&mut rest, &mut self.items);
        let mut kept: Vec<T> = Vec::new();
        while rest.len() > 0
            invariant
                keys_unique(before),
                rest@ == before.take(rest@.len() as int),
                rest@.len() <= before.len(),
                keys_unique(kept@),
                forall|j: int|
                    #![trigger kept@[j]]
                    0 <= j < kept@.len() ==> exists|i: int|
                        rest@.len() <= i < before.len() && before[i] == kept@[j],
                forall|i: int|
                    #![trigger before[i]]
                    rest@.len() <= i < before.len() && keep@.contains(before[i].key_of())
                        ==> exists|j: int| 0 <= j < kept@.len() && kept@[j] == before[i],
                forall|j: int|
                    #![trigger kept@[j]]
                    0 <= j < kept@.len() ==> keep@.contains(kept@[j].key_of()),
            decreases rest@.len(),
        {
            let item = rest.pop().unwrap();
            let n = rest.len();
            assert(before[n as int] == item);
            let mut found = false;
            let mut j: usize = 0;
            let k = item.key();
            while j < keep.len()
                invariant
                    j <= keep@.len(),
                    found == (exists|x: int| 0 <= x < j && keep@[x] == k),
                decreases keep@.len() - j,
            {
                if keep[j] == k {
                    found = true;
                }
                j = j + 1;
            }
            assert(found == keep@.contains(k));
            if found {
                let ghost kb = kept@;
                kept.insert(0, item);
                assert(kept@ =~= seq![before[n as int]] + kb);
                assert forall|a: int, b: int|
                    0 <= a < kept@.len() && 0 <= b < kept@.len() && a != b implies (
                    #[trigger] kept@[a]).key_of() != (#[trigger] kept@[b]).key_of() by {
                    if a > 0 && b > 0 {
                        assert(kept@[a] == kb[a - 1] && kept@[b] == kb[b - 1]);
                    } else if a == 0 {
                        assert(kept@[b] == kb[b - 1]);
                        let i = choose|i: int| n < i < before.len() && before[i] == kb[b - 1];
                        assert(before[i].key_of() != before[n as int].key_of());
                    } else {
                        assert(kept@[a] == kb[a - 1]);
                        let i = choose|i: int| n < i < before.len() && before[i] == kb[a - 1];
                        assert(before[i].key_of() != before[n as int].key_of());
                    }
                }
                assert forall|x: int| #![trigger kept@[x]] 0 <= x < kept@.len() implies exists|i: int|
                    n <= i < before.len() && before[i] == kept@[x] by {
                    if x > 0 {
                        assert(kept@[x] == kb[x - 1]);
                    } else {
                        assert(before[n as int] == kept@[0]);
                    }
                }
                assert forall|i: int|
                    #![trigger before[i]]
                    n <= i < before.len() && keep@.contains(before[i].key_of()) implies exists|x: int|
                        0 <= x < kept@.len() && kept@[x] == before[i] by {
                    if i == n {
                        assert(kept@[0] == before[i]);
                    } else {
                        let x = choose|x: int| 0 <= x < kb.len() && kb[x] == before[i];
                        assert(kept@[x + 1] == before[i]);
                    }
                }
            }
            assert(rest@ =~= before.take(n as int));
        }
        proof {
            assert forall|k: u64|
                #![trigger keyed_map(kept@).contains_key(k)]
                keyed_map(kept@).contains_key(k) <==> (keyed_map(before).contains_key(k)
                    && keep@.contains(k)) by {
                lemma_keyed_map_dom(kept@, k);
                lemma_keyed_map_dom(before, k);
                if keyed_map(kept@).contains_key(k) {
                    let j = choose|j: int| 0 <= j < kept@.len() && (#[trigger] kept@[j]).key_of() == k;
                    let i = choose|i: int| 0 <= i < before.len() && before[i] == kept@[j];
                    assert(before[i].key_of() == k);
                }
                if keyed_map(before).contains_key(k) && keep@.contains(k) {
                    let i = choose|i: int| 0 <= i < before.len() && (#[trigger] before[i]).key_of() == k;
                    let j = choose|j: int| 0 <= j < kept@.len() && kept@[j] == before[i];
                    assert(kept@[j].key_of() == k);
                }
            }
            assert forall|k: u64| #[trigger] keyed_map(kept@).contains_key(k) implies keyed_map(
                kept@,
            )[k] == keyed_map(before)[k] by {
                lemma_keyed_map_dom(kept@, k);
                let j = choose|j: int| 0 <= j < kept@.len() && (#[trigger] kept@[j]).key_of() == k;
                let i = choose|i: int| 0 <= i < before.len() && before[i] == kept@[j];
                lemma_keyed_map_index(kept@, j);
                lemma_keyed_map_index(before, i);
            }
        }
        self.items = kept;
    }

    /// Drops the value with id `k`.
    pub fn remove(&mut self, k: u64)
        requires
            old(self).wf(),
        ensures
            final(self).wf(),
            final(self)@ == old(self)@.remove(k),
    {
        match self.find(k) {
            Some(i) => {
                let ghost before = self.items@;
                self.items.remove(i);
                let ghost after = self.items@;
                assert(after =~= before.subrange(0, i as int) + before.subrange(i + 1, before.len() as int));
                assert(keys_unique(after)) by {
                    assert forall|a: int, b: int|
                        0 <= a < after.len() && 0 <= b < after.len() && a != b implies (
                        #[trigger] after[a]).key_of() != (#[trigger] after[b]).key_of() by {
                        let a2 = if a < i { a } else { a + 1 };
                        let b2 = if b < i { b } else { b + 1 };
                        assert(after[a] == before[a2] && after[b] == before[b2]);
                    }
                }
                assert forall|x: u64| #[trigger] keyed_map(after).contains_key(x) == keyed_map(
                    before,
                ).remove(k).contains_key(x) by {
                    lemma_keyed_map_dom(after, x);
                    lemma_keyed_map_dom(before, x);
                    if keyed_map(after).contains_key(x) {
                        let j = choose|j: int| 0 <= j < after.len() && (#[trigger] after[j]).key_of() == x;
                        let j2 = if j < i { j } else { j + 1 };
                        assert(after[j] == before[j2]);
                        assert(before[j2].key_of() != before[i as int].key_of());
                    }
                    if keyed_map(before).remove(k).contains_key(x) {
                        let j = choose|j: int| 0 <= j < before.len() && (#[trigger] before[j]).key_of() == x;
                        assert(j != i);
                        let j2 = if j < i { j } else { j - 1 };
                        assert(after[j2] == before[j]);
                    }
                }
                assert forall|x: u64| #[trigger] keyed_map(after).contains_key(x) implies keyed_map(
                    after,
                )[x] == keyed_map(before)[x] by {
                    lemma_keyed_map_dom(after, x);
                    let j = choose|j: int| 0 <= j < after.len() && (#[trigger] after[j]).key_of() == x;
                    let j2 = if j < i { j } else { j + 1 };
                    assert(after[j] == before[j2]);
                    lemma_keyed_map_index(after, j);
                    lemma_keyed_map_index(before, j2);
                }
                assert(keyed_map(after) =~= keyed_map(before).remove(k));
            },
            None => {
                assert(self@ =~= self@.remove(k));
            },
        }
    }

    /// The ids, in order.
    pub fn keys(&self) -> (r: Vec<u64>)
        requires
            self.wf(),
        ensures
            r@ == keys_of(self.seq()),
            forall|k: u64| #[trigger] r@.contains(k) <==> self@.contains_key(k),
    {
        let mut r: Vec<u64> = Vec::new();
        let mut i: usize = 0;
        while i < self.items.len()
            invariant
                i <= self.items@.len(),
                r@ == keys_of(self.items@.take(i as int)),
            decreases self.items@.len() - i,
        {
            r.push(self.items[i].key());
            i = i + 1;
            assert(r@ =~= keys_of(self.items@.take(i as int)));
        }
        assert(self.items@.take(self.items@.len() as int) =~= self.items@);
        proof {
            assert forall|k: u64| #[trigger] r@.contains(k) <==> self@.contains_key(k) by {
                lemma_keyed_map_dom(self.items@, k);
                if r@.contains(k) {
                    let j = choose|j: int| 0 <= j < r@.len() && r@[j] == k;
                    assert(self.items@[j].key_of() == k);
                }
                if self@.contains_key(k) {
                    let j = choose|j: int| 0 <= j < self.items@.len() && (#[trigger] self.items@[j]).key_of() == k;
                    assert(r@[j] == k);
                }
            }
        }
        r
    }

    /// Drops every value.
    pub fn clear(&mut self)
        ensures
            final(self).wf(),
            final(self)@ == Map::<u64, T>::empty(),
    {
        self.items = Vec::new();
    }
}

} // verus!
