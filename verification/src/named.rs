//! A small map from names to values, kept as a list in which the last entry of a name counts.
use vstd::prelude::*;

verus! {

/// The map that a list of named entries stands for: a later entry of a name replaces an
/// earlier one.
pub open spec fn map_of<V>(s: Seq<(String, V)>) -> Map<Seq<char>, V>
    decreases s.len(),
{
    if s.len() == 0 {
        Map::empty()
    } else {
        map_of(s.drop_last()).insert(s.last().0@, s.last().1)
    }
}

/// Index `i` holds the last entry named `k`.
pub open spec fn last_of<V>(s: Seq<(String, V)>, k: Seq<char>, i: int) -> bool {
    &&& 0 <= i < s.len()
    &&& s[i].0@ == k
    &&& forall|j: int| i < j < s.len() ==> #[trigger] s[j].0@ != k
}

proof fn lemma_map_of_last<V>(s: Seq<(String, V)>, k: Seq<char>, i: int)
    requires
        last_of(s, k, i),
    ensures
        map_of(s).contains_key(k),
        map_of(s)[k] == s[i].1,
    decreases s.len(),
{
    if i < s.len() - 1 {
        let t = s.drop_last();
        assert(s[s.len() - 1].0@ != k);
        assert forall|j: int| i < j < t.len() implies #[trigger] t[j].0@ != k by {
            assert(s[j].0@ != k);
        }
        lemma_map_of_last(t, k, i);
    }
}

proof fn lemma_map_of_absent<V>(s: Seq<(String, V)>, k: Seq<char>)
    requires
        forall|j: int| 0 <= j < s.len() ==> #[trigger] s[j].0@ != k,
    ensures
        !map_of(s).contains_key(k),
    decreases s.len(),
{
    if s.len() > 0 {
        let t = s.drop_last();
        assert forall|j: int| 0 <= j < t.len() implies #[trigger] t[j].0@ != k by {
            assert(s[j].0@ != k);
        }
        lemma_map_of_absent(t, k);
        assert(s[s.len() - 1].0@ != k);
    }
}

proof fn lemma_map_of_update<V>(s: Seq<(String, V)>, i: int, e: (String, V))
    requires
        last_of(s, e.0@, i),
    ensures
        map_of(s.update(i, e)) == map_of(s).insert(e.0@, e.1),
    decreases s.len(),
{
    let u = s.update(i, e);
    if i == s.len() - 1 {
        assert(u.drop_last() =~= s.drop_last());
        assert(map_of(u) =~= map_of(s).insert(e.0@, e.1));
    } else {
        let t = s.drop_last();
        assert(u.drop_last() =~= t.update(i, e));
        assert forall|j: int| i < j < t.len() implies #[trigger] t[j].0@ != e.0@ by {
            assert(s[j].0@ != e.0@);
        }
        lemma_map_of_update(t, i, e);
        assert(s[s.len() - 1].0@ != e.0@);
        assert(map_of(u) =~= map_of(s).insert(e.0@, e.1));
    }
}

/// The entries of `s` not named `k`.
pub open spec fn without<V>(s: Seq<(String, V)>, k: Seq<char>) -> Seq<(String, V)>
    decreases s.len(),
{
    if s.len() == 0 {
        s
    } else if s.last().0@ == k {
        without(s.drop_last(), k)
    } else {
        without(s.drop_last(), k).push(s.last())
    }
}

proof fn lemma_map_of_without<V>(s: Seq<(String, V)>, k: Seq<char>)
    ensures
        map_of(without(s, k)) == map_of(s).remove(k),
    decreases s.len(),
{
    if s.len() > 0 {
        lemma_map_of_without(s.drop_last(), k);
        let w = without(s.drop_last(), k);
        if s.last().0@ != k {
            assert(without(s, k).drop_last() =~= w);
        }
        assert(map_of(without(s, k)) =~= map_of(s).remove(k));
    }
}

/// A map from names to values.
#[derive(Debug, Clone)]
pub struct NamedMap<V> {
    entries: Vec<(String, V)>,
}

impl<V: Copy> View for NamedMap<V> {
    type V = Map<Seq<char>, V>;

    open spec fn view(&self) -> Map<Seq<char>, V> {
        map_of(self.entries_view())
    }
}

impl<V: Copy> NamedMap<V> {
    /// The entries, in order.
    pub closed spec fn entries_view(&self) -> Seq<(String, V)> {
        self.entries@
    }

    /// An empty table.
    pub fn new() -> (r: Self)
        ensures
            r@ == Map::<Seq<char>, V>::empty(),
    {
        NamedMap { entries: Vec::new() }
    }

    /// The map holding the given entries; a later entry of a name replaces an earlier one.
    pub fn from_entries(entries: Vec<(String, V)>) -> (r: Self)
        ensures
            r@ == map_of(entries@),
    {
        NamedMap { entries }
    }

    /// The entries, a name possibly more than once (the last counts).
    pub fn entries(&self) -> (r: &Vec<(String, V)>)
        ensures
            map_of(r@) == self@,
    {
        &self.entries
    }

    /// Index of the last entry named `key`.
    fn find_last(&self, key: &str) -> (r: Option<usize>)
        ensures
            r matches Some(i) ==> last_of(self.entries@, key@, i as int),
            r is None ==> forall|j: int|
                0 <= j < self.entries@.len() ==> #[trigger] self.entries@[j].0@ != key@,
    {
        let mut i = self.entries.len();
        while i > 0
            invariant
                i <= self.entries@.len(),
                forall|j: int| i <= j < self.entries@.len() ==> #[trigger] self.entries@[j].0@ != key@,
            decreases i,
        {
            let k = i - 1;
            if crate::text::str_eq(self.entries[k].0.as_str(), key) {
                return Some(k);
            }
            i = k;
        }
        None
    }

    /// The value under this name, if any.
    pub fn get(&self, key: &str) -> (r: Option<V>)
        ensures
            r == (if self@.contains_key(key@) {
                Some(self@[key@])
            } else {
                None
            }),
    {
        match self.find_last(key) {
            Some(i) => {
                proof {
                    lemma_map_of_last(self.entries@, key@, i as int);
                }
                Some(self.entries[i].1)
            },
            None => {
                proof {
                    lemma_map_of_absent(self.entries@, key@);
                }
                None
            },
        }
    }

    /// Whether a value is kept under this name.
    pub fn contains_key(&self, key: &str) -> (r: bool)
        ensures
            r == self@.contains_key(key@),
    {
        self.get(key).is_some()
    }

    /// Keeps `value` under `key`, in place of any earlier one.
    pub fn insert(&mut self, key: String, value: V)
        ensures
            final(self)@ == old(self)@.insert(key@, value),
    {
        match self.find_last(key.as_str()) {
            Some(i) => {
                proof {
                    lemma_map_of_update(self.entries@, i as int, (key, value));
                }
                self.entries.set(i, (key, value));
            },
            None => {
                let ghost before = self.entries@;
                self.entries.push((key, value));
                assert(self.entries@.drop_last() =~= before);
            },
        }
    }

    /// Forgets the value under `key`.
    pub fn remove(&mut self, key: &str)
        ensures
            final(self)@ == old(self)@.remove(key@),
    {
        let ghost old_entries = self.entries@;
        let mut kept: Vec<(String, V)> = Vec::new();
        let mut rest: Vec<(String, V)> = Vec::new();
        std::mem::swap(&mut rest, &mut self.entries);
        let mut i: usize = 0;
        while i < rest.len()
            invariant
                rest@ == old_entries,
                i <= rest@.len(),
                kept@ == without(rest@.take(i as int), key@),
            decreases rest@.len() - i,
        {
            let e = &rest[i];
            assert(rest@.take(i + 1).drop_last() =~= rest@.take(i as int));
            if !crate::text::str_eq(e.0.as_str(), key) {
                kept.push((e.0.clone(), e.1));
            }
            i = i + 1;
        }
        assert(rest@.take(rest@.len() as int) =~= rest@);
        proof {
            lemma_map_of_without(old_entries, key@);
        }
        self.entries = kept;
    }

    /// A copy.
    pub fn duplicate(&self) -> (r: Self)
        ensures
            r@ == self@,
    {
        let mut entries: Vec<(String, V)> = Vec::new();
        let mut i: usize = 0;
        while i < self.entries.len()
            invariant
                i <= self.entries@.len(),
                entries@ == self.entries@.take(i as int),
            decreases self.entries@.len() - i,
        {
            let e = &self.entries[i];
            entries.push((e.0.clone(), e.1));
            i = i + 1;
            assert(entries@ =~= self.entries@.take(i as int));
        }
        assert(self.entries@.take(self.entries@.len() as int) =~= self.entries@);
        NamedMap { entries }
    }

    /// Whether nothing is kept.
    pub fn is_empty(&self) -> (r: bool)
        ensures
            r == (self@ == Map::<Seq<char>, V>::empty()),
    {
        if self.entries.len() == 0 {
            true
        } else {
            let ghost s = self.entries@;
            proof {
                assert(map_of(s).contains_key(s.last().0@));
            }
            false
        }
    }
}

} // verus!
