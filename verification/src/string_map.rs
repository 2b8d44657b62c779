//! A small map keyed by strings, holding its entries in insertion order.
use vstd::prelude::*;
use crate::text::str_eq;

verus! {

/// The map that a sequence of entries with distinct keys stands for.
pub open spec fn map_of<V>(entries: Seq<(String, V)>) -> Map<Seq<char>, V>
    decreases entries.len(),
{
    if entries.len() == 0 {
        Map::empty()
    } else {
        map_of(entries.drop_last()).insert(entries.last().0@, entries.last().1)
    }
}

/// No key occurs twice.
pub open spec fn distinct_keys<V>(entries: Seq<(String, V)>) -> bool {
    forall|i: int, j: int|
        0 <= i < entries.len() && 0 <= j < entries.len() && i != j ==> #[trigger] entries[i].0@
            != #[trigger] entries[j].0@
}

/// The position of a key among the entries.
pub open spec fn key_at<V>(entries: Seq<(String, V)>, k: Seq<char>, i: int) -> bool {
    0 <= i < entries.len() && entries[i].0@ == k
}

/// Where a key of the map stands among the entries, and its value.
pub proof fn lemma_map_of<V>(entries: Seq<(String, V)>)
    requires
        distinct_keys(entries),
    ensures
        forall|k: Seq<char>|
            #[trigger] map_of(entries).contains_key(k) <==> exists|i: int| key_at(entries, k, i),
        forall|i: int|
            0 <= i < entries.len() ==> #[trigger] map_of(entries)[entries[i].0@] == entries[i].1,
    decreases entries.len(),
{
    if entries.len() > 0 {
        let init = entries.drop_last();
        assert(distinct_keys(init)) by {
            assert forall|i: int, j: int|
                0 <= i < init.len() && 0 <= j < init.len() && i != j implies #[trigger] init[i].0@
                != #[trigger] init[j].0@ by {
                assert(init[i] == entries[i]);
                assert(init[j] == entries[j]);
            }
        }
        lemma_map_of(init);
        let n = entries.len() - 1;
        assert(entries.last() == entries[n]);
        assert(map_of(entries) == map_of(init).insert(entries[n].0@, entries[n].1));
        assert forall|k: Seq<char>| #[trigger]
            map_of(entries).contains_key(k) <==> exists|i: int| key_at(entries, k, i) by {
            if map_of(entries).contains_key(k) {
                if k == entries[n].0@ {
                    assert(key_at(entries, k, n));
                } else {
                    assert(map_of(init).contains_key(k));
                    let i = choose|i: int| key_at(init, k, i);
                    assert(key_at(entries, k, i));
                }
            }
            if exists|i: int| key_at(entries, k, i) {
                let i = choose|i: int| key_at(entries, k, i);
                if i < n {
                    assert(key_at(init, k, i));
                }
            }
        }
        assert forall|i: int| 0 <= i < entries.len() implies #[trigger] map_of(entries)[entries[i].0@]
            == entries[i].1 by {
            if i < n {
                assert(entries[i].0@ != entries[n].0@);
                assert(init[i] == entries[i]);
                assert(map_of(init)[init[i].0@] == init[i].1);
            }
        }
    }
}

/// A map keyed by strings.
#[derive(Debug, Clone)]
pub struct StringMap<V> {
    entries: Vec<(String, V)>,
}

impl<V> StringMap<V> {
    /// The map's contents.
    pub closed spec fn view(&self) -> Map<Seq<char>, V> {
        map_of(self.entries@)
    }

    /// The entries are well formed: no key occurs twice.
    pub closed spec fn wf(&self) -> bool {
        distinct_keys(self.entries@)
    }

    /// An empty map.
    pub fn new() -> (m: Self)
        ensures
            m.wf(),
            m.view() == Map::<Seq<char>, V>::empty(),
    {
        StringMap { entries: Vec::new() }
    }

    /// Number of entries.
    pub fn len(&self) -> (n: usize)
        requires
            self.wf(),
        ensures
            n == self.view().dom().len(),
    {
        proof {
            self.lemma_len();
        }
        self.entries.len()
    }

    proof fn lemma_len(&self)
        requires
            self.wf(),
        ensures
            self.view().dom().len() == self.entries@.len(),
            self.view().dom().finite(),
    {
        lemma_map_len(self.entries@);
    }

    fn find(&self, key: &str) -> (r: Option<usize>)
        requires
            self.wf(),
        ensures
            r matches Some(i) ==> key_at(self.entries@, key@, i as int),
            r is None ==> !(exists|i: int| key_at(self.entries@, key@, i)),
    {
        let mut i: usize = 0;
        while i < self.entries.len()
            invariant
                i <= self.entries@.len(),
                forall|j: int| 0 <= j < i ==> self.entries@[j].0@ != key@,
            decreases self.entries@.len() - i,
        {
            if str_eq(self.entries[i].0.as_str(), key) {
                return Some(i);
            }
            i += 1;
        }
        None
    }

    /// The value stored under a key.
    pub fn get(&self, key: &str) -> (r: Option<&V>)
        requires
            self.wf(),
        ensures
            r matches Some(v) ==> self.view().contains_key(key@) && self.view()[key@] == *v,
            r is None ==> !self.view().contains_key(key@),
    {
        proof {
            lemma_map_of(self.entries@);
        }
        match self.find(key) {
            Some(i) => Some(&self.entries[i].1),
            None => None,
        }
    }

    /// The map holds the key.
    pub fn contains_key(&self, key: &str) -> (b: bool)
        requires
            self.wf(),
        ensures
            b == self.view().contains_key(key@),
    {
        proof {
            lemma_map_of(self.entries@);
        }
        self.find(key).is_some()
    }

    /// Stores a value under a key, replacing any earlier one.
    pub fn insert(&mut self, key: String, value: V)
        requires
            old(self).wf(),
        ensures
            final(self).wf(),
            final(self).view() == old(self).view().insert(key@, value),
    {
        let ghost k = key@;
        match self.find(key.as_str()) {
            Some(i) => {
                self.remove_at(i);
                proof {
                    lemma_map_of(self.entries@);
                    assert forall|j: int| 0 <= j < self.entries@.len() implies self.entries@[j].0@ != k by {
                        if self.entries@[j].0@ == k {
                            assert(key_at(self.entries@, k, j));
                        }
                    }
                }
                self.push_new(key, value);
                assert(self.view() =~= old(self).view().insert(k, value));
            },
            None => {
                assert forall|j: int| 0 <= j < self.entries@.len() implies self.entries@[j].0@ != k by {
                    if self.entries@[j].0@ == k {
                        assert(key_at(self.entries@, k, j));
                    }
                }
                self.push_new(key, value);
            },
        }
    }

    fn remove_at(&mut self, i: usize)
        requires
            old(self).wf(),
            i < old(self).entries@.len(),
        ensures
            final(self).wf(),
            final(self).view() == old(self).view().remove(old(self).entries@[i as int].0@),
            !final(self).view().contains_key(old(self).entries@[i as int].0@),
    {
        let ghost before = self.entries@;
        let ghost k = before[i as int].0@;
        proof {
            lemma_map_of(before);
        }
        self.entries.remove(i);
        let ghost after = self.entries@;
        assert forall|a: int| 0 <= a < after.len() implies after[a] == before[if a < i { a } else { a + 1 }] by {}
        assert(distinct_keys(after)) by {
            assert forall|a: int, b: int|
                0 <= a < after.len() && 0 <= b < after.len() && a != b implies #[trigger] after[a].0@
                != #[trigger] after[b].0@ by {
                let a2 = if a < i { a } else { a + 1 };
                let b2 = if b < i { b } else { b + 1 };
                assert(after[a] == before[a2]);
                assert(after[b] == before[b2]);
            }
        }
        proof {
            lemma_map_of(after);
            assert forall|kk: Seq<char>| #[trigger] map_of(after).contains_key(kk) <==> map_of(before).remove(k).contains_key(kk) by {
                if map_of(before).remove(k).contains_key(kk) {
                    let j = choose|j: int| key_at(before, kk, j);
                    assert(j != i);
                    let j2 = if j < i { j } else { j - 1 };
                    assert(after[j2] == before[j]);
                    assert(key_at(after, kk, j2));
                }
                if map_of(after).contains_key(kk) {
                    let j = choose|j: int| key_at(after, kk, j);
                    let j2 = if j < i { j } else { j + 1 };
                    assert(after[j] == before[j2]);
                    assert(key_at(before, kk, j2));
                    assert(j2 != i);
                }
            }
            assert forall|kk: Seq<char>| #[trigger] map_of(after).contains_key(kk) implies map_of(after)[kk] == map_of(before).remove(k)[kk] by {
                let j = choose|j: int| key_at(after, kk, j);
                let j2 = if j < i { j } else { j + 1 };
                assert(after[j] == before[j2]);
            }
            assert(map_of(after) =~= map_of(before).remove(k));
        }
    }

    fn push_new(&mut self, key: String, value: V)
        requires
            old(self).wf(),
            forall|j: int| 0 <= j < old(self).entries@.len() ==> old(self).entries@[j].0@ != key@,
        ensures
            final(self).wf(),
            final(self).view() == old(self).view().insert(key@, value),
            final(self).entries@ == old(self).entries@.push((key, value)),
    {
        self.entries.push((key, value));
        assert(self.entries@.drop_last() =~= old(self).entries@);
        assert(distinct_keys(self.entries@)) by {
            let n = self.entries@.len() - 1;
            assert forall|a: int, b: int|
                0 <= a < self.entries@.len() && 0 <= b < self.entries@.len() && a != b implies #[trigger] self.entries@[a].0@
                != #[trigger] self.entries@[b].0@ by {
                if a < n && b < n {
                    assert(self.entries@[a] == old(self).entries@[a]);
                    assert(self.entries@[b] == old(self).entries@[b]);
                } else if a < n {
                    assert(self.entries@[a] == old(self).entries@[a]);
                } else {
                    assert(self.entries@[b] == old(self).entries@[b]);
                }
            }
        }
    }

    /// Removes a key.
    pub fn remove(&mut self, key: &str)
        requires
            old(self).wf(),
        ensures
            final(self).wf(),
            final(self).view() == old(self).view().remove(key@),
    {
        proof {
            lemma_map_of(self.entries@);
        }
        match self.find(key) {
            Some(i) => self.remove_at(i),
            None => {
                assert(self.view() =~= old(self).view().remove(key@));
            },
        }
    }

    /// The entries, in insertion order; no key occurs twice.
    pub fn into_entries(self) -> (es: Vec<(String, V)>)
        requires
            self.wf(),
        ensures
            distinct_keys(es@),
            map_of(es@) == self.view(),
    {
        self.entries
    }

    /// The keys, in insertion order.
    pub fn keys(&self) -> (ks: Vec<String>)
        requires
            self.wf(),
        ensures
            forall|k: Seq<char>| self.view().contains_key(k) <==> exists|i: int| 0 <= i < ks@.len() && #[trigger] ks@[i]@ == k,
    {
        proof {
            lemma_map_of(self.entries@);
        }
        let mut ks: Vec<String> = Vec::new();
        let mut i: usize = 0;
        while i < self.entries.len()
            invariant
                i <= self.entries@.len(),
                ks@.len() == i,
                forall|j: int| 0 <= j < i ==> #[trigger] ks@[j]@ == self.entries@[j].0@,
            decreases self.entries@.len() - i,
        {
            ks.push(self.entries[i].0.clone());
            i += 1;
        }
        proof {
            assert forall|k: Seq<char>| self.view().contains_key(k) <==> exists|j: int| 0 <= j < ks@.len() && #[trigger] ks@[j]@ == k by {
                if self.view().contains_key(k) {
                    let j = choose|j: int| key_at(self.entries@, k, j);
                    assert(ks@[j]@ == k);
                }
                if exists|j: int| 0 <= j < ks@.len() && #[trigger] ks@[j]@ == k {
                    let j = choose|j: int| 0 <= j < ks@.len() && #[trigger] ks@[j]@ == k;
                    assert(key_at(self.entries@, k, j));
                }
            }
        }
        ks
    }

    /// Keeps only the entries whose key is among `keys`.
    pub fn retain_keys(&mut self, keys: &Vec<String>)
        requires
            old(self).wf(),
        ensures
            final(self).wf(),
            forall|k: Seq<char>| #[trigger] final(self).view().contains_key(k) <==> (old(self).view().contains_key(k) && listed(keys@, k)),
            forall|k: Seq<char>| #[trigger] final(self).view().contains_key(k) ==> final(self).view()[k] == old(self).view()[k],
    {
        let snapshot = self.keys();
        let mut j: usize = 0;
        while j < snapshot.len()
            invariant
                self.wf(),
                j <= snapshot@.len(),
                forall|k: Seq<char>| old(self).view().contains_key(k) <==> exists|i: int| 0 <= i < snapshot@.len() && #[trigger] snapshot@[i]@ == k,
                forall|k: Seq<char>| #[trigger] self.view().contains_key(k) <==> (old(self).view().contains_key(k) && !(exists|i: int| 0 <= i < j && #[trigger] snapshot@[i]@ == k && !listed(keys@, k))),
                forall|k: Seq<char>| #[trigger] self.view().contains_key(k) ==> self.view()[k] == old(self).view()[k],
            decreases snapshot@.len() - j,
        {
            let ghost k = snapshot@[j as int]@;
            if !listed_in(keys, snapshot[j].as_str()) {
                self.remove(snapshot[j].as_str());
            }
            proof {
                assert forall|kk: Seq<char>| #[trigger] self.view().contains_key(kk) <==> (old(self).view().contains_key(kk) && !(exists|i: int| 0 <= i < j + 1 && #[trigger] snapshot@[i]@ == kk && !listed(keys@, kk))) by {
                    if kk == k {
                    } else {
                        if exists|i: int| 0 <= i < j + 1 && #[trigger] snapshot@[i]@ == kk && !listed(keys@, kk) {
                            let i = choose|i: int| 0 <= i < j + 1 && #[trigger] snapshot@[i]@ == kk && !listed(keys@, kk);
                            assert(i != j);
                        }
                    }
                }
            }
            j += 1;
        }
    }
}

/// `k` is one of `keys`.
pub open spec fn listed(keys: Seq<String>, k: Seq<char>) -> bool {
    exists|i: int| 0 <= i < keys.len() && #[trigger] keys[i]@ == k
}

/// Whether `k` is one of `keys`.
pub fn listed_in(keys: &Vec<String>, k: &str) -> (b: bool)
    ensures
        b == listed(keys@, k@),
{
    let mut i: usize = 0;
    while i < keys.len()
        invariant
            i <= keys@.len(),
            forall|j: int| 0 <= j < i ==> #[trigger] keys@[j]@ != k@,
        decreases keys@.len() - i,
    {
        if str_eq(keys[i].as_str(), k) {
            return true;
        }
        i += 1;
    }
    false
}

/// A map of entries with distinct keys has as many keys as entries.
pub proof fn lemma_map_len<V>(entries: Seq<(String, V)>)
    requires
        distinct_keys(entries),
    ensures
        map_of(entries).dom().len() == entries.len(),
        map_of(entries).dom().finite(),
    decreases entries.len(),
{
    if entries.len() > 0 {
        let init = entries.drop_last();
        assert(distinct_keys(init)) by {
            assert forall|i: int, j: int|
                0 <= i < init.len() && 0 <= j < init.len() && i != j implies #[trigger] init[i].0@
                != #[trigger] init[j].0@ by {
                assert(init[i] == entries[i]);
                assert(init[j] == entries[j]);
            }
        }
        lemma_map_len(init);
        lemma_map_of(init);
        let n = entries.len() - 1;
        assert(!map_of(init).contains_key(entries[n].0@)) by {
            if map_of(init).contains_key(entries[n].0@) {
                let i = choose|i: int| key_at(init, entries[n].0@, i);
                assert(entries[i] == init[i]);
            }
        }
    }
}

} // verus!
