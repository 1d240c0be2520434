//! A map from strings to strings, kept as a list of distinct keys with
//! their values: headers, query parameters, options and metadata.

use vstd::prelude::*;

verus! {

/// The map that a list of entries describes; a later entry of a key
/// replaces an earlier one.
pub open spec fn map_of(entries: Seq<(String, String)>) -> Map<Seq<char>, Seq<char>>
    decreases entries.len(),
{
    if entries.len() == 0 {
        Map::empty()
    } else {
        map_of(entries.drop_last()).insert(entries.last().0@, entries.last().1@)
    }
}

/// No key occurs twice.
pub open spec fn distinct_keys(entries: Seq<(String, String)>) -> bool {
    forall|i: int, j: int| 0 <= i < j < entries.len() ==> entries[i].0@ != entries[j].0@
}

proof fn lemma_map_of(entries: Seq<(String, String)>)
    requires
        distinct_keys(entries),
    ensures
        forall|k: Seq<char>| #[trigger] map_of(entries).contains_key(k) <==> exists|i: int|
            0 <= i < entries.len() && entries[i].0@ == k,
        forall|i: int| 0 <= i < entries.len() ==> #[trigger] map_of(entries)[entries[i].0@] == entries[i].1@,
        map_of(entries).dom().finite(),
        map_of(entries).len() == entries.len(),
    decreases entries.len(),
{
    if entries.len() > 0 {
        let d = entries.drop_last();
        lemma_map_of(d);
        let last = entries.last();
        assert(!map_of(d).contains_key(last.0@)) by {
            if map_of(d).contains_key(last.0@) {
                let i = choose|i: int| 0 <= i < d.len() && d[i].0@ == last.0@;
                assert(entries[i].0@ == entries[entries.len() - 1].0@);
            }
        }
        assert forall|k: Seq<char>| #[trigger] map_of(entries).contains_key(k) <==> exists|i: int|
            0 <= i < entries.len() && entries[i].0@ == k by {
            if map_of(d).contains_key(k) {
                let i = choose|i: int| 0 <= i < d.len() && d[i].0@ == k;
                assert(entries[i].0@ == k);
            }
            if exists|i: int| 0 <= i < entries.len() && entries[i].0@ == k {
                let i = choose|i: int| 0 <= i < entries.len() && entries[i].0@ == k;
                if i < d.len() {
                    assert(d[i].0@ == k);
                }
            }
        }
        assert forall|i: int| 0 <= i < entries.len() implies #[trigger] map_of(entries)[entries[i].0@] == entries[i].1@ by {
            if i < d.len() {
                assert(d[i] == entries[i]);
                assert(entries[i].0@ != last.0@);
            }
        }
    }
}

/// A map from strings to strings.
#[derive(Debug)]
pub struct StrMap {
    entries: Vec<(String, String)>,
}

impl View for StrMap {
    type V = Map<Seq<char>, Seq<char>>;

    closed spec fn view(&self) -> Map<Seq<char>, Seq<char>> {
        map_of(self.entries@)
    }
}

impl StrMap {
    #[verifier::type_invariant]
    closed spec fn inv(&self) -> bool {
        distinct_keys(self.entries@)
    }

    /// The entries, in insertion order.
    pub closed spec fn entry_seq(&self) -> Seq<(String, String)> {
        self.entries@
    }

    /// An empty map.
    pub fn new() -> (m: StrMap)
        ensures
            m@ == Map::<Seq<char>, Seq<char>>::empty(),
            m.entry_seq().len() == 0,
    {
        StrMap { entries: Vec::new() }
    }

    /// Position of the entry of `key`.
    fn find(&self, key: &str) -> (r: Option<usize>)
        ensures
            match r {
                Some(i) => i < self.entries.len() && self.entries@[i as int].0@ == key@,
                None => forall|i: int| 0 <= i < self.entries.len() ==> self.entries@[i].0@ != key@,
            },
    {
        let mut i: usize = 0;
        while i < self.entries.len()
            invariant
                i <= self.entries.len(),
                forall|j: int| 0 <= j < i ==> self.entries@[j].0@ != key@,
            decreases self.entries.len() - i,
        {
            if eq_str(self.entries[i].0.as_str(), key) {
                return Some(i);
            }
            i += 1;
        }
        None
    }

    /// The value of `key`, if it has one.
    pub fn get(&self, key: &str) -> (r: Option<&String>)
        ensures
            match r {
                Some(v) => self@.contains_key(key@) && self@[key@] == v@,
                None => !self@.contains_key(key@),
            },
    {
        proof {
            use_type_invariant(self);
            lemma_map_of(self.entries@);
        }
        match self.find(key) {
            Some(i) => Some(&self.entries[i].1),
            None => None,
        }
    }

    /// The value of the key given by its characters, if it has one.
    pub fn get_by_chars(&self, key: &Vec<char>) -> (r: Option<&String>)
        ensures
            match r {
                Some(v) => self@.contains_key(key@) && self@[key@] == v@,
                None => !self@.contains_key(key@),
            },
    {
        proof {
            use_type_invariant(self);
            lemma_map_of(self.entries@);
        }
        let mut i: usize = 0;
        while i < self.entries.len()
            invariant
                i <= self.entries.len(),
                distinct_keys(self.entries@),
                forall|j: int| 0 <= j < i ==> self.entries@[j].0@ != key@,
            decreases self.entries.len() - i,
        {
            let k = crate::text::to_chars(self.entries[i].0.as_str());
            if crate::response_behavior::chars_equal(&k, key) {
                proof {
                    lemma_map_of(self.entries@);
                }
                return Some(&self.entries[i].1);
            }
            i += 1;
        }
        None
    }

    /// Does `key` have a value?
    pub fn contains_key(&self, key: &str) -> (b: bool)
        ensures
            b == self@.contains_key(key@),
    {
        self.get(key).is_some()
    }

    /// Number of keys.
    pub fn len(&self) -> (n: usize)
        ensures
            n == self@.len(),
            n == self.entry_seq().len(),
    {
        proof {
            use_type_invariant(self);
            lemma_map_of(self.entries@);
        }
        self.entries.len()
    }

    /// Sets the value of `key`: a new key goes after the others, a known
    /// key keeps its place.
    pub fn insert(&mut self, key: String, value: String)
        ensures
            final(self)@ == old(self)@.insert(key@, value@),
    {
        proof {
            use_type_invariant(&*self);
            lemma_map_of(self.entries@);
        }
        let ghost before = self.entries@;
        match self.find(key.as_str()) {
            Some(i) => {
                let ghost kv = key@;
                let ghost vv = value@;
                let mut entries: Vec<(String, String)> = Vec::new();
                std::mem::swap(&mut entries, &mut self.entries);
                entries.set(i, (key, value));
                proof {
                    assert(distinct_keys(entries@));
                    lemma_map_of(entries@);
                    assert(map_of(entries@) =~= map_of(before).insert(kv, vv)) by {
                        assert forall|k: Seq<char>| #[trigger] map_of(entries@).contains_key(k) == map_of(before).insert(kv, vv).contains_key(k) by {
                            if map_of(before).contains_key(k) {
                                let j = choose|j: int| 0 <= j < before.len() && before[j].0@ == k;
                                assert(entries@[j].0@ == k || j == i);
                            }
                        }
                        assert forall|k: Seq<char>| #[trigger] map_of(entries@).contains_key(k) implies map_of(entries@)[k] == map_of(before).insert(kv, vv)[k] by {
                            let j = choose|j: int| 0 <= j < entries@.len() && entries@[j].0@ == k;
                            if j != i {
                                assert(before[j] == entries@[j]);
                            }
                        }
                    }
                }
                self.entries = entries;
            },
            None => {
                let ghost kv = key@;
                let ghost vv = value@;
                let mut entries: Vec<(String, String)> = Vec::new();
                std::mem::swap(&mut entries, &mut self.entries);
                entries.push((key, value));
                proof {
                    assert(entries@.drop_last() =~= before);
                    assert(distinct_keys(entries@));
                }
                self.entries = entries;
            },
        }
    }

    /// Removes `key` and its value.
    pub fn remove(&mut self, key: &str)
        ensures
            final(self)@ == old(self)@.remove(key@),
    {
        proof {
            use_type_invariant(&*self);
            lemma_map_of(self.entries@);
        }
        let ghost before = self.entries@;
        match self.find(key) {
            Some(i) => {
                let mut entries: Vec<(String, String)> = Vec::new();
                std::mem::swap(&mut entries, &mut self.entries);
                entries.remove(i);
                proof {
                    assert forall|a: int, b: int| 0 <= a < b < entries@.len() implies entries@[a].0@ != entries@[b].0@ by {
                        let sa = if a < i { a } else { a + 1 };
                        let sb = if b < i { b } else { b + 1 };
                        assert(entries@[a] == before[sa]);
                        assert(entries@[b] == before[sb]);
                    }
                    lemma_map_of(entries@);
                    assert(map_of(entries@) =~= map_of(before).remove(key@)) by {
                        assert forall|k: Seq<char>| #[trigger] map_of(entries@).contains_key(k) == map_of(before).remove(key@).contains_key(k) by {
                            if map_of(entries@).contains_key(k) {
                                let j = choose|j: int| 0 <= j < entries@.len() && entries@[j].0@ == k;
                                let sj = if j < i { j } else { j + 1 };
                                assert(entries@[j] == before[sj]);
                                assert(sj != i);
                            }
                            if map_of(before).remove(key@).contains_key(k) {
                                let j = choose|j: int| 0 <= j < before.len() && before[j].0@ == k;
                                assert(j != i);
                                let tj = if j < i { j } else { j - 1 };
                                assert(entries@[tj] == before[j]);
                            }
                        }
                        assert forall|k: Seq<char>| #[trigger] map_of(entries@).contains_key(k) implies map_of(entries@)[k] == map_of(before).remove(key@)[k] by {
                            let j = choose|j: int| 0 <= j < entries@.len() && entries@[j].0@ == k;
                            let sj = if j < i { j } else { j + 1 };
                            assert(entries@[j] == before[sj]);
                        }
                    }
                }
                self.entries = entries;
            },
            None => {
                proof {
                    assert(map_of(before) =~= map_of(before).remove(key@));
                }
            },
        }
    }

    /// Adds every entry of `other`, its values replacing those of keys
    /// already present.
    pub fn extend(&mut self, other: &StrMap)
        ensures
            final(self)@ == old(self)@.union_prefer_right(other@),
    {
        let ghost start = self@;
        let mut i: usize = 0;
        assert(start =~= start.union_prefer_right(map_of(other.entries@.subrange(0, 0))));
        while i < other.entries.len()
            invariant
                i <= other.entries.len(),
                self@ == start.union_prefer_right(map_of(other.entries@.subrange(0, i as int))),
            decreases other.entries.len() - i,
        {
            let k = other.entries[i].0.clone();
            let v = other.entries[i].1.clone();
            let ghost prefix = other.entries@.subrange(0, i as int);
            assert(other.entries@.subrange(0, i + 1).drop_last() =~= prefix);
            self.insert(k, v);
            assert(self@ =~= start.union_prefer_right(map_of(other.entries@.subrange(0, i + 1))));
            i += 1;
        }
        assert(other.entries@.subrange(0, i as int) =~= other.entries@);
    }

    /// The keys, in insertion order, each once.
    pub fn keys(&self) -> (r: Vec<String>)
        ensures
            forall|i: int| 0 <= i < r.len() ==> #[trigger] self@.contains_key(r@[i]@),
            forall|k: Seq<char>| #[trigger] self@.contains_key(k) ==> exists|i: int| 0 <= i < r.len() && r@[i]@ == k,
            forall|i: int, j: int| 0 <= i < j < r.len() ==> r@[i]@ != r@[j]@,
    {
        proof {
            use_type_invariant(self);
            lemma_map_of(self.entries@);
        }
        let mut r: Vec<String> = Vec::new();
        let mut i: usize = 0;
        while i < self.entries.len()
            invariant
                i <= self.entries.len(),
                distinct_keys(self.entries@),
                r.len() == i,
                forall|j: int| 0 <= j < i ==> #[trigger] r@[j]@ == self.entries@[j].0@,
            decreases self.entries.len() - i,
        {
            r.push(self.entries[i].0.clone());
            i += 1;
        }
        proof {
            assert forall|k: Seq<char>| #[trigger] self@.contains_key(k) implies exists|i: int| 0 <= i < r.len() && r@[i]@ == k by {
                let j = choose|j: int| 0 <= j < self.entries@.len() && self.entries@[j].0@ == k;
                assert(r@[j]@ == k);
            }
            assert forall|a: int| 0 <= a < r.len() implies #[trigger] self@.contains_key(r@[a]@) by {
                assert(r@[a]@ == self.entries@[a].0@);
            }
        }
        r
    }

    /// The key and value of the entry at position `i`, entries in
    /// insertion order.
    pub fn entry(&self, i: usize) -> (r: (&String, &String))
        requires
            i < self.entry_seq().len(),
        ensures
            *r.0 == self.entry_seq()[i as int].0,
            *r.1 == self.entry_seq()[i as int].1,
    {
        (&self.entries[i].0, &self.entries[i].1)
    }

    /// Sets the pairs, in order, each replacing the value of its key.
    pub fn insert_pairs(&mut self, pairs: Vec<(String, String)>)
        ensures
            final(self)@ == old(self)@.union_prefer_right(map_of(pairs@)),
    {
        let ghost start = self@;
        let ghost all = pairs@;
        let mut i: usize = 0;
        assert(start =~= start.union_prefer_right(map_of(all.subrange(0, 0))));
        while i < pairs.len()
            invariant
                i <= pairs.len(),
                pairs@ == all,
                self@ == start.union_prefer_right(map_of(all.subrange(0, i as int))),
            decreases pairs.len() - i,
        {
            let k = pairs[i].0.clone();
            let v = pairs[i].1.clone();
            assert(all.subrange(0, i + 1).drop_last() =~= all.subrange(0, i as int));
            self.insert(k, v);
            assert(self@ =~= start.union_prefer_right(map_of(all.subrange(0, i + 1))));
            i += 1;
        }
        assert(all.subrange(0, i as int) =~= all);
    }

    /// A copy of this map.
    pub fn copy(&self) -> (m: StrMap)
        ensures
            m@ == self@,
            m.entry_seq().len() == self.entry_seq().len(),
    {
        proof {
            use_type_invariant(self);
        }
        let mut entries: Vec<(String, String)> = Vec::new();
        let mut i: usize = 0;
        while i < self.entries.len()
            invariant
                i <= self.entries.len(),
                distinct_keys(self.entries@),
                entries.len() == i,
                forall|j: int| 0 <= j < i ==> #[trigger] entries@[j].0@ == self.entries@[j].0@ && entries@[j].1@
                    == self.entries@[j].1@,
            decreases self.entries.len() - i,
        {
            let k = self.entries[i].0.clone();
            let v = self.entries[i].1.clone();
            entries.push((k, v));
            i += 1;
        }
        proof {
            assert(distinct_keys(entries@));
            lemma_map_of(entries@);
            lemma_map_of(self.entries@);
            assert forall|k: Seq<char>| #[trigger] map_of(entries@).contains_key(k) == map_of(self.entries@).contains_key(k) by {
                if map_of(entries@).contains_key(k) {
                    let j = choose|j: int| 0 <= j < entries@.len() && entries@[j].0@ == k;
                    assert(self.entries@[j].0@ == k);
                }
                if map_of(self.entries@).contains_key(k) {
                    let j = choose|j: int| 0 <= j < self.entries@.len() && self.entries@[j].0@ == k;
                    assert(entries@[j].0@ == k);
                }
            }
            assert forall|k: Seq<char>| #[trigger] map_of(entries@).contains_key(k) implies map_of(entries@)[k] == map_of(self.entries@)[k] by {
                let j = choose|j: int| 0 <= j < entries@.len() && entries@[j].0@ == k;
                assert(self.entries@[j].0@ == k);
            }
            assert(map_of(entries@) =~= map_of(self.entries@));
        }
        StrMap { entries }
    }

    /// This map without the keys listed in `excluded`.
    pub fn without_keys(&self, excluded: &Vec<String>) -> (m: StrMap)
        ensures
            m@ == self@.remove_keys(crate::text::views(excluded@).to_set()),
    {
        proof {
            use_type_invariant(self);
            lemma_map_of(self.entries@);
        }
        let ghost ex = crate::text::views(excluded@).to_set();
        let mut entries: Vec<(String, String)> = Vec::new();
        let ghost mut src_idx: Seq<int> = Seq::empty();
        let mut i: usize = 0;
        while i < self.entries.len()
            invariant
                i <= self.entries.len(),
                distinct_keys(self.entries@),
                ex == crate::text::views(excluded@).to_set(),
                entries.len() == src_idx.len(),
                forall|j: int| 0 <= j < src_idx.len() ==> 0 <= #[trigger] src_idx[j] < i,
                forall|a: int, b: int| 0 <= a < b < src_idx.len() ==> src_idx[a] < src_idx[b],
                forall|j: int| 0 <= j < src_idx.len() ==> #[trigger] entries@[j].0@ == self.entries@[src_idx[j]].0@
                    && entries@[j].1@ == self.entries@[src_idx[j]].1@,
                forall|j: int| 0 <= j < src_idx.len() ==> !ex.contains(#[trigger] entries@[j].0@),
                forall|s: int| 0 <= s < i && !ex.contains(self.entries@[s].0@) ==> exists|j: int| 0 <= j < src_idx.len() && #[trigger] src_idx[j] == s,
            decreases self.entries.len() - i,
        {
            let keep = !crate::text::contains_string(excluded, &self.entries[i].0);
            proof {
                assert(crate::text::views(excluded@).contains(self.entries@[i as int].0@) <==> ex.contains(self.entries@[i as int].0@));
            }
            if keep {
                let k = self.entries[i].0.clone();
                let v = self.entries[i].1.clone();
                entries.push((k, v));
                proof {
                    let old_idx = src_idx;
                    src_idx = src_idx.push(i as int);
                    assert forall|s: int| 0 <= s < i + 1 && !ex.contains(self.entries@[s].0@) implies exists|j: int| 0 <= j < src_idx.len() && #[trigger] src_idx[j] == s by {
                        if s == i {
                            assert(src_idx[src_idx.len() - 1] == s);
                        } else {
                            let j = choose|j: int| 0 <= j < old_idx.len() && #[trigger] old_idx[j] == s;
                            assert(src_idx[j] == s);
                        }
                    }
                }
            }
            i += 1;
        }
        proof {
            assert(distinct_keys(entries@)) by {
                assert forall|a: int, b: int| 0 <= a < b < entries@.len() implies entries@[a].0@ != entries@[b].0@ by {
                    assert(src_idx[a] < src_idx[b]);
                }
            }
            lemma_map_of(entries@);
            let target = map_of(self.entries@).remove_keys(ex);
            assert forall|k: Seq<char>| #[trigger] map_of(entries@).contains_key(k) == target.contains_key(k) by {
                if map_of(entries@).contains_key(k) {
                    let j = choose|j: int| 0 <= j < entries@.len() && entries@[j].0@ == k;
                    assert(self.entries@[src_idx[j]].0@ == k);
                }
                if target.contains_key(k) {
                    let s = choose|s: int| 0 <= s < self.entries@.len() && self.entries@[s].0@ == k;
                    let j = choose|j: int| 0 <= j < src_idx.len() && #[trigger] src_idx[j] == s;
                    assert(entries@[j].0@ == k);
                }
            }
            assert forall|k: Seq<char>| #[trigger] map_of(entries@).contains_key(k) implies map_of(entries@)[k] == target[k] by {
                let j = choose|j: int| 0 <= j < entries@.len() && entries@[j].0@ == k;
                assert(self.entries@[src_idx[j]].0@ == k);
            }
            assert(map_of(entries@) =~= target);
        }
        StrMap { entries }
    }

    /// Does every key of this map have the same value in `other`?
    pub fn is_submap_of(&self, other: &StrMap) -> (b: bool)
        ensures
            b == self@.submap_of(other@),
    {
        proof {
            use_type_invariant(self);
            lemma_map_of(self.entries@);
        }
        let mut i: usize = 0;
        while i < self.entries.len()
            invariant
                i <= self.entries.len(),
                distinct_keys(self.entries@),
                forall|j: int| 0 <= j < i ==> #[trigger] other@.contains_key(self.entries@[j].0@)
                    && other@[self.entries@[j].0@] == self.entries@[j].1@,
            decreases self.entries.len() - i,
        {
            let ghost k = self.entries@[i as int].0@;
            match other.get(self.entries[i].0.as_str()) {
                Some(v) => {
                    if !eq_str(v.as_str(), self.entries[i].1.as_str()) {
                        proof {
                            lemma_map_of(self.entries@);
                            assert(self@.contains_key(k) && self@[k] != other@[k]);
                        }
                        return false;
                    }
                    assert(other@.contains_key(k) && other@[k] == self.entries@[i as int].1@);
                },
                None => {
                    proof {
                        lemma_map_of(self.entries@);
                        assert(self@.contains_key(k) && !other@.contains_key(k));
                    }
                    return false;
                },
            }
            assert(other@.contains_key(self.entries@[i as int].0@) && other@[self.entries@[i as int].0@] == self.entries@[i as int].1@);
            i += 1;
        }
        proof {
            lemma_map_of(self.entries@);
        }
        assert forall|k: Seq<char>| #[trigger] self@.contains_key(k) implies other@.contains_key(k) && self@[k] == other@[k] by {
            let j = choose|j: int| 0 <= j < self.entries@.len() && self.entries@[j].0@ == k;
        }
        true
    }

    /// Do both maps hold the same keys with the same values?
    pub fn same_as(&self, other: &StrMap) -> (b: bool)
        ensures
            b == (self@ == other@),
    {
        let a = self.is_submap_of(other);
        let b = other.is_submap_of(self);
        proof {
            if a && b {
                assert forall|k: Seq<char>| self@.contains_key(k) <==> other@.contains_key(k) by {}
                assert(self@ =~= other@);
            }
        }
        a && b
    }
}

/// Are two strings equal?
pub fn eq_str(a: &str, b: &str) -> (r: bool)
    ensures
        r == (a@ == b@),
{
    let n = a.unicode_len();
    if n != b.unicode_len() {
        return false;
    }
    let mut i: usize = 0;
    while i < n
        invariant
            i <= n,
            n == a@.len() == b@.len(),
            forall|j: int| 0 <= j < i ==> a@[j] == b@[j],
        decreases n - i,
    {
        if a.get_char(i) != b.get_char(i) {
            return false;
        }
        i += 1;
    }
    assert(a@ =~= b@);
    true
}

} // verus!
