//! A registry of named things: mocks, plugins. Names are distinct.

use vstd::prelude::*;
use crate::kv::eq_str;

verus! {

/// The things of a list of entries by name.
pub open spec fn named_map<T>(entries: Seq<(String, T)>) -> Map<Seq<char>, T>
    decreases entries.len(),
{
    if entries.len() == 0 {
        Map::empty()
    } else {
        named_map(entries.drop_last()).insert(entries.last().0@, entries.last().1)
    }
}

/// No name occurs twice.
pub open spec fn distinct_names<T>(entries: Seq<(String, T)>) -> bool {
    forall|i: int, j: int| 0 <= i < j < entries.len() ==> entries[i].0@ != entries[j].0@
}

pub proof fn lemma_named_map<T>(entries: Seq<(String, T)>)
    requires
        distinct_names(entries),
    ensures
        forall|k: Seq<char>| #[trigger] named_map(entries).contains_key(k) <==> exists|i: int|
            0 <= i < entries.len() && entries[i].0@ == k,
        forall|i: int| 0 <= i < entries.len() ==> #[trigger] named_map(entries)[entries[i].0@] == entries[i].1,
    decreases entries.len(),
{
    if entries.len() > 0 {
        let d = entries.drop_last();
        lemma_named_map(d);
        let last = entries.last();
        assert(named_map(entries) == named_map(d).insert(last.0@, last.1));
        assert forall|k: Seq<char>| #[trigger] named_map(entries).contains_key(k) <==> exists|i: int|
            0 <= i < entries.len() && entries[i].0@ == k by {
            if named_map(d).contains_key(k) {
                let i = choose|i: int| 0 <= i < d.len() && d[i].0@ == k;
                assert(entries[i].0@ == k);
            }
            if exists|i: int| 0 <= i < entries.len() && entries[i].0@ == k {
                let i = choose|i: int| 0 <= i < entries.len() && entries[i].0@ == k;
                if i < d.len() {
                    assert(d[i].0@ == k);
                }
            }
        }
        assert forall|i: int| 0 <= i < entries.len() implies #[trigger] named_map(entries)[entries[i].0@] == entries[i].1 by {
            if i < d.len() {
                assert(d[i] == entries[i]);
                assert(entries[i].0@ != last.0@);
            }
        }
    }
}

pub proof fn lemma_named_map_len<T>(entries: Seq<(String, T)>)
    requires
        distinct_names(entries),
    ensures
        named_map(entries).dom().finite(),
        named_map(entries).dom().len() == entries.len(),
    decreases entries.len(),
{
    if entries.len() > 0 {
        let d = entries.drop_last();
        lemma_named_map_len(d);
        lemma_named_map(d);
        if named_map(d).contains_key(entries.last().0@) {
            let i = choose|i: int| 0 <= i < d.len() && d[i].0@ == entries.last().0@;
            assert(entries[i].0@ == entries[entries.len() - 1].0@);
        }
    }
}


/// Named things, each name once.
pub struct Registry<T> {
    entries: Vec<(String, T)>,
}

impl<T> View for Registry<T> {
    type V = Map<Seq<char>, T>;

    closed spec fn view(&self) -> Map<Seq<char>, T> {
        named_map(self.entries@)
    }
}

impl<T> Registry<T> {
    #[verifier::type_invariant]
    closed spec fn inv(&self) -> bool {
        distinct_names(self.entries@)
    }

    /// An empty registry.
    pub fn new() -> (m: Registry<T>)
        ensures
            m@ == Map::<Seq<char>, T>::empty(),
    {
        Registry { entries: Vec::new() }
    }

    fn position(&self, name: &str) -> (r: Option<usize>)
        ensures
            match r {
                Some(i) => i < self.entries.len() && self.entries@[i as int].0@ == name@,
                None => forall|i: int| 0 <= i < self.entries.len() ==> self.entries@[i].0@ != name@,
            },
    {
        let mut i: usize = 0;
        while i < self.entries.len()
            invariant
                i <= self.entries.len(),
                forall|j: int| 0 <= j < i ==> self.entries@[j].0@ != name@,
            decreases self.entries.len() - i,
        {
            if eq_str(self.entries[i].0.as_str(), name) {
                return Some(i);
            }
            i += 1;
        }
        None
    }

    /// Is a thing registered under `name`?
    pub fn contains(&self, name: &str) -> (b: bool)
        ensures
            b == self@.contains_key(name@),
    {
        proof {
            use_type_invariant(self);
            lemma_named_map(self.entries@);
        }
        self.position(name).is_some()
    }

    /// The thing registered under `name`.
    pub fn get(&self, name: &str) -> (r: Option<&T>)
        ensures
            match r {
                Some(v) => self@.contains_key(name@) && *v == self@[name@],
                None => !self@.contains_key(name@),
            },
    {
        proof {
            use_type_invariant(self);
            lemma_named_map(self.entries@);
        }
        match self.position(name) {
            Some(i) => Some(&self.entries[i].1),
            None => None,
        }
    }

    /// Registers a thing under a new name.
    pub fn insert_new(&mut self, name: String, v: T)
        requires
            !old(self)@.contains_key(name@),
        ensures
            final(self)@ == old(self)@.insert(name@, v),
    {
        proof {
            use_type_invariant(&*self);
            lemma_named_map(self.entries@);
        }
        let ghost before = self.entries@;
        let mut entries: Vec<(String, T)> = Vec::new();
        std::mem::swap(&mut entries, &mut self.entries);
        entries.push((name, v));
        proof {
            assert(entries@.drop_last() =~= before);
            assert forall|a: int, b: int| 0 <= a < b < entries@.len() implies entries@[a].0@ != entries@[b].0@ by {
                if b == entries@.len() - 1 {
                    assert(before[a] == entries@[a]);
                    assert(named_map(before).contains_key(before[a].0@));
                }
            }
        }
        self.entries = entries;
    }

    /// Removes the thing registered under `name`.
    pub fn remove(&mut self, name: &str)
        requires
            old(self)@.contains_key(name@),
        ensures
            final(self)@ == old(self)@.remove(name@),
    {
        proof {
            use_type_invariant(&*self);
            lemma_named_map(self.entries@);
        }
        let ghost before = self.entries@;
        let i = match self.position(name) {
            Some(i) => i,
            None => {
                assert(false);
                return;
            },
        };
        let mut entries: Vec<(String, T)> = Vec::new();
        std::mem::swap(&mut entries, &mut self.entries);
        entries.remove(i);
        proof {
            assert forall|a: int, b: int| 0 <= a < b < entries@.len() implies entries@[a].0@ != entries@[b].0@ by {
                let sa = if a < i { a } else { a + 1 };
                let sb = if b < i { b } else { b + 1 };
                assert(entries@[a] == before[sa]);
                assert(entries@[b] == before[sb]);
            }
            lemma_named_map(entries@);
            assert forall|k: Seq<char>| #[trigger] named_map(entries@).contains_key(k) == named_map(before).remove(name@).contains_key(k) by {
                if named_map(entries@).contains_key(k) {
                    let j = choose|j: int| 0 <= j < entries@.len() && entries@[j].0@ == k;
                    let sj = if j < i { j } else { j + 1 };
                    assert(entries@[j] == before[sj]);
                }
                if named_map(before).remove(name@).contains_key(k) {
                    let j = choose|j: int| 0 <= j < before.len() && before[j].0@ == k;
                    let tj = if j < i { j } else { j - 1 };
                    assert(entries@[tj] == before[j]);
                }
            }
            assert forall|k: Seq<char>| #[trigger] named_map(entries@).contains_key(k) implies named_map(entries@)[k] == named_map(before).remove(name@)[k] by {
                let j = choose|j: int| 0 <= j < entries@.len() && entries@[j].0@ == k;
                let sj = if j < i { j } else { j + 1 };
                assert(entries@[j] == before[sj]);
            }
            assert(named_map(entries@) =~= named_map(before).remove(name@));
        }
        self.entries = entries;
    }

    /// Every registered thing with its name, each name once, in the order
    /// they were registered.
    pub fn entries(&self) -> (r: Vec<(&String, &T)>)
        ensures
            r.len() == self@.dom().len(),
            forall|i: int| 0 <= i < r.len() ==> self@.contains_key((#[trigger] r@[i]).0@) && self@[r@[i].0@] == *r@[i].1,
            forall|i: int, j: int| 0 <= i < j < r.len() ==> (#[trigger] r@[i]).0@ != (#[trigger] r@[j]).0@,
    {
        proof {
            use_type_invariant(self);
            lemma_named_map(self.entries@);
            lemma_named_map_len(self.entries@);
        }
        let mut r: Vec<(&String, &T)> = Vec::new();
        let mut i: usize = 0;
        while i < self.entries.len()
            invariant
                i <= self.entries.len(),
                r.len() == i,
                distinct_names(self.entries@),
                forall|j: int| 0 <= j < i ==> (#[trigger] r@[j]).0@ == self.entries@[j].0@ && *r@[j].1 == self.entries@[j].1,
            decreases self.entries.len() - i,
        {
            let e = &self.entries[i];
            r.push((&e.0, &e.1));
            i += 1;
        }
        proof {
            assert forall|a: int| 0 <= a < r.len() implies self@.contains_key((#[trigger] r@[a]).0@) && self@[r@[a].0@] == *r@[a].1 by {
                assert(self.entries@[a].0@ == r@[a].0@);
            }
        }
        r
    }

    /// Number of things registered.
    pub fn len(&self) -> (n: usize)
        ensures
            n == self@.dom().len(),
    {
        proof {
            use_type_invariant(self);
            lemma_named_map_len(self.entries@);
        }
        self.entries.len()
    }
}

/// Law: a thing registered under a new name is what a lookup of that name
/// gives, and the lookup of any other name is unchanged.
pub proof fn lemma_register_then_get<T>(before: Map<Seq<char>, T>, name: Seq<char>, thing: T, other: Seq<char>)
    requires
        !before.contains_key(name),
    ensures
        before.insert(name, thing).contains_key(name),
        before.insert(name, thing)[name] == thing,
        other != name ==> (before.insert(name, thing).contains_key(other) == before.contains_key(other)),
        other != name && before.contains_key(other) ==> before.insert(name, thing)[other] == before[other],
{
}

/// Law: after a thing is removed its name is unknown again, and the
/// registry holds one thing fewer.
pub proof fn lemma_remove_then_get<T>(before: Map<Seq<char>, T>, name: Seq<char>)
    requires
        before.contains_key(name),
        before.dom().finite(),
    ensures
        !before.remove(name).contains_key(name),
        before.remove(name).dom().len() + 1 == before.dom().len(),
{
    assert(before.remove(name).dom() =~= before.dom().remove(name));
}

} // verus!
