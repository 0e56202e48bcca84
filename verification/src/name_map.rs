//! A map keyed by text that remembers the order in which its keys arrived.

use vstd::prelude::*;
use crate::text::same_text;

verus! {

/// Whether no two of `entries` carry the same name.
pub open spec fn distinct_names<V>(entries: Seq<(String, V)>) -> bool {
    forall|i: int, j: int|
        0 <= i < j < entries.len() ==> (#[trigger] entries[i]).0@ != (#[trigger] entries[j]).0@
}

/// The names that `entries` carry, in order.
pub open spec fn names_of<V>(entries: Seq<(String, V)>) -> Seq<Seq<char>> {
    entries.map_values(|entry: (String, V)| entry.0@)
}

/// Whether one of `entries` carries the name `name`.
pub open spec fn names_include<V>(entries: Seq<(String, V)>, name: Seq<char>) -> bool {
    exists|i: int| 0 <= i < entries.len() && (#[trigger] entries[i]).0@ == name
}

/// Position of an entry that carries the name `name`.
pub open spec fn position_of<V>(entries: Seq<(String, V)>, name: Seq<char>) -> int {
    choose|i: int| 0 <= i < entries.len() && (#[trigger] entries[i]).0@ == name
}

/// The map that `entries` write down: each name with the value beside it.
pub open spec fn map_of<V>(entries: Seq<(String, V)>) -> Map<Seq<char>, V> {
    Map::new(
        |name: Seq<char>| names_include(entries, name),
        |name: Seq<char>| entries[position_of(entries, name)].1,
    )
}

/// With distinct names, the entry at `i` is what its name maps to.
pub proof fn lemma_map_of_entry<V>(entries: Seq<(String, V)>, i: int)
    requires
        distinct_names(entries),
        0 <= i < entries.len(),
    ensures
        map_of(entries).contains_key(entries[i].0@),
        map_of(entries)[entries[i].0@] == entries[i].1,
{
    let name = entries[i].0@;
    assert(names_include(entries, name));
    let p = position_of(entries, name);
    assert(entries[p].0@ == name);
    if p < i {
        assert(entries[p].0@ != entries[i].0@);
    } else if i < p {
        assert(entries[i].0@ != entries[p].0@);
    }
}

/// Adding an entry under a new name adds its pair to the map.
pub proof fn lemma_map_of_push<V>(entries: Seq<(String, V)>, name: String, value: V)
    requires
        distinct_names(entries),
        !names_include(entries, name@),
    ensures
        distinct_names(entries.push((name, value))),
        map_of(entries.push((name, value))) == map_of(entries).insert(name@, value),
{
    let longer = entries.push((name, value));
    assert forall|i: int, j: int| 0 <= i < j < longer.len() implies (#[trigger] longer[i]).0@ != (
    #[trigger] longer[j]).0@ by {
        if j == entries.len() {
            assert(entries[i].0@ != name@);
        } else {
            assert(entries[i].0@ != entries[j].0@);
        }
    }
    let target = map_of(entries).insert(name@, value);
    assert forall|k: Seq<char>| map_of(longer).contains_key(k) <==> target.contains_key(k) by {
        if names_include(longer, k) {
            let i = position_of(longer, k);
            if i < entries.len() {
                assert(entries[i].0@ == k);
            }
        }
        if names_include(entries, k) {
            let i = position_of(entries, k);
            assert(longer[i].0@ == k);
        }
        if k == name@ {
            assert(longer[entries.len() as int].0@ == k);
        }
    }
    assert forall|k: Seq<char>| map_of(longer).contains_key(k) implies map_of(longer)[k]
        == target[k] by {
        let i = position_of(longer, k);
        lemma_map_of_entry(longer, i);
        if i < entries.len() {
            lemma_map_of_entry(entries, i);
            assert(entries[i] == longer[i]);
        }
    }
    assert(map_of(longer) =~= target);
}

/// Replacing the value of an entry replaces what its name maps to.
pub proof fn lemma_map_of_update<V>(entries: Seq<(String, V)>, at: int, name: String, value: V)
    requires
        distinct_names(entries),
        0 <= at < entries.len(),
        entries[at].0@ == name@,
    ensures
        distinct_names(entries.update(at, (name, value))),
        map_of(entries.update(at, (name, value))) == map_of(entries).insert(name@, value),
{
    let changed = entries.update(at, (name, value));
    assert forall|i: int, j: int| 0 <= i < j < changed.len() implies (#[trigger] changed[i]).0@
        != (#[trigger] changed[j]).0@ by {
        assert(entries[i].0@ != entries[j].0@);
        assert(changed[i].0@ == entries[i].0@);
        assert(changed[j].0@ == entries[j].0@);
    }
    let target = map_of(entries).insert(name@, value);
    assert forall|k: Seq<char>| map_of(changed).contains_key(k) <==> target.contains_key(k) by {
        if names_include(changed, k) {
            let i = position_of(changed, k);
            assert(entries[i].0@ == k);
        }
        if names_include(entries, k) {
            let i = position_of(entries, k);
            assert(changed[i].0@ == k);
        }
        if k == name@ {
            assert(changed[at].0@ == k);
        }
    }
    assert forall|k: Seq<char>| map_of(changed).contains_key(k) implies map_of(changed)[k]
        == target[k] by {
        let i = position_of(changed, k);
        lemma_map_of_entry(changed, i);
        if i != at {
            lemma_map_of_entry(entries, i);
            assert(entries[i] == changed[i]);
            assert(entries[i].0@ != entries[at].0@) by {
                if i < at {
                    assert(entries[i].0@ != entries[at].0@);
                } else {
                    assert(entries[at].0@ != entries[i].0@);
                }
            }
        }
    }
    assert(map_of(changed) =~= target);
}

/// Distinct names make as many keys as there are entries.
pub proof fn lemma_map_of_len<V>(entries: Seq<(String, V)>)
    requires
        distinct_names(entries),
    ensures
        map_of(entries).dom().finite(),
        map_of(entries).dom().len() == entries.len(),
    decreases entries.len(),
{
    if entries.len() == 0 {
        assert(map_of(entries).dom() =~= Set::<Seq<char>>::empty());
    } else {
        let shorter = entries.drop_last();
        let last = entries.last();
        assert forall|i: int, j: int| 0 <= i < j < shorter.len() implies (#[trigger] shorter[i]).0@
            != (#[trigger] shorter[j]).0@ by {
            assert(entries[i].0@ != entries[j].0@);
        }
        lemma_map_of_len(shorter);
        assert(!names_include(shorter, last.0@)) by {
            if names_include(shorter, last.0@) {
                let i = position_of(shorter, last.0@);
                assert(entries[i].0@ != entries[entries.len() - 1].0@);
            }
        }
        lemma_map_of_push(shorter, last.0, last.1);
        assert(shorter.push((last.0, last.1)) =~= entries);
        assert(map_of(entries).dom() =~= map_of(shorter).dom().insert(last.0@));
    }
}

/// A finite map from names to values of type `V`. Looking a name up
/// compares texts exactly; entries keep the order in which their names
/// first arrived.
#[derive(Debug)]
pub struct NameMap<V> {
    entries: Vec<(String, V)>,
}

impl<V> View for NameMap<V> {
    type V = Map<Seq<char>, V>;

    closed spec fn view(&self) -> Map<Seq<char>, V> {
        map_of(self.entries@)
    }
}

impl<V> NameMap<V> {
    #[verifier::type_invariant]
    spec fn names_are_distinct(&self) -> bool {
        distinct_names(self.entries@)
    }

    /// The keys in the order in which they first arrived.
    pub closed spec fn names(&self) -> Seq<Seq<char>> {
        names_of(self.entries@)
    }

    /// The empty map.
    pub fn new() -> (m: Self)
        ensures
            m@ == Map::<Seq<char>, V>::empty(),
            m.names() == Seq::<Seq<char>>::empty(),
    {
        let m = NameMap { entries: Vec::new() };
        assert(m@ =~= Map::<Seq<char>, V>::empty());
        assert(m.names() =~= Seq::<Seq<char>>::empty());
        m
    }

    /// Number of keys.
    pub fn len(&self) -> (n: usize)
        ensures
            n == self@.dom().len(),
            n == self.names().len(),
            self@.dom().finite(),
    {
        proof {
            use_type_invariant(self);
            lemma_map_of_len(self.entries@);
        }
        self.entries.len()
    }

    /// Whether the map holds no key.
    pub fn is_empty(&self) -> (r: bool)
        ensures
            r == (self@.dom().len() == 0),
            self@.dom().finite(),
    {
        self.len() == 0
    }

    /// Position of `name` in the listing, if it is a key.
    fn find(&self, name: &str) -> (at: Option<usize>)
        ensures
            match at {
                Some(i) => i < self.entries@.len() && self.entries@[i as int].0@ == name@,
                None => !names_include(self.entries@, name@),
            },
    {
        let mut i: usize = 0;
        while i < self.entries.len()
            invariant
                i <= self.entries@.len(),
                forall|j: int| 0 <= j < i ==> (#[trigger] self.entries@[j]).0@ != name@,
            decreases self.entries@.len() - i,
        {
            if same_text(self.entries[i].0.as_str(), name) {
                return Some(i);
            }
            i += 1;
        }
        None
    }

    /// Tells whether `name` is a key.
    pub fn contains_key(&self, name: &str) -> (r: bool)
        ensures
            r == self@.contains_key(name@),
    {
        self.find(name).is_some()
    }

    /// The value that `name` maps to.
    pub fn get(&self, name: &str) -> (value: Option<&V>)
        ensures
            match value {
                Some(v) => self@.contains_key(name@) && *v == self@[name@],
                None => !self@.contains_key(name@),
            },
    {
        match self.find(name) {
            Some(i) => {
                proof {
                    use_type_invariant(self);
                    lemma_map_of_entry(self.entries@, i as int);
                }
                Some(&self.entries[i].1)
            },
            None => None,
        }
    }

    /// Maps `name` to `value`, in place of what it mapped to before. A
    /// name that is new takes the last place among the keys; one that is
    /// not keeps its place.
    pub fn insert(&mut self, name: String, value: V)
        ensures
            final(self)@ == old(self)@.insert(name@, value),
            final(self).names() == if old(self)@.contains_key(name@) {
                old(self).names()
            } else {
                old(self).names().push(name@)
            },
    {
        proof {
            use_type_invariant(&*self);
        }
        let found = self.find(name.as_str());
        let mut entries: Vec<(String, V)> = Vec::new();
        std::mem::swap(&mut self.entries, &mut entries);
        let ghost before = entries@;
        match found {
            Some(i) => {
                proof {
                    lemma_map_of_update(before, i as int, name, value);
                    lemma_map_of_entry(before, i as int);
                    assert(names_of(before.update(i as int, (name, value))) =~= names_of(before));
                }
                entries.set(i, (name, value));
            },
            None => {
                proof {
                    lemma_map_of_push(before, name, value);
                    assert(names_of(before.push((name, value))) =~= names_of(before).push(name@));
                }
                entries.push((name, value));
            },
        }
        self.entries = entries;
    }

    /// The entries in the order of the keys: each key once, beside the
    /// value that it maps to.
    pub fn entries(&self) -> (listed: &Vec<(String, V)>)
        ensures
            names_of(listed@) == self.names(),
            distinct_names(listed@),
            self@ == map_of(listed@),
            forall|i: int|
                0 <= i < listed@.len() ==> self@.contains_key((#[trigger] listed@[i]).0@)
                    && self@[listed@[i].0@] == listed@[i].1,
    {
        proof {
            use_type_invariant(self);
            assert forall|i: int| 0 <= i < self.entries@.len() implies self@.contains_key(
                (#[trigger] self.entries@[i]).0@,
            ) && self@[self.entries@[i].0@] == self.entries@[i].1 by {
                lemma_map_of_entry(self.entries@, i);
            }
        }
        &self.entries
    }
}

} // verus!
