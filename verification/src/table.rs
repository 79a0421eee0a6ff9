//! Small tables keyed by name.

use vstd::prelude::*;

verus! {

/// Values with a notion of being the same setting.
pub trait Matches: Copy {
    /// Whether the two are the same setting.
    spec fn matched(self, other: Self) -> bool;

    /// Tells whether the two are the same setting.
    fn matches(&self, other: &Self) -> (same: bool)
        ensures
            same == self.matched(*other),
    ;
}

/// Values by name. A name occurs once.
#[derive(Debug)]
pub struct NamedTable<V> {
    entries: Vec<(String, V)>,
}

spec fn distinct<V>(entries: Seq<(String, V)>) -> bool {
    forall|i: int, j: int|
        0 <= i < j < entries.len() ==> (#[trigger] entries[i]).0@ != (#[trigger] entries[j]).0@
}

spec fn named<V>(entries: Seq<(String, V)>, name: Seq<char>) -> bool {
    exists|i: int| 0 <= i < entries.len() && (#[trigger] entries[i]).0@ == name
}

spec fn position<V>(entries: Seq<(String, V)>, name: Seq<char>) -> int {
    choose|i: int| 0 <= i < entries.len() && (#[trigger] entries[i]).0@ == name
}

spec fn as_map<V>(entries: Seq<(String, V)>) -> Map<Seq<char>, V> {
    Map::new(|name: Seq<char>| named(entries, name), |name: Seq<char>| entries[position(entries, name)].1)
}

impl<V> View for NamedTable<V> {
    type V = Map<Seq<char>, V>;

    closed spec fn view(&self) -> Map<Seq<char>, V> {
        as_map(self.entries@)
    }
}

/// Whether two tables hold the same settings under the same names.
pub open spec fn same_table<V: Matches>(a: Map<Seq<char>, V>, b: Map<Seq<char>, V>) -> bool {
    &&& a.dom() =~= b.dom()
    &&& forall|name: Seq<char>| #[trigger] a.contains_key(name) ==> a[name].matched(b[name])
}

proof fn lemma_names<V>(entries: Seq<(String, V)>)
    requires
        distinct(entries),
    ensures
        as_map(entries).dom().finite(),
        as_map(entries).dom().len() == entries.len(),
        forall|i: int|
            0 <= i < entries.len() ==> as_map(entries).contains_key((#[trigger] entries[i]).0@)
                && as_map(entries)[entries[i].0@] == entries[i].1,
    decreases entries.len(),
{
    assert forall|i: int| 0 <= i < entries.len() implies as_map(entries).contains_key(
        (#[trigger] entries[i]).0@,
    ) && as_map(entries)[entries[i].0@] == entries[i].1 by {
        assert(named(entries, entries[i].0@));
        let p = position(entries, entries[i].0@);
        assert(entries[p].0@ == entries[i].0@);
    }
    if entries.len() == 0 {
        assert(as_map(entries).dom() =~= Set::empty());
    } else {
        let front = entries.drop_last();
        lemma_names(front);
        let last = entries.last().0@;
        assert forall|name: Seq<char>| named(entries, name) <==> (named(front, name) || name == last) by {
            if named(entries, name) {
                let i = position(entries, name);
                if i < front.len() {
                    assert(front[i].0@ == name);
                }
            }
            if named(front, name) {
                let i = position(front, name);
                assert(entries[i].0@ == name);
            }
            if name == last {
                assert(entries[entries.len() - 1].0@ == name);
            }
        }
        assert(as_map(entries).dom() =~= as_map(front).dom().insert(last));
        if named(front, last) {
            let i = position(front, last);
            assert(entries[i].0@ == entries[entries.len() - 1].0@);
        }
    }
}

impl<V> NamedTable<V> {
    #[verifier::type_invariant]
    spec fn wf(self) -> bool {
        distinct(self.entries@)
    }
}

impl<V: Copy> NamedTable<V> {
    /// An empty table.
    pub fn new() -> (table: Self)
        ensures
            table@ == Map::<Seq<char>, V>::empty(),
    {
        let table = NamedTable { entries: Vec::new() };
        assert(table@ =~= Map::empty());
        table
    }

    fn find(&self, name: &String) -> (found: Option<usize>)
        ensures
            match found {
                Some(i) => i < self.entries@.len() && self.entries@[i as int].0@ == name@,
                None => !named(self.entries@, name@),
            },
    {
        let mut i: usize = 0;
        while i < self.entries.len()
            invariant
                i <= self.entries@.len(),
                forall|j: int| 0 <= j < i ==> (#[trigger] self.entries@[j]).0@ != name@,
            decreases self.entries@.len() - i,
        {
            if self.entries[i].0 == *name {
                return Some(i);
            }
            i += 1;
        }
        None
    }

    /// The value under a name.
    pub fn get(&self, name: &String) -> (value: Option<V>)
        ensures
            match value {
                Some(v) => self@.contains_key(name@) && self@[name@] == v,
                None => !self@.contains_key(name@),
            },
    {
        proof {
            use_type_invariant(self);
            lemma_names(self.entries@);
        }
        match self.find(name) {
            Some(i) => Some(self.entries[i].1),
            None => None,
        }
    }

    /// Another table with the same values under the same names.
    pub fn duplicate(&self) -> (copy: NamedTable<V>)
        ensures
            copy@ == self@,
    {
        proof {
            use_type_invariant(self);
        }
        let mut entries: Vec<(String, V)> = Vec::new();
        let mut i: usize = 0;
        while i < self.entries.len()
            invariant
                i <= self.entries@.len(),
                entries@ =~= self.entries@.take(i as int),
            decreases self.entries@.len() - i,
        {
            entries.push((self.entries[i].0.clone(), self.entries[i].1));
            i += 1;
        }
        assert(entries@ =~= self.entries@);
        NamedTable { entries }
    }

    /// Puts a value under a name, in place of the one that was there.
    pub fn insert(&mut self, name: String, value: V)
        ensures
            final(self)@ == old(self)@.insert(name@, value),
    {
        proof {
            use_type_invariant(&*self);
            lemma_names(self.entries@);
        }
        let ghost before = self.entries@;
        let found = self.find(&name);
        let mut entries: Vec<(String, V)> = Vec::new();
        std::mem::swap(&mut entries, &mut self.entries);
        let ghost key = name@;
        match found {
            Some(i) => {
                entries.set(i, (name, value));
            },
            None => {
                entries.push((name, value));
            },
        }
        proof {
            assert forall|i: int, j: int| 0 <= i < j < entries@.len() implies (#[trigger]
            entries@[i]).0@ != (#[trigger] entries@[j]).0@ by {
                if j < before.len() {
                    assert(before[i].0@ != before[j].0@);
                } else if found is None {
                    assert(before[i].0@ == entries@[i].0@);
                }
            }
            lemma_names(entries@);
            assert forall|n: Seq<char>| named(entries@, n) <==> (named(before, n) || n == key) by {
                if named(entries@, n) {
                    let i = position(entries@, n);
                    if i < before.len() {
                        assert(before[i].0@ == n || n == key);
                    }
                }
                if named(before, n) {
                    let i = position(before, n);
                    assert(entries@[i].0@ == n);
                }
                match found {
                    Some(i) => assert(entries@[i as int].0@ == key),
                    None => assert(entries@[before.len() as int].0@ == key),
                }
            }
            assert forall|n: Seq<char>| #[trigger] named(before, n) && n != key implies as_map(
                entries@,
            )[n] == as_map(before)[n] by {
                let i = position(before, n);
                assert(before[i].0@ == n);
                assert(entries@[i].0@ == n);
            }
            match found {
                Some(i) => assert(entries@[i as int].0@ == key),
                None => assert(entries@[before.len() as int].0@ == key),
            }
            assert(as_map(entries@) =~= as_map(before).insert(key, value));
        }
        self.entries = entries;
    }
}

impl<V: Matches> NamedTable<V> {
    /// Tells whether two tables hold the same settings under the same names,
    /// in whatever order they were put in.
    pub fn same(&self, other: &NamedTable<V>) -> (same: bool)
        ensures
            same == same_table(self@, other@),
    {
        proof {
            use_type_invariant(self);
            use_type_invariant(other);
            lemma_names(self.entries@);
            lemma_names(other.entries@);
        }
        if self.entries.len() != other.entries.len() {
            return false;
        }
        let mut i: usize = 0;
        while i < self.entries.len()
            invariant
                i <= self.entries@.len(),
                forall|j: int|
                    0 <= j < i ==> {
                        let name = (#[trigger] self.entries@[j]).0@;
                        other@.contains_key(name) && self.entries@[j].1.matched(other@[name])
                    },
                forall|j: int|
                    0 <= j < self.entries@.len() ==> self@.contains_key(
                        (#[trigger] self.entries@[j]).0@,
                    ) && self@[self.entries@[j].0@] == self.entries@[j].1,
            decreases self.entries@.len() - i,
        {
            let same: bool = match other.get(&self.entries[i].0) {
                Some(value) => self.entries[i].1.matches(&value),
                None => false,
            };
            if !same {
                assert(self@.contains_key(self.entries@[i as int].0@));
                return false;
            }
            i += 1;
        }
        proof {
            assert forall|name: Seq<char>| #[trigger] self@.contains_key(name) implies other@.contains_key(
                name,
            ) && self@[name].matched(other@[name]) by {
                assert(named(self.entries@, name));
                let p = position(self.entries@, name);
                assert(self.entries@[p].0@ == name);
            }
            assert(self@.dom().subset_of(other@.dom()));
            vstd::set_lib::lemma_subset_equality(self@.dom(), other@.dom());
        }
        true
    }
}

} // verus!
