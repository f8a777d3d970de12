//! An insertion-ordered table from names to values.

use crate::name_index::{
    index_insert, index_len, index_name_at, index_names, index_new, index_pop, index_position,
};
use indexmap::IndexSet;
use vstd::prelude::*;

verus! {

/// A map from names to values that remembers the order in which names were
/// first inserted, so that what is reported of its entries comes in
/// declaration order.
pub struct Table<V> {
    names: IndexSet<String>,
    values: Vec<V>,
}

impl<V> Table<V> {
    /// The names, in insertion order.
    pub closed spec fn keys(&self) -> Seq<Seq<char>> {
        index_names(self.names)
    }

    /// The values, each at the position of its name.
    pub closed spec fn values(&self) -> Seq<V> {
        self.values@
    }

    /// Every name has its value, and no name occurs twice.
    pub open spec fn wf(&self) -> bool {
        &&& self.keys().len() == self.values().len()
        &&& self.keys().no_duplicates()
    }

    /// The value stored under `name`, where the table holds that name.
    pub open spec fn value_of(&self, name: Seq<char>) -> V {
        self.values()[self.keys().index_of(name)]
    }

    /// An empty table.
    pub fn new() -> (table: Self)
        ensures
            table.wf(),
            table.keys() == Seq::<Seq<char>>::empty(),
            table.values() == Seq::<V>::empty(),
    {
        Table { names: index_new(), values: Vec::new() }
    }

    /// The number of entries.
    pub fn len(&self) -> (n: usize)
        requires
            self.wf(),
        ensures
            n == self.keys().len(),
    {
        index_len(&self.names)
    }

    pub fn is_empty(&self) -> (empty: bool)
        requires
            self.wf(),
        ensures
            empty == (self.keys().len() == 0),
    {
        index_len(&self.names) == 0
    }

    /// The position of `name` in insertion order.
    pub fn position(&self, name: &str) -> (found: Option<usize>)
        requires
            self.wf(),
        ensures
            match found {
                Some(i) => i < self.keys().len() && self.keys()[i as int] == name@ && i
                    == self.keys().index_of(name@),
                None => !self.keys().contains(name@),
            },
    {
        let found = index_position(&self.names, name);
        proof {
            if let Some(i) = found {
                self.keys().index_of_first_ensures(name@);
                assert(self.keys().contains(name@));
            }
        }
        found
    }

    pub fn contains_key(&self, name: &str) -> (held: bool)
        requires
            self.wf(),
        ensures
            held == self.keys().contains(name@),
    {
        self.position(name).is_some()
    }

    /// The value stored under `name`.
    pub fn get(&self, name: &str) -> (found: Option<&V>)
        requires
            self.wf(),
        ensures
            match found {
                Some(value) => self.keys().contains(name@) && *value == self.value_of(name@),
                None => !self.keys().contains(name@),
            },
    {
        match self.position(name) {
            Some(i) => Some(&self.values[i]),
            None => None,
        }
    }

    /// The name at position `i`.
    pub fn key_at(&self, i: usize) -> (name: &String)
        requires
            self.wf(),
            i < self.keys().len(),
        ensures
            name@ == self.keys()[i as int],
    {
        index_name_at(&self.names, i).unwrap()
    }

    /// The value at position `i`.
    pub fn value_at(&self, i: usize) -> (value: &V)
        requires
            self.wf(),
            i < self.keys().len(),
        ensures
            *value == self.values()[i as int],
    {
        &self.values[i]
    }

    /// Stores `value` under `name`. A name that is already held keeps its
    /// place and has its value replaced, and the value that was there is
    /// returned; a new name is placed last.
    pub fn insert(&mut self, name: String, value: V) -> (replaced: Option<V>)
        requires
            old(self).wf(),
        ensures
            final(self).wf(),
            match replaced {
                Some(previous) => {
                    &&& old(self).keys().contains(name@)
                    &&& previous == old(self).value_of(name@)
                    &&& final(self).keys() == old(self).keys()
                    &&& final(self).values() == old(self).values().update(
                        old(self).keys().index_of(name@),
                        value,
                    )
                },
                None => {
                    &&& !old(self).keys().contains(name@)
                    &&& final(self).keys() == old(self).keys().push(name@)
                    &&& final(self).values() == old(self).values().push(value)
                },
            },
    {
        match self.position(name.as_str()) {
            Some(i) => {
                self.values.push(value);
                let previous = self.values.swap_remove(i);
                assert(self.values@ =~= old(self).values().update(i as int, value));
                Some(previous)
            },
            None => {
                let added = index_insert(&mut self.names, name);
                self.values.push(value);
                proof {
                    let before = old(self).keys();
                    let after = self.keys();
                    assert forall|a: int, b: int|
                        0 <= a < after.len() && 0 <= b < after.len() && a != b implies after[a]
                        != after[b] by {
                        if a < before.len() && b < before.len() {
                        } else if a < before.len() {
                            assert(before.contains(before[a]));
                        } else {
                            assert(before.contains(before[b]));
                        }
                    }
                }
                None
            },
        }
    }

    /// Removes the last entry and returns it.
    pub fn pop(&mut self) -> (last: Option<(String, V)>)
        requires
            old(self).wf(),
        ensures
            final(self).wf(),
            match last {
                Some((name, value)) => {
                    &&& old(self).keys().len() > 0
                    &&& name@ == old(self).keys().last()
                    &&& value == old(self).values().last()
                    &&& final(self).keys() == old(self).keys().drop_last()
                    &&& final(self).values() == old(self).values().drop_last()
                },
                None => {
                    &&& old(self).keys().len() == 0
                    &&& final(self).keys() == old(self).keys()
                    &&& final(self).values() == old(self).values()
                },
            },
    {
        match index_pop(&mut self.names) {
            Some(name) => {
                let value = self.values.pop().unwrap();
                Some((name, value))
            },
            None => None,
        }
    }

    /// Takes the table apart into its entries, last entry first, so that
    /// popping from the result yields them in insertion order.
    pub fn into_stack(self) -> (stack: Vec<(String, V)>)
        requires
            self.wf(),
        ensures
            stack@.len() == self.keys().len(),
            forall|i: int|
                0 <= i < stack@.len() ==> (#[trigger] stack@[i]).0@ == self.keys()[stack@.len() - 1
                    - i] && stack@[i].1 == self.values()[stack@.len() - 1 - i],
    {
        let mut rest = self;
        let mut stack: Vec<(String, V)> = Vec::new();
        let ghost total = self.keys().len() as int;
        while rest.len() > 0
            invariant
                rest.wf(),
                self.wf(),
                total == self.keys().len(),
                rest.keys().len() + stack@.len() == total,
                rest.keys() == self.keys().subrange(0, rest.keys().len() as int),
                rest.values() == self.values().subrange(0, rest.keys().len() as int),
                forall|i: int|
                    0 <= i < stack@.len() ==> (#[trigger] stack@[i]).0@ == self.keys()[total - 1
                        - i] && stack@[i].1 == self.values()[total - 1 - i],
            decreases rest.keys().len(),
        {
            let entry = rest.pop().unwrap();
            assert(rest.keys() =~= self.keys().subrange(0, rest.keys().len() as int));
            assert(rest.values() =~= self.values().subrange(0, rest.keys().len() as int));
            stack.push(entry);
        }
        stack
    }

    /// Moves the entries of `other` behind the entries of `self`, in their
    /// order. The two tables share no name.
    pub fn append_disjoint(&mut self, other: Table<V>)
        requires
            old(self).wf(),
            other.wf(),
            forall|i: int|
                0 <= i < other.keys().len() ==> !old(self).keys().contains(
                    #[trigger] other.keys()[i],
                ),
        ensures
            final(self).wf(),
            final(self).keys() == old(self).keys() + other.keys(),
            final(self).values() == old(self).values() + other.values(),
    {
        let mut stack = other.into_stack();
        let ghost total = other.keys().len() as int;
        while stack.len() > 0
            invariant
                self.wf(),
                other.wf(),
                total == other.keys().len(),
                stack@.len() <= total,
                forall|i: int|
                    0 <= i < other.keys().len() ==> !old(self).keys().contains(
                        #[trigger] other.keys()[i],
                    ),
                self.keys() == old(self).keys() + other.keys().subrange(0, total - stack@.len()),
                self.values() == old(self).values() + other.values().subrange(
                    0,
                    total - stack@.len(),
                ),
                forall|i: int|
                    0 <= i < stack@.len() ==> (#[trigger] stack@[i]).0@ == other.keys()[total - 1
                        - i] && stack@[i].1 == other.values()[total - 1 - i],
            decreases stack@.len(),
        {
            let ghost done = total - stack@.len();
            let ghost held = self.keys();
            match stack.pop() {
                None => {},
                Some((name, value)) => {
                    proof {
                        assert(name@ == other.keys()[done]);
                        if held.contains(name@) {
                            let k = choose|k: int| 0 <= k < held.len() && held[k] == name@;
                            if k < old(self).keys().len() {
                                assert(old(self).keys().contains(other.keys()[done]));
                            } else {
                                assert(other.keys()[k - old(self).keys().len()]
                                    == other.keys()[done]);
                            }
                        }
                    }
                    self.insert(name, value);
                    assert(self.keys() =~= old(self).keys() + other.keys().subrange(0, done + 1));
                    assert(self.values() =~= old(self).values() + other.values().subrange(
                        0,
                        done + 1,
                    ));
                },
            }
        }
        assert(other.keys().subrange(0, total) =~= other.keys());
        assert(other.values().subrange(0, total) =~= other.values());
    }
}

} // verus!
