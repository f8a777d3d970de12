//! The insertion-ordered index of component names.
//!
//! Names are kept in an `indexmap::IndexSet<String>`: a hash index that also
//! remembers the order in which names were first inserted. Verus does not
//! read that crate; what this module states of it is taken from its source
//! and is believed, not proved.

use indexmap::IndexSet;
use vstd::prelude::*;

verus! {

/// Makes `indexmap::IndexSet` known to Verus, as a type whose inside it
/// does not see.
#[verifier::external_type_specification]
#[verifier::external_body]
#[verifier::reject_recursive_types(T)]
#[verifier::reject_recursive_types(S)]
pub struct ExIndexSet<T, S>(IndexSet<T, S>);

/// The names held by an index, in insertion order.
pub uninterp spec fn index_names(index: IndexSet<String>) -> Seq<Seq<char>>;

/// `IndexSet::new`: a new index holds no name.
#[verifier::external_body]
pub(crate) fn index_new() -> (index: IndexSet<String>)
    ensures
        index_names(index) == Seq::<Seq<char>>::empty(),
{
    IndexSet::new()
}

/// `IndexSet::len`: the number of names held.
#[verifier::external_body]
pub(crate) fn index_len(index: &IndexSet<String>) -> (n: usize)
    ensures
        n == index_names(*index).len(),
{
    index.len()
}

/// `IndexSet::get_index_of`: the position of `name`, or `None` when the index
/// does not hold it.
#[verifier::external_body]
pub(crate) fn index_position(index: &IndexSet<String>, name: &str) -> (found: Option<usize>)
    ensures
        match found {
            Some(i) => i < index_names(*index).len() && index_names(*index)[i as int] == name@,
            None => !index_names(*index).contains(name@),
        },
{
    index.get_index_of(name)
}

/// `IndexSet::get_index`: the name at position `i`, or `None` when `i` is
/// past the end.
#[verifier::external_body]
pub(crate) fn index_name_at(index: &IndexSet<String>, i: usize) -> (found: Option<&String>)
    ensures
        match found {
            Some(name) => i < index_names(*index).len() && name@ == index_names(*index)[i as int],
            None => i >= index_names(*index).len(),
        },
{
    index.get_index(i)
}

/// `IndexSet::insert`: a name that is already held stays where it is and
/// `false` is returned; a new name is placed last and `true` is returned.
#[verifier::external_body]
pub(crate) fn index_insert(index: &mut IndexSet<String>, name: String) -> (added: bool)
    ensures
        added == !index_names(*old(index)).contains(name@),
        added ==> index_names(*final(index)) == index_names(*old(index)).push(name@),
        !added ==> index_names(*final(index)) == index_names(*old(index)),
{
    index.insert(name)
}

/// `IndexSet::pop`: removes and returns the last name; the order of the
/// others is kept.
#[verifier::external_body]
pub(crate) fn index_pop(index: &mut IndexSet<String>) -> (last: Option<String>)
    ensures
        match last {
            Some(name) => index_names(*old(index)).len() > 0 && name@ == index_names(
                *old(index),
            ).last() && index_names(*final(index)) == index_names(*old(index)).drop_last(),
            None => index_names(*old(index)).len() == 0 && index_names(*final(index))
                == index_names(*old(index)),
        },
{
    index.pop()
}

} // verus!
