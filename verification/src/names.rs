//! A table of names in the order they were first seen: each name gets the next
//! free index once, and keeps it.
//!
//! The table is an `indexmap::IndexSet`. What is stated here of its methods is
//! taken on trust from that crate; everything built on them is proved.

use vstd::prelude::*;
use indexmap::IndexSet;
use std::hash::RandomState;

verus! {

/// `indexmap::IndexSet`, held as an opaque value.
#[verifier::external_type_specification]
#[verifier::external_body]
#[verifier::reject_recursive_types(T)]
#[verifier::reject_recursive_types(S)]
pub struct ExIndexSet<T, S>(IndexSet<T, S>);

/// The names that a set holds, in insertion order.
pub uninterp spec fn set_names(set: IndexSet<String, RandomState>) -> Seq<Seq<char>>;

/// `IndexSet::new`, taken on trust: the new set holds no name.
#[verifier::external_body]
fn set_new() -> (r: IndexSet<String, RandomState>)
    ensures
        set_names(r) == Seq::<Seq<char>>::empty(),
{
    IndexSet::new()
}

/// `IndexSet::len`, taken on trust: the number of names held.
#[verifier::external_body]
fn set_len(set: &IndexSet<String, RandomState>) -> (r: usize)
    ensures
        r == set_names(*set).len(),
{
    set.len()
}

/// `IndexSet::get_index_of`, taken on trust: the index at which the set
/// holds `name`, and `None` where it does not hold it.
#[verifier::external_body]
fn set_index_of(set: &IndexSet<String, RandomState>, name: &str) -> (r: Option<usize>)
    ensures
        r matches Some(i) ==> i < set_names(*set).len() && set_names(*set)[i as int] == name@,
        r is None ==> !set_names(*set).contains(name@),
{
    set.get_index_of(name)
}

/// `IndexSet::insert_full`, taken on trust: a name that the set holds
/// already stays where it is, and the call returns its index and `false`;
/// any other name is added after the last, and the call returns its index
/// and `true`.
#[verifier::external_body]
fn set_insert(set: &mut IndexSet<String, RandomState>, name: String) -> (r: (usize, bool))
    ensures
        set_names(*old(set)).contains(name@) ==> set_names(*final(set)) == set_names(*old(set))
            && !r.1 && r.0 < set_names(*old(set)).len() && set_names(*old(set))[r.0 as int] == name@,
        !set_names(*old(set)).contains(name@) ==> set_names(*final(set)) == set_names(*old(set)).push(
            name@,
        ) && r.1 && r.0 == set_names(*old(set)).len(),
{
    set.insert_full(name)
}

/// The table after `name` was asked for, and the index that `name` has in it:
/// a name that the table holds keeps its index and leaves the table as it is,
/// a new name goes to the end.
pub open spec fn spec_intern(names: Seq<Seq<char>>, name: Seq<char>) -> (Seq<Seq<char>>, int) {
    if names.contains(name) {
        (names, names.index_of(name))
    } else {
        (names.push(name), names.len() as int)
    }
}

/// A table of distinct names, each at the index it was given when first seen.
pub struct NameTable {
    set: IndexSet<String, RandomState>,
}

impl NameTable {
    /// No name stands in the table twice.
    pub open spec fn wf(self) -> bool {
        self.names().no_duplicates()
    }

    /// The names of the table, by index.
    pub closed spec fn names(self) -> Seq<Seq<char>> {
        set_names(self.set)
    }

    /// The empty table.
    pub fn new() -> (r: NameTable)
        ensures
            r.names().len() == 0,
            r.wf(),
    {
        NameTable { set: set_new() }
    }

    /// The number of names in the table.
    pub fn len(&self) -> (r: usize)
        ensures
            r == self.names().len(),
    {
        set_len(&self.set)
    }

    /// The index of `name`, and `None` where the table does not hold it.
    pub fn find(&self, name: &str) -> (r: Option<usize>)
        requires
            self.wf(),
        ensures
            r is Some <==> self.names().contains(name@),
            r matches Some(i) ==> i < self.names().len() && self.names()[i as int] == name@ && i
                == self.names().index_of(name@),
    {
        let found = set_index_of(&self.set, name);
        proof {
            if let Some(i) = found {
                assert(self.names()[i as int] == name@);
                self.names().index_of_first(name@);
                lemma_position_unique(self.names(), name@, i as int);
            }
        }
        found
    }

    /// Gives `name` an index if it has none yet, and returns its index and
    /// whether it is new.
    pub fn intern(&mut self, name: &str) -> (r: (usize, bool))
        requires
            old(self).wf(),
        ensures
            (final(self).names(), r.0 as int) == spec_intern(old(self).names(), name@),
            r.1 == !old(self).names().contains(name@),
            r.0 < final(self).names().len(),
            final(self).names()[r.0 as int] == name@,
            final(self).names().contains(name@),
            final(self).wf(),
    {
        let ghost before = self.names();
        let owned = name.to_owned();
        let r = set_insert(&mut self.set, owned);
        proof {
            if before.contains(name@) {
                lemma_position_unique(before, name@, r.0 as int);
            } else {
                assert forall|i: int, j: int|
                    0 <= i < before.len() + 1 && 0 <= j < before.len() + 1 && i != j implies before.push(
                    name@,
                )[i] != before.push(name@)[j] by {
                    if i < before.len() && j < before.len() {
                    } else if i < before.len() {
                        assert(before[i] != name@);
                    } else {
                        assert(before[j] != name@);
                    }
                }
            }
            assert(self.names()[r.0 as int] == name@);
        }
        r
    }
}

/// In a table without duplicates, the one place that holds a name is the
/// name's index.
pub proof fn lemma_position_unique(names: Seq<Seq<char>>, name: Seq<char>, at: int)
    requires
        names.no_duplicates(),
        0 <= at < names.len(),
        names[at] == name,
    ensures
        names.contains(name),
        names.index_of(name) == at,
{
    assert(names.contains(name));
    let found = names.index_of(name);
    assert(0 <= found < names.len() && names[found] == name);
}

/// Asking for a name twice gives the same index both times, and the second
/// time leaves the table as it is.
pub proof fn lemma_intern_idempotent(names: Seq<Seq<char>>, name: Seq<char>)
    requires
        names.no_duplicates(),
    ensures
        spec_intern(spec_intern(names, name).0, name) == spec_intern(names, name),
        spec_intern(names, name).0.contains(name),
{
    let once = spec_intern(names, name);
    if names.contains(name) {
    } else {
        assert(once.0[names.len() as int] == name);
        assert forall|i: int, j: int| 0 <= i < once.0.len() && 0 <= j < once.0.len() && i != j implies once.0[i]
            != once.0[j] by {
            if i < names.len() && j < names.len() {
            } else if i < names.len() {
                assert(names[i] != name);
            } else {
                assert(names[j] != name);
            }
        }
        lemma_position_unique(once.0, name, names.len() as int);
    }
}

/// Asking for a name leaves every name that the table held at its index.
pub proof fn lemma_intern_keeps(names: Seq<Seq<char>>, name: Seq<char>, at: int)
    requires
        0 <= at < names.len(),
    ensures
        spec_intern(names, name).0.len() >= names.len(),
        spec_intern(names, name).0[at] == names[at],
{
}

} // verus!
