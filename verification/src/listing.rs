//! Turning the raw entries of a directory into ordered lists of names.

use crate::text::{
    lemma_lex_le_connected, lemma_lex_le_transitive, lemma_lex_order_total, lex_le, lex_order,
    precedes,
};
use vstd::prelude::*;
use vstd::relations::sorted_by;
use vstd::seq_lib::to_multiset_insert;

verus! {

/// One immediate child of a directory, as the caller found it.
#[derive(Debug, Clone, PartialEq, Eq)]
pub struct DirectoryEntry {
    pub name: String,
    pub is_directory: bool,
}

/// The names of the entries that are directories (`directories` true) or that are not
/// (`directories` false), in the order of the entries.
pub open spec fn names_of_kind(entries: Seq<DirectoryEntry>, directories: bool) -> Seq<Seq<char>>
    decreases entries.len(),
{
    if entries.len() == 0 {
        Seq::empty()
    } else {
        let earlier = names_of_kind(entries.drop_last(), directories);
        if entries.last().is_directory == directories {
            earlier.push(entries.last().name@)
        } else {
            earlier
        }
    }
}

/// Puts `name` into the ascending list `sorted`, behind the names that precede or equal it.
fn insert_sorted(sorted: &mut Vec<String>, name: String)
    requires
        sorted_by(old(sorted).deep_view(), lex_order()),
    ensures
        sorted_by(final(sorted).deep_view(), lex_order()),
        final(sorted).deep_view().to_multiset() == old(sorted).deep_view().to_multiset().insert(
            name@,
        ),
{
    let mut at: usize = 0;
    let mut searching = true;
    while searching && at < sorted.len()
        invariant
            at <= sorted.len(),
            forall|k: int| 0 <= k < at ==> lex_le(#[trigger] sorted@[k]@, name@),
            !searching ==> at < sorted.len() && !lex_le(sorted@[at as int]@, name@),
        decreases sorted.len() - at + (if searching { 1int } else { 0int }),
    {
        if precedes(sorted[at].as_str(), name.as_str()) {
            at += 1;
        } else {
            searching = false;
        }
    }
    let ghost before = sorted.deep_view();
    let ghost text = name@;
    sorted.insert(at, name);
    proof {
        let after = sorted.deep_view();
        assert(after =~= before.insert(at as int, text));
        to_multiset_insert(before, at as int, text);
        assert forall|i: int, j: int| 0 <= i < j < after.len() implies #[trigger] lex_order()(
            after[i],
            after[j],
        ) by {
            if i == at {
                lemma_lex_le_connected(before[at as int], text);
                if at as int != j - 1 {
                    assert(lex_order()(before[at as int], before[j - 1]));
                    lemma_lex_le_transitive(text, before[at as int], before[j - 1]);
                }
            }
        }
    }
}

/// The names of the entries of one kind, in ascending order.
fn sorted_names_of_kind(entries: &Vec<DirectoryEntry>, directories: bool) -> (names: Vec<String>)
    ensures
        sorted_by(names.deep_view(), lex_order()),
        names.deep_view().to_multiset() == names_of_kind(entries@, directories).to_multiset(),
{
    let mut names: Vec<String> = Vec::new();
    let mut i: usize = 0;
    assert(names.deep_view() =~= Seq::empty());
    while i < entries.len()
        invariant
            i <= entries.len(),
            sorted_by(names.deep_view(), lex_order()),
            names.deep_view().to_multiset() == names_of_kind(
                entries@.take(i as int),
                directories,
            ).to_multiset(),
        decreases entries.len() - i,
    {
        assert(entries@.take(i + 1).drop_last() =~= entries@.take(i as int));
        if entries[i].is_directory == directories {
            proof {
                vstd::seq_lib::to_multiset_build(
                    names_of_kind(entries@.take(i as int), directories),
                    entries@[i as int].name@,
                );
            }
            insert_sorted(&mut names, entries[i].name.clone());
        }
        i += 1;
    }
    assert(entries@.take(entries@.len() as int) =~= entries@);
    names
}

/// The names of the immediate subdirectories among `entries`, in ascending order.
pub fn subdirectory_names(entries: &Vec<DirectoryEntry>) -> (names: Vec<String>)
    ensures
        sorted_by(names.deep_view(), lex_order()),
        names.deep_view().to_multiset() == names_of_kind(entries@, true).to_multiset(),
{
    sorted_names_of_kind(entries, true)
}

/// The names of the immediate files among `entries` (everything that is no directory),
/// in ascending order.
pub fn file_names(entries: &Vec<DirectoryEntry>) -> (names: Vec<String>)
    ensures
        sorted_by(names.deep_view(), lex_order()),
        names.deep_view().to_multiset() == names_of_kind(entries@, false).to_multiset(),
{
    sorted_names_of_kind(entries, false)
}

/// The ascending list of some names is one list only: it does not depend on the order
/// in which the entries were found.
pub proof fn lemma_ascending_names_unique(one: Seq<Seq<char>>, other: Seq<Seq<char>>)
    requires
        sorted_by(one, lex_order()),
        sorted_by(other, lex_order()),
        one.to_multiset() == other.to_multiset(),
    ensures
        one == other,
{
    lemma_lex_order_total();
    vstd::seq_lib::lemma_sorted_unique(one, other, lex_order());
}

} // verus!
