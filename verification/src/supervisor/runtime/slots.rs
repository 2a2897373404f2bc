//! The slots that children live in, a `slab::Slab`.

use slab::Slab;
use vstd::prelude::*;

use crate::supervisor::runtime::child_runtime::ChildEntry;

verus! {

/// `slab::Slab`, of which only the values and their keys are visible.
#[verifier::external_type_specification]
#[verifier::external_body]
#[verifier::reject_recursive_types(T)]
pub struct ExSlab<T>(Slab<T>);

/// The children that a slab holds, by key.
pub uninterp spec fn entries_of(slab: Slab<ChildEntry>) -> Map<usize, ChildEntry>;

/// No children.
pub open spec fn no_entries() -> Map<usize, ChildEntry> {
    Map::empty()
}

/// `Slab::new`: a slab that holds nothing.
#[verifier::external_body]
pub(crate) fn no_slots() -> (r: Slab<ChildEntry>)
    ensures
        entries_of(r) == no_entries(),
{
    Slab::new()
}

/// `Slab::insert`: stores the child under a key that was vacant, and returns
/// the key. Which vacant key that is is left unsaid.
#[verifier::external_body]
pub(crate) fn occupy(slab: &mut Slab<ChildEntry>, entry: ChildEntry) -> (key: usize)
    ensures
        !entries_of(*old(slab)).contains_key(key),
        entries_of(*final(slab)) == entries_of(*old(slab)).insert(key, entry),
{
    slab.insert(entry)
}

/// `Slab::get`: the child under the key, if there is one.
#[verifier::external_body]
pub(crate) fn entry(slab: &Slab<ChildEntry>, key: usize) -> (r: Option<&ChildEntry>)
    ensures
        match r {
            Some(entry) => entries_of(*slab).contains_key(key) && *entry == entries_of(*slab)[key],
            None => !entries_of(*slab).contains_key(key),
        },
{
    slab.get(key)
}

/// `Slab::get_mut`: the child under the key, if there is one, to be changed in
/// place. Nothing else in the slab changes.
#[verifier::external_body]
pub(crate) fn entry_mut(slab: &mut Slab<ChildEntry>, key: usize) -> (r: Option<&mut ChildEntry>)
    ensures
        match r {
            Some(entry) => {
                &&& entries_of(*old(slab)).contains_key(key)
                &&& *entry == entries_of(*old(slab))[key]
                &&& entries_of(*final(slab)) == entries_of(*old(slab)).insert(key, *final(entry))
            },
            None => {
                &&& !entries_of(*old(slab)).contains_key(key)
                &&& entries_of(*final(slab)) == entries_of(*old(slab))
            },
        },
{
    slab.get_mut(key)
}

/// `Slab::try_remove`: takes the child under the key out, if there is one.
#[verifier::external_body]
pub(crate) fn vacate(slab: &mut Slab<ChildEntry>, key: usize) -> (r: Option<ChildEntry>)
    ensures
        entries_of(*final(slab)) == entries_of(*old(slab)).remove(key),
        match r {
            Some(entry) => entries_of(*old(slab)).contains_key(key) && entry == entries_of(
                *old(slab),
            )[key],
            None => !entries_of(*old(slab)).contains_key(key),
        },
{
    slab.try_remove(key)
}

/// The keys in increasing order, each once.
pub open spec fn lists_keys(keys: Seq<usize>, entries: Map<usize, ChildEntry>) -> bool {
    &&& keys.to_set() == entries.dom()
    &&& forall|i: int, j: int| 0 <= i < j < keys.len() ==> keys[i] < keys[j]
}

/// `Slab::iter`: visits the children in the order of their keys. Only the keys
/// are handed out.
#[verifier::external_body]
pub(crate) fn occupied_keys(slab: &Slab<ChildEntry>) -> (r: Vec<usize>)
    ensures
        lists_keys(r@, entries_of(*slab)),
{
    slab.iter().map(|(key, _)| key).collect()
}

} // verus!
