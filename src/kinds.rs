//! Sets of node-kind ids, held in a `bit_set::BitSet`.
use vstd::prelude::*;
use bit_set::BitSet;

verus! {

#[verifier::external_type_specification]
#[verifier::external_body]
#[verifier::reject_recursive_types(B)]
pub struct ExBitSet<B>(BitSet<B>);

/// The ids held by a bit set.
pub uninterp spec fn kind_set(s: BitSet) -> Set<usize>;

/// Relies on `BitSet::new`: the set starts empty.
#[verifier::external_body]
pub(crate) fn empty_kinds() -> (r: BitSet)
    ensures
        kind_set(r) == Set::<usize>::empty(),
{
    BitSet::new()
}

/// Relies on `BitSet::insert`: the id is added and nothing else changes.
/// The bit vector grows to hold the id, so ids stay within the kind-id range.
#[verifier::external_body]
pub(crate) fn insert_kind(s: &mut BitSet, id: usize)
    requires
        id <= 65535,
    ensures
        kind_set(*final(s)) == kind_set(*old(s)).insert(id),
{
    s.insert(id);
}

/// Relies on `BitSet::contains`: whether the id is in the set.
#[verifier::external_body]
pub(crate) fn contains_kind(s: &BitSet, id: usize) -> (r: bool)
    ensures
        r == kind_set(*s).contains(id),
{
    s.contains(id)
}

/// The set holding the one id `id`.
pub fn single_kind(id: u16) -> (r: BitSet)
    ensures
        kind_set(r) == set![id as usize],
{
    let mut s = empty_kinds();
    insert_kind(&mut s, id as usize);
    assert(Set::<usize>::empty().insert(id as usize) =~= set![id as usize]);
    s
}

} // verus!
