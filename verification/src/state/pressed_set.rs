//! The insertion-ordered set that keeps the pressed modifier keys.
//!
//! The set is `linked_hash_set::LinkedHashSet`, holding key codes. Verus
//! does not read that crate: what this file says of it is taken on trust
//! from the crate's documentation and source.

use crate::state::sequence::without;
use linked_hash_set::LinkedHashSet;
use vstd::prelude::*;

verus! {

/// `linked_hash_set::LinkedHashSet`, declared so that it can stand in
/// fields and signatures. Nothing inside it is visible.
#[verifier::external_type_specification]
#[verifier::external_body]
#[verifier::reject_recursive_types(T)]
#[verifier::reject_recursive_types(S)]
pub struct ExLinkedHashSet<T, S>(LinkedHashSet<T, S>);

/// What a set holds, oldest insertion first: the order in which its
/// iterator hands the codes out.
pub uninterp spec fn codes_in_order(set: LinkedHashSet<u16>) -> Seq<u16>;

/// `LinkedHashSet::new`: a set that holds nothing.
#[verifier::external_body]
pub(crate) fn empty_set() -> (set: LinkedHashSet<u16>)
    ensures
        codes_in_order(set) == Seq::<u16>::empty(),
{
    LinkedHashSet::new()
}

/// `LinkedHashSet::contains`: whether the code is in the set.
#[verifier::external_body]
pub(crate) fn set_contains(set: &LinkedHashSet<u16>, code: u16) -> (found: bool)
    ensures
        found == codes_in_order(*set).contains(code),
{
    set.contains(&code)
}

/// `LinkedHashSet::insert_if_absent`: a code that the set lacks goes to
/// the end of the order and `true` comes back; with a code that the set
/// has, nothing changes and `false` comes back.
#[verifier::external_body]
pub(crate) fn set_insert_if_absent(set: &mut LinkedHashSet<u16>, code: u16) -> (added: bool)
    ensures
        added == !codes_in_order(*old(set)).contains(code),
        codes_in_order(*final(set)) == if added {
            codes_in_order(*old(set)).push(code)
        } else {
            codes_in_order(*old(set))
        },
{
    set.insert_if_absent(code)
}

/// `LinkedHashSet::remove`: the code leaves the set and the others keep
/// their order; `true` comes back if the code was there.
#[verifier::external_body]
pub(crate) fn set_remove(set: &mut LinkedHashSet<u16>, code: u16) -> (removed: bool)
    ensures
        removed == codes_in_order(*old(set)).contains(code),
        codes_in_order(*final(set)) == without(codes_in_order(*old(set)), code),
{
    set.remove(&code)
}

/// `LinkedHashSet::iter`: the codes, oldest insertion first, copied into
/// a vector.
#[verifier::external_body]
pub(crate) fn set_to_vec(set: &LinkedHashSet<u16>) -> (codes: Vec<u16>)
    ensures
        codes@ == codes_in_order(*set),
{
    set.iter().copied().collect()
}

} // verus!
