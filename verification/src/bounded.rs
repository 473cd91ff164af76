//! The lists of the membership index, kept in `BoundedVec`s.
//!
//! `frame_support::BoundedVec` is the `BoundedVec` of `bounded_collections`,
//! and `frame_support::traits::ConstU32` its `ConstU32`. Nothing in this
//! module is proved about them: each function marked `external_body` states
//! what the method it calls does, as that crate's source shows it.

use vstd::prelude::*;
use frame_support::BoundedVec;
use frame_support::traits::ConstU32;
use crate::types::{Id, MAX_LIST_LEN};

verus! {

/// `BoundedVec`: a vector of `T` that its own methods keep from growing
/// beyond the bound `S`. Nothing is claimed of what is inside it.
#[verifier::external_type_specification]
#[verifier::external_body]
#[verifier::reject_recursive_types(T)]
#[verifier::reject_recursive_types(S)]
pub struct ExBoundedVec<T, S>(BoundedVec<T, S>);

/// `ConstU32`: the bound `T` as a type. It has no values that matter.
#[verifier::external_type_specification]
#[verifier::external_body]
pub struct ExConstU32<const T: u32>(ConstU32<T>);

/// A list of identifiers that cannot grow beyond `MAX_LIST_LEN` items.
pub type IdList = BoundedVec<Id, ConstU32<MAX_LIST_LEN>>;

/// The items of a list, first pushed first.
pub uninterp spec fn list_items(list: IdList) -> Seq<Id>;

/// `BoundedVec::new`: a list without items.
#[verifier::external_body]
pub(crate) fn list_new() -> (list: IdList)
    ensures
        list_items(list) == Seq::<Id>::empty(),
{
    BoundedVec::new()
}

/// `BoundedVec::try_push`: appends the item if the list holds fewer items
/// than its bound, and else hands the item back and leaves the list as it is.
#[verifier::external_body]
pub(crate) fn list_try_push(list: &mut IdList, item: Id) -> (pushed: Result<(), Id>)
    ensures
        pushed is Ok <==> list_items(*old(list)).len() < MAX_LIST_LEN,
        pushed matches Err(back) ==> back == item,
        list_items(*final(list)) == if pushed is Ok {
            list_items(*old(list)).push(item)
        } else {
            list_items(*old(list))
        },
{
    list.try_push(item)
}

/// `BoundedVec::remove`: takes out the item at the index and returns it; the
/// items behind it move up by one. It panics on an index past the end.
#[verifier::external_body]
pub(crate) fn list_remove(list: &mut IdList, index: usize) -> (item: Id)
    requires
        index < list_items(*old(list)).len(),
    ensures
        item == list_items(*old(list))[index as int],
        list_items(*final(list)) == list_items(*old(list)).remove(index as int),
{
    list.remove(index)
}

/// `Deref` of `BoundedVec`: the vector inside it, which holds the items.
#[verifier::external_body]
pub(crate) fn list_as_vec(list: &IdList) -> (items: &Vec<Id>)
    ensures
        items@ == list_items(*list),
{
    list
}

/// Whether two identifiers hold the same bytes.
pub fn same_id(a: &Id, b: &Id) -> (same: bool)
    ensures
        same == (*a == *b),
{
    let mut i: usize = 0;
    while i < 32
        invariant
            i <= 32,
            forall|j: int| 0 <= j < i ==> a[j] == b[j],
        decreases 32 - i,
    {
        if a[i] != b[i] {
            return false;
        }
        i += 1;
    }
    assert(*a =~= *b);
    true
}

/// The first place of an identifier in a vector.
pub fn position(items: &Vec<Id>, id: &Id) -> (found: Option<usize>)
    ensures
        match found {
            Some(i) => i < items.len() && items[i as int] == *id && forall|j: int|
                0 <= j < i ==> items[j] != *id,
            None => !items@.contains(*id),
        },
{
    let mut i: usize = 0;
    while i < items.len()
        invariant
            i <= items.len(),
            forall|j: int| 0 <= j < i ==> items[j] != *id,
        decreases items.len() - i,
    {
        if same_id(&items[i], id) {
            return Some(i);
        }
        i += 1;
    }
    None
}

} // verus!
