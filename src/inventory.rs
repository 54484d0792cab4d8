//! Per-owner inventory: a bounded list of kitty ids.
use sp_core::bounded::BoundedVec;
use sp_core::ConstU32;
use vstd::prelude::*;

verus! {

/// Most kitties that one account may hold.
pub const MAX_KITTY_OWNED: u32 = 64;

#[verifier::external_type_specification]
#[verifier::external_body]
#[verifier::reject_recursive_types(T)]
#[verifier::reject_recursive_types(S)]
pub struct ExBoundedVec<T, S>(BoundedVec<T, S>);

#[verifier::external_type_specification]
#[verifier::external_body]
pub struct ExConstU32<const N: u32>(ConstU32<N>);

/// Ids that one account holds, bounded by `MAX_KITTY_OWNED`.
pub type Inventory = BoundedVec<u32, ConstU32<64>>;

/// The ids held by an inventory, in storage order.
pub uninterp spec fn inventory_items(v: Inventory) -> Seq<u32>;

/// Relies on `BoundedVec::new`: the new vector holds nothing.
#[verifier::external_body]
pub(crate) fn inventory_new() -> (r: Inventory)
    ensures
        inventory_items(r) == Seq::<u32>::empty(),
{
    BoundedVec::new()
}

/// Relies on `BoundedVec`'s deref to `Vec`: `len` counts the items.
#[verifier::external_body]
pub(crate) fn inventory_len(v: &Inventory) -> (r: usize)
    ensures
        r == inventory_items(*v).len(),
{
    v.len()
}

/// Relies on `BoundedVec`'s `Index`: the item at position `i`.
#[verifier::external_body]
pub(crate) fn inventory_get(v: &Inventory, i: usize) -> (r: u32)
    requires
        i < inventory_items(*v).len(),
    ensures
        r == inventory_items(*v)[i as int],
{
    v[i]
}

/// Relies on `BoundedVec::try_push`: appends when under the bound of 64,
/// else hands the element back and leaves the vector as it was.
#[verifier::external_body]
pub(crate) fn inventory_try_push(v: &mut Inventory, x: u32) -> (r: Result<(), u32>)
    ensures
        inventory_items(*old(v)).len() < 64 ==> r is Ok
            && inventory_items(*final(v)) == inventory_items(*old(v)).push(x),
        inventory_items(*old(v)).len() >= 64 ==> r is Err && r->Err_0 == x
            && inventory_items(*final(v)) == inventory_items(*old(v)),
{
    v.try_push(x)
}

/// Relies on `BoundedVec::swap_remove`: takes out the item at `i` and moves
/// the last item into its place.
#[verifier::external_body]
pub(crate) fn inventory_swap_remove(v: &mut Inventory, i: usize) -> (r: u32)
    requires
        i < inventory_items(*old(v)).len(),
    ensures
        r == inventory_items(*old(v))[i as int],
        inventory_items(*final(v)) == inventory_items(*old(v)).update(
            i as int,
            inventory_items(*old(v)).last(),
        ).drop_last(),
{
    v.swap_remove(i)
}

} // verus!
