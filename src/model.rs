//! The registry as mathematics: its state, the invariant that ties its four
//! stores together, and what each operation does to it.
use crate::inventory::MAX_KITTY_OWNED;
use crate::types::{Error, Kitty};
use vstd::prelude::*;

verus! {

/// The largest id; once the counter reaches it no kitty can be made.
pub const MAX_KITTY_ID: u32 = 0xffff_ffff;

/// The registry's four stores.
pub struct KittyState {
    /// The next id to hand out.
    pub next_id: u32,
    /// Each kitty by id.
    pub kitties: Map<u32, Kitty>,
    /// The owner of each kitty.
    pub owners: Map<u32, u64>,
    /// The ids each account holds, for the accounts that have an entry.
    pub inventories: Map<u64, Seq<u32>>,
}

impl KittyState {
    /// The ids that account `o` holds, in storage order; none without an entry.
    pub open spec fn inventory(self, o: u64) -> Seq<u32> {
        if self.inventories.contains_key(o) {
            self.inventories[o]
        } else {
            Seq::empty()
        }
    }

    /// The ids that account `o` holds, as a set.
    pub open spec fn owned(self, o: u64) -> Set<u32> {
        self.inventory(o).to_set()
    }

    /// The empty registry.
    pub open spec fn empty() -> KittyState {
        KittyState {
            next_id: 0,
            kitties: Map::empty(),
            owners: Map::empty(),
            inventories: Map::empty(),
        }
    }

    /// The invariant of the stores.
    pub open spec fn wf(self) -> bool {
        // every issued id lies below the counter
        &&& forall|id: u32| #[trigger] self.kitties.contains_key(id) ==> id < self.next_id
        // a kitty has an owner exactly when it exists
        &&& self.kitties.dom() == self.owners.dom()
        // each owned kitty is in its owner's inventory
        &&& forall|id: u32| #[trigger]
            self.owners.contains_key(id) ==> self.inventory(self.owners[id]).contains(id)
        // each inventory entry is a kitty of that owner
        &&& forall|o: u64, i: int|
            0 <= i < self.inventory(o).len() ==> self.owners.contains_key(
                #[trigger] self.inventory(o)[i],
            ) && self.owners[self.inventory(o)[i]] == o
        // no entry twice, and no more entries than allowed
        &&& forall|o: u64| #[trigger] self.inventory(o).no_duplicates()
        &&& forall|o: u64| #[trigger] self.inventory(o).len() <= MAX_KITTY_OWNED
    }

    /// The error that minting for `who` meets, if any, in the order checked.
    pub open spec fn mint_error(self, who: u64, can_reserve: bool) -> Option<Error> {
        if self.next_id == MAX_KITTY_ID {
            Some(Error::KittyIdOverflow)
        } else if !can_reserve {
            Some(Error::TokenNotEnough)
        } else if self.inventory(who).len() >= MAX_KITTY_OWNED {
            Some(Error::ExceedMaxKittyOwned)
        } else {
            None
        }
    }

    /// The error that breeding `id1` with `id2` meets, if any, in the order checked.
    pub open spec fn breed_error(self, who: u64, id1: u32, id2: u32, can_reserve: bool) -> Option<
        Error,
    > {
        if id1 == id2 {
            Some(Error::SameKittyId)
        } else if !self.kitties.contains_key(id1) || !self.kitties.contains_key(id2) {
            Some(Error::InvalidKittyId)
        } else if !can_reserve {
            Some(Error::TokenNotEnough)
        } else if self.next_id == MAX_KITTY_ID {
            Some(Error::KittyIdOverflow)
        } else if self.inventory(who).len() >= MAX_KITTY_OWNED {
            Some(Error::ExceedMaxKittyOwned)
        } else {
            None
        }
    }

    /// The error that moving `id` from `who` to `to` meets, if any, in the order checked.
    pub open spec fn transfer_error(self, who: u64, id: u32, to: u64, can_reserve: bool) -> Option<
        Error,
    > {
        if !self.kitties.contains_key(id) {
            Some(Error::InvalidKittyId)
        } else if self.owners[id] != who {
            Some(Error::NotOwner)
        } else if !can_reserve {
            Some(Error::TokenNotEnough)
        } else if who != to && self.inventory(to).len() >= MAX_KITTY_OWNED {
            Some(Error::ExceedMaxKittyOwned)
        } else {
            None
        }
    }

    /// `post` is `self` with kitty `k` added under the next id, owned by `who`.
    pub open spec fn added(self, post: KittyState, who: u64, k: Kitty) -> bool {
        &&& post.next_id == self.next_id + 1
        &&& post.kitties == self.kitties.insert(self.next_id, k)
        &&& post.owners == self.owners.insert(self.next_id, who)
        &&& post.inventory(who) == self.inventory(who).push(self.next_id)
        &&& forall|o: u64| o != who ==> #[trigger] post.inventory(o) == self.inventory(o)
    }

    /// `post` is `self` with kitty `id` moved from `who` to `to`.
    pub open spec fn moved(self, post: KittyState, who: u64, id: u32, to: u64) -> bool {
        &&& post.next_id == self.next_id
        &&& post.kitties == self.kitties
        &&& post.owners == self.owners.insert(id, to)
        &&& if who == to {
            &&& post.owned(who) == self.owned(who)
            &&& post.inventory(who).len() == self.inventory(who).len()
        } else {
            &&& post.owned(who) == self.owned(who).remove(id)
            &&& post.inventory(who).len() == self.inventory(who).len() - 1
            &&& post.inventory(to) == self.inventory(to).push(id)
        }
        &&& forall|o: u64| o != who && o != to ==> #[trigger] post.inventory(o) == self.inventory(o)
    }
}

} // verus!
