//! A registry of kitties: uniquely numbered assets with a fixed genome, one
//! owner each, a bounded inventory per owner, and a collateral deposit per
//! kitty held. Minting, breeding and transfer each check everything first
//! and then commit, so a refused operation changes nothing.
pub mod genome;
pub mod inventory;
pub mod laws;
pub mod model;
pub mod pallet;
pub mod types;

pub use inventory::MAX_KITTY_OWNED;
pub use model::{KittyState, MAX_KITTY_ID};
pub use pallet::Pallet;
pub use types::{Error, Event, Kitty, KITTY_RESERVE};

use vstd::prelude::*;

verus! {

/// The value that the id counter starts from.
#[allow(non_snake_case)]
pub fn GetDefaultValue() -> (r: u32)
    ensures
        r == 0,
{
    0
}

} // verus!
