//! Values that the registry hands in and out.
use vstd::prelude::*;

verus! {

/// A kitty: its sixteen genome bytes, fixed at creation.
#[derive(Clone, Copy, Debug, PartialEq, Eq)]
pub struct Kitty(pub [u8; 16]);

/// Why an operation was refused. A refused operation changes nothing.
#[derive(Clone, Copy, Debug, PartialEq, Eq, Structural)]
pub enum Error {
    /// The referenced kitty does not exist.
    InvalidKittyId,
    /// The caller does not own the referenced kitty.
    NotOwner,
    /// Breeding was asked of one kitty with itself.
    SameKittyId,
    /// No id is left to hand out.
    KittyIdOverflow,
    /// The receiving account already holds as many kitties as it may.
    ExceedMaxKittyOwned,
    /// The collateral ledger refused the reservation.
    TokenNotEnough,
}

/// What a successful operation reports.
#[derive(Clone, Copy, Debug, PartialEq, Eq)]
pub enum Event {
    /// Account, new id, and the new kitty (from mint and from breeding).
    KittyCreated(u64, u32, Kitty),
    /// Account, new id, and the child kitty.
    KittyBred(u64, u32, Kitty),
    /// Previous owner, new owner, id.
    KittyTransferred(u64, u64, u32),
}

/// The deposit that the collateral ledger holds for each kitty an account keeps.
pub const KITTY_RESERVE: u64 = 1000;

impl Event {
    /// The ledger moves that the event asks for: the account whose deposit
    /// is reserved, and the account whose deposit is released, if any.
    pub open spec fn collateral_spec(self) -> (u64, Option<u64>) {
        match self {
            Event::KittyCreated(who, _, _) => (who, None),
            Event::KittyBred(who, _, _) => (who, None),
            Event::KittyTransferred(from, to, _) => (to, Some(from)),
        }
    }

    /// The ledger moves that the event asks for; see `collateral_spec`.
    pub fn collateral_moves(&self) -> (r: (u64, Option<u64>))
        ensures
            r == self.collateral_spec(),
    {
        match self {
            Event::KittyCreated(who, _, _) => (*who, None),
            Event::KittyBred(who, _, _) => (*who, None),
            Event::KittyTransferred(from, to, _) => (*to, Some(*from)),
        }
    }
}

} // verus!
