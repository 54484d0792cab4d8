//! Laws of the registry, proved over its model. The operations' contracts
//! state their effects on `KittyState`; these lemmas state what follows.
use crate::genome::{crossover_spec, select_byte};
use crate::inventory::MAX_KITTY_OWNED;
use crate::model::{KittyState, MAX_KITTY_ID};
use crate::types::{Error, Event, Kitty};
use vstd::prelude::*;

verus! {

/// In a well-formed registry every kitty has one owner, that owner's
/// inventory holds it at exactly one position, and no other inventory holds it.
pub proof fn lemma_single_owner(s: KittyState, id: u32)
    requires
        s.wf(),
        s.kitties.contains_key(id),
    ensures
        s.owners.contains_key(id),
        exists|i: int|
            0 <= i < s.inventory(s.owners[id]).len() && s.inventory(s.owners[id])[i] == id && forall|
                j: int,
            |
                0 <= j < s.inventory(s.owners[id]).len() && j != i ==> s.inventory(
                    s.owners[id],
                )[j] != id,
        forall|o: u64| o != s.owners[id] ==> !(#[trigger] s.inventory(o).contains(id)),
{
    let w = s.owners[id];
    let inv = s.inventory(w);
    assert(inv.contains(id));
    let i = choose|i: int| 0 <= i < inv.len() && inv[i] == id;
    assert(inv.no_duplicates());
    assert forall|j: int| 0 <= j < inv.len() && j != i implies inv[j] != id by {}
    assert forall|o: u64| o != w implies !(#[trigger] s.inventory(o).contains(id)) by {
        if s.inventory(o).contains(id) {
            let k = choose|k: int| 0 <= k < s.inventory(o).len() && s.inventory(o)[k] == id;
            assert(s.owners[s.inventory(o)[k]] == o);
        }
    }
}

/// The id that a creation hands out was never issued before, now names the
/// new kitty, and lies below every id handed out after it.
pub proof fn lemma_fresh_id(pre: KittyState, post: KittyState, who: u64, k: Kitty)
    requires
        pre.wf(),
        pre.added(post, who, k),
    ensures
        !pre.kitties.contains_key(pre.next_id),
        post.kitties.contains_key(pre.next_id),
        pre.next_id < post.next_id,
{
}

/// Transfers leave the id counter as it was, and creations raise it.
pub proof fn lemma_counter_monotone(pre: KittyState, post: KittyState, who: u64, id: u32, to: u64, k: Kitty)
    ensures
        pre.moved(post, who, id, to) ==> post.next_id == pre.next_id,
        pre.added(post, who, k) ==> post.next_id > pre.next_id,
{
}

/// Along a run of states in which no step lowers the id counter, the
/// counter at a later state is at least that of an earlier one.
pub proof fn lemma_run_counter_monotone(run: Seq<KittyState>, a: int, b: int)
    requires
        forall|k: int| 0 <= k < run.len() - 1 ==> #[trigger] run[k].next_id <= run[k + 1].next_id,
        0 <= a <= b < run.len(),
    ensures
        run[a].next_id <= run[b].next_id,
    decreases b - a,
{
    if a < b {
        lemma_run_counter_monotone(run, a, b - 1);
        assert(run[b - 1].next_id <= run[b].next_id);
    }
}

/// Along a run of successful operations (none lowers the counter, see
/// `lemma_counter_monotone`), a creation at step `i` hands out id
/// `run[i].next_id`, and a creation at any later step `j` hands out a
/// strictly larger id: the ids handed out increase and never repeat.
pub proof fn lemma_run_ids_increase(run: Seq<KittyState>, i: int, j: int, who: u64, k: Kitty)
    requires
        forall|n: int| 0 <= n < run.len() - 1 ==> #[trigger] run[n].next_id <= run[n + 1].next_id,
        0 <= i < j < run.len(),
        run[i].added(run[i + 1], who, k),
    ensures
        run[i].next_id < run[j].next_id,
{
    lemma_run_counter_monotone(run, i + 1, j);
}

/// An account whose inventory is full is refused with `ExceedMaxKittyOwned`
/// by any operation that would give it one more kitty, once the earlier
/// checks pass; a refused operation leaves every store as it was.
pub proof fn lemma_capacity(s: KittyState, who: u64, from: u64, id: u32, id1: u32, id2: u32)
    requires
        s.wf(),
        s.inventory(who).len() == MAX_KITTY_OWNED,
    ensures
        s.next_id != MAX_KITTY_ID ==> s.mint_error(who, true) == Some(Error::ExceedMaxKittyOwned),
        id1 != id2 && s.kitties.contains_key(id1) && s.kitties.contains_key(id2) && s.next_id
            != MAX_KITTY_ID ==> s.breed_error(who, id1, id2, true) == Some(
            Error::ExceedMaxKittyOwned,
        ),
        s.kitties.contains_key(id) && s.owners[id] == from && from != who ==> s.transfer_error(
            from,
            id,
            who,
            true,
        ) == Some(Error::ExceedMaxKittyOwned),
{
}

/// With the counter at its largest value, minting fails with
/// `KittyIdOverflow`, and so does breeding of two distinct existing kitties
/// when the deposit could be reserved.
pub proof fn lemma_overflow(s: KittyState, who: u64, id1: u32, id2: u32, can_reserve: bool)
    requires
        s.next_id == MAX_KITTY_ID,
    ensures
        s.mint_error(who, can_reserve) == Some(Error::KittyIdOverflow),
        id1 != id2 && s.kitties.contains_key(id1) && s.kitties.contains_key(id2) && can_reserve
            ==> s.breed_error(who, id1, id2, can_reserve) == Some(Error::KittyIdOverflow),
{
}

/// Each bit of a child byte is the first parent's bit where the selector
/// bit is set, else the second parent's.
pub proof fn lemma_select_bits(a: u8, b: u8, s: u8, i: u8)
    requires
        i < 8,
    ensures
        (select_byte(a, b, s) >> i) & 1 == if (s >> i) & 1 == 1 {
            (a >> i) & 1
        } else {
            (b >> i) & 1
        },
{
    assert(((a & s) | (b & !s)) >> i & 1 == if (s >> i) & 1 == 1 {
        (a >> i) & 1
    } else {
        (b >> i) & 1
    }) by (bit_vector)
        requires
            i < 8,
    ;
}

/// The child genome depends on the parents and the selector alone, lane by lane.
pub proof fn lemma_crossover_lanes(p1: Seq<u8>, p2: Seq<u8>, s: Seq<u8>)
    ensures
        crossover_spec(p1, p2, s).len() == 16,
        forall|i: int|
            0 <= i < 16 ==> #[trigger] crossover_spec(p1, p2, s)[i] == ((p1[i] & s[i]) | (p2[i]
                & !s[i])),
{
}

/// The number of deposits that an event's ledger moves add for account `o`:
/// one for a reservation, less one for a release.
pub open spec fn deposit_change(e: Event, o: u64) -> int {
    (if e.collateral_spec().0 == o {
        1int
    } else {
        0int
    }) - (if e.collateral_spec().1 == Some(o) {
        1int
    } else {
        0int
    })
}

/// The deposits a successful operation moves change each account's count of
/// deposits exactly as its inventory changes, so an account's reserved
/// collateral stays its number of kitties times the deposit.
pub proof fn lemma_collateral_follows_inventory(pre: KittyState, post: KittyState, e: Event, o: u64)
    requires
        pre.wf(),
        match e {
            Event::KittyCreated(who, id, k) => pre.added(post, who, k),
            Event::KittyBred(who, id, k) => pre.added(post, who, k),
            Event::KittyTransferred(from, to, id) => pre.owners.contains_key(id) && pre.owners[id]
                == from && pre.moved(post, from, id, to),
        },
    ensures
        post.inventory(o).len() == pre.inventory(o).len() + deposit_change(e, o),
{
}

} // verus!
