//! The registry itself: four stores and the three operations on them.
use crate::genome::{blake2_128_of, crossover, crossover_spec, payload_bytes, random_value};
use crate::inventory::{
    inventory_get, inventory_items, inventory_len, inventory_new, inventory_swap_remove,
    inventory_try_push, Inventory, MAX_KITTY_OWNED,
};
use crate::model::{KittyState, MAX_KITTY_ID};
use crate::types::{Error, Event, Kitty};
use std::collections::HashMap;
use vstd::prelude::*;

verus! {

broadcast use vstd::std_specs::hash::group_hash_axioms;

/// The kitty registry.
pub struct Pallet {
    /// The id that the next kitty gets.
    next_kitty_id: u32,
    /// Each kitty by id.
    kitties: HashMap<u32, Kitty>,
    /// The owner of each kitty.
    kitty_owner: HashMap<u32, u64>,
    /// The ids each account holds.
    kitty_all: HashMap<u64, Inventory>,
}

impl View for Pallet {
    type V = KittyState;

    closed spec fn view(&self) -> KittyState {
        KittyState {
            next_id: self.next_kitty_id,
            kitties: self.kitties@,
            owners: self.kitty_owner@,
            inventories: self.kitty_all@.map_values(|v: Inventory| inventory_items(v)),
        }
    }
}

impl Pallet {
    /// The registry's invariant.
    pub open spec fn wf(&self) -> bool {
        self@.wf()
    }

    /// An empty registry whose counter starts at zero.
    pub fn new() -> (r: Pallet)
        ensures
            r@ == KittyState::empty(),
            r.wf(),
    {
        let r = Pallet {
            next_kitty_id: crate::GetDefaultValue(),
            kitties: HashMap::new(),
            kitty_owner: HashMap::new(),
            kitty_all: HashMap::new(),
        };
        assert(r@.inventories =~= Map::empty());
        r
    }

    /// The id that the next kitty will get.
    pub fn next_kitty_id(&self) -> (r: u32)
        ensures
            r == self@.next_id,
    {
        self.next_kitty_id
    }

    /// Moves the id counter forward to `id`, as a host may when it sets the
    /// stored counter; ids below it are never handed out.
    pub fn set_next_kitty_id(&mut self, id: u32)
        requires
            old(self).wf(),
            old(self)@.next_id <= id,
        ensures
            final(self).wf(),
            final(self)@ == (KittyState { next_id: id, ..old(self)@ }),
    {
        let ghost pre = self@;
        self.next_kitty_id = id;
        assert forall|o: u64| #[trigger] self@.inventory(o) == pre.inventory(o) by {}
        assert forall|x: u32| #[trigger] self@.kitties.contains_key(x) implies x < id by {
            assert(pre.kitties.contains_key(x));
        }
    }

    /// The kitty with id `id`, if there is one.
    pub fn kitties(&self, id: u32) -> (r: Option<Kitty>)
        ensures
            r == (if self@.kitties.contains_key(id) {
                Some(self@.kitties[id])
            } else {
                None
            }),
    {
        match self.kitties.get(&id) {
            Some(k) => Some(*k),
            None => None,
        }
    }

    /// The owner of kitty `id`, if it exists.
    pub fn kitty_owner(&self, id: u32) -> (r: Option<u64>)
        ensures
            r == (if self@.owners.contains_key(id) {
                Some(self@.owners[id])
            } else {
                None
            }),
    {
        match self.kitty_owner.get(&id) {
            Some(o) => Some(*o),
            None => None,
        }
    }

    /// The ids that `who` holds, in storage order.
    pub fn kitty_all(&self, who: u64) -> (r: Vec<u32>)
        ensures
            r@ == self@.inventory(who),
    {
        let mut out: Vec<u32> = Vec::new();
        match self.kitty_all.get(&who) {
            Some(inv) => {
                let n = inventory_len(inv);
                let mut i: usize = 0;
                while i < n
                    invariant
                        n == inventory_items(*inv).len(),
                        i <= n,
                        out@ == inventory_items(*inv).subrange(0, i as int),
                    decreases n - i,
                {
                    out.push(inventory_get(inv, i));
                    i = i + 1;
                    assert(out@ =~= inventory_items(*inv).subrange(0, i as int));
                }
                assert(out@ =~= inventory_items(*inv));
            },
            None => {
                assert(out@ =~= Seq::<u32>::empty());
            },
        }
        out
    }

    /// The inventory of `who`, taken out of the map (empty if it had none).
    fn take_inventory(&mut self, who: u64) -> (r: Inventory)
        ensures
            inventory_items(r) == old(self)@.inventory(who),
            final(self).kitty_all@ == old(self).kitty_all@.remove(who),
            final(self).next_kitty_id == old(self).next_kitty_id,
            final(self).kitties@ == old(self).kitties@,
            final(self).kitty_owner@ == old(self).kitty_owner@,
    {
        match self.kitty_all.remove(&who) {
            Some(v) => v,
            None => inventory_new(),
        }
    }

    /// How many kitties `who` holds.
    fn owned_count(&self, who: u64) -> (r: usize)
        ensures
            r == self@.inventory(who).len(),
    {
        match self.kitty_all.get(&who) {
            Some(v) => inventory_len(v),
            None => 0,
        }
    }

    /// Stores kitty `k` under the next id, owned by `who`; the checks have passed.
    fn add_kitty(&mut self, who: u64, k: Kitty)
        requires
            old(self).wf(),
            old(self)@.next_id < MAX_KITTY_ID,
            old(self)@.inventory(who).len() < MAX_KITTY_OWNED,
        ensures
            final(self).wf(),
            old(self)@.added(final(self)@, who, k),
    {
        let ghost pre = self@;
        let id = self.next_kitty_id;
        let mut inv = self.take_inventory(who);
        let _ = inventory_try_push(&mut inv, id);
        self.kitty_all.insert(who, inv);
        self.kitties.insert(id, k);
        self.kitty_owner.insert(id, who);
        self.next_kitty_id = id + 1;
        let ghost post = self@;
        assert(post.inventory(who) == pre.inventory(who).push(id));
        assert forall|o: u64| o != who implies #[trigger] post.inventory(o) == pre.inventory(o) by {
            if pre.inventories.contains_key(o) {
                assert(post.inventories.contains_key(o));
            }
        }
        assert(!pre.kitties.contains_key(id));
        assert(!pre.owners.contains_key(id));
        assert(post.kitties.dom() =~= post.owners.dom());
        assert forall|x: u32| #[trigger] post.owners.contains_key(x) implies post.inventory(
            post.owners[x],
        ).contains(x) by {
            if x == id {
                assert(post.inventory(who)[pre.inventory(who).len() as int] == id);
            } else {
                let o = pre.owners[x];
                assert(pre.inventory(o).contains(x));
                if o == who {
                    let j = choose|j: int| 0 <= j < pre.inventory(o).len() && pre.inventory(o)[j] == x;
                    assert(post.inventory(who)[j] == x);
                }
            }
        }
        assert forall|o: u64, i: int| 0 <= i < post.inventory(o).len() implies post.owners.contains_key(
            #[trigger] post.inventory(o)[i],
        ) && post.owners[post.inventory(o)[i]] == o by {
            if o == who && i == pre.inventory(who).len() {
            } else {
                assert(post.inventory(o)[i] == pre.inventory(o)[i]);
                assert(pre.owners.contains_key(pre.inventory(o)[i]));
            }
        }
        assert forall|o: u64| #[trigger] post.inventory(o).no_duplicates() by {
            if o == who {
                let s = pre.inventory(who);
                assert forall|i: int, j: int|
                    0 <= i < post.inventory(o).len() && 0 <= j < post.inventory(o).len() && i != j
                    implies post.inventory(o)[i] != post.inventory(o)[j] by {
                    if i < s.len() && j < s.len() {
                        assert(post.inventory(o)[i] == s[i]);
                        assert(post.inventory(o)[j] == s[j]);
                        assert(s.no_duplicates());
                        assert(s[i] != s[j]);
                    } else if i < s.len() {
                        assert(post.inventory(o)[i] == s[i]);
                        assert(post.inventory(o)[j] == id);
                        assert(pre.owners.contains_key(s[i]));
                    } else {
                        assert(post.inventory(o)[j] == s[j]);
                        assert(post.inventory(o)[i] == id);
                        assert(pre.owners.contains_key(s[j]));
                    }
                }
            }
        }
        assert forall|o: u64| #[trigger] post.inventory(o).len() <= MAX_KITTY_OWNED by {
            if o == who {
            } else {
                assert(post.inventory(o) == pre.inventory(o));
            }
        }
    }

    /// Mints kitty `k` for `who`. `can_reserve` is the collateral ledger's
    /// answer to reserving the deposit from `who`.
    pub fn mint(&mut self, who: u64, k: Kitty, can_reserve: bool) -> (r: Result<Event, Error>)
        requires
            old(self).wf(),
        ensures
            final(self).wf(),
            match old(self)@.mint_error(who, can_reserve) {
                Some(e) => r == Err::<Event, Error>(e) && final(self)@ == old(self)@,
                None => r == Ok::<Event, Error>(Event::KittyCreated(who, old(self)@.next_id, k))
                    && old(self)@.added(final(self)@, who, k),
            },
    {
        if self.next_kitty_id == MAX_KITTY_ID {
            return Err(Error::KittyIdOverflow);
        }
        if !can_reserve {
            return Err(Error::TokenNotEnough);
        }
        if self.owned_count(who) >= MAX_KITTY_OWNED as usize {
            return Err(Error::ExceedMaxKittyOwned);
        }
        let id = self.next_kitty_id;
        self.add_kitty(who, k);
        Ok(Event::KittyCreated(who, id, k))
    }

    /// Mints a kitty for `who` whose genome is drawn from the block's random
    /// `seed` and the index `nonce` of the call within its block.
    pub fn create(&mut self, who: u64, seed: &[u8; 32], nonce: Option<u32>, can_reserve: bool) -> (r:
        Result<Event, Error>)
        requires
            old(self).wf(),
        ensures
            final(self).wf(),
            match old(self)@.mint_error(who, can_reserve) {
                Some(e) => r == Err::<Event, Error>(e) && final(self)@ == old(self)@,
                None => r matches Ok(Event::KittyCreated(w, id, k)) && w == who && id
                    == old(self)@.next_id && k.0@ == blake2_128_of(payload_bytes(seed@, who, nonce))
                    && old(self)@.added(final(self)@, who, k),
            },
    {
        let dna = random_value(seed, who, nonce);
        self.mint(who, Kitty(dna), can_reserve)
    }

    /// Breeds kitties `id1` and `id2` into a new kitty for `who`: each bit of
    /// the child comes from `id1` where `selector` has it set, else from `id2`.
    /// `can_reserve` is the collateral ledger's answer to reserving the
    /// deposit from `who`.
    pub fn breed_with_selector(
        &mut self,
        who: u64,
        id1: u32,
        id2: u32,
        selector: &[u8; 16],
        can_reserve: bool,
    ) -> (r: Result<Event, Error>)
        requires
            old(self).wf(),
        ensures
            final(self).wf(),
            match old(self)@.breed_error(who, id1, id2, can_reserve) {
                Some(e) => r == Err::<Event, Error>(e) && final(self)@ == old(self)@,
                None => r matches Ok(Event::KittyCreated(w, id, k)) && w == who && id
                    == old(self)@.next_id && k.0@ == crossover_spec(
                    old(self)@.kitties[id1].0@,
                    old(self)@.kitties[id2].0@,
                    selector@,
                ) && old(self)@.added(final(self)@, who, k),
            },
    {
        if id1 == id2 {
            return Err(Error::SameKittyId);
        }
        let k1 = match self.kitties.get(&id1) {
            Some(k) => *k,
            None => return Err(Error::InvalidKittyId),
        };
        let k2 = match self.kitties.get(&id2) {
            Some(k) => *k,
            None => return Err(Error::InvalidKittyId),
        };
        if !can_reserve {
            return Err(Error::TokenNotEnough);
        }
        if self.next_kitty_id == MAX_KITTY_ID {
            return Err(Error::KittyIdOverflow);
        }
        if self.owned_count(who) >= MAX_KITTY_OWNED as usize {
            return Err(Error::ExceedMaxKittyOwned);
        }
        let child = Kitty(crossover(&k1.0, &k2.0, selector));
        let id = self.next_kitty_id;
        self.add_kitty(who, child);
        Ok(Event::KittyCreated(who, id, child))
    }

    /// Breeds kitties `id1` and `id2` into a new kitty for `who`, with a
    /// selector drawn from the block's random `seed` and the index `nonce`
    /// of the call within its block.
    pub fn breed(
        &mut self,
        who: u64,
        id1: u32,
        id2: u32,
        seed: &[u8; 32],
        nonce: Option<u32>,
        can_reserve: bool,
    ) -> (r: Result<Event, Error>)
        requires
            old(self).wf(),
        ensures
            final(self).wf(),
            match old(self)@.breed_error(who, id1, id2, can_reserve) {
                Some(e) => r == Err::<Event, Error>(e) && final(self)@ == old(self)@,
                None => r matches Ok(Event::KittyCreated(w, id, k)) && w == who && id
                    == old(self)@.next_id && k.0@ == crossover_spec(
                    old(self)@.kitties[id1].0@,
                    old(self)@.kitties[id2].0@,
                    blake2_128_of(payload_bytes(seed@, who, nonce)),
                ) && old(self)@.added(final(self)@, who, k),
            },
    {
        let selector = random_value(seed, who, nonce);
        self.breed_with_selector(who, id1, id2, &selector, can_reserve)
    }

    /// Moves kitty `id` from `who` to `to`. `can_reserve` is the collateral
    /// ledger's answer to reserving the deposit from `to`.
    pub fn transfer(&mut self, who: u64, id: u32, to: u64, can_reserve: bool) -> (r: Result<
        Event,
        Error,
    >)
        requires
            old(self).wf(),
        ensures
            final(self).wf(),
            match old(self)@.transfer_error(who, id, to, can_reserve) {
                Some(e) => r == Err::<Event, Error>(e) && final(self)@ == old(self)@,
                None => r == Ok::<Event, Error>(Event::KittyTransferred(who, to, id))
                    && old(self)@.moved(final(self)@, who, id, to),
            },
    {
        if !self.kitties.contains_key(&id) {
            return Err(Error::InvalidKittyId);
        }
        match self.kitty_owner.get(&id) {
            Some(o) => {
                if *o != who {
                    return Err(Error::NotOwner);
                }
            },
            // every kitty has an owner, so this arm is never taken
            None => return Err(Error::NotOwner),
        }
        if !can_reserve {
            return Err(Error::TokenNotEnough);
        }
        if who != to && self.owned_count(to) >= MAX_KITTY_OWNED as usize {
            return Err(Error::ExceedMaxKittyOwned);
        }
        self.move_kitty(who, id, to);
        Ok(Event::KittyTransferred(who, to, id))
    }

    /// Moves kitty `id` from its owner `who` to `to`; the checks have passed.
    fn move_kitty(&mut self, who: u64, id: u32, to: u64)
        requires
            old(self).wf(),
            old(self)@.owners.contains_key(id),
            old(self)@.owners[id] == who,
            who != to ==> old(self)@.inventory(to).len() < MAX_KITTY_OWNED,
        ensures
            final(self).wf(),
            old(self)@.moved(final(self)@, who, id, to),
    {
        let ghost pre = self@;
        let ghost s = pre.inventory(who);
        let ghost t = pre.inventory(to);
        let mut inv = self.take_inventory(who);
        let p = position_of(&inv, id);
        let _ = inventory_swap_remove(&mut inv, p);
        let ghost s1 = inventory_items(inv);
        proof {
            lemma_swap_remove(s, p as int);
        }
        self.kitty_all.insert(who, inv);
        self.kitty_owner.insert(id, to);
        let mut dest = self.take_inventory(to);
        assert(inventory_items(dest) == if who == to { s1 } else { t });
        let _ = inventory_try_push(&mut dest, id);
        self.kitty_all.insert(to, dest);
        let ghost post = self@;
        assert forall|o: u64| o != who && o != to implies #[trigger] post.inventory(o)
            == pre.inventory(o) by {
            if pre.inventories.contains_key(o) {
                assert(post.inventories.contains_key(o));
            }
        }
        proof {
            lemma_moved_wf(pre, post, who, id, to, s1);
        }
    }
}

/// Moving a kitty between inventories keeps the registry's invariant.
proof fn lemma_moved_wf(pre: KittyState, post: KittyState, who: u64, id: u32, to: u64, s1: Seq<u32>)
    requires
        pre.wf(),
        pre.owners.contains_key(id),
        pre.owners[id] == who,
        who != to ==> pre.inventory(to).len() < MAX_KITTY_OWNED,
        s1.len() == pre.inventory(who).len() - 1,
        s1.no_duplicates(),
        forall|x: u32|
            #![trigger s1.contains(x)]
            #![trigger pre.inventory(who).contains(x)]
            s1.contains(x) <==> (pre.inventory(who).contains(x) && x != id),
        post.next_id == pre.next_id,
        post.kitties == pre.kitties,
        post.owners == pre.owners.insert(id, to),
        post.inventory(who) == if who == to {
            s1.push(id)
        } else {
            s1
        },
        who != to ==> post.inventory(to) == pre.inventory(to).push(id),
        forall|o: u64| o != who && o != to ==> #[trigger] post.inventory(o) == pre.inventory(o),
    ensures
        post.wf(),
        pre.moved(post, who, id, to),
{
    let s = pre.inventory(who);
    let t = pre.inventory(to);
    assert(s.contains(id));
    assert(post.kitties.dom() =~= post.owners.dom());
    // id is not among the remaining items of `who`, nor yet among those of `to`
    assert(!s1.contains(id));
    if who != to {
        assert forall|i: int| 0 <= i < t.len() implies t[i] != id by {
            assert(pre.owners.contains_key(t[i]));
        }
    }
    assert forall|o: u64, i: int| 0 <= i < post.inventory(o).len() implies post.owners.contains_key(
        #[trigger] post.inventory(o)[i],
    ) && post.owners[post.inventory(o)[i]] == o by {
        let x = post.inventory(o)[i];
        if o == who {
            if i < s1.len() {
                assert(s1[i] == x);
                assert(s1.contains(x));
                assert(s.contains(x));
                let j = choose|j: int| 0 <= j < s.len() && s[j] == x;
                assert(pre.owners[s[j]] == who);
            }
        } else if o == to {
            if i < t.len() {
                assert(t[i] == x);
                assert(pre.owners.contains_key(t[i]));
            }
        } else {
            assert(pre.owners.contains_key(pre.inventory(o)[i]));
        }
    }
    assert forall|x: u32| #[trigger] post.owners.contains_key(x) implies post.inventory(
        post.owners[x],
    ).contains(x) by {
        if x == id {
            if who == to {
                assert(post.inventory(who)[s1.len() as int] == id);
            } else {
                assert(post.inventory(to)[t.len() as int] == id);
            }
        } else {
            let o = pre.owners[x];
            assert(pre.inventory(o).contains(x));
            let j = choose|j: int| 0 <= j < pre.inventory(o).len() && pre.inventory(o)[j] == x;
            if o == who {
                assert(s1.contains(x));
                let k = choose|k: int| 0 <= k < s1.len() && s1[k] == x;
                assert(post.inventory(who)[k] == x);
            } else if o == to {
                assert(post.inventory(to)[j] == x);
            } else {
            }
        }
    }
    assert forall|o: u64| #[trigger] post.inventory(o).no_duplicates() by {
        if o == who || o == to {
            let q = post.inventory(o);
            let base = if o == who { s1 } else { t };
            if o == who && who != to {
            } else {
                assert(q == base.push(id));
                assert(!base.contains(id));
                assert(base.no_duplicates());
                assert forall|i: int, j: int| 0 <= i < q.len() && 0 <= j < q.len() && i != j implies q[i]
                    != q[j] by {
                    if i < base.len() && j < base.len() {
                        assert(q[i] == base[i] && q[j] == base[j]);
                    } else if i < base.len() {
                        assert(q[i] == base[i] && q[j] == id);
                    } else {
                        assert(q[j] == base[j] && q[i] == id);
                    }
                }
            }
        }
    }
    assert forall|o: u64| #[trigger] post.inventory(o).len() <= MAX_KITTY_OWNED by {
        if o != who && o != to {
            assert(post.inventory(o) == pre.inventory(o));
        }
    }
    if who == to {
        assert(post.owned(who) =~= pre.owned(who));
    } else {
        assert(post.owned(who) =~= pre.owned(who).remove(id));
    }
}

/// The position of `id` in an inventory that holds it.
fn position_of(inv: &Inventory, id: u32) -> (r: usize)
    requires
        inventory_items(*inv).contains(id),
    ensures
        r < inventory_items(*inv).len(),
        inventory_items(*inv)[r as int] == id,
{
    let n = inventory_len(inv);
    let mut i: usize = 0;
    while inventory_get(inv, i) != id
        invariant
            n == inventory_items(*inv).len(),
            i < n,
            exists|j: int| i <= j < n && inventory_items(*inv)[j] == id,
        decreases n - i,
    {
        i = i + 1;
    }
    i
}

/// Taking out the item at `p` by moving the last one into its place keeps
/// the other items and drops that one.
proof fn lemma_swap_remove(s: Seq<u32>, p: int)
    requires
        s.no_duplicates(),
        0 <= p < s.len(),
    ensures
        s.update(p, s.last()).drop_last().len() == s.len() - 1,
        s.update(p, s.last()).drop_last().no_duplicates(),
        forall|x: u32|
            #![trigger s.update(p, s.last()).drop_last().contains(x)]
            #![trigger s.contains(x)]
            s.update(p, s.last()).drop_last().contains(x) <==> (s.contains(x) && x != s[p]),
{
    let r = s.update(p, s.last()).drop_last();
    let n = s.len() - 1;
    assert forall|k: int| 0 <= k < n implies #[trigger] r[k] == s[if k == p { n } else { k }] by {}
    assert forall|a: int, b: int| 0 <= a < n && 0 <= b < n && a != b implies r[a] != r[b] by {
        assert(r[a] == s[if a == p { n } else { a }]);
        assert(r[b] == s[if b == p { n } else { b }]);
    }
    assert forall|x: u32| r.contains(x) <==> (s.contains(x) && x != s[p]) by {
        if r.contains(x) {
            let k = choose|k: int| 0 <= k < n && r[k] == x;
            assert(r[k] == s[if k == p { n } else { k }]);
        }
        if s.contains(x) && x != s[p] {
            let k = choose|k: int| 0 <= k < s.len() && s[k] == x;
            if k == n {
                assert(r[p] == x);
            } else {
                assert(r[k] == x);
            }
        }
    }
}

} // verus!
