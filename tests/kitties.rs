use pallet_kitties::genome::{crossover, random_value};
use pallet_kitties::{
    Error, Event, GetDefaultValue, Kitty, Pallet, KITTY_RESERVE, MAX_KITTY_ID, MAX_KITTY_OWNED,
};
use parity_scale_codec::Encode;
use std::collections::HashMap;

const SEED: [u8; 32] = [42u8; 32];

/// The registry together with a small collateral ledger, funded as the
/// accounts 1, 2 and 3 of the original test runtime.
struct Chain {
    pallet: Pallet,
    free: HashMap<u64, u64>,
    reserved: HashMap<u64, u64>,
    nonce: u32,
}

type Snapshot = (u32, Vec<Option<u64>>, Vec<Vec<u32>>, Vec<u64>, Vec<u64>);

impl Chain {
    fn new() -> Chain {
        let mut free = HashMap::new();
        free.insert(1, 10001);
        free.insert(2, 10002);
        free.insert(3, 999);
        Chain { pallet: Pallet::new(), free, reserved: HashMap::new(), nonce: 0 }
    }

    fn can_reserve(&self, who: u64) -> bool {
        *self.free.get(&who).unwrap_or(&0) >= KITTY_RESERVE
    }

    fn apply(&mut self, e: &Event) {
        let (reserve, release) = e.collateral_moves();
        *self.free.entry(reserve).or_insert(0) -= KITTY_RESERVE;
        *self.reserved.entry(reserve).or_insert(0) += KITTY_RESERVE;
        if let Some(from) = release {
            *self.reserved.entry(from).or_insert(0) -= KITTY_RESERVE;
            *self.free.entry(from).or_insert(0) += KITTY_RESERVE;
        }
    }

    fn next_nonce(&mut self) -> Option<u32> {
        self.nonce += 1;
        Some(self.nonce)
    }

    fn create(&mut self, who: u64) -> Result<Event, Error> {
        let ok = self.can_reserve(who);
        let nonce = self.next_nonce();
        let r = self.pallet.create(who, &SEED, nonce, ok);
        if let Ok(e) = &r {
            self.apply(e);
        }
        r
    }

    fn breed(&mut self, who: u64, id1: u32, id2: u32) -> Result<Event, Error> {
        let ok = self.can_reserve(who);
        let nonce = self.next_nonce();
        let r = self.pallet.breed(who, id1, id2, &SEED, nonce, ok);
        if let Ok(e) = &r {
            self.apply(e);
        }
        r
    }

    fn transfer(&mut self, who: u64, id: u32, to: u64) -> Result<Event, Error> {
        let ok = self.can_reserve(to);
        let r = self.pallet.transfer(who, id, to, ok);
        if let Ok(e) = &r {
            self.apply(e);
        }
        r
    }

    fn reserved_of(&self, who: u64) -> u64 {
        *self.reserved.get(&who).unwrap_or(&0)
    }

    fn snapshot(&self) -> Snapshot {
        let ids: Vec<u32> = (0..8).collect();
        let accounts: Vec<u64> = (1..=4).collect();
        (
            self.pallet.next_kitty_id(),
            ids.iter().map(|i| self.pallet.kitty_owner(*i)).collect(),
            accounts.iter().map(|a| self.pallet.kitty_all(*a)).collect(),
            accounts.iter().map(|a| *self.free.get(a).unwrap_or(&0)).collect(),
            accounts.iter().map(|a| self.reserved_of(*a)).collect(),
        )
    }
}

fn sorted(mut v: Vec<u32>) -> Vec<u32> {
    v.sort();
    v
}

fn created_kitty(e: &Event) -> Kitty {
    match e {
        Event::KittyCreated(_, _, k) => *k,
        other => panic!("not a creation: {:?}", other),
    }
}

#[test]
fn create_kitty_works() {
    let mut c = Chain::new();
    assert!(c.create(1).is_ok());
    assert_eq!(c.pallet.next_kitty_id(), 1);
    assert_eq!(c.pallet.kitty_owner(0), Some(1));
}

#[test]
fn create_kitty_failed() {
    let mut c = Chain::new();
    c.pallet.set_next_kitty_id(u32::MAX);
    let before = c.snapshot();
    assert_eq!(c.create(1), Err(Error::KittyIdOverflow));
    assert_eq!(c.snapshot(), before);
}

#[test]
fn create_kitty_and_reversed_failed() {
    let mut c = Chain::new();
    let before = c.snapshot();
    assert_eq!(c.create(3), Err(Error::TokenNotEnough));
    assert_eq!(c.snapshot(), before);
}

#[test]
fn breed_kitty_works() {
    let mut c = Chain::new();
    assert!(c.create(1).is_ok());
    assert!(c.create(1).is_ok());
    assert!(c.breed(1, 0, 1).is_ok());
    assert_eq!(c.pallet.next_kitty_id(), 3);
    assert_eq!(c.pallet.kitty_all(1).len(), 3);
}

#[test]
fn breed_kitty_failed_same_kitty_id() {
    let mut c = Chain::new();
    assert!(c.create(1).is_ok());
    let before = c.snapshot();
    assert_eq!(c.breed(1, 0, 0), Err(Error::SameKittyId));
    assert_eq!(c.snapshot(), before);
}

#[test]
fn breed_kitty_failed_invalid_parent_kitty_id() {
    let mut c = Chain::new();
    assert!(c.create(1).is_ok());
    let before = c.snapshot();
    assert_eq!(c.breed(1, 0, 1), Err(Error::InvalidKittyId));
    assert_eq!(c.snapshot(), before);
}

#[test]
fn breed_kitty_failed_get_new_kitty_id() {
    let mut c = Chain::new();
    assert!(c.create(1).is_ok());
    assert!(c.create(2).is_ok());
    c.pallet.set_next_kitty_id(u32::MAX);
    let before = c.snapshot();
    assert_eq!(c.breed(1, 0, 1), Err(Error::KittyIdOverflow));
    assert_eq!(c.snapshot(), before);
}

#[test]
fn breed_kitty_failed_token_not_enough_to_reversed() {
    let mut c = Chain::new();
    assert!(c.create(1).is_ok());
    assert!(c.create(2).is_ok());
    let before = c.snapshot();
    assert_eq!(c.breed(3, 0, 1), Err(Error::TokenNotEnough));
    assert_eq!(c.snapshot(), before);
}

#[test]
fn transfer_kitty_works() {
    let mut c = Chain::new();
    assert!(c.create(1).is_ok());
    assert_eq!(c.pallet.kitty_owner(0), Some(1));
    assert!(c.create(2).is_ok());
    assert!(c.transfer(1, 0, 2).is_ok());
    assert_eq!(c.pallet.next_kitty_id(), 2);
    assert_eq!(c.pallet.kitty_owner(0), Some(2));
    assert_eq!(c.pallet.kitty_all(1), Vec::<u32>::new());
    assert_eq!(sorted(c.pallet.kitty_all(2)), vec![0, 1]);
}

#[test]
fn transfer_kitty_failed_kitty_id_not_exists() {
    let mut c = Chain::new();
    assert!(c.create(1).is_ok());
    let before = c.snapshot();
    assert_eq!(c.transfer(1, 1, 2), Err(Error::InvalidKittyId));
    assert_eq!(c.snapshot(), before);
}

#[test]
fn transfer_kitty_failed_not_owner() {
    let mut c = Chain::new();
    assert!(c.create(1).is_ok());
    assert!(c.create(2).is_ok());
    let before = c.snapshot();
    assert_eq!(c.transfer(1, 1, 1), Err(Error::NotOwner));
    assert_eq!(c.snapshot(), before);
}

#[test]
fn transfer_kitty_failed_token_not_enough_to_reversed() {
    let mut c = Chain::new();
    assert!(c.create(1).is_ok());
    let before = c.snapshot();
    assert_eq!(c.transfer(1, 0, 3), Err(Error::TokenNotEnough));
    assert_eq!(c.snapshot(), before);
}

#[test]
fn scenario_mint_first_kitty() {
    let mut p = Pallet::new();
    let g0 = Kitty([9u8; 16]);
    assert_eq!(p.mint(1, g0, true), Ok(Event::KittyCreated(1, 0, g0)));
    assert_eq!(p.next_kitty_id(), 1);
    assert_eq!(p.kitty_owner(0), Some(1));
    assert_eq!(p.kitties(0), Some(g0));
    assert_eq!(p.kitty_all(1), vec![0]);
}

#[test]
fn scenario_breed_after_two_mints() {
    let mut c = Chain::new();
    assert!(c.create(1).is_ok());
    assert!(c.create(1).is_ok());
    let e = c.breed(1, 0, 1).unwrap();
    match e {
        Event::KittyCreated(who, id, _) => {
            assert_eq!(who, 1);
            assert_eq!(id, 2);
        }
        other => panic!("unexpected event {:?}", other),
    }
    assert_eq!(c.pallet.kitty_owner(2), Some(1));
    assert_eq!(sorted(c.pallet.kitty_all(1)), vec![0, 1, 2]);
    assert_eq!(c.pallet.next_kitty_id(), 3);
    assert_eq!(c.reserved_of(1), 3 * KITTY_RESERVE);
}

#[test]
fn scenario_transfer_moves_collateral() {
    let mut c = Chain::new();
    assert!(c.create(1).is_ok());
    assert_eq!(c.reserved_of(1), KITTY_RESERVE);
    assert_eq!(c.transfer(1, 0, 2), Ok(Event::KittyTransferred(1, 2, 0)));
    assert_eq!(c.pallet.kitty_owner(0), Some(2));
    assert_eq!(c.pallet.kitty_all(1), Vec::<u32>::new());
    assert_eq!(c.pallet.kitty_all(2), vec![0]);
    assert_eq!(c.reserved_of(1), 0);
    assert_eq!(c.reserved_of(2), KITTY_RESERVE);
    assert_eq!(*c.free.get(&1).unwrap(), 10001);
    assert_eq!(*c.free.get(&2).unwrap(), 10002 - KITTY_RESERVE);
}

#[test]
fn scenario_mint_without_collateral() {
    let mut p = Pallet::new();
    assert_eq!(p.mint(7, Kitty([1u8; 16]), false), Err(Error::TokenNotEnough));
    assert_eq!(p.next_kitty_id(), 0);
    assert_eq!(p.kitties(0), None);
    assert_eq!(p.kitty_all(7), Vec::<u32>::new());
}

#[test]
fn scenario_breed_same_id_with_or_without_kitty() {
    let mut p = Pallet::new();
    assert_eq!(p.breed_with_selector(1, 0, 0, &[0u8; 16], true), Err(Error::SameKittyId));
    assert_eq!(p.mint(1, Kitty([1u8; 16]), true), Ok(Event::KittyCreated(1, 0, Kitty([1u8; 16]))));
    assert_eq!(p.breed_with_selector(1, 0, 0, &[0u8; 16], true), Err(Error::SameKittyId));
    assert_eq!(p.next_kitty_id(), 1);
}

#[test]
fn scenario_transfer_of_foreign_kitty() {
    let mut p = Pallet::new();
    let k = Kitty([3u8; 16]);
    assert!(p.mint(2, k, true).is_ok());
    assert_eq!(p.transfer(1, 0, 1, true), Err(Error::NotOwner));
    assert_eq!(p.kitty_owner(0), Some(2));
    assert_eq!(p.kitty_all(1), Vec::<u32>::new());
    assert_eq!(p.kitty_all(2), vec![0]);
}

#[test]
fn ids_increase_across_mints_breeds_and_transfers() {
    let mut p = Pallet::new();
    let k = Kitty([5u8; 16]);
    let mut ids = Vec::new();
    for _ in 0..3 {
        if let Ok(Event::KittyCreated(_, id, _)) = p.mint(1, k, true) {
            ids.push(id);
        }
    }
    assert!(p.transfer(1, 1, 2, true).is_ok());
    if let Ok(Event::KittyCreated(_, id, _)) = p.breed_with_selector(1, 0, 2, &[0xf0u8; 16], true) {
        ids.push(id);
    }
    assert_eq!(ids, vec![0, 1, 2, 3]);
}

#[test]
fn full_inventory_refuses_mint_breed_and_transfer() {
    let mut p = Pallet::new();
    let k = Kitty([0u8; 16]);
    for i in 0..MAX_KITTY_OWNED {
        assert_eq!(p.mint(1, k, true), Ok(Event::KittyCreated(1, i, k)));
    }
    assert_eq!(p.kitty_all(1).len(), MAX_KITTY_OWNED as usize);
    assert_eq!(p.mint(1, k, true), Err(Error::ExceedMaxKittyOwned));
    assert_eq!(p.breed_with_selector(1, 0, 1, &[0u8; 16], true), Err(Error::ExceedMaxKittyOwned));
    assert!(p.mint(2, k, true).is_ok());
    assert_eq!(p.transfer(2, MAX_KITTY_OWNED, 1, true), Err(Error::ExceedMaxKittyOwned));
    assert_eq!(p.kitty_owner(MAX_KITTY_OWNED), Some(2));
    assert_eq!(p.next_kitty_id(), MAX_KITTY_OWNED + 1);
    assert_eq!(p.kitty_all(1).len(), MAX_KITTY_OWNED as usize);
    assert_eq!(p.kitty_all(2), vec![MAX_KITTY_OWNED]);
}

#[test]
fn transfer_to_self_keeps_full_inventory() {
    let mut p = Pallet::new();
    let k = Kitty([0u8; 16]);
    for _ in 0..MAX_KITTY_OWNED {
        assert!(p.mint(1, k, true).is_ok());
    }
    assert_eq!(p.transfer(1, 3, 1, true), Ok(Event::KittyTransferred(1, 1, 3)));
    assert_eq!(p.kitty_owner(3), Some(1));
    let expected: Vec<u32> = (0..MAX_KITTY_OWNED).collect();
    assert_eq!(sorted(p.kitty_all(1)), expected);
}

#[test]
fn transfer_swaps_last_entry_into_place() {
    let mut p = Pallet::new();
    let k = Kitty([0u8; 16]);
    for _ in 0..4 {
        assert!(p.mint(1, k, true).is_ok());
    }
    assert!(p.transfer(1, 1, 2, true).is_ok());
    assert_eq!(p.kitty_all(1), vec![0, 3, 2]);
    assert_eq!(p.kitty_all(2), vec![1]);
}

#[test]
fn overflow_refuses_mint_and_breed() {
    let mut p = Pallet::new();
    let k = Kitty([0u8; 16]);
    assert!(p.mint(1, k, true).is_ok());
    assert!(p.mint(1, k, true).is_ok());
    p.set_next_kitty_id(MAX_KITTY_ID);
    assert_eq!(p.mint(1, k, true), Err(Error::KittyIdOverflow));
    assert_eq!(p.mint(1, k, false), Err(Error::KittyIdOverflow));
    assert_eq!(p.breed_with_selector(1, 0, 1, &[0u8; 16], true), Err(Error::KittyIdOverflow));
    assert_eq!(p.next_kitty_id(), MAX_KITTY_ID);
    assert_eq!(p.kitty_all(1), vec![0, 1]);
}

#[test]
fn breed_checks_in_order() {
    let mut p = Pallet::new();
    let k = Kitty([0u8; 16]);
    assert!(p.mint(1, k, true).is_ok());
    assert_eq!(p.breed_with_selector(1, 0, 5, &[0u8; 16], false), Err(Error::InvalidKittyId));
    assert!(p.mint(1, k, true).is_ok());
    assert_eq!(p.breed_with_selector(1, 0, 1, &[0u8; 16], false), Err(Error::TokenNotEnough));
}

#[test]
fn crossover_takes_bits_by_selector() {
    let mut a = [0u8; 16];
    let mut b = [0u8; 16];
    let mut s = [0u8; 16];
    for i in 0..16 {
        a[i] = 0b1100_1010 ^ (i as u8);
        b[i] = 0b0011_0110 ^ ((i as u8) << 3);
        s[i] = 0b1111_0000 | (i as u8);
    }
    let child = crossover(&a, &b, &s);
    for i in 0..16 {
        assert_eq!(child[i], (a[i] & s[i]) | (b[i] & !s[i]));
    }
    assert_eq!(crossover(&[0xaa; 16], &[0x55; 16], &[0xf0; 16]), [0xa5; 16]);
    assert_eq!(crossover(&[0xaa; 16], &[0x55; 16], &[0xff; 16]), [0xaa; 16]);
    assert_eq!(crossover(&[0xaa; 16], &[0x55; 16], &[0x00; 16]), [0x55; 16]);
}

#[test]
fn breed_child_is_crossover_of_parents() {
    let mut p = Pallet::new();
    let k1 = Kitty([0xaa; 16]);
    let k2 = Kitty([0x55; 16]);
    assert!(p.mint(1, k1, true).is_ok());
    assert!(p.mint(2, k2, true).is_ok());
    let sel = [0x0f; 16];
    assert_eq!(
        p.breed_with_selector(3, 0, 1, &sel, true),
        Ok(Event::KittyCreated(3, 2, Kitty([0x5a; 16])))
    );
    assert_eq!(p.kitties(2), Some(Kitty([0x5a; 16])));
    assert_eq!(p.kitty_owner(0), Some(1));
    assert_eq!(p.kitty_owner(1), Some(2));
}

#[test]
fn random_value_hashes_encoded_payload() {
    let mut payload = Vec::new();
    payload.extend_from_slice(&SEED);
    payload.extend_from_slice(&7u64.to_le_bytes());
    payload.push(1);
    payload.extend_from_slice(&3u32.to_le_bytes());
    assert_eq!((SEED, 7u64, Some(3u32)).encode(), payload);
    let expected = sp_crypto_hashing::blake2_128(&payload);
    assert_eq!(random_value(&SEED, 7, Some(3)), expected);
    let none_payload: Vec<u8> = SEED.iter().copied().chain(7u64.to_le_bytes()).chain([0u8]).collect();
    assert_eq!(random_value(&SEED, 7, None), sp_crypto_hashing::blake2_128(&none_payload));
    assert_ne!(random_value(&SEED, 7, Some(3)), random_value(&SEED, 7, Some(4)));
    assert_ne!(random_value(&SEED, 7, Some(3)), random_value(&SEED, 8, Some(3)));
}

#[test]
fn create_uses_drawn_genome() {
    let mut p = Pallet::new();
    let e = p.create(4, &SEED, Some(9), true).unwrap();
    assert_eq!(created_kitty(&e), Kitty(random_value(&SEED, 4, Some(9))));
    assert_eq!(p.kitties(0), Some(Kitty(random_value(&SEED, 4, Some(9)))));
}

#[test]
fn breed_uses_drawn_selector() {
    let mut p = Pallet::new();
    let k1 = Kitty([0x0f; 16]);
    let k2 = Kitty([0xf0; 16]);
    assert!(p.mint(1, k1, true).is_ok());
    assert!(p.mint(1, k2, true).is_ok());
    let e = p.breed(1, 0, 1, &SEED, Some(2), true).unwrap();
    let sel = random_value(&SEED, 1, Some(2));
    assert_eq!(created_kitty(&e), Kitty(crossover(&k1.0, &k2.0, &sel)));
}

#[test]
fn collateral_moves_of_events() {
    let k = Kitty([0u8; 16]);
    assert_eq!(Event::KittyCreated(5, 0, k).collateral_moves(), (5, None));
    assert_eq!(Event::KittyBred(6, 1, k).collateral_moves(), (6, None));
    assert_eq!(Event::KittyTransferred(5, 6, 0).collateral_moves(), (6, Some(5)));
}

#[test]
fn counter_starts_at_default() {
    assert_eq!(GetDefaultValue(), 0);
    let p = Pallet::new();
    assert_eq!(p.next_kitty_id(), 0);
    assert_eq!(p.kitties(0), None);
    assert_eq!(p.kitty_owner(0), None);
}
