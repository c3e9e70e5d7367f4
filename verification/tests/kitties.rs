use kitties::breeding::crossover;
use kitties::genesis::GenesisConfig;
use kitties::identity::{generate_gender, generate_genome};
use kitties::ledger::{Ledger, LedgerError};
use kitties::pallet::Pallet;
use kitties::types::{Error, Event, Gender};

fn dna_of(b: u8) -> Vec<u8> {
    vec![b; 16]
}

fn gender_byte(g: Gender) -> u8 {
    match g {
        Gender::Male => 0,
        Gender::Female => 1,
    }
}

fn expected_id(dna: &[u8], price: Option<u64>, gender: Gender, owner: u64) -> u128 {
    let mut bytes = dna.to_vec();
    match price {
        None => bytes.push(0),
        Some(p) => {
            bytes.push(1);
            bytes.extend_from_slice(&p.to_le_bytes());
        }
    }
    bytes.push(gender_byte(gender));
    bytes.extend_from_slice(&owner.to_le_bytes());
    u128::from_le_bytes(sp_io::hashing::blake2_128(&bytes))
}

fn expected_genome(entropy: &[u8], sequence: u64) -> Vec<u8> {
    let mut payload = entropy.to_vec();
    payload.extend_from_slice(&sequence.to_le_bytes());
    sp_io::hashing::blake2_128(&payload).to_vec()
}

fn mint_for(p: &mut Pallet, owner: u64, tag: u8) -> u128 {
    p.mint(owner, Some(dna_of(tag)), Some(Gender::Male), &vec![0u8], 0, 0)
        .unwrap()
}

#[test]
fn mint_registers_kitty() {
    let alice: u64 = 1;
    let mut p = Pallet::new(10);
    let id = p
        .mint(alice, Some(dna_of(7)), Some(Gender::Female), &vec![0u8], 0, 0)
        .unwrap();
    let k = p.kitties(id).unwrap();
    assert_eq!(k.owner, alice);
    assert_eq!(k.price, None);
    assert_eq!(k.gender, Gender::Female);
    assert_eq!(k.dna, dna_of(7));
    assert_eq!(p.kitties_owned(alice), vec![id]);
    assert_eq!(p.kitty_cnt(), 1);
    assert_eq!(*p.events(), vec![Event::Created(alice, id)]);
}

#[test]
fn identity_is_content_derived() {
    let alice: u64 = 1;
    let mut p = Pallet::new(10);
    let id = p
        .mint(alice, Some(dna_of(7)), Some(Gender::Male), &vec![0u8], 0, 0)
        .unwrap();
    assert_eq!(id, expected_id(&dna_of(7), None, Gender::Male, alice));
    // a different owner yields a different identity for the same genome
    let bob: u64 = 2;
    let id2 = p
        .mint(bob, Some(dna_of(7)), Some(Gender::Male), &vec![0u8], 0, 0)
        .unwrap();
    assert_ne!(id, id2);
    assert_eq!(id2, expected_id(&dna_of(7), None, Gender::Male, bob));
}

#[test]
fn identity_collision_aborts_mint() {
    let alice: u64 = 1;
    let mut p = Pallet::new(10);
    let id = mint_for(&mut p, alice, 7);
    let again = p.mint(alice, Some(dna_of(7)), Some(Gender::Male), &vec![0u8], 0, 0);
    assert_eq!(again, Err(Error::IdentityCollision));
    assert_eq!(p.kitty_cnt(), 1);
    assert_eq!(p.kitties_owned(alice), vec![id]);
}

#[test]
fn mint_respects_capacity() {
    let alice: u64 = 1;
    let mut p = Pallet::new(2);
    mint_for(&mut p, alice, 1);
    mint_for(&mut p, alice, 2);
    let r = p.mint(alice, Some(dna_of(3)), Some(Gender::Male), &vec![0u8], 0, 0);
    assert_eq!(r, Err(Error::ExceedMaxKittyOwned));
    assert_eq!(p.kitty_cnt(), 2);
    assert_eq!(p.kitties_owned(alice).len(), 2);
}

#[test]
fn create_kitty_draws_genome_and_gender() {
    let alice: u64 = 1;
    let mut p = Pallet::new(10);
    let entropy = vec![9u8, 8, 7, 6];
    let id = p.create_kitty(alice, &entropy, 3, 42).unwrap();
    let k = p.kitties(id).unwrap();
    assert_eq!(k.dna, expected_genome(&entropy, 42));
    // an odd entropy byte yields a female kitty
    assert_eq!(k.gender, Gender::Female);
    assert_eq!(k.owner, alice);
}

#[test]
fn generated_gender_follows_parity() {
    assert_eq!(generate_gender(0), Gender::Male);
    assert_eq!(generate_gender(1), Gender::Female);
    assert_eq!(generate_gender(200), Gender::Male);
    assert_eq!(generate_gender(201), Gender::Female);
}

#[test]
fn generated_genome_is_digest_of_entropy_and_sequence() {
    let entropy = vec![1u8, 2, 3];
    let g = generate_genome(&entropy, 5);
    assert_eq!(g, expected_genome(&[1, 2, 3], 5));
    assert_eq!(g.len(), 16);
}

#[test]
fn crossover_all_ones_gives_first_parent() {
    let a = dna_of(0xAB);
    let b = dna_of(0x5C);
    assert_eq!(crossover(&vec![0xFF; 16], &a, &b), a);
}

#[test]
fn crossover_all_zeros_gives_second_parent() {
    let a = dna_of(0xAB);
    let b = dna_of(0x5C);
    assert_eq!(crossover(&vec![0x00; 16], &a, &b), b);
}

#[test]
fn crossover_selects_bits_by_mask() {
    let mask = vec![0xF0u8; 16];
    let a = dna_of(0xAB);
    let b = dna_of(0x5C);
    // high nibble from a, low nibble from b
    assert_eq!(crossover(&mask, &a, &b), dna_of(0xAC));
}

#[test]
fn set_price_requires_the_owner() {
    let alice: u64 = 1;
    let bob: u64 = 2;
    let mut p = Pallet::new(10);
    let id = mint_for(&mut p, alice, 1);
    assert_eq!(p.set_price(bob, id, 50), Err(Error::NotKittyOwner));
    assert_eq!(p.set_price(alice, 999, 50), Err(Error::KittyNotExist));
    assert_eq!(p.set_price(alice, id, 50), Ok(()));
    assert_eq!(p.kitties(id).unwrap().price, Some(50));
    assert_eq!(
        p.events().last(),
        Some(&Event::PriceSet(alice, id, Some(50)))
    );
}

#[test]
fn transfer_moves_ownership_and_clears_price() {
    let alice: u64 = 1;
    let bob: u64 = 2;
    let mut p = Pallet::new(10);
    let id = mint_for(&mut p, alice, 1);
    p.set_price(alice, id, 50).unwrap();
    assert_eq!(p.transfer(alice, bob, id), Ok(()));
    let k = p.kitties(id).unwrap();
    assert_eq!(k.owner, bob);
    assert_eq!(k.price, None);
    assert!(p.kitties_owned(alice).is_empty());
    assert_eq!(p.kitties_owned(bob), vec![id]);
    assert_eq!(p.events().last(), Some(&Event::Transfer(alice, bob, id)));
}

#[test]
fn transfer_rejects_bad_callers() {
    let alice: u64 = 1;
    let bob: u64 = 2;
    let mut p = Pallet::new(10);
    let id = mint_for(&mut p, alice, 1);
    assert_eq!(p.transfer(bob, alice, id), Err(Error::NotKittyOwner));
    assert_eq!(p.transfer(alice, alice, id), Err(Error::TransferToSelf));
    assert_eq!(p.transfer(alice, bob, 999), Err(Error::KittyNotExist));
    assert_eq!(p.kitties(id).unwrap().owner, alice);
}

#[test]
fn transfer_to_full_account_fails_and_changes_nothing() {
    // Alice already owns two kitties at a capacity of two; Bob's transfer
    // to her must fail and leave her index unchanged.
    let alice: u64 = 1;
    let bob: u64 = 2;
    let mut p = Pallet::new(2);
    let k1 = mint_for(&mut p, alice, 1);
    let k2 = mint_for(&mut p, alice, 2);
    let k3 = mint_for(&mut p, bob, 3);
    assert_eq!(p.transfer(bob, alice, k3), Err(Error::ExceedMaxKittyOwned));
    assert_eq!(p.kitties_owned(alice), vec![k1, k2]);
    assert_eq!(p.kitties_owned(bob), vec![k3]);
    assert_eq!(p.kitties(k3).unwrap().owner, bob);
}

#[test]
fn move_within_one_account_reorders_the_index() {
    let alice: u64 = 1;
    let mut p = Pallet::new(2);
    let k1 = mint_for(&mut p, alice, 1);
    let k2 = mint_for(&mut p, alice, 2);
    p.set_price(alice, k1, 9).unwrap();
    // the index is full, yet a move within the account fits: the identity
    // leaves the index before it is appended again
    assert_eq!(p.transfer_kitty_to(k1, alice), Ok(()));
    assert_eq!(p.kitties_owned(alice), vec![k2, k1]);
    assert_eq!(p.kitties(k1).unwrap().price, None);
}

#[test]
fn buy_pays_seller_and_moves_kitty() {
    // Mint for Alice at capacity two, price it at 100; Bob with balance
    // 150 bids 120 and wins.
    let alice: u64 = 1;
    let bob: u64 = 2;
    let mut p = Pallet::new(2);
    let mut l = Ledger::new(0);
    let k1 = mint_for(&mut p, alice, 1);
    p.set_price(alice, k1, 100).unwrap();
    l.set_balance(bob, 150);
    assert_eq!(p.buy_kitty(&mut l, bob, k1, 120), Ok(()));
    let k = p.kitties(k1).unwrap();
    assert_eq!(k.owner, bob);
    assert_eq!(k.price, None);
    assert_eq!(l.free_balance(alice), 120);
    assert_eq!(l.free_balance(bob), 30);
    assert!(p.kitties_owned(alice).is_empty());
    assert_eq!(p.kitties_owned(bob), vec![k1]);
    assert_eq!(p.events().last(), Some(&Event::Bought(bob, alice, k1, 120)));
}

#[test]
fn buy_rejects_unpriced_and_low_bids_without_side_effects() {
    let alice: u64 = 1;
    let bob: u64 = 2;
    let mut p = Pallet::new(10);
    let mut l = Ledger::new(0);
    let k1 = mint_for(&mut p, alice, 1);
    l.set_balance(bob, 1000);
    assert_eq!(
        p.buy_kitty(&mut l, bob, k1, 1000),
        Err(Error::KittyNotForSale)
    );
    p.set_price(alice, k1, 100).unwrap();
    assert_eq!(
        p.buy_kitty(&mut l, bob, k1, 99),
        Err(Error::KittyBidPriceTooLow)
    );
    assert_eq!(p.kitties(k1).unwrap().owner, alice);
    assert_eq!(p.kitties_owned(alice), vec![k1]);
    assert!(p.kitties_owned(bob).is_empty());
    assert_eq!(l.free_balance(alice), 0);
    assert_eq!(l.free_balance(bob), 1000);
}

#[test]
fn buy_rejects_missing_kitty_poor_buyer_full_buyer_and_owner() {
    let alice: u64 = 1;
    let bob: u64 = 2;
    let mut p = Pallet::new(1);
    let mut l = Ledger::new(0);
    let k1 = mint_for(&mut p, alice, 1);
    p.set_price(alice, k1, 100).unwrap();
    assert_eq!(
        p.buy_kitty(&mut l, bob, 999, 100),
        Err(Error::KittyNotExist)
    );
    // Bob cannot pay
    l.set_balance(bob, 99);
    assert_eq!(
        p.buy_kitty(&mut l, bob, k1, 100),
        Err(Error::NotEnoughBalance)
    );
    // Bob is full (capacity one)
    l.set_balance(bob, 1000);
    let k2 = mint_for(&mut p, bob, 2);
    assert_eq!(
        p.buy_kitty(&mut l, bob, k1, 100),
        Err(Error::ExceedMaxKittyOwned)
    );
    assert_eq!(p.kitties(k1).unwrap().owner, alice);
    assert_eq!(p.kitties_owned(bob), vec![k2]);
}

#[test]
fn buy_rejects_the_owner_as_buyer() {
    let alice: u64 = 1;
    let mut p = Pallet::new(10);
    let mut l = Ledger::new(0);
    let k1 = mint_for(&mut p, alice, 1);
    p.set_price(alice, k1, 100).unwrap();
    l.set_balance(alice, 1000);
    assert_eq!(
        p.buy_kitty(&mut l, alice, k1, 100),
        Err(Error::BuyerIsKittyOwner)
    );
    assert_eq!(p.kitties(k1).unwrap().owner, alice);
    assert_eq!(l.free_balance(alice), 1000);
}

#[test]
fn buy_fails_when_payment_would_kill_the_buyer() {
    // The pre-check passes (150 >= 120) but the existence-preserving
    // transfer itself fails: 30 would remain, below the minimum of 50.
    let alice: u64 = 1;
    let bob: u64 = 2;
    let mut p = Pallet::new(10);
    let mut l = Ledger::new(50);
    let k1 = mint_for(&mut p, alice, 1);
    p.set_price(alice, k1, 100).unwrap();
    l.set_balance(bob, 150);
    assert_eq!(
        p.buy_kitty(&mut l, bob, k1, 120),
        Err(Error::NotEnoughBalance)
    );
    assert_eq!(p.kitties(k1).unwrap().owner, alice);
    assert_eq!(l.free_balance(bob), 150);
    assert_eq!(l.free_balance(alice), 0);
}

#[test]
fn breed_requires_owning_both_parents() {
    // Alice owns one parent, Bob the other: breeding by Alice fails.
    let alice: u64 = 1;
    let bob: u64 = 2;
    let mut p = Pallet::new(10);
    let k1 = mint_for(&mut p, alice, 1);
    let k2 = mint_for(&mut p, bob, 2);
    assert_eq!(
        p.breed_kitty(alice, k1, k2, &vec![0u8], 0, 0),
        Err(Error::NotKittyOwner)
    );
    assert_eq!(
        p.breed_kitty(alice, 999, k2, &vec![0u8], 0, 0),
        Err(Error::KittyNotExist)
    );
    assert_eq!(p.kitty_cnt(), 2);
}

#[test]
fn breed_crosses_parent_genomes_under_the_random_mask() {
    let alice: u64 = 1;
    let mut p = Pallet::new(10);
    let k1 = mint_for(&mut p, alice, 0xAB);
    let k2 = mint_for(&mut p, alice, 0x5C);
    let entropy = vec![4u8, 4, 4];
    let child = p.breed_kitty(alice, k1, k2, &entropy, 2, 11).unwrap();
    let mask = expected_genome(&entropy, 11);
    let mut want = Vec::new();
    for i in 0..16 {
        want.push((mask[i] & 0xAB) | (!mask[i] & 0x5C));
    }
    let k = p.kitties(child).unwrap();
    assert_eq!(k.dna, want);
    assert_eq!(k.owner, alice);
    assert_eq!(k.gender, Gender::Male);
    assert_eq!(p.kitties_owned(alice), vec![k1, k2, child]);
    assert_eq!(p.events().last(), Some(&Event::Created(alice, child)));
}

#[test]
fn breed_dna_matches_direct_crossover() {
    let alice: u64 = 1;
    let mut p = Pallet::new(10);
    let k1 = mint_for(&mut p, alice, 0x0F);
    let k2 = mint_for(&mut p, alice, 0xF0);
    let entropy = vec![1u8];
    let d = p.breed_dna(k1, k2, &entropy, 3).unwrap();
    let mask = expected_genome(&entropy, 3);
    assert_eq!(d, crossover(&mask, &dna_of(0x0F), &dna_of(0xF0)));
    assert_eq!(p.breed_dna(k1, 999, &entropy, 3), Err(Error::KittyNotExist));
}

#[test]
fn genesis_loads_entries_and_skips_failures_silently() {
    let alice: u64 = 1;
    let bob: u64 = 2;
    let mut p = Pallet::new(1);
    let config = GenesisConfig {
        kitties: vec![
            (alice, dna_of(1), Gender::Male),
            // over Alice's capacity: skipped
            (alice, dna_of(2), Gender::Female),
            // malformed genome: skipped
            (bob, vec![3u8; 3], Gender::Male),
            (bob, dna_of(4), Gender::Female),
        ],
    };
    config.build(&mut p);
    assert_eq!(p.kitty_cnt(), 2);
    let id1 = expected_id(&dna_of(1), None, Gender::Male, alice);
    let id4 = expected_id(&dna_of(4), None, Gender::Female, bob);
    assert_eq!(p.kitties_owned(alice), vec![id1]);
    assert_eq!(p.kitties_owned(bob), vec![id4]);
    assert_eq!(p.kitties(id4).unwrap().gender, Gender::Female);
    // genesis loading emits no events
    assert!(p.events().is_empty());
}

#[test]
fn default_genesis_is_empty() {
    let config = GenesisConfig::default();
    assert!(config.kitties.is_empty());
}

#[test]
fn default_gender_is_male() {
    assert_eq!(Gender::default(), Gender::Male);
}

#[test]
fn ledger_transfers_exactly_and_atomically() {
    let alice: u64 = 1;
    let bob: u64 = 2;
    let mut l = Ledger::new(10);
    assert_eq!(l.free_balance(alice), 0);
    l.set_balance(alice, 100);
    assert_eq!(
        l.transfer(alice, bob, 200),
        Err(LedgerError::InsufficientFunds)
    );
    // 100 - 95 = 5 would fall below the minimum of 10
    assert_eq!(
        l.transfer(alice, bob, 95),
        Err(LedgerError::InsufficientFunds)
    );
    assert_eq!(l.free_balance(alice), 100);
    assert_eq!(l.transfer(alice, bob, 50), Ok(()));
    assert_eq!(l.free_balance(alice), 50);
    assert_eq!(l.free_balance(bob), 50);
    // the receiver's balance cannot overflow
    l.set_balance(bob, u64::MAX);
    assert_eq!(l.transfer(alice, bob, 20), Err(LedgerError::Overflow));
    assert_eq!(l.free_balance(alice), 50);
}

#[test]
fn is_kitty_owner_checks_the_store() {
    let alice: u64 = 1;
    let bob: u64 = 2;
    let mut p = Pallet::new(3);
    assert_eq!(p.max_kitty_owned(), 3);
    let id = mint_for(&mut p, alice, 1);
    assert_eq!(p.is_kitty_owner(id, alice), Ok(true));
    assert_eq!(p.is_kitty_owner(id, bob), Ok(false));
    assert_eq!(p.is_kitty_owner(999, alice), Err(Error::KittyNotExist));
}

#[test]
fn direct_move_respects_receiver_capacity() {
    let alice: u64 = 1;
    let bob: u64 = 2;
    let mut p = Pallet::new(1);
    let k1 = mint_for(&mut p, alice, 1);
    let k2 = mint_for(&mut p, bob, 2);
    assert_eq!(p.transfer_kitty_to(k1, bob), Err(Error::ExceedMaxKittyOwned));
    assert_eq!(p.transfer_kitty_to(999, bob), Err(Error::KittyNotExist));
    assert_eq!(p.kitties_owned(bob), vec![k2]);
    let carol: u64 = 3;
    assert_eq!(p.transfer_kitty_to(k1, carol), Ok(()));
    assert_eq!(p.kitties(k1).unwrap().owner, carol);
    assert!(p.kitties_owned(alice).is_empty());
    assert_eq!(p.kitties_owned(carol), vec![k1]);
    assert_eq!(p.events().last(), Some(&Event::Transfer(alice, carol, k1)));
}

#[test]
fn counter_counts_every_mint() {
    let alice: u64 = 1;
    let mut p = Pallet::new(10);
    assert_eq!(p.kitty_cnt(), 0);
    mint_for(&mut p, alice, 1);
    mint_for(&mut p, alice, 2);
    let id = p.genesis_mint(alice, dna_of(3), Gender::Male).unwrap();
    assert_eq!(p.kitty_cnt(), 3);
    assert_eq!(p.kitties(id).unwrap().dna, dna_of(3));
}
