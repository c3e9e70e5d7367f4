//! The registry and its transition engine: the primary kitty store, the
//! capacity-bounded per-owner index kept consistent with it, the
//! monotonic kitty counter, the event log, and the public operations
//! (mint, set a price, transfer, buy, breed). Every operation either
//! fully applies or leaves the registry untouched.

use std::collections::HashMap;
use vstd::prelude::*;
use vstd::seq_lib::group_seq_properties;
use crate::identity::{gender_of_byte, genome_of, hash_of_kitty, kitty_id_of, copy_bytes};
use crate::breeding::{crossover, crossover_spec};
use crate::ledger::{Ledger, LedgerModel};
use crate::types::{AccountId, Balance, Error, Event, Gender, Kitty, KittyId, KittyModel, DNA_LEN};

verus! {

broadcast use vstd::std_specs::hash::group_hash_axioms;

/// Mathematical model of the registry: the asset store, the per-owner
/// index, the counter, the capacity bound and the emitted events.
#[verifier::ext_equal]
pub ghost struct PalletModel {
    pub kitty_cnt: u64,
    pub kitties: Map<KittyId, KittyModel>,
    pub kitties_owned: Map<AccountId, Seq<KittyId>>,
    pub max_kitty_owned: u64,
    pub events: Seq<Event>,
}

impl PalletModel {
    /// The identities an account owns; accounts without an entry own none.
    pub open spec fn owned_of(self, a: AccountId) -> Seq<KittyId> {
        if self.kitties_owned.contains_key(a) {
            self.kitties_owned[a]
        } else {
            Seq::empty()
        }
    }

    pub open spec fn has_kitty(self, id: KittyId) -> bool {
        self.kitties.contains_key(id)
    }

    /// The registry invariants, which hold after every operation:
    /// no owner index exceeds the capacity or repeats an identity; an
    /// identity in an owner index names a stored kitty owned by that
    /// account; a stored kitty's identity sits in its owner's index; and
    /// the counter equals the number of stored kitties.
    pub open spec fn wf(self) -> bool {
        &&& self.kitties.dom().finite()
        &&& self.kitty_cnt == self.kitties.dom().len()
        &&& forall|a: AccountId| (#[trigger] self.owned_of(a)).len() <= self.max_kitty_owned
        &&& forall|a: AccountId| (#[trigger] self.owned_of(a)).no_duplicates()
        &&& forall|a: AccountId, i: int|
            0 <= i < self.owned_of(a).len() ==> {
                &&& self.kitties.contains_key(#[trigger] self.owned_of(a)[i])
                &&& self.kitties[self.owned_of(a)[i]].owner == a
            }
        &&& forall|id: KittyId|
            #[trigger] self.kitties.contains_key(id) ==> {
                &&& self.kitties[id].wf()
                &&& self.owned_of(self.kitties[id].owner).contains(id)
            }
    }

    /// The exact outcome of minting `k` for `owner`: the counter must not
    /// overflow, the owner must have spare capacity, and the new identity
    /// must be fresh.
    pub open spec fn mint_result(self, owner: AccountId, k: KittyModel) -> Result<KittyId, Error> {
        let id = kitty_id_of(k);
        if self.kitty_cnt == u64::MAX {
            Err(Error::KittyCntOverflow)
        } else if self.owned_of(owner).len() >= self.max_kitty_owned {
            Err(Error::ExceedMaxKittyOwned)
        } else if self.has_kitty(id) {
            Err(Error::IdentityCollision)
        } else {
            Ok(id)
        }
    }

    /// The registry after a successful mint of `k` for `owner`.
    pub open spec fn minted(self, owner: AccountId, k: KittyModel, with_event: bool) -> PalletModel {
        let id = kitty_id_of(k);
        PalletModel {
            kitty_cnt: (self.kitty_cnt + 1) as u64,
            kitties: self.kitties.insert(id, k),
            kitties_owned: self.kitties_owned.insert(owner, self.owned_of(owner).push(id)),
            max_kitty_owned: self.max_kitty_owned,
            events: if with_event {
                self.events.push(Event::Created(owner, id))
            } else {
                self.events
            },
        }
    }

    /// The exact outcome of moving a kitty to `to`: the kitty must exist
    /// and the receiver must have spare capacity. A move within one
    /// account always fits, since the identity leaves the index first.
    pub open spec fn move_result(self, kitty_id: KittyId, to: AccountId) -> Result<(), Error> {
        if !self.has_kitty(kitty_id) {
            Err(Error::KittyNotExist)
        } else if to != self.kitties[kitty_id].owner && self.owned_of(to).len()
            >= self.max_kitty_owned {
            Err(Error::ExceedMaxKittyOwned)
        } else {
            Ok(())
        }
    }

    /// The registry after a successful move: the kitty is re-owned with
    /// its price cleared, its identity leaves the previous owner's index
    /// for the end of the receiver's, and the move is recorded.
    pub open spec fn moved(self, kitty_id: KittyId, to: AccountId) -> PalletModel {
        let k = self.kitties[kitty_id];
        let from = k.owner;
        let k2 = KittyModel { dna: k.dna, price: None, gender: k.gender, owner: to };
        let removed = self.owned_of(from).remove_value(kitty_id);
        let receiving = if to == from {
            removed
        } else {
            self.owned_of(to)
        };
        PalletModel {
            kitty_cnt: self.kitty_cnt,
            kitties: self.kitties.insert(kitty_id, k2),
            kitties_owned: self.kitties_owned.insert(from, removed).insert(
                to,
                receiving.push(kitty_id),
            ),
            max_kitty_owned: self.max_kitty_owned,
            events: self.events.push(Event::Transfer(from, to, kitty_id)),
        }
    }

    /// The exact outcome of `set_price`: the kitty must exist and belong
    /// to the caller.
    pub open spec fn set_price_result(self, sender: AccountId, kitty_id: KittyId) -> Result<
        (),
        Error,
    > {
        if !self.has_kitty(kitty_id) {
            Err(Error::KittyNotExist)
        } else if self.kitties[kitty_id].owner != sender {
            Err(Error::NotKittyOwner)
        } else {
            Ok(())
        }
    }

    /// The registry after a successful `set_price`.
    pub open spec fn price_set(
        self,
        sender: AccountId,
        kitty_id: KittyId,
        new_price: Balance,
    ) -> PalletModel {
        let k = self.kitties[kitty_id];
        let k2 = KittyModel { dna: k.dna, price: Some(new_price), gender: k.gender, owner: k.owner };
        PalletModel {
            kitty_cnt: self.kitty_cnt,
            kitties: self.kitties.insert(kitty_id, k2),
            kitties_owned: self.kitties_owned,
            max_kitty_owned: self.max_kitty_owned,
            events: self.events.push(Event::PriceSet(sender, kitty_id, Some(new_price))),
        }
    }

    /// The exact outcome of the public `transfer`: the caller must own
    /// the kitty, may not transfer to itself, and the receiver must have
    /// spare capacity.
    pub open spec fn transfer_result(
        self,
        from: AccountId,
        to: AccountId,
        kitty_id: KittyId,
    ) -> Result<(), Error> {
        if !self.has_kitty(kitty_id) {
            Err(Error::KittyNotExist)
        } else if self.kitties[kitty_id].owner != from {
            Err(Error::NotKittyOwner)
        } else if to == from {
            Err(Error::TransferToSelf)
        } else if self.owned_of(to).len() >= self.max_kitty_owned {
            Err(Error::ExceedMaxKittyOwned)
        } else {
            Ok(())
        }
    }

    /// The exact outcome of `buy_kitty`, checked in order: the kitty must
    /// exist, be for sale, and cost no more than the bid; the buyer must
    /// be able to pay, have spare capacity, not already own it, and the
    /// ledger transfer itself must go through.
    pub open spec fn buy_result(
        self,
        l: LedgerModel,
        buyer: AccountId,
        kitty_id: KittyId,
        bid_price: Balance,
    ) -> Result<(), Error> {
        if !self.has_kitty(kitty_id) {
            Err(Error::KittyNotExist)
        } else {
            let k = self.kitties[kitty_id];
            if k.price is None {
                Err(Error::KittyNotForSale)
            } else if bid_price < k.price->Some_0 {
                Err(Error::KittyBidPriceTooLow)
            } else if l.free_balance_of(buyer) < bid_price {
                Err(Error::NotEnoughBalance)
            } else if self.owned_of(buyer).len() >= self.max_kitty_owned {
                Err(Error::ExceedMaxKittyOwned)
            } else if buyer == k.owner {
                Err(Error::BuyerIsKittyOwner)
            } else if !l.can_transfer(buyer, k.owner, bid_price) {
                Err(Error::NotEnoughBalance)
            } else {
                Ok(())
            }
        }
    }

    /// The registry after a successful purchase: the ownership move, then
    /// the purchase notification.
    pub open spec fn bought(
        self,
        buyer: AccountId,
        kitty_id: KittyId,
        bid_price: Balance,
    ) -> PalletModel {
        let seller = self.kitties[kitty_id].owner;
        let t = self.moved(kitty_id, buyer);
        PalletModel {
            kitty_cnt: t.kitty_cnt,
            kitties: t.kitties,
            kitties_owned: t.kitties_owned,
            max_kitty_owned: t.max_kitty_owned,
            events: t.events.push(Event::Bought(buyer, seller, kitty_id, bid_price)),
        }
    }

    /// The kitty bred from two stored parents: genomes crossed under a
    /// fresh random mask, gender drawn from fresh randomness, owned by
    /// the breeder.
    pub open spec fn bred_kitty(
        self,
        sender: AccountId,
        parent1: KittyId,
        parent2: KittyId,
        entropy: Seq<u8>,
        gender_entropy: u8,
        sequence: u64,
    ) -> KittyModel {
        KittyModel {
            dna: crossover_spec(
                genome_of(entropy, sequence),
                self.kitties[parent1].dna,
                self.kitties[parent2].dna,
            ),
            price: None,
            gender: gender_of_byte(gender_entropy),
            owner: sender,
        }
    }

    /// The exact outcome of `breed_kitty`: the caller must own both
    /// parents (each checked for existence first), then the child is
    /// minted like any other kitty.
    pub open spec fn breed_result(
        self,
        sender: AccountId,
        parent1: KittyId,
        parent2: KittyId,
        entropy: Seq<u8>,
        gender_entropy: u8,
        sequence: u64,
    ) -> Result<KittyId, Error> {
        if !self.has_kitty(parent1) {
            Err(Error::KittyNotExist)
        } else if self.kitties[parent1].owner != sender {
            Err(Error::NotKittyOwner)
        } else if !self.has_kitty(parent2) {
            Err(Error::KittyNotExist)
        } else if self.kitties[parent2].owner != sender {
            Err(Error::NotKittyOwner)
        } else {
            self.mint_result(
                sender,
                self.bred_kitty(sender, parent1, parent2, entropy, gender_entropy, sequence),
            )
        }
    }
}

/// The registry: kitty store, owner index, counter and event log, with
/// a fixed per-owner capacity.
pub struct Pallet {
    kitty_cnt: u64,
    kitties: HashMap<KittyId, Kitty>,
    kitties_owned: HashMap<AccountId, Vec<KittyId>>,
    max_kitty_owned: u64,
    events: Vec<Event>,
}

impl View for Pallet {
    type V = PalletModel;

    closed spec fn view(&self) -> PalletModel {
        PalletModel {
            kitty_cnt: self.kitty_cnt,
            kitties: self.kitties@.map_values(|k: Kitty| k@),
            kitties_owned: self.kitties_owned@.map_values(|v: Vec<KittyId>| v@),
            max_kitty_owned: self.max_kitty_owned,
            events: self.events@,
        }
    }
}

fn copy_ids(v: &Vec<KittyId>) -> (r: Vec<KittyId>)
    ensures
        r@ == v@,
{
    let mut r: Vec<KittyId> = Vec::new();
    let mut i: usize = 0;
    while i < v.len()
        invariant
            i <= v.len(),
            r@ == v@.take(i as int),
        decreases v.len() - i,
    {
        r.push(v[i]);
        proof {
            assert(r@ =~= v@.take(i as int + 1));
        }
        i = i + 1;
    }
    proof {
        assert(r@ =~= v@);
    }
    r
}

/// Position of the first occurrence of `id`, if any.
fn find_id(v: &Vec<KittyId>, id: KittyId) -> (r: Option<usize>)
    ensures
        match r {
            Some(i) => {
                &&& i < v@.len()
                &&& v@[i as int] == id
                &&& forall|j: int| 0 <= j < i ==> v@[j] != id
            },
            None => !v@.contains(id),
        },
{
    let mut i: usize = 0;
    while i < v.len()
        invariant
            i <= v.len(),
            forall|j: int| 0 <= j < i ==> v@[j] != id,
        decreases v.len() - i,
    {
        if v[i] == id {
            return Some(i);
        }
        i = i + 1;
    }
    None
}

impl Pallet {
    /// Whether the registry invariants hold; established by `new` and
    /// preserved by every operation.
    pub open spec fn wf(&self) -> bool {
        self@.wf()
    }

    /// An empty registry with the given per-owner capacity.
    pub fn new(max_kitty_owned: u64) -> (p: Pallet)
        ensures
            p.wf(),
            p@.kitty_cnt == 0,
            p@.kitties == Map::<KittyId, KittyModel>::empty(),
            p@.kitties_owned == Map::<AccountId, Seq<KittyId>>::empty(),
            p@.max_kitty_owned == max_kitty_owned,
            p@.events == Seq::<Event>::empty(),
    {
        let p = Pallet {
            kitty_cnt: 0,
            kitties: HashMap::new(),
            kitties_owned: HashMap::new(),
            max_kitty_owned,
            events: Vec::new(),
        };
        proof {
            assert(p@.kitties =~= Map::<KittyId, KittyModel>::empty());
            assert(p@.kitties_owned =~= Map::<AccountId, Seq<KittyId>>::empty());
            assert(p@.kitties.dom() =~= Set::<KittyId>::empty());
            assert forall|a: AccountId| (#[trigger] p@.owned_of(a)) =~= Seq::<KittyId>::empty() by {
            }
        }
        p
    }

    /// The number of kitties ever minted, equal to the store's size.
    pub fn kitty_cnt(&self) -> (r: u64)
        ensures
            r == self@.kitty_cnt,
    {
        self.kitty_cnt
    }

    pub fn max_kitty_owned(&self) -> (r: u64)
        ensures
            r == self@.max_kitty_owned,
    {
        self.max_kitty_owned
    }

    /// Looks a kitty up by its identity.
    pub fn kitties(&self, kitty_id: KittyId) -> (r: Option<&Kitty>)
        ensures
            match r {
                Some(k) => self@.has_kitty(kitty_id) && k@ == self@.kitties[kitty_id],
                None => !self@.has_kitty(kitty_id),
            },
    {
        self.kitties.get(&kitty_id)
    }

    /// The identities the account owns, oldest first.
    pub fn kitties_owned(&self, account: AccountId) -> (r: Vec<KittyId>)
        ensures
            r@ == self@.owned_of(account),
    {
        match self.kitties_owned.get(&account) {
            Some(v) => copy_ids(v),
            None => Vec::new(),
        }
    }

    /// The events emitted so far, oldest first.
    pub fn events(&self) -> (r: &Vec<Event>)
        ensures
            r@ == self@.events,
    {
        &self.events
    }

    /// Whether `acct` owns the kitty; an absent kitty is an error.
    pub fn is_kitty_owner(&self, kitty_id: KittyId, acct: AccountId) -> (r: Result<bool, Error>)
        ensures
            self@.has_kitty(kitty_id) ==> r == Ok::<bool, Error>(
                self@.kitties[kitty_id].owner == acct,
            ),
            !self@.has_kitty(kitty_id) ==> r == Err::<bool, Error>(Error::KittyNotExist),
    {
        match self.kitties.get(&kitty_id) {
            Some(kitty) => Ok(kitty.owner == acct),
            None => Err(Error::KittyNotExist),
        }
    }

    /// Mints a kitty built from the given parts for `owner`. The genome
    /// and gender fall back to the randomness adapter, fed by the
    /// host-supplied entropy and sequence number. On success the new
    /// identity was absent before the call, the kitty is stored under it
    /// with `owner`, and the owner's index has exactly one more entry.
    pub fn mint(
        &mut self,
        owner: AccountId,
        dna: Option<Vec<u8>>,
        gender: Option<Gender>,
        dna_entropy: &Vec<u8>,
        gender_entropy: u8,
        sequence: u64,
    ) -> (r: Result<KittyId, Error>)
        requires
            old(self).wf(),
            dna matches Some(d) ==> d@.len() == DNA_LEN,
        ensures
            final(self).wf(),
            ({
                let k = KittyModel {
                    dna: match dna {
                        Some(d) => d@,
                        None => genome_of(dna_entropy@, sequence),
                    },
                    price: None,
                    gender: match gender {
                        Some(g) => g,
                        None => gender_of_byte(gender_entropy),
                    },
                    owner,
                };
                &&& r == old(self)@.mint_result(owner, k)
                &&& (r matches Ok(id) ==> {
                    &&& id == kitty_id_of(k)
                    &&& !old(self)@.has_kitty(id)
                    &&& final(self)@ == old(self)@.minted(owner, k, true)
                    &&& final(self)@.has_kitty(id)
                    &&& final(self)@.kitties[id] == k
                    &&& final(self)@.owned_of(owner).len() == old(self)@.owned_of(owner).len() + 1
                })
                &&& (r is Err ==> final(self)@ == old(self)@)
            }),
    {
        let dna_v: Vec<u8> = match dna {
            Some(d) => d,
            None => crate::identity::generate_genome(dna_entropy, sequence),
        };
        let gender_v: Gender = match gender {
            Some(g) => g,
            None => crate::identity::generate_gender(gender_entropy),
        };
        let kitty = Kitty { dna: dna_v, price: None, gender: gender_v, owner };
        self.mint_inner(owner, kitty, true)
    }

    /// Shared minting path; `with_event` distinguishes normal minting
    /// from silent genesis loading.
    fn mint_inner(&mut self, owner: AccountId, kitty: Kitty, with_event: bool) -> (r: Result<
        KittyId,
        Error,
    >)
        requires
            old(self).wf(),
            kitty@.wf(),
            kitty@.owner == owner,
        ensures
            final(self).wf(),
            r == old(self)@.mint_result(owner, kitty@),
            r matches Ok(id) ==> {
                &&& id == kitty_id_of(kitty@)
                &&& !old(self)@.has_kitty(id)
                &&& final(self)@ == old(self)@.minted(owner, kitty@, with_event)
                &&& final(self)@.has_kitty(id)
                &&& final(self)@.kitties[id] == kitty@
                &&& final(self)@.owned_of(owner).len() == old(self)@.owned_of(owner).len() + 1
            },
            r is Err ==> final(self)@ == old(self)@,
    {
        let ghost m = self@;
        let ghost k = kitty@;
        let kitty_id = hash_of_kitty(&kitty);
        let new_cnt = match self.kitty_cnt.checked_add(1) {
            Some(c) => c,
            None => {
                return Err(Error::KittyCntOverflow);
            },
        };
        let mut owned = self.kitties_owned(owner);
        if owned.len() as u64 >= self.max_kitty_owned {
            return Err(Error::ExceedMaxKittyOwned);
        }
        if self.kitties.contains_key(&kitty_id) {
            return Err(Error::IdentityCollision);
        }
        owned.push(kitty_id);
        self.kitties_owned.insert(owner, owned);
        self.kitties.insert(kitty_id, kitty);
        self.kitty_cnt = new_cnt;
        if with_event {
            self.events.push(Event::Created(owner, kitty_id));
        }
        proof {
            let n = m.minted(owner, k, with_event);
            assert(self@.kitties =~= n.kitties);
            assert(self@.kitties_owned =~= n.kitties_owned);
            assert(self@ =~= n);
            lemma_minted_wf(m, owner, k, with_event);
        }
        Ok(kitty_id)
    }

    /// The atomic ownership move shared by `transfer` and `buy_kitty`:
    /// clears the price, re-owns the kitty and moves its identity between
    /// the owner indexes, all together or not at all.
    pub fn transfer_kitty_to(&mut self, kitty_id: KittyId, to: AccountId) -> (r: Result<(), Error>)
        requires
            old(self).wf(),
        ensures
            final(self).wf(),
            r == old(self)@.move_result(kitty_id, to),
            r is Ok ==> {
                &&& final(self)@ == old(self)@.moved(kitty_id, to)
                &&& final(self)@.kitties[kitty_id].owner == to
                &&& final(self)@.kitties[kitty_id].price is None
            },
            r is Err ==> final(self)@ == old(self)@,
    {
        let ghost m = self@;
        let (prev, gender, dna_copy) = match self.kitties.get(&kitty_id) {
            Some(k) => (k.owner, k.gender, copy_bytes(&k.dna)),
            None => {
                return Err(Error::KittyNotExist);
            },
        };
        if to != prev {
            let receiving = self.kitties_owned(to);
            if receiving.len() as u64 >= self.max_kitty_owned {
                return Err(Error::ExceedMaxKittyOwned);
            }
        }
        let mut prev_owned = self.kitties_owned(prev);
        let idx = match find_id(&prev_owned, kitty_id) {
            Some(i) => i,
            None => {
                // The invariants place a stored kitty's identity in its
                // owner's index, so this branch cannot be reached.
                proof {
                    assert(m.owned_of(prev).contains(kitty_id));
                    assert(false);
                }
                return Err(Error::KittyNotExist);
            },
        };
        let _ = prev_owned.remove(idx);
        proof {
            // The removed position is the first occurrence, so the vector
            // now matches the model's remove_value.
            let s = m.owned_of(prev);
            assert(s.contains(kitty_id));
            s.index_of_first_ensures(kitty_id);
            let fi = s.index_of_first(kitty_id)->Some_0;
            if fi != idx as int {
                assert(s[fi] != s[idx as int]);
            }
            assert(prev_owned@ == s.remove_value(kitty_id));
        }
        if to == prev {
            prev_owned.push(kitty_id);
            self.kitties_owned.insert(prev, prev_owned);
        } else {
            self.kitties_owned.insert(prev, prev_owned);
            let mut receiving = self.kitties_owned(to);
            receiving.push(kitty_id);
            self.kitties_owned.insert(to, receiving);
        }
        let moved_kitty = Kitty { dna: dna_copy, price: None, gender, owner: to };
        self.kitties.insert(kitty_id, moved_kitty);
        self.events.push(Event::Transfer(prev, to, kitty_id));
        proof {
            let n = m.moved(kitty_id, to);
            assert(self@.kitties =~= n.kitties);
            assert(self@.kitties_owned =~= n.kitties_owned);
            assert(self@ =~= n);
            lemma_moved_wf(m, kitty_id, to);
        }
        Ok(())
    }

    /// Mints a kitty with freshly generated genome and gender for the
    /// caller.
    pub fn create_kitty(
        &mut self,
        sender: AccountId,
        dna_entropy: &Vec<u8>,
        gender_entropy: u8,
        sequence: u64,
    ) -> (r: Result<KittyId, Error>)
        requires
            old(self).wf(),
        ensures
            final(self).wf(),
            ({
                let k = KittyModel {
                    dna: genome_of(dna_entropy@, sequence),
                    price: None,
                    gender: gender_of_byte(gender_entropy),
                    owner: sender,
                };
                &&& r == old(self)@.mint_result(sender, k)
                &&& (r matches Ok(id) ==> id == kitty_id_of(k) && !old(self)@.has_kitty(id)
                    && final(self)@ == old(self)@.minted(sender, k, true))
                &&& (r is Err ==> final(self)@ == old(self)@)
            }),
    {
        self.mint(sender, None, None, dna_entropy, gender_entropy, sequence)
    }

    /// Sets the asking price of a kitty the caller owns; the price stands
    /// until the next change of ownership.
    pub fn set_price(&mut self, sender: AccountId, kitty_id: KittyId, new_price: Balance) -> (r:
        Result<(), Error>)
        requires
            old(self).wf(),
        ensures
            final(self).wf(),
            r == old(self)@.set_price_result(sender, kitty_id),
            r is Ok ==> {
                &&& final(self)@ == old(self)@.price_set(sender, kitty_id, new_price)
                &&& final(self)@.kitties[kitty_id].price == Some(new_price)
            },
            r is Err ==> final(self)@ == old(self)@,
    {
        let ghost m = self@;
        let (owner, gender, dna_copy) = match self.kitties.get(&kitty_id) {
            Some(k) => (k.owner, k.gender, copy_bytes(&k.dna)),
            None => {
                return Err(Error::KittyNotExist);
            },
        };
        if owner != sender {
            return Err(Error::NotKittyOwner);
        }
        let updated = Kitty { dna: dna_copy, price: Some(new_price), gender, owner };
        self.kitties.insert(kitty_id, updated);
        self.events.push(Event::PriceSet(sender, kitty_id, Some(new_price)));
        proof {
            let n = m.price_set(sender, kitty_id, new_price);
            assert(self@.kitties =~= n.kitties);
            assert(self@ =~= n);
            lemma_price_set_wf(m, sender, kitty_id, new_price);
        }
        Ok(())
    }

    /// Transfers a kitty the caller owns to another account.
    pub fn transfer(&mut self, from: AccountId, to: AccountId, kitty_id: KittyId) -> (r: Result<
        (),
        Error,
    >)
        requires
            old(self).wf(),
        ensures
            final(self).wf(),
            r == old(self)@.transfer_result(from, to, kitty_id),
            r is Ok ==> {
                &&& final(self)@ == old(self)@.moved(kitty_id, to)
                &&& final(self)@.kitties[kitty_id].owner == to
                &&& final(self)@.kitties[kitty_id].price is None
            },
            r is Err ==> final(self)@ == old(self)@,
    {
        match self.is_kitty_owner(kitty_id, from) {
            Err(e) => {
                return Err(e);
            },
            Ok(false) => {
                return Err(Error::NotKittyOwner);
            },
            Ok(true) => {},
        }
        if to == from {
            return Err(Error::TransferToSelf);
        }
        let receiving = self.kitties_owned(to);
        if receiving.len() as u64 >= self.max_kitty_owned {
            return Err(Error::ExceedMaxKittyOwned);
        }
        match self.transfer_kitty_to(kitty_id, to) {
            Ok(()) => Ok(()),
            Err(e) => {
                proof {
                    assert(false);
                }
                Err(e)
            },
        }
    }

    /// Buys a kitty at or above its asking price. The payment commits
    /// before the ownership move is attempted, and the pre-checks
    /// guarantee that the move then cannot fail, so a paid purchase is
    /// never left without its kitty.
    pub fn buy_kitty(
        &mut self,
        ledger: &mut Ledger,
        buyer: AccountId,
        kitty_id: KittyId,
        bid_price: Balance,
    ) -> (r: Result<(), Error>)
        requires
            old(self).wf(),
        ensures
            final(self).wf(),
            r == old(self)@.buy_result(old(ledger)@, buyer, kitty_id, bid_price),
            r is Ok ==> {
                &&& final(self)@ == old(self)@.bought(buyer, kitty_id, bid_price)
                &&& final(ledger)@ == old(ledger)@.transferred(
                    buyer,
                    old(self)@.kitties[kitty_id].owner,
                    bid_price,
                )
                &&& final(self)@.kitties[kitty_id].owner == buyer
                &&& final(self)@.kitties[kitty_id].price is None
            },
            r is Err ==> final(self)@ == old(self)@ && final(ledger)@ == old(ledger)@,
    {
        let ghost m = self@;
        let (price_opt, seller) = match self.kitties.get(&kitty_id) {
            Some(k) => (k.price, k.owner),
            None => {
                return Err(Error::KittyNotExist);
            },
        };
        proof {
            assert(m.has_kitty(kitty_id));
            assert(seller == m.kitties[kitty_id].owner);
            assert(price_opt == m.kitties[kitty_id].price);
        }
        let ask_price = match price_opt {
            Some(p) => p,
            None => {
                return Err(Error::KittyNotForSale);
            },
        };
        if bid_price < ask_price {
            return Err(Error::KittyBidPriceTooLow);
        }
        if ledger.free_balance(buyer) < bid_price {
            return Err(Error::NotEnoughBalance);
        }
        let receiving = self.kitties_owned(buyer);
        if receiving.len() as u64 >= self.max_kitty_owned {
            return Err(Error::ExceedMaxKittyOwned);
        }
        if buyer == seller {
            return Err(Error::BuyerIsKittyOwner);
        }
        match ledger.transfer(buyer, seller, bid_price) {
            Ok(()) => {},
            Err(_) => {
                return Err(Error::NotEnoughBalance);
            },
        }
        match self.transfer_kitty_to(kitty_id, buyer) {
            Ok(()) => {},
            Err(e) => {
                proof {
                    assert(false);
                }
                return Err(e);
            },
        }
        self.events.push(Event::Bought(buyer, seller, kitty_id, bid_price));
        proof {
            let t = m.moved(kitty_id, buyer);
            assert(self@ =~= m.bought(buyer, kitty_id, bid_price));
            lemma_wf_same_core(t, self@);
        }
        Ok(())
    }

    /// Crosses the genomes of two stored parents under a fresh random
    /// mask.
    pub fn breed_dna(
        &self,
        parent1: KittyId,
        parent2: KittyId,
        dna_entropy: &Vec<u8>,
        sequence: u64,
    ) -> (r: Result<Vec<u8>, Error>)
        requires
            self.wf(),
        ensures
            r is Ok <==> self@.has_kitty(parent1) && self@.has_kitty(parent2),
            r matches Ok(d) ==> {
                &&& d@ == crossover_spec(
                    genome_of(dna_entropy@, sequence),
                    self@.kitties[parent1].dna,
                    self@.kitties[parent2].dna,
                )
                &&& d@.len() == DNA_LEN
            },
            r matches Err(e) ==> e == Error::KittyNotExist,
    {
        let dna1 = match self.kitties.get(&parent1) {
            Some(k) => copy_bytes(&k.dna),
            None => {
                return Err(Error::KittyNotExist);
            },
        };
        let dna2 = match self.kitties.get(&parent2) {
            Some(k) => copy_bytes(&k.dna),
            None => {
                return Err(Error::KittyNotExist);
            },
        };
        proof {
            assert(self@.kitties.contains_key(parent1));
            assert(self@.kitties.contains_key(parent2));
            assert(dna1@ == self@.kitties[parent1].dna);
            assert(dna2@ == self@.kitties[parent2].dna);
        }
        let mask = crate::identity::generate_genome(dna_entropy, sequence);
        Ok(crossover(&mask, &dna1, &dna2))
    }

    /// Breeds a new kitty from two parents the caller owns; the child is
    /// minted for the caller with an independently random gender.
    pub fn breed_kitty(
        &mut self,
        sender: AccountId,
        parent1: KittyId,
        parent2: KittyId,
        dna_entropy: &Vec<u8>,
        gender_entropy: u8,
        sequence: u64,
    ) -> (r: Result<KittyId, Error>)
        requires
            old(self).wf(),
        ensures
            final(self).wf(),
            r == old(self)@.breed_result(
                sender,
                parent1,
                parent2,
                dna_entropy@,
                gender_entropy,
                sequence,
            ),
            r matches Ok(id) ==> {
                let k = old(self)@.bred_kitty(
                    sender,
                    parent1,
                    parent2,
                    dna_entropy@,
                    gender_entropy,
                    sequence,
                );
                &&& id == kitty_id_of(k)
                &&& !old(self)@.has_kitty(id)
                &&& final(self)@ == old(self)@.minted(sender, k, true)
            },
            r is Err ==> final(self)@ == old(self)@,
    {
        match self.is_kitty_owner(parent1, sender) {
            Err(e) => {
                return Err(e);
            },
            Ok(false) => {
                return Err(Error::NotKittyOwner);
            },
            Ok(true) => {},
        }
        match self.is_kitty_owner(parent2, sender) {
            Err(e) => {
                return Err(e);
            },
            Ok(false) => {
                return Err(Error::NotKittyOwner);
            },
            Ok(true) => {},
        }
        let new_dna = match self.breed_dna(parent1, parent2, dna_entropy, sequence) {
            Ok(d) => d,
            Err(e) => {
                proof {
                    assert(false);
                }
                return Err(e);
            },
        };
        let gender = crate::identity::generate_gender(gender_entropy);
        let child = Kitty { dna: new_dna, price: None, gender, owner: sender };
        self.mint_inner(sender, child, true)
    }

    /// The mint variant the genesis loader uses: genome and gender are
    /// explicit, randomness is bypassed, and no notification is emitted.
    pub fn genesis_mint(&mut self, owner: AccountId, dna: Vec<u8>, gender: Gender) -> (r: Result<
        KittyId,
        Error,
    >)
        requires
            old(self).wf(),
            dna@.len() == DNA_LEN,
        ensures
            final(self).wf(),
            ({
                let k = KittyModel { dna: dna@, price: None, gender, owner };
                &&& r == old(self)@.mint_result(owner, k)
                &&& (r matches Ok(id) ==> id == kitty_id_of(k) && final(self)@ == old(
                    self,
                )@.minted(owner, k, false))
                &&& (r is Err ==> final(self)@ == old(self)@)
            }),
    {
        let kitty = Kitty { dna, price: None, gender, owner };
        self.mint_inner(owner, kitty, false)
    }
}

/// Every owner index is bounded by the capacity in any well-formed
/// registry; since every operation yields a well-formed registry, the
/// bound holds at all times.
pub proof fn lemma_owner_index_bounded(m: PalletModel, a: AccountId)
    requires
        m.wf(),
    ensures
        m.owned_of(a).len() <= m.max_kitty_owned,
{
}

/// Index/store consistency: a stored kitty's identity appears in its
/// owner's index — which never repeats an identity, so exactly once —
/// and in no other account's index.
pub proof fn lemma_store_index_consistency(m: PalletModel, kitty_id: KittyId)
    requires
        m.wf(),
        m.has_kitty(kitty_id),
    ensures
        m.owned_of(m.kitties[kitty_id].owner).contains(kitty_id),
        m.owned_of(m.kitties[kitty_id].owner).no_duplicates(),
        forall|a: AccountId|
            a != m.kitties[kitty_id].owner ==> !(#[trigger] m.owned_of(a)).contains(kitty_id),
{
    assert forall|a: AccountId|
        a != m.kitties[kitty_id].owner implies !(#[trigger] m.owned_of(a)).contains(kitty_id) by {
        if m.owned_of(a).contains(kitty_id) {
            let i = choose|i: int| 0 <= i < m.owned_of(a).len() && m.owned_of(a)[i] == kitty_id;
            assert(m.kitties[m.owned_of(a)[i]].owner == a);
        }
    }
}

/// The kitty counter never decreases: minting raises it by exactly one,
/// and every other transition leaves it unchanged.
pub proof fn lemma_counter_monotonic(
    m: PalletModel,
    owner: AccountId,
    k: KittyModel,
    with_event: bool,
    kitty_id: KittyId,
    price: Balance,
)
    requires
        m.kitty_cnt < u64::MAX,
    ensures
        m.minted(owner, k, with_event).kitty_cnt == m.kitty_cnt + 1,
        m.moved(kitty_id, owner).kitty_cnt == m.kitty_cnt,
        m.price_set(owner, kitty_id, price).kitty_cnt == m.kitty_cnt,
        m.bought(owner, kitty_id, price).kitty_cnt == m.kitty_cnt,
{
}

/// A price set by `set_price` is cleared by the next change of
/// ownership: immediately after a transfer or a purchase of the same
/// kitty, its price is `None`.
pub proof fn lemma_price_cleared_by_move(
    m: PalletModel,
    sender: AccountId,
    kitty_id: KittyId,
    price: Balance,
    to: AccountId,
    bid_price: Balance,
)
    requires
        m.has_kitty(kitty_id),
    ensures
        m.price_set(sender, kitty_id, price).moved(kitty_id, to).kitties[kitty_id].price is None,
        m.price_set(sender, kitty_id, price).bought(to, kitty_id, bid_price).kitties[kitty_id].price
            is None,
{
}

/// The registry invariants do not depend on the event log: a model that
/// agrees with a well-formed one everywhere but there is well-formed.
proof fn lemma_wf_same_core(m: PalletModel, n: PalletModel)
    requires
        m.wf(),
        n.kitty_cnt == m.kitty_cnt,
        n.kitties == m.kitties,
        n.kitties_owned == m.kitties_owned,
        n.max_kitty_owned == m.max_kitty_owned,
    ensures
        n.wf(),
{
    assert forall|a: AccountId| #[trigger] n.owned_of(a) == m.owned_of(a) by {}
    assert forall|a: AccountId, i: int| 0 <= i < n.owned_of(a).len() implies {
        &&& n.kitties.contains_key(#[trigger] n.owned_of(a)[i])
        &&& n.kitties[n.owned_of(a)[i]].owner == a
    } by {
        assert(m.kitties.contains_key(m.owned_of(a)[i]));
    }
    assert forall|id: KittyId| #[trigger] n.kitties.contains_key(id) implies {
        &&& n.kitties[id].wf()
        &&& n.owned_of(n.kitties[id].owner).contains(id)
    } by {
        assert(m.kitties.contains_key(id));
        assert(m.owned_of(m.kitties[id].owner).contains(id));
    }
}

/// A successful `set_price` preserves the registry invariants.
proof fn lemma_price_set_wf(
    m: PalletModel,
    sender: AccountId,
    kitty_id: KittyId,
    new_price: Balance,
)
    requires
        m.wf(),
        m.has_kitty(kitty_id),
    ensures
        m.price_set(sender, kitty_id, new_price).wf(),
{
    let n = m.price_set(sender, kitty_id, new_price);
    assert(n.kitties.dom() =~= m.kitties.dom());
    assert forall|a: AccountId| #[trigger] n.owned_of(a) == m.owned_of(a) by {}
    assert forall|a: AccountId, i: int| 0 <= i < n.owned_of(a).len() implies {
        &&& n.kitties.contains_key(#[trigger] n.owned_of(a)[i])
        &&& n.kitties[n.owned_of(a)[i]].owner == a
    } by {
        assert(m.kitties.contains_key(m.owned_of(a)[i]));
    }
    assert forall|id2: KittyId| #[trigger] n.kitties.contains_key(id2) implies {
        &&& n.kitties[id2].wf()
        &&& n.owned_of(n.kitties[id2].owner).contains(id2)
    } by {
        assert(m.kitties.contains_key(id2));
        assert(m.owned_of(m.kitties[id2].owner).contains(id2));
    }
}

/// Removing a value from a duplicate-free sequence removes exactly its
/// one occurrence and keeps everything else.
proof fn lemma_remove_value_props(s: Seq<KittyId>, x: KittyId)
    requires
        s.no_duplicates(),
        s.contains(x),
    ensures
        s.remove_value(x).len() == s.len() - 1,
        !s.remove_value(x).contains(x),
        forall|y: KittyId| #[trigger] s.remove_value(x).contains(y) ==> s.contains(y),
        forall|y: KittyId| y != x && s.contains(y) ==> s.remove_value(x).contains(y),
        s.remove_value(x).no_duplicates(),
{
    s.index_of_first_ensures(x);
    let fi = s.index_of_first(x)->Some_0;
    s.remove_ensures(fi);
    let r = s.remove(fi);
    assert(r == s.remove_value(x));
    assert forall|y: KittyId| #[trigger] r.contains(y) implies s.contains(y) by {
        let j = choose|j: int| 0 <= j < r.len() && r[j] == y;
        if j < fi {
            assert(s[j] == y);
        } else {
            assert(s[j + 1] == y);
        }
    }
    assert(!r.contains(x)) by {
        if r.contains(x) {
            let j = choose|j: int| 0 <= j < r.len() && r[j] == x;
            if j < fi {
                assert(s[j] == x && s[fi] == x);
            } else {
                assert(s[j + 1] == x && s[fi] == x);
            }
        }
    }
    assert forall|y: KittyId| y != x && s.contains(y) implies r.contains(y) by {
        let j = choose|j: int| 0 <= j < s.len() && s[j] == y;
        if j < fi {
            assert(r[j] == y);
        } else {
            assert(j != fi);
            assert(r[j - 1] == y);
        }
    }
    assert forall|i: int, j: int|
        0 <= i < r.len() && 0 <= j < r.len() && i != j implies r[i] != r[j] by {
        let i0 = if i < fi {
            i
        } else {
            i + 1
        };
        let j0 = if j < fi {
            j
        } else {
            j + 1
        };
        assert(r[i] == s[i0] && r[j] == s[j0]);
        assert(s[i0] != s[j0]);
    }
}

/// A successful ownership move preserves the registry invariants.
proof fn lemma_moved_wf(m: PalletModel, kitty_id: KittyId, to: AccountId)
    requires
        m.wf(),
        m.has_kitty(kitty_id),
        to != m.kitties[kitty_id].owner ==> m.owned_of(to).len() < m.max_kitty_owned,
    ensures
        m.moved(kitty_id, to).wf(),
{
    broadcast use group_seq_properties;

    let n = m.moved(kitty_id, to);
    let k = m.kitties[kitty_id];
    let from = k.owner;
    let s_from = m.owned_of(from);
    let removed = s_from.remove_value(kitty_id);
    assert(s_from.contains(kitty_id));
    lemma_remove_value_props(s_from, kitty_id);
    assert(n.kitties.dom() =~= m.kitties.dom());
    // Only an owner's index contains a kitty's identity.
    assert forall|a: AccountId| a != from implies !(#[trigger] m.owned_of(a)).contains(kitty_id) by {
        if m.owned_of(a).contains(kitty_id) {
            let i = choose|i: int| 0 <= i < m.owned_of(a).len() && m.owned_of(a)[i] == kitty_id;
            assert(m.kitties[m.owned_of(a)[i]].owner == a);
        }
    }
    assert forall|a: AccountId| #[trigger] n.owned_of(a) == (if a == to {
        (if to == from {
            removed
        } else {
            m.owned_of(to)
        }).push(kitty_id)
    } else if a == from {
        removed
    } else {
        m.owned_of(a)
    }) by {}
    assert forall|a: AccountId| (#[trigger] n.owned_of(a)).no_duplicates()
        && n.owned_of(a).len() <= n.max_kitty_owned by {
        if a == to {
            if to == from {
                assert(!removed.contains(kitty_id));
                assert(removed.push(kitty_id).no_duplicates());
            } else {
                assert(!m.owned_of(to).contains(kitty_id));
                assert(m.owned_of(to).push(kitty_id).no_duplicates());
            }
        }
    }
    assert forall|a: AccountId, i: int| 0 <= i < n.owned_of(a).len() implies {
        &&& n.kitties.contains_key(#[trigger] n.owned_of(a)[i])
        &&& n.kitties[n.owned_of(a)[i]].owner == a
    } by {
        let e = n.owned_of(a)[i];
        if a == to && i == n.owned_of(a).len() - 1 {
            assert(e == kitty_id);
        } else {
            // an old entry of some index, hence not the moved identity
            if a == to && to != from {
                assert(e == m.owned_of(a)[i]);
                assert(m.kitties[e].owner == a);
                assert(e != kitty_id);
            } else {
                assert(removed.contains(e) || (a != from && a != to));
                if a == from || a == to {
                    assert(removed.contains(e));
                    assert(s_from.contains(e));
                    let j = choose|j: int| 0 <= j < s_from.len() && s_from[j] == e;
                    assert(m.kitties[s_from[j]].owner == from);
                    assert(e != kitty_id);
                    if a != from {
                        // removed entries belong to `from`; with a == to == from
                        // handled above, a == from here
                        assert(false);
                    }
                } else {
                    assert(e == m.owned_of(a)[i]);
                    assert(m.kitties[e].owner == a);
                    assert(e != kitty_id);
                }
            }
            assert(n.kitties[e] == m.kitties[e]);
        }
    }
    assert forall|id2: KittyId| #[trigger] n.kitties.contains_key(id2) implies {
        &&& n.kitties[id2].wf()
        &&& n.owned_of(n.kitties[id2].owner).contains(id2)
    } by {
        if id2 == kitty_id {
            let s_to = n.owned_of(to);
            assert(s_to[s_to.len() - 1] == kitty_id);
        } else {
            assert(m.kitties.contains_key(id2));
            let o = m.kitties[id2].owner;
            assert(m.owned_of(o).contains(id2));
            assert(n.kitties[id2] == m.kitties[id2]);
            if o == from {
                assert(removed.contains(id2));
                if to == from {
                    let j = choose|j: int| 0 <= j < removed.len() && removed[j] == id2;
                    assert(removed.push(kitty_id)[j] == id2);
                }
            } else if o == to {
                let j = choose|j: int| 0 <= j < m.owned_of(to).len() && m.owned_of(to)[j] == id2;
                assert(m.owned_of(to).push(kitty_id)[j] == id2);
            }
        }
    }
}

/// A successful mint preserves the registry invariants.
proof fn lemma_minted_wf(m: PalletModel, owner: AccountId, k: KittyModel, with_event: bool)
    requires
        m.wf(),
        k.wf(),
        k.owner == owner,
        m.kitty_cnt < u64::MAX,
        m.owned_of(owner).len() < m.max_kitty_owned,
        !m.has_kitty(kitty_id_of(k)),
    ensures
        m.minted(owner, k, with_event).wf(),
{
    broadcast use group_seq_properties;

    let id = kitty_id_of(k);
    let n = m.minted(owner, k, with_event);
    assert(n.kitties.dom() =~= m.kitties.dom().insert(id));
    vstd::set::axiom_set_insert_len(m.kitties.dom(), id);
    assert(n.kitty_cnt == n.kitties.dom().len());
    // The owner's index gains exactly the new identity; other indexes are
    // untouched.
    assert forall|a: AccountId| #[trigger] n.owned_of(a) == if a == owner {
        m.owned_of(owner).push(id)
    } else {
        m.owned_of(a)
    } by {}
    // The fresh identity sits in no index yet.
    assert(!m.owned_of(owner).contains(id)) by {
        if m.owned_of(owner).contains(id) {
            let i = choose|i: int| 0 <= i < m.owned_of(owner).len() && m.owned_of(owner)[i] == id;
            assert(m.kitties.contains_key(m.owned_of(owner)[i]));
        }
    }
    assert forall|a: AccountId| (#[trigger] n.owned_of(a)).no_duplicates() by {
        if a == owner {
            assert(m.owned_of(owner).push(id).no_duplicates());
        }
    }
    assert forall|a: AccountId, i: int| 0 <= i < n.owned_of(a).len() implies {
        &&& n.kitties.contains_key(#[trigger] n.owned_of(a)[i])
        &&& n.kitties[n.owned_of(a)[i]].owner == a
    } by {
        if a == owner && i == n.owned_of(a).len() - 1 {
            assert(n.owned_of(a)[i] == id);
        } else {
            assert(n.owned_of(a)[i] == m.owned_of(a)[i]);
            assert(m.kitties.contains_key(m.owned_of(a)[i]));
        }
    }
    assert forall|id2: KittyId| #[trigger] n.kitties.contains_key(id2) implies {
        &&& n.kitties[id2].wf()
        &&& n.owned_of(n.kitties[id2].owner).contains(id2)
    } by {
        if id2 == id {
            assert(n.owned_of(owner)[n.owned_of(owner).len() - 1] == id);
        } else {
            assert(m.kitties.contains_key(id2));
            let o = m.kitties[id2].owner;
            assert(m.owned_of(o).contains(id2));
            let i = choose|i: int| 0 <= i < m.owned_of(o).len() && m.owned_of(o)[i] == id2;
            if o == owner {
                assert(n.owned_of(o)[i] == id2);
            } else {
                assert(n.owned_of(o)[i] == id2);
            }
        }
    }
}

} // verus!

