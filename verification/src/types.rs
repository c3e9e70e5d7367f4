//! The data model: kitties, their genders, identities, errors and events.

use vstd::prelude::*;

verus! {

/// Opaque account identifier; callers are pre-authenticated by the host.
pub type AccountId = u64;

/// Amount in the unit of the external currency ledger.
pub type Balance = u64;

/// Content-derived identity of a kitty: a 128-bit digest of the full
/// kitty record at the moment of minting.
pub type KittyId = u128;

/// Length in bytes of a kitty's genome.
pub const DNA_LEN: usize = 16;

#[derive(Clone, Copy, PartialEq, Eq, Structural, Debug)]
pub enum Gender {
    Male,
    Female,
}

impl Default for Gender {
    fn default() -> (g: Gender)
        ensures
            g == Gender::Male,
    {
        Gender::Male
    }
}

/// A registered asset. The genome and gender are fixed at creation;
/// the price and owner change through the marketplace operations.
pub struct Kitty {
    pub dna: Vec<u8>,
    pub price: Option<Balance>,
    pub gender: Gender,
    pub owner: AccountId,
}

/// Mathematical model of a kitty record.
#[verifier::ext_equal]
pub ghost struct KittyModel {
    pub dna: Seq<u8>,
    pub price: Option<Balance>,
    pub gender: Gender,
    pub owner: AccountId,
}

impl View for Kitty {
    type V = KittyModel;

    open spec fn view(&self) -> KittyModel {
        KittyModel { dna: self.dna@, price: self.price, gender: self.gender, owner: self.owner }
    }
}

impl KittyModel {
    /// A kitty record is well-formed when its genome has the fixed length.
    pub open spec fn wf(self) -> bool {
        self.dna.len() == DNA_LEN
    }
}

#[derive(Clone, Copy, PartialEq, Eq, Structural, Debug)]
pub enum Error {
    /// Arithmetic overflow when incrementing the kitty counter.
    KittyCntOverflow,
    /// An account cannot own more kitties than the per-owner capacity.
    ExceedMaxKittyOwned,
    /// Buyer cannot already be the owner.
    BuyerIsKittyOwner,
    /// Cannot transfer a kitty to its current owner.
    TransferToSelf,
    /// The kitty does not exist in the store.
    KittyNotExist,
    /// The caller is not the kitty's owner.
    NotKittyOwner,
    /// The kitty is not for sale.
    KittyNotForSale,
    /// The bid is below the asking price.
    KittyBidPriceTooLow,
    /// The account lacks the funds to complete the purchase.
    NotEnoughBalance,
    /// A freshly built kitty's content-derived identity already names a
    /// stored kitty. Content-addressed identities make this collision an
    /// accepted, astronomically unlikely edge case; minting aborts rather
    /// than overwrite, so it is reported apart from the validation errors.
    IdentityCollision,
}

/// Notifications emitted on successful operations, in order of emission.
#[derive(Clone, Copy, PartialEq, Eq, Debug)]
pub enum Event {
    /// A new kitty was created: (owner, kitty id).
    Created(AccountId, KittyId),
    /// A price was set: (owner, kitty id, new price).
    PriceSet(AccountId, KittyId, Option<Balance>),
    /// A kitty changed owner: (from, to, kitty id).
    Transfer(AccountId, AccountId, KittyId),
    /// A kitty was bought: (buyer, seller, kitty id, bid price).
    Bought(AccountId, AccountId, KittyId, Balance),
}

} // verus!
