//! The genesis loader: bulk-applies (owner, genome, gender) triples at
//! initialization, bypassing randomness and emitting no notifications.
//! Unlike the normal operations, the loader is tolerant: an entry that
//! cannot be minted (bad genome length, exhausted capacity or counter,
//! identity collision) is skipped, and the rest of the batch goes on.

use vstd::prelude::*;
use crate::pallet::{Pallet, PalletModel};
use crate::types::{AccountId, Gender, KittyModel, DNA_LEN};

verus! {

/// The initial kitties to load, in order.
pub struct GenesisConfig {
    pub kitties: Vec<(AccountId, Vec<u8>, Gender)>,
}

impl Default for GenesisConfig {
    fn default() -> (g: GenesisConfig)
        ensures
            g.kitties@ == Seq::<(AccountId, Vec<u8>, Gender)>::empty(),
    {
        GenesisConfig { kitties: Vec::new() }
    }
}

/// The model of one genesis entry.
pub open spec fn entry_model(e: (AccountId, Vec<u8>, Gender)) -> (AccountId, Seq<u8>, Gender) {
    (e.0, e.1@, e.2)
}

/// One step of genesis loading: the entry is minted silently if it can
/// be, and skipped otherwise.
pub open spec fn genesis_step(m: PalletModel, e: (AccountId, Seq<u8>, Gender)) -> PalletModel {
    let k = KittyModel { dna: e.1, price: None, gender: e.2, owner: e.0 };
    if e.1.len() == DNA_LEN && m.mint_result(e.0, k) is Ok {
        m.minted(e.0, k, false)
    } else {
        m
    }
}

/// The registry after loading the entries in order.
pub open spec fn genesis_fold(
    m: PalletModel,
    entries: Seq<(AccountId, Seq<u8>, Gender)>,
) -> PalletModel
    decreases entries.len(),
{
    if entries.len() == 0 {
        m
    } else {
        genesis_step(genesis_fold(m, entries.drop_last()), entries.last())
    }
}

impl GenesisConfig {
    /// Loads every entry into the registry, skipping the ones that
    /// cannot be minted.
    pub fn build(&self, pallet: &mut Pallet)
        requires
            old(pallet).wf(),
        ensures
            final(pallet).wf(),
            final(pallet)@ == genesis_fold(
                old(pallet)@,
                self.kitties@.map_values(|e: (AccountId, Vec<u8>, Gender)| entry_model(e)),
            ),
    {
        let ghost entries = self.kitties@.map_values(
            |e: (AccountId, Vec<u8>, Gender)| entry_model(e),
        );
        let mut i: usize = 0;
        while i < self.kitties.len()
            invariant
                i <= self.kitties.len(),
                pallet.wf(),
                entries == self.kitties@.map_values(
                    |e: (AccountId, Vec<u8>, Gender)| entry_model(e),
                ),
                pallet@ == genesis_fold(old(pallet)@, entries.take(i as int)),
            decreases self.kitties.len() - i,
        {
            let entry = &self.kitties[i];
            let ghost before = pallet@;
            if entry.1.len() == DNA_LEN {
                let dna = crate::identity::copy_bytes(&entry.1);
                let _ = pallet.genesis_mint(entry.0, dna, entry.2);
            }
            proof {
                assert(entries.take(i as int + 1).drop_last() =~= entries.take(i as int));
                assert(entries.take(i as int + 1).last() == entries[i as int]);
                assert(pallet@ == genesis_step(before, entries[i as int]));
            }
            i = i + 1;
        }
        proof {
            assert(entries.take(entries.len() as int) =~= entries);
        }
    }
}

} // verus!
