//! The one outside call the engine's logic makes: the 128-bit Blake2b
//! digest used both to derive content-addressed identities and to mix
//! host-supplied randomness into fresh genomes.

use vstd::prelude::*;

verus! {

/// The 128-bit Blake2b digest of a byte string, as `sp_io` computes it.
/// The digest is a function of the input bytes alone; stating its value
/// would take pages, so it is only named here, and every contract that
/// speaks of a digest speaks of this name.
pub uninterp spec fn blake2_128_of(data: Seq<u8>) -> Seq<u8>;

/// Relies on `sp_io::hashing::blake2_128`: the 128-bit Blake2b digest of
/// the input, a pure function of the input bytes, 16 bytes long.
#[verifier::external_body]
pub(crate) fn blake2_128(data: &Vec<u8>) -> (r: Vec<u8>)
    ensures
        r@ == blake2_128_of(data@),
        r@.len() == 16,
{
    sp_io::hashing::blake2_128(data.as_slice()).to_vec()
}

} // verus!
