//! Content-addressed identity and the randomness adapter: the byte
//! framing of a kitty record, the digest that derives its identity, and
//! the two pure functions that turn host-supplied randomness into a
//! gender and a fresh genome.

use vstd::prelude::*;
use crate::hashing::{blake2_128, blake2_128_of};
use crate::types::{Balance, Gender, Kitty, KittyId, KittyModel};

verus! {

/// Little-endian byte framing of a 64-bit word.
pub open spec fn encode_u64_le(x: u64) -> Seq<u8> {
    seq![
        (x & 0xff) as u8,
        ((x >> 8) & 0xff) as u8,
        ((x >> 16) & 0xff) as u8,
        ((x >> 24) & 0xff) as u8,
        ((x >> 32) & 0xff) as u8,
        ((x >> 40) & 0xff) as u8,
        ((x >> 48) & 0xff) as u8,
        ((x >> 56) & 0xff) as u8,
    ]
}

/// Byte framing of an optional price: a presence tag, then the amount.
pub open spec fn encode_price(p: Option<Balance>) -> Seq<u8> {
    match p {
        Option::None => seq![0u8],
        Option::Some(v) => seq![1u8] + encode_u64_le(v),
    }
}

/// Byte framing of a gender.
pub open spec fn encode_gender(g: Gender) -> Seq<u8> {
    match g {
        Gender::Male => seq![0u8],
        Gender::Female => seq![1u8],
    }
}

/// Byte framing of a full kitty record, in field order; its digest is
/// the kitty's identity.
pub open spec fn encode_kitty(k: KittyModel) -> Seq<u8> {
    k.dna + encode_price(k.price) + encode_gender(k.gender) + encode_u64_le(k.owner)
}

/// The 128-bit word read little-endian from 16 bytes.
pub open spec fn u128_from_le(b: Seq<u8>) -> u128
    recommends
        b.len() == 16,
{
    (b[0] as u128) | ((b[1] as u128) << 8) | ((b[2] as u128) << 16) | ((b[3] as u128) << 24)
        | ((b[4] as u128) << 32) | ((b[5] as u128) << 40) | ((b[6] as u128) << 48)
        | ((b[7] as u128) << 56) | ((b[8] as u128) << 64) | ((b[9] as u128) << 72)
        | ((b[10] as u128) << 80) | ((b[11] as u128) << 88) | ((b[12] as u128) << 96)
        | ((b[13] as u128) << 104) | ((b[14] as u128) << 112) | ((b[15] as u128) << 120)
}

/// A kitty's identity: the digest of its framed record.
pub open spec fn kitty_id_of(k: KittyModel) -> KittyId {
    u128_from_le(blake2_128_of(encode_kitty(k)))
}

/// The gender drawn from one random byte: Male if even, Female if odd.
pub open spec fn gender_of_byte(b: u8) -> Gender {
    if b % 2 == 0 {
        Gender::Male
    } else {
        Gender::Female
    }
}

/// The genome derived from one draw of host randomness and the current
/// sequence number: the digest of their concatenation.
pub open spec fn genome_of(entropy: Seq<u8>, sequence: u64) -> Seq<u8> {
    blake2_128_of(entropy + encode_u64_le(sequence))
}

pub(crate) fn copy_bytes(v: &Vec<u8>) -> (r: Vec<u8>)
    ensures
        r@ == v@,
{
    let mut r: Vec<u8> = Vec::new();
    let mut i: usize = 0;
    while i < v.len()
        invariant
            i <= v.len(),
            r@ == v@.take(i as int),
        decreases v.len() - i,
    {
        r.push(v[i]);
        proof {
            assert(r@ =~= v@.take(i as int + 1));
        }
        i = i + 1;
    }
    proof {
        assert(r@ =~= v@);
    }
    r
}

fn push_u64_le(out: &mut Vec<u8>, x: u64)
    ensures
        final(out)@ == old(out)@ + encode_u64_le(x),
{
    out.push((x & 0xff) as u8);
    out.push(((x >> 8) & 0xff) as u8);
    out.push(((x >> 16) & 0xff) as u8);
    out.push(((x >> 24) & 0xff) as u8);
    out.push(((x >> 32) & 0xff) as u8);
    out.push(((x >> 40) & 0xff) as u8);
    out.push(((x >> 48) & 0xff) as u8);
    out.push(((x >> 56) & 0xff) as u8);
    proof {
        assert(out@ =~= old(out)@ + encode_u64_le(x));
    }
}

/// Builds the byte framing of a kitty record.
pub fn encode_kitty_bytes(k: &Kitty) -> (r: Vec<u8>)
    ensures
        r@ == encode_kitty(k@),
{
    let mut out = copy_bytes(&k.dna);
    match k.price {
        Option::None => {
            out.push(0u8);
        },
        Option::Some(v) => {
            out.push(1u8);
            push_u64_le(&mut out, v);
        },
    }
    match k.gender {
        Gender::Male => {
            out.push(0u8);
        },
        Gender::Female => {
            out.push(1u8);
        },
    }
    push_u64_le(&mut out, k.owner);
    proof {
        assert(out@ =~= encode_kitty(k@));
    }
    out
}

fn u128_from_le_bytes(b: &Vec<u8>) -> (r: u128)
    requires
        b@.len() == 16,
    ensures
        r == u128_from_le(b@),
{
    (b[0] as u128) | ((b[1] as u128) << 8) | ((b[2] as u128) << 16) | ((b[3] as u128) << 24)
        | ((b[4] as u128) << 32) | ((b[5] as u128) << 40) | ((b[6] as u128) << 48)
        | ((b[7] as u128) << 56) | ((b[8] as u128) << 64) | ((b[9] as u128) << 72)
        | ((b[10] as u128) << 80) | ((b[11] as u128) << 88) | ((b[12] as u128) << 96)
        | ((b[13] as u128) << 104) | ((b[14] as u128) << 112) | ((b[15] as u128) << 120)
}

/// Computes a kitty's content-derived identity.
pub fn hash_of_kitty(k: &Kitty) -> (id: KittyId)
    ensures
        id == kitty_id_of(k@),
{
    let bytes = encode_kitty_bytes(k);
    let digest = blake2_128(&bytes);
    u128_from_le_bytes(&digest)
}

/// Draws a gender from one byte of host randomness.
pub fn generate_gender(entropy: u8) -> (g: Gender)
    ensures
        g == gender_of_byte(entropy),
{
    if entropy % 2 == 0 {
        Gender::Male
    } else {
        Gender::Female
    }
}

/// Derives a fresh genome from one draw of host randomness and the
/// current sequence number.
pub fn generate_genome(entropy: &Vec<u8>, sequence: u64) -> (dna: Vec<u8>)
    ensures
        dna@ == genome_of(entropy@, sequence),
        dna@.len() == 16,
{
    let mut payload = copy_bytes(entropy);
    push_u64_le(&mut payload, sequence);
    blake2_128(&payload)
}

} // verus!
