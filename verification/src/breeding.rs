//! The breeding engine: per-bit genetic crossover of two genomes under a
//! random mask.

use vstd::prelude::*;

verus! {

/// One byte of crossover: each bit comes from `a` where the mask bit is
/// 1 and from `b` where it is 0.
pub open spec fn crossover_byte(m: u8, a: u8, b: u8) -> u8 {
    (m & a) | (!m & b)
}

/// Per-byte crossover of two genomes under a mask of the same length.
pub open spec fn crossover_spec(mask: Seq<u8>, a: Seq<u8>, b: Seq<u8>) -> Seq<u8>
    recommends
        mask.len() == a.len(),
        b.len() == a.len(),
{
    Seq::new(a.len(), |i: int| crossover_byte(mask[i], a[i], b[i]))
}

/// Combines two genomes under a mask, bit by bit.
pub fn crossover(mask: &Vec<u8>, a: &Vec<u8>, b: &Vec<u8>) -> (r: Vec<u8>)
    requires
        mask@.len() == a@.len(),
        b@.len() == a@.len(),
    ensures
        r@ == crossover_spec(mask@, a@, b@),
{
    let mut r: Vec<u8> = Vec::new();
    let mut i: usize = 0;
    while i < a.len()
        invariant
            i <= a.len(),
            mask@.len() == a@.len(),
            b@.len() == a@.len(),
            r@ == crossover_spec(mask@, a@, b@).take(i as int),
        decreases a.len() - i,
    {
        r.push((mask[i] & a[i]) | (!mask[i] & b[i]));
        proof {
            assert(r@ =~= crossover_spec(mask@, a@, b@).take(i as int + 1));
        }
        i = i + 1;
    }
    proof {
        assert(r@ =~= crossover_spec(mask@, a@, b@));
    }
    r
}

/// Under an all-ones mask the child genome is exactly parent `a`.
pub proof fn lemma_crossover_all_ones(mask: Seq<u8>, a: Seq<u8>, b: Seq<u8>)
    requires
        mask.len() == a.len(),
        b.len() == a.len(),
        forall|i: int| 0 <= i < mask.len() ==> mask[i] == 0xffu8,
    ensures
        crossover_spec(mask, a, b) == a,
{
    assert(forall|x: u8, y: u8| ((0xffu8 & x) | (!0xffu8 & y)) == x) by (bit_vector);
    assert(crossover_spec(mask, a, b) =~= a);
}

/// Under an all-zeros mask the child genome is exactly parent `b`.
pub proof fn lemma_crossover_all_zeros(mask: Seq<u8>, a: Seq<u8>, b: Seq<u8>)
    requires
        mask.len() == a.len(),
        b.len() == a.len(),
        forall|i: int| 0 <= i < mask.len() ==> mask[i] == 0u8,
    ensures
        crossover_spec(mask, a, b) == b,
{
    assert(forall|x: u8, y: u8| ((0u8 & x) | (!0u8 & y)) == y) by (bit_vector);
    assert(crossover_spec(mask, a, b) =~= b);
}

} // verus!
