//! Tile bitsets: tile `i` is bit `i % 64` of word `i / 64`.
use vstd::prelude::*;

verus! {

/// Bit `b` of a word.
pub open spec fn bit(w: u64, b: int) -> bool {
    (w >> (b as u64)) & 1 == 1
}

/// The bitset holds the tile.
pub open spec fn has_tile(bits: Seq<u64>, t: int) -> bool {
    0 <= t / 64 < bits.len() && bit(bits[t / 64], t % 64)
}

proof fn lemma_set_bit(w: u64, b: u64, c: u64)
    requires
        b < 64,
        c < 64,
    ensures
        ((w | (1u64 << b)) >> c) & 1 == 1 <==> (c == b || (w >> c) & 1 == 1),
{
    assert((((w | (1u64 << b)) >> c) & 1 == 1) <==> (c == b || (w >> c) & 1 == 1)) by (bit_vector)
        requires
            b < 64,
            c < 64,
    ;
}

proof fn lemma_zero_bits(c: u64)
    ensures
        (0u64 >> c) & 1 == 0,
{
    assert((0u64 >> c) & 1 == 0) by (bit_vector);
}

/// A bitset of `words` words holding nothing.
pub fn empty_bits(words: usize) -> (r: Vec<u64>)
    ensures
        r@.len() == words,
        forall|t: int| !#[trigger] has_tile(r@, t),
{
    let r: Vec<u64> = vec![0;words];
    proof {
        assert forall|t: int| !#[trigger] has_tile(r@, t) by {
            if 0 <= t / 64 < r@.len() {
                assert(r@[t / 64] == 0);
                lemma_zero_bits((t % 64) as u64);
            }
        }
    }
    r
}

/// Add a tile that the bitset has room for.
pub fn insert_tile(bits: &mut Vec<u64>, t: usize)
    requires
        t / 64 < old(bits)@.len(),
    ensures
        final(bits)@.len() == old(bits)@.len(),
        forall|u: int| #[trigger]
            has_tile(final(bits)@, u) <==> (u == t || has_tile(old(bits)@, u)),
{
    let word: usize = t / 64;
    let b: u64 = (t % 64) as u64;
    let w: u64 = bits[word];
    bits.set(word, w | (1u64 << b));
    proof {
        assert forall|u: int| #[trigger] has_tile(bits@, u) <==> (u == t || has_tile(
            old(bits)@,
            u,
        )) by {
            if 0 <= u / 64 < bits@.len() {
                if u / 64 == word {
                    lemma_set_bit(w, b, (u % 64) as u64);
                    if u != t {
                        assert(u % 64 != t % 64) by {
                            vstd::arithmetic::div_mod::lemma_fundamental_div_mod(u, 64);
                            vstd::arithmetic::div_mod::lemma_fundamental_div_mod(t as int, 64);
                        }
                    }
                } else {
                    assert(bits@[u / 64] == old(bits)@[u / 64]);
                }
            }
        }
    }
}

/// Add a tile if the bitset has room for it.
pub fn insert_tile_within(bits: &mut Vec<u64>, t: usize)
    ensures
        final(bits)@.len() == old(bits)@.len(),
        forall|u: int| #[trigger]
            has_tile(final(bits)@, u) <==> ((u == t && t / 64 < old(bits)@.len()) || has_tile(
                old(bits)@,
                u,
            )),
{
    if t / 64 < bits.len() {
        insert_tile(bits, t);
    }
}

} // verus!
