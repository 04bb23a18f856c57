//! Small facts about bit operations, shared by the other modules.
use vstd::prelude::*;

verus! {

/// Masking with one less than a power of two takes the remainder.
proof fn lemma_low_masks(x: u64)
    ensures
        x & 63 == x % 64,
        x & 0xF == x % 16,
        x & 7 == x % 8,
        x & 3 == x % 4,
{
    assert(x & 63 == x % 64 && x & 0xF == x % 16 && x & 7 == x % 8 && x & 3 == x % 4)
        by (bit_vector);
}

/// Masking with 63 gives a valid shift amount.
pub proof fn lemma_and_63(x: u64)
    ensures
        x & 63 < 64,
        x & 63 == x % 64,
{
    lemma_low_masks(x);
}

/// Masking with 15 gives a value below 16.
pub proof fn lemma_and_15(x: u64)
    ensures
        x & 0xF < 16,
        x & 0xF == x % 16,
{
    lemma_low_masks(x);
}

/// Masking with 7 gives a value below 8.
pub proof fn lemma_and_7(x: u64)
    ensures
        x & 7 < 8,
        x & 7 == x % 8,
{
    lemma_low_masks(x);
}

/// Masking with 3 gives a value below 4.
pub proof fn lemma_and_3(x: u64)
    ensures
        x & 3 < 4,
        x & 3 == x % 4,
{
    lemma_low_masks(x);
}

/// Bit `k` of the bitwise operations on two words, and of the shifts by `n`.
pub proof fn lemma_bit_of(a: u64, b: u64, n: u64, k: u64)
    requires
        n < 64,
        k < 64,
    ensures
        ((a & b) >> k) & 1 == 1 <==> (a >> k) & 1 == 1 && (b >> k) & 1 == 1,
        ((a | b) >> k) & 1 == 1 <==> (a >> k) & 1 == 1 || (b >> k) & 1 == 1,
        ((a ^ b) >> k) & 1 == 1 <==> ((a >> k) & 1 == 1) != ((b >> k) & 1 == 1),
        ((!a) >> k) & 1 == 1 <==> (a >> k) & 1 != 1,
        k >= n ==> ((a << n) >> k) & 1 == (a >> ((k - n) as u64)) & 1,
        k < n ==> ((a << n) >> k) & 1 == 0,
        k + n < 64 ==> ((a >> n) >> k) & 1 == (a >> ((k + n) as u64)) & 1,
        k + n >= 64 ==> ((a >> n) >> k) & 1 == 0,
        k + n < 64 ==> ((((a as i64) >> n) as u64) >> k) & 1 == (a >> ((k + n) as u64)) & 1,
        k + n >= 64 ==> ((((a as i64) >> n) as u64) >> k) & 1 == (a >> 63u64) & 1,
        (a >> k) & 1 == 0 || (a >> k) & 1 == 1,
{
    assert((((a & b) >> k) & 1 == 1 <==> (a >> k) & 1 == 1 && (b >> k) & 1 == 1) && (((a | b) >> k)
        & 1 == 1 <==> (a >> k) & 1 == 1 || (b >> k) & 1 == 1) && (((a ^ b) >> k) & 1 == 1 <==> ((a
        >> k) & 1 == 1) != ((b >> k) & 1 == 1)) && (((!a) >> k) & 1 == 1 <==> (a >> k) & 1 != 1)
        && (k >= n ==> ((a << n) >> k) & 1 == (a >> ((k - n) as u64)) & 1) && (k < n ==> ((a << n)
        >> k) & 1 == 0) && (k + n < 64 ==> ((a >> n) >> k) & 1 == (a >> ((k + n) as u64)) & 1) && (k
        + n >= 64 ==> ((a >> n) >> k) & 1 == 0) && (k + n < 64 ==> ((((a as i64) >> n) as u64) >> k)
        & 1 == (a >> ((k + n) as u64)) & 1) && (k + n >= 64 ==> ((((a as i64) >> n) as u64) >> k)
        & 1 == (a >> 63u64) & 1) && ((a >> k) & 1 == 0 || (a >> k) & 1 == 1)) by (bit_vector)
        requires
            n < 64,
            k < 64,
    ;
}

} // verus!
