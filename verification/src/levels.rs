//! Bits as logic levels: a block of tiles takes and gives one tile per bit, all ones for a
//! set bit and zero for a clear one.
use vstd::prelude::*;

verus! {

/// The level of bit `k` of `x`.
pub open spec fn level_of(x: u64, k: u64) -> u64 {
    if (x >> k) & 1 == 1 {
        u64::MAX
    } else {
        0
    }
}

/// The level of bit `k` of `x`.
pub fn bit_level(x: u64, k: u64) -> (r: u64)
    requires
        k < 64,
    ensures
        r == level_of(x, k),
{
    if (x >> k) & 1 == 1 {
        u64::MAX
    } else {
        0
    }
}

/// The levels of the low `n` bits of `x`, lowest first.
pub open spec fn levels_of(x: u64, n: nat) -> Seq<u64> {
    Seq::new(n, |k: int| level_of(x, k as u64))
}

/// The levels of the low `n` bits of `x`, lowest first.
pub fn bit_levels(x: u64, n: u64) -> (r: Vec<u64>)
    requires
        n <= 64,
    ensures
        r@ == levels_of(x, n as nat),
{
    let mut r: Vec<u64> = Vec::new();
    let mut k: u64 = 0;
    while k < n
        invariant
            k <= n <= 64,
            r@ == levels_of(x, k as nat),
        decreases n - k,
    {
        r.push(bit_level(x, k));
        k = k + 1;
        assert(r@ =~= levels_of(x, k as nat));
    }
    r
}

/// The word in which bit `base + i` is set for each `i` below `n` whose level is not zero.
pub open spec fn packed(levels: Seq<u64>, base: u64, n: nat) -> u64
    decreases n,
{
    if n == 0 {
        0
    } else if levels[n - 1] != 0 {
        packed(levels, base, (n - 1) as nat) | (1u64 << ((base + n - 1) as u64))
    } else {
        packed(levels, base, (n - 1) as nat)
    }
}

/// The word whose bits, from `base` up, are the given levels.
pub fn pack_levels(levels: &Vec<u64>, base: u64) -> (r: u64)
    requires
        base + levels@.len() <= 64,
    ensures
        r == packed(levels@, base, levels@.len()),
{
    let mut r: u64 = 0;
    let mut i: usize = 0;
    while i < levels.len()
        invariant
            i <= levels@.len(),
            base + levels@.len() <= 64,
            r == packed(levels@, base, i as nat),
        decreases levels@.len() - i,
    {
        if levels[i] != 0 {
            r = r | (1u64 << (base + i as u64));
        }
        i = i + 1;
    }
    r
}

/// Bit `k` of a packed word is set exactly when it is inside the packed range and its level
/// is not zero.
pub proof fn law_packed_bits(levels: Seq<u64>, base: u64, n: nat, k: u64)
    requires
        n <= levels.len(),
        base + n <= 64,
        k < 64,
    ensures
        ((packed(levels, base, n) >> k) & 1 == 1) == (base <= k < base + n && levels[k - base]
            != 0),
    decreases n,
{
    if n == 0 {
        assert((0u64 >> k) & 1 == 0) by (bit_vector);
    } else {
        law_packed_bits(levels, base, (n - 1) as nat, k);
        let w = packed(levels, base, (n - 1) as nat);
        let p = (base + n - 1) as u64;
        assert((((w | (1u64 << p)) >> k) & 1 == 1) == (k == p || (w >> k) & 1 == 1)) by (bit_vector)
            requires
                k < 64,
                p < 64,
        ;
    }
}

} // verus!
