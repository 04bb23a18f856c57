//! Bit counting through a hierarchy of tile blocks: how the blocks are wired together.
//!
//! The blocks themselves are tiles; each gives one level per output bit. The functions here make
//! the inputs of each level from the outputs of the one below.
use vstd::prelude::*;
use vstd::std_specs::bits::{u64_leading_zeros, u64_trailing_zeros};

use crate::alu::popcount;
use crate::levels::{bit_level, level_of, packed};

verus! {

/// Bit `n` of a word counted from the end where a scan starts: the top for leading zeros, the
/// bottom for trailing zeros.
pub open spec fn scan_bit(a: u64, clz: bool, n: int) -> u64 {
    level_of(
        a,
        if clz {
            (63 - n) as u64
        } else {
            n as u64
        },
    )
}

/// The inputs of the scan block that looks at the `slot`th byte from the scan's start. The
/// block looks at its last input first.
pub open spec fn scan_byte_levels(a: u64, clz: bool, slot: int) -> Seq<u64> {
    Seq::new(8, |i: int| scan_bit(a, clz, 8 * slot + (7 - i)))
}

/// The byte that is the `slot`th from the scan's start.
pub open spec fn scan_byte(clz: bool, slot: int) -> int {
    if clz {
        7 - slot
    } else {
        slot
    }
}

/// The inputs of the scan block of a byte: its bits lowest first for leading zeros, highest
/// first for trailing zeros.
pub fn bitscan_byte_inputs(a: u64, clz: bool, byte: usize) -> (r: Vec<u64>)
    requires
        byte < 8,
    ensures
        r@ == scan_byte_levels(a, clz, scan_byte(clz, byte as int)),
{
    let mut r: Vec<u64> = Vec::new();
    let mut i: u64 = 0;
    while i < 8
        invariant
            i <= 8,
            byte < 8,
            r@ == scan_byte_levels(a, clz, scan_byte(clz, byte as int)).take(i as int),
        decreases 8 - i,
    {
        let base: u64 = byte as u64 * 8;
        let k: u64 = if clz {
            base + i
        } else {
            base + (7 - i)
        };
        r.push(bit_level(a, k));
        i = i + 1;
        assert(r@ =~= scan_byte_levels(a, clz, scan_byte(clz, byte as int)).take(i as int));
    }
    assert(r@ =~= scan_byte_levels(a, clz, scan_byte(clz, byte as int)));
    r
}

/// The inputs of a half's combining block: the outputs of its four bytes, the byte the scan
/// meets first leading.
pub open spec fn half_levels(bytes: Seq<Seq<u64>>, clz: bool, half: int) -> Seq<u64> {
    Seq::new(16, |i: int| bytes[scan_byte(clz, 4 * half + i / 4)][i % 4])
}

/// The outputs of the byte blocks, as sequences.
pub open spec fn views(v: Seq<Vec<u64>>) -> Seq<Seq<u64>> {
    Seq::new(v.len(), |i: int| v[i]@)
}

/// The inputs of a half's combining block, from the outputs of the byte blocks by byte.
pub fn bitscan_half_inputs(bytes: &Vec<Vec<u64>>, clz: bool, half: usize) -> (r: Vec<u64>)
    requires
        half < 2,
        bytes@.len() == 8,
        forall|i: int| 0 <= i < 8 ==> (#[trigger] bytes@[i])@.len() >= 4,
    ensures
        r@ == half_levels(views(bytes@), clz, half as int),
{
    let mut r: Vec<u64> = Vec::new();
    let mut i: usize = 0;
    while i < 16
        invariant
            i <= 16,
            half < 2,
            bytes@.len() == 8,
            forall|i: int| 0 <= i < 8 ==> (#[trigger] bytes@[i])@.len() >= 4,
            r@ == half_levels(views(bytes@), clz, half as int).take(i as int),
        decreases 16 - i,
    {
        let slot: usize = 4 * half + i / 4;
        let byte: usize = if clz {
            7 - slot
        } else {
            slot
        };
        assert(views(bytes@)[byte as int] == bytes@[byte as int]@);
        r.push(bytes[byte][i % 4]);
        i = i + 1;
        assert(r@ =~= half_levels(views(bytes@), clz, half as int).take(i as int));
    }
    assert(r@ =~= half_levels(views(bytes@), clz, half as int));
    r
}

/// The first `n` outputs of one block and then of another.
pub open spec fn joined(a: Seq<u64>, b: Seq<u64>, n: int) -> Seq<u64> {
    a.take(n) + b.take(n)
}

/// The inputs of a block that combines two others: the first `n` outputs of each.
pub fn join_levels(a: &Vec<u64>, b: &Vec<u64>, n: usize) -> (r: Vec<u64>)
    requires
        n <= a@.len(),
        n <= b@.len(),
    ensures
        r@ == joined(a@, b@, n as int),
{
    let mut r: Vec<u64> = Vec::new();
    let mut i: usize = 0;
    while i < n
        invariant
            i <= n,
            n <= a@.len(),
            r@ == a@.take(i as int),
        decreases n - i,
    {
        r.push(a[i]);
        i = i + 1;
        assert(r@ =~= a@.take(i as int));
    }
    let mut j: usize = 0;
    while j < n
        invariant
            j <= n,
            n <= b@.len(),
            n <= a@.len(),
            r@ == a@.take(n as int) + b@.take(j as int),
        decreases n - j,
    {
        r.push(b[j]);
        j = j + 1;
        assert(r@ =~= a@.take(n as int) + b@.take(j as int));
    }
    r
}

/// The count that the last block of a hierarchy gives: its first seven outputs as bits.
pub fn count_of_levels(out: &Vec<u64>) -> (r: u64)
    requires
        out@.len() >= 7,
    ensures
        r == packed(out@, 0, 7),
{
    let mut r: u64 = 0;
    let mut i: usize = 0;
    while i < 7
        invariant
            i <= 7,
            out@.len() >= 7,
            r == packed(out@, 0, i as nat),
        decreases 7 - i,
    {
        if out[i] != 0 {
            r = r | (1u64 << (i as u64));
        }
        i = i + 1;
    }
    r
}

// ---- What the hierarchy computes, given what each block does ----

/// The number whose bits are the `n` levels from `from` on, lowest first.
pub open spec fn number_of(levels: Seq<u64>, from: int, n: nat) -> int
    decreases n,
{
    if n == 0 {
        0
    } else {
        number_of(levels, from, (n - 1) as nat) + if levels[from + n - 1] != 0 {
            crate::alu::pow2((n - 1) as nat)
        } else {
            0
        }
    }
}

proof fn lemma_number_bounds(levels: Seq<u64>, from: int, n: nat)
    ensures
        0 <= number_of(levels, from, n) < crate::alu::pow2(n),
    decreases n,
{
    if n > 0 {
        lemma_number_bounds(levels, from, (n - 1) as nat);
    }
}

/// A byte's scan block says whether any input is high and how many inputs, from the last, come
/// before the first high one.
pub open spec fn scans_byte(inp: Seq<u64>, out: Seq<u64>) -> bool {
    let c = number_of(out, 1, 3);
    if out[0] != 0 {
        &&& inp[7 - c] != 0
        &&& forall|j: int| 7 - c < j < 8 ==> #[trigger] inp[j] == 0
    } else {
        forall|j: int| 0 <= j < 8 ==> #[trigger] inp[j] == 0
    }
}

/// A half's combining block says whether any of its four bytes has a high input, which is the
/// first that has, and that byte's count.
pub open spec fn combines_half(inp: Seq<u64>, out: Seq<u64>) -> bool {
    let i = number_of(out, 1, 2);
    if out[0] != 0 {
        &&& inp[4 * i] != 0
        &&& forall|j: int| 0 <= j < i ==> inp[#[trigger] (4 * j)] == 0
        &&& number_of(out, 3, 3) == number_of(inp, 4 * i + 1, 3)
    } else {
        forall|j: int| 0 <= j < 4 ==> inp[#[trigger] (4 * j)] == 0
    }
}

/// The final block gives the first half's position where it has one, else the second half's,
/// else 64.
pub open spec fn combines_all(inp: Seq<u64>, out: Seq<u64>) -> bool {
    number_of(out, 0, 7) == if inp[0] != 0 {
        8 * number_of(inp, 1, 2) + number_of(inp, 3, 3)
    } else if inp[6] != 0 {
        32 + 8 * number_of(inp, 7, 2) + number_of(inp, 9, 3)
    } else {
        64
    }
}

/// `p` is the first position from the scan's start with a high bit; 64 if there is none.
pub open spec fn first_high(a: u64, clz: bool, p: int) -> bool {
    &&& 0 <= p <= 64
    &&& p < 64 ==> scan_bit(a, clz, p) != 0
    &&& forall|n: int| 0 <= n < p ==> #[trigger] scan_bit(a, clz, n) == 0
}

/// When every block does its part, the hierarchy finds the first high bit.
pub proof fn law_hierarchy_scans(
    a: u64,
    clz: bool,
    bytes: Seq<Seq<u64>>,
    halves: Seq<Seq<u64>>,
    out: Seq<u64>,
)
    requires
        bytes.len() == 8,
        halves.len() == 2,
        forall|s: int|
            0 <= s < 8 ==> scans_byte(
                scan_byte_levels(a, clz, s),
                #[trigger] bytes[scan_byte(clz, s)],
            ),
        combines_half(half_levels(bytes, clz, 0), halves[0]),
        combines_half(half_levels(bytes, clz, 1), halves[1]),
        halves[0].len() >= 6,
        halves[1].len() >= 6,
        combines_all(joined(halves[0], halves[1], 6), out),
    ensures
        first_high(a, clz, number_of(out, 0, 7)),
{
    let inp = joined(halves[0], halves[1], 6);
    assert(crate::alu::pow2(3) == 8 && crate::alu::pow2(2) == 4) by {
        reveal_with_fuel(crate::alu::pow2, 4);
    }
    lemma_number_same(inp, 1, halves[0], 1, 2);
    lemma_number_same(inp, 3, halves[0], 3, 3);
    lemma_number_same(inp, 7, halves[1], 1, 2);
    lemma_number_same(inp, 9, halves[1], 3, 3);
    lemma_half_scans(a, clz, bytes, 0, halves[0]);
    lemma_half_scans(a, clz, bytes, 1, halves[1]);
    let p = number_of(out, 0, 7);
    assert(inp[0] == halves[0][0]);
    assert(inp[6] == halves[1][0]);
    assert forall|n: int| 0 <= n < p implies #[trigger] scan_bit(a, clz, n) == 0 by {}
}

proof fn lemma_number_same(a: Seq<u64>, i: int, b: Seq<u64>, j: int, n: nat)
    requires
        forall|k: int| 0 <= k < n ==> a[i + k] == #[trigger] b[j + k],
    ensures
        number_of(a, i, n) == number_of(b, j, n),
    decreases n,
{
    if n > 0 {
        assert(b[j + (n - 1)] == a[i + (n - 1)]);
        lemma_number_same(a, i, b, j, (n - 1) as nat);
    }
}

/// What a half finds among its 32 positions.
proof fn lemma_half_scans(a: u64, clz: bool, bytes: Seq<Seq<u64>>, half: int, out: Seq<u64>)
    requires
        bytes.len() == 8,
        half == 0 || half == 1,
        forall|s: int|
            0 <= s < 8 ==> scans_byte(
                scan_byte_levels(a, clz, s),
                #[trigger] bytes[scan_byte(clz, s)],
            ),
        combines_half(half_levels(bytes, clz, half), out),
    ensures
        0 <= number_of(out, 1, 2) < 4,
        0 <= number_of(out, 3, 3) < 8,
        out[0] != 0 ==> {
            let p = 32 * half + 8 * number_of(out, 1, 2) + number_of(out, 3, 3);
            &&& scan_bit(a, clz, p) != 0
            &&& forall|n: int| 32 * half <= n < p ==> #[trigger] scan_bit(a, clz, n) == 0
        },
        out[0] == 0 ==> forall|n: int|
            32 * half <= n < 32 * half + 32 ==> #[trigger] scan_bit(a, clz, n) == 0,
{
    assert(crate::alu::pow2(3) == 8 && crate::alu::pow2(2) == 4) by {
        reveal_with_fuel(crate::alu::pow2, 4);
    }
    let inp = half_levels(bytes, clz, half);
    lemma_number_bounds(out, 1, 2);
    lemma_number_bounds(out, 3, 3);
    assert forall|j: int| 0 <= j < 4 implies {
        let o = bytes[scan_byte(clz, 4 * half + j)];
        let c = number_of(o, 1, 3);
        &&& 0 <= c < 8
        &&& inp[#[trigger] (4 * j)] == o[0]
        &&& number_of(inp, 4 * j + 1, 3) == c
        &&& o[0] != 0 ==> {
            &&& scan_bit(a, clz, 8 * (4 * half + j) + c) != 0
            &&& forall|n: int|
                8 * (4 * half + j) <= n < 8 * (4 * half + j) + c ==> #[trigger] scan_bit(a, clz, n)
                    == 0
        }
        &&& o[0] == 0 ==> forall|n: int|
            8 * (4 * half + j) <= n < 8 * (4 * half + j) + 8 ==> #[trigger] scan_bit(a, clz, n) == 0
    } by {
        let s = 4 * half + j;
        let o = bytes[scan_byte(clz, s)];
        let c = number_of(o, 1, 3);
        let bits = scan_byte_levels(a, clz, s);
        lemma_number_bounds(o, 1, 3);
        assert(scans_byte(bits, o));
        assert((4 * j) / 4 == j && (4 * j) % 4 == 0);
        assert forall|k: int| 0 <= k < 3 implies inp[4 * j + 1 + k] == #[trigger] o[1 + k] by {
            assert((4 * j + 1 + k) / 4 == j && (4 * j + 1 + k) % 4 == 1 + k);
        }
        lemma_number_same(inp, 4 * j + 1, o, 1, 3);
        if o[0] != 0 {
            assert(bits[7 - c] == scan_bit(a, clz, 8 * s + c));
            assert forall|n: int| 8 * s <= n < 8 * s + c implies #[trigger] scan_bit(a, clz, n)
                == 0 by {
                assert(bits[7 - (n - 8 * s)] == scan_bit(a, clz, n));
            }
        } else {
            assert forall|n: int| 8 * s <= n < 8 * s + 8 implies #[trigger] scan_bit(a, clz, n)
                == 0 by {
                assert(bits[7 - (n - 8 * s)] == scan_bit(a, clz, n));
            }
        }
    }
    if out[0] != 0 {
        let i = number_of(out, 1, 2);
        let c = number_of(out, 3, 3);
        let p = 32 * half + 8 * i + c;
        assert(inp[4 * i] != 0);
        assert forall|n: int| 32 * half <= n < p implies #[trigger] scan_bit(a, clz, n) == 0 by {
            let j = (n - 32 * half) / 8;
            assert(0 <= j <= i);
            if j < i {
                assert(inp[4 * j] == 0);
            } else {
                assert(inp[4 * i] != 0);
            }
        }
    } else {
        assert forall|n: int| 32 * half <= n < 32 * half + 32 implies #[trigger] scan_bit(
            a,
            clz,
            n,
        ) == 0 by {
            let j = (n - 32 * half) / 8;
            assert(0 <= j < 4);
            assert(inp[4 * j] == 0);
        }
    }
}

/// The first high bit from the top is where the leading zeros end.
pub proof fn law_first_high_is_leading_zeros(a: u64, p: int)
    requires
        first_high(a, true, p),
    ensures
        p == u64_leading_zeros(a),
{
    vstd::std_specs::bits::axiom_u64_leading_zeros(a);
    let z = u64_leading_zeros(a);
    if p < z {
        let j = (63 - p) as u64;
        assert((a >> j) & 1u64 == 0);
        assert(scan_bit(a, true, p) == level_of(a, j));
    }
    if z < p {
        let zeros = z as u64;
        let q = (63u64 - zeros) as u64;
        assert(zeros == z);
        assert(q == 63 - z);
        assert(scan_bit(a, true, z) == level_of(a, q));
        assert((a >> q) & 1u64 != 0);
        assert((a >> q) & 1u64 == 0 || (a >> q) & 1u64 == 1) by (bit_vector);
    }
}

/// The first high bit from the bottom is where the trailing zeros end.
pub proof fn law_first_high_is_trailing_zeros(a: u64, p: int)
    requires
        first_high(a, false, p),
    ensures
        p == u64_trailing_zeros(a),
{
    vstd::std_specs::bits::axiom_u64_trailing_zeros(a);
    let z = u64_trailing_zeros(a) as int;
    if p < z {
        let j = p as u64;
        assert((a >> j) & 1u64 == 0);
        assert(scan_bit(a, false, p) == level_of(a, j));
    }
    if z < p {
        let q = z as u64;
        assert(scan_bit(a, false, z) == level_of(a, q));
        assert((a >> q) & 1u64 == 1);
    }
}

/// The bits that a block's outputs are packed into are the number they stand for.
pub proof fn law_packed_is_number(out: Seq<u64>, n: nat)
    requires
        n <= 63,
    ensures
        packed(out, 0, n) == number_of(out, 0, n),
    decreases n,
{
    if n > 0 {
        law_packed_is_number(out, (n - 1) as nat);
        lemma_number_bounds(out, 0, (n - 1) as nat);
        let w = packed(out, 0, (n - 1) as nat);
        let k = (n - 1) as u64;
        lemma_pow2_shift(k);
        assert(w | (1u64 << k) == w + (1u64 << k)) by (bit_vector)
            requires
                k < 63,
                w < (1u64 << k),
        ;
    }
}

proof fn lemma_pow2_shift(k: u64)
    requires
        k < 63,
    ensures
        (1u64 << k) == crate::alu::pow2(k as nat),
    decreases k,
{
    if k == 0 {
        assert(1u64 << 0u64 == 1) by (bit_vector);
    } else {
        lemma_pow2_shift((k - 1) as u64);
        let j = (k - 1) as u64;
        assert((1u64 << k) == 2 * (1u64 << j)) by (bit_vector)
            requires
                k == j + 1,
                k < 63,
        ;
    }
}

/// An adding block gives the sum of its two inputs of `n` bits each.
pub open spec fn adds(inp: Seq<u64>, out: Seq<u64>, n: nat) -> bool {
    number_of(out, 0, n + 1) == number_of(inp, 0, n) + number_of(inp, n as int, n)
}

/// How many bits of a byte are set.
pub open spec fn byte_ones(a: u64, byte: int) -> nat {
    popcount((a as int / crate::alu::pow2((8 * byte) as nat) % 256) as u64)
}

/// When every counting block counts its byte and every adding block adds, the tree gives the
/// number of set bits.
pub proof fn law_hierarchy_counts(
    a: u64,
    bytes: Seq<Seq<u64>>,
    fours: Seq<Seq<u64>>,
    fives: Seq<Seq<u64>>,
    out: Seq<u64>,
)
    requires
        bytes.len() == 8,
        fours.len() == 4,
        fives.len() == 2,
        forall|i: int| 0 <= i < 8 ==> (#[trigger] bytes[i]).len() >= 4,
        forall|i: int| 0 <= i < 4 ==> (#[trigger] fours[i]).len() >= 5,
        forall|i: int| 0 <= i < 2 ==> (#[trigger] fives[i]).len() >= 6,
        forall|i: int| 0 <= i < 8 ==> number_of(#[trigger] bytes[i], 0, 4) == byte_ones(a, i),
        forall|i: int|
            0 <= i < 4 ==> adds(joined(bytes[2 * i], bytes[2 * i + 1], 4), #[trigger] fours[i], 4),
        forall|i: int|
            0 <= i < 2 ==> adds(joined(fours[2 * i], fours[2 * i + 1], 5), #[trigger] fives[i], 5),
        adds(joined(fives[0], fives[1], 6), out, 6),
    ensures
        number_of(out, 0, 7) == popcount(a),
{
    assert forall|i: int| 0 <= i < 4 implies number_of(#[trigger] fours[i], 0, 5) == byte_ones(
        a,
        2 * i,
    ) + byte_ones(a, 2 * i + 1) by {
        lemma_joined(bytes[2 * i], bytes[2 * i + 1], 4);
        assert(number_of(bytes[2 * i], 0, 4) == byte_ones(a, 2 * i));
        assert(number_of(bytes[2 * i + 1], 0, 4) == byte_ones(a, 2 * i + 1));
    }
    assert forall|i: int| 0 <= i < 2 implies number_of(#[trigger] fives[i], 0, 6) == number_of(
        fours[2 * i],
        0,
        5,
    ) + number_of(fours[2 * i + 1], 0, 5) by {
        lemma_joined(fours[2 * i], fours[2 * i + 1], 5);
    }
    lemma_joined(fives[0], fives[1], 6);
    assert(number_of(fives[0], 0, 6) == number_of(fours[0], 0, 5) + number_of(fours[1], 0, 5));
    assert(number_of(fives[1], 0, 6) == number_of(fours[2], 0, 5) + number_of(fours[3], 0, 5));
    lemma_popcount_by_bytes(a);
}

proof fn lemma_joined(a: Seq<u64>, b: Seq<u64>, n: nat)
    requires
        n <= a.len(),
        n <= b.len(),
    ensures
        number_of(joined(a, b, n as int), 0, n) == number_of(a, 0, n),
        number_of(joined(a, b, n as int), n as int, n) == number_of(b, 0, n),
{
    let j = joined(a, b, n as int);
    assert forall|k: int| 0 <= k < n implies j[0 + k] == #[trigger] a[0 + k] by {}
    lemma_number_same(j, 0, a, 0, n);
    assert forall|k: int| 0 <= k < n implies j[n + k] == #[trigger] b[0 + k] by {}
    lemma_number_same(j, n as int, b, 0, n);
}

/// A word has as many set bits as its low byte and the rest.
proof fn lemma_popcount_byte(x: u64)
    ensures
        popcount(x) == popcount(x % 256) + popcount(x / 256),
{
    assert(crate::alu::pow2(8) == 256) by {
        reveal_with_fuel(crate::alu::pow2, 9);
    }
    lemma_popcount_split(x, 8);
}

proof fn lemma_popcount_split(x: u64, k: nat)
    requires
        k <= 8,
    ensures
        popcount(x) == popcount((x as int % crate::alu::pow2(k)) as u64) + popcount(
            (x as int / crate::alu::pow2(k)) as u64,
        ),
    decreases k,
{
    if k == 0 {
        assert(crate::alu::pow2(0) == 1);
        assert(popcount(0) == 0);
        assert(x as int % 1 == 0);
    } else {
        let m = crate::alu::pow2((k - 1) as nat);
        lemma_pow2_positive((k - 1) as nat);
        let half = x / 2;
        lemma_popcount_split(half, (k - 1) as nat);
        lemma_popcount_step(x);
        vstd::arithmetic::div_mod::lemma_mod_breakdown(x as int, 2, m);
        vstd::arithmetic::div_mod::lemma_div_denominator(x as int, 2, m);
        vstd::arithmetic::div_mod::lemma_mod_bound(x as int, 2 * m);
        let low = (x as int % (2 * m)) as u64;
        assert(low <= x) by {
            vstd::arithmetic::div_mod::lemma_mod_decreases(x as nat, (2 * m) as nat);
        }
        vstd::arithmetic::div_mod::lemma_mod_decreases(half as nat, m as nat);
        assert(low / 2 == half as int % m);
        assert(low % 2 == x % 2);
        lemma_popcount_step(low);
    }
}

proof fn lemma_pow2_positive(k: nat)
    ensures
        crate::alu::pow2(k) > 0,
    decreases k,
{
    if k > 0 {
        lemma_pow2_positive((k - 1) as nat);
    }
}

pub(crate) proof fn lemma_popcount_step(x: u64)
    ensures
        popcount(x) == x % 2 + popcount(x / 2),
{
    if x == 0 {
        assert(popcount(0) == 0);
    }
}

proof fn lemma_popcount_by_bytes(a: u64)
    ensures
        popcount(a) == byte_ones(a, 0) + byte_ones(a, 1) + byte_ones(a, 2) + byte_ones(a, 3)
            + byte_ones(a, 4) + byte_ones(a, 5) + byte_ones(a, 6) + byte_ones(a, 7),
{
    assert(crate::alu::pow2(0) == 1) by {
        reveal_with_fuel(crate::alu::pow2, 1);
    }
    let a1 = a / 256;
    let a2 = a1 / 256;
    let a3 = a2 / 256;
    let a4 = a3 / 256;
    let a5 = a4 / 256;
    let a6 = a5 / 256;
    let a7 = a6 / 256;
    assert(crate::alu::pow2(8) == 0x100 && crate::alu::pow2(16) == 0x1_0000 && crate::alu::pow2(24)
        == 0x100_0000 && crate::alu::pow2(32) == 0x1_0000_0000 && crate::alu::pow2(40)
        == 0x100_0000_0000 && crate::alu::pow2(48) == 0x1_0000_0000_0000 && crate::alu::pow2(56)
        == 0x100_0000_0000_0000) by {
        reveal_with_fuel(crate::alu::pow2, 57);
    }
    assert(a2 == a / 0x1_0000);
    assert(a3 == a / 0x100_0000);
    assert(a4 == a / 0x1_0000_0000);
    assert(a5 == a / 0x100_0000_0000);
    assert(a6 == a / 0x1_0000_0000_0000);
    assert(a7 == a / 0x100_0000_0000_0000);
    lemma_popcount_byte(a);
    lemma_popcount_byte(a1);
    lemma_popcount_byte(a2);
    lemma_popcount_byte(a3);
    lemma_popcount_byte(a4);
    lemma_popcount_byte(a5);
    lemma_popcount_byte(a6);
    assert(a7 % 256 == a7);
}

} // verus!
