//! A bit operation through the hierarchy of its blocks, one block at a time.
//!
//! Each step names the block to drive and its inputs, and takes the block's outputs. The last
//! block's outputs are the count.
use vstd::prelude::*;
use vstd::std_specs::bits::{u64_leading_zeros, u64_trailing_zeros};

use crate::alu::{popcount, pow2};
use crate::bitop::{
    adds, bitscan_byte_inputs, bitscan_half_inputs, byte_ones, combines_all, combines_half,
    count_of_levels, half_levels, join_levels, joined, law_first_high_is_leading_zeros,
    law_first_high_is_trailing_zeros, law_hierarchy_counts, law_hierarchy_scans,
    law_packed_is_number, lemma_popcount_step, number_of, scan_byte, scan_byte_levels, scans_byte,
    views,
};
use crate::levels::{level_of, packed};

verus! {

/// What is counted.
#[derive(Clone, Copy, Debug, PartialEq, Eq, Structural)]
pub enum BitCount {
    LeadingZeros,
    TrailingZeros,
    Ones,
}

/// The count that a bit operation's sub-function asks for.
pub open spec fn bit_count(sub: u8) -> BitCount {
    if sub == 1 {
        BitCount::LeadingZeros
    } else if sub == 2 {
        BitCount::TrailingZeros
    } else {
        BitCount::Ones
    }
}

/// One block of a hierarchy: of the scan for the first set bit, or of the tree that adds up the
/// set bits.
#[derive(Clone, Copy, Debug, PartialEq, Eq, Structural)]
pub enum BitBlock {
    ScanByte(usize),
    ScanHalf(usize),
    ScanFinal,
    CountByte(usize),
    Add4(usize),
    Add5(usize),
    Add6,
}

impl BitBlock {
    /// How many outputs of the block are used.
    pub open spec fn width(self) -> nat {
        match self {
            BitBlock::ScanByte(_) | BitBlock::CountByte(_) => 4,
            BitBlock::Add4(_) => 5,
            BitBlock::ScanHalf(_) | BitBlock::Add5(_) => 6,
            BitBlock::ScanFinal | BitBlock::Add6 => 7,
        }
    }

    /// How many outputs of the block are used.
    pub fn get_width(&self) -> (r: usize)
        ensures
            r == self.width(),
    {
        match *self {
            BitBlock::ScanByte(_) | BitBlock::CountByte(_) => 4,
            BitBlock::Add4(_) => 5,
            BitBlock::ScanHalf(_) | BitBlock::Add5(_) => 6,
            BitBlock::ScanFinal | BitBlock::Add6 => 7,
        }
    }
}

/// How many blocks a count drives.
pub open spec fn block_total(kind: BitCount) -> nat {
    if kind is Ones {
        15
    } else {
        11
    }
}

/// The block that is driven when `n` blocks have been.
pub open spec fn block_at(kind: BitCount, n: int) -> BitBlock {
    if kind is Ones {
        if n < 8 {
            BitBlock::CountByte(n as usize)
        } else if n < 12 {
            BitBlock::Add4((n - 8) as usize)
        } else if n < 14 {
            BitBlock::Add5((n - 12) as usize)
        } else {
            BitBlock::Add6
        }
    } else {
        if n < 8 {
            BitBlock::ScanByte(n as usize)
        } else if n < 10 {
            BitBlock::ScanHalf((n - 8) as usize)
        } else {
            BitBlock::ScanFinal
        }
    }
}

/// The inputs of the block that is driven after the blocks with these outputs.
pub open spec fn inputs_at(kind: BitCount, a: u64, outs: Seq<Seq<u64>>) -> Seq<u64> {
    let n = outs.len() as int;
    let from_top = !(kind is TrailingZeros);
    if n < 8 {
        scan_byte_levels(a, from_top, scan_byte(from_top, n))
    } else if kind is Ones {
        if n < 12 {
            joined(outs[2 * (n - 8)], outs[2 * (n - 8) + 1], 4)
        } else if n < 14 {
            joined(outs[8 + 2 * (n - 12)], outs[9 + 2 * (n - 12)], 5)
        } else {
            joined(outs[12], outs[13], 6)
        }
    } else if n < 10 {
        half_levels(outs.take(8), from_top, n - 8)
    } else {
        joined(outs[8], outs[9], 6)
    }
}

/// A count under way: the block to drive next with its inputs, and the outputs of those driven.
pub struct BitWork {
    pub kind: BitCount,
    pub a: u64,
    pub outs: Vec<Vec<u64>>,
    pub block: BitBlock,
    pub inputs: Vec<u64>,
}

impl BitWork {
    /// The block is the one whose turn it is, its inputs are made of the outputs so far, and every
    /// block gave enough outputs.
    pub open spec fn wf(self) -> bool {
        &&& self.outs@.len() < block_total(self.kind)
        &&& self.block == block_at(self.kind, self.outs@.len() as int)
        &&& self.inputs@ == inputs_at(self.kind, self.a, views(self.outs@))
        &&& outs_wide(self.kind, views(self.outs@))
    }
}

/// Every block gave enough outputs.
pub open spec fn outs_wide(kind: BitCount, outs: Seq<Seq<u64>>) -> bool {
    forall|i: int| 0 <= i < outs.len() ==> (#[trigger] outs[i]).len() >= block_at(kind, i).width()
}

/// How far a count has come.
pub enum BitScan {
    Drive(BitWork),
    Done(u64),
}

/// Where a count goes when the block to drive gave these outputs: to the next block with them
/// noted, or from the last block to the count.
pub open spec fn bit_scan_steps(at: BitScan, out: Seq<u64>, to: BitScan) -> bool {
    match at {
        BitScan::Done(r) => to == BitScan::Done(r),
        BitScan::Drive(w) => if w.outs@.len() + 1 < block_total(w.kind) {
            &&& to matches BitScan::Drive(x) && x.wf() && x.kind == w.kind && x.a == w.a && views(
                x.outs@,
            ) == views(w.outs@).push(out)
        } else {
            to == BitScan::Done(packed(out, 0, 7))
        },
    }
}

/// The inputs of the next block.
fn make_inputs(kind: BitCount, a: u64, outs: &Vec<Vec<u64>>) -> (r: Vec<u64>)
    requires
        outs@.len() < block_total(kind),
        outs_wide(kind, views(outs@)),
    ensures
        r@ == inputs_at(kind, a, views(outs@)),
{
    let n: usize = outs.len();
    let ghost v = views(outs@);
    assert(forall|i: int| 0 <= i < n ==> #[trigger] v[i] == outs@[i]@);
    let from_top: bool = match kind {
        BitCount::TrailingZeros => false,
        _ => true,
    };
    if n < 8 {
        return bitscan_byte_inputs(a, from_top, n);
    }
    match kind {
        BitCount::Ones => {
            let (i, w): (usize, usize) = if n < 12 {
                (2 * (n - 8), 4)
            } else if n < 14 {
                (8 + 2 * (n - 12), 5)
            } else {
                (12, 6)
            };
            assert(v[i as int].len() >= w && v[i + 1].len() >= w);
            join_levels(&outs[i], &outs[i + 1], w)
        },
        _ => {
            if n < 10 {
                let mut bytes: Vec<Vec<u64>> = Vec::new();
                let mut i: usize = 0;
                while i < 8
                    invariant
                        i <= 8,
                        8 <= n,
                        n == outs@.len(),
                        v == views(outs@),
                        outs_wide(kind, v),
                        bytes@.len() == i,
                        forall|k: int| 0 <= k < i ==> (#[trigger] bytes@[k])@ == v[k],
                    decreases 8 - i,
                {
                    let mut b: Vec<u64> = Vec::new();
                    b.extend_from_slice(outs[i].as_slice());
                    assert(b@ =~= outs@[i as int]@);
                    bytes.push(b);
                    i = i + 1;
                }
                assert forall|k: int| 0 <= k < 8 implies (#[trigger] bytes@[k])@.len() >= 4 by {
                    assert(v[k].len() >= block_at(kind, k).width());
                }
                assert(views(bytes@) =~= v.take(8));
                bitscan_half_inputs(&bytes, from_top, n - 8)
            } else {
                assert(v[8].len() >= 6 && v[9].len() >= 6);
                join_levels(&outs[8], &outs[9], 6)
            }
        },
    }
}

/// The block that is driven when `n` blocks have been.
fn nth_block(kind: BitCount, n: usize) -> (b: BitBlock)
    requires
        n < block_total(kind),
    ensures
        b == block_at(kind, n as int),
{
    match kind {
        BitCount::Ones => if n < 8 {
            BitBlock::CountByte(n)
        } else if n < 12 {
            BitBlock::Add4(n - 8)
        } else if n < 14 {
            BitBlock::Add5(n - 12)
        } else {
            BitBlock::Add6
        },
        _ => if n < 8 {
            BitBlock::ScanByte(n)
        } else if n < 10 {
            BitBlock::ScanHalf(n - 8)
        } else {
            BitBlock::ScanFinal
        },
    }
}

/// Begin a bit operation on a word.
pub fn begin_bits(sub: u8, a: u64) -> (at: BitScan)
    requires
        1 <= sub <= 3,
    ensures
        at matches BitScan::Drive(w) && w.wf() && w.kind == bit_count(sub) && w.a == a
            && w.outs@.len() == 0,
{
    let kind: BitCount = if sub == 1 {
        BitCount::LeadingZeros
    } else if sub == 2 {
        BitCount::TrailingZeros
    } else {
        BitCount::Ones
    };
    let outs: Vec<Vec<u64>> = Vec::new();
    let inputs: Vec<u64> = make_inputs(kind, a, &outs);
    BitScan::Drive(BitWork { kind, a, outs, block: nth_block(kind, 0), inputs })
}

/// Take the outputs of the block that was to be driven, and go on to the next block or to the
/// count.
pub fn next_bit_block(at: BitScan, out: &Vec<u64>) -> (to: BitScan)
    requires
        at matches BitScan::Drive(w) ==> w.wf() && out@.len() >= w.block.width(),
    ensures
        bit_scan_steps(at, out@, to),
{
    match at {
        BitScan::Done(r) => BitScan::Done(r),
        BitScan::Drive(w) => {
            let BitWork { kind, a, outs, block: _, inputs: _ } = w;
            let mut outs: Vec<Vec<u64>> = outs;
            let n: usize = outs.len();
            let total: usize = match kind {
                BitCount::Ones => 15,
                _ => 11,
            };
            if n + 1 == total {
                return BitScan::Done(count_of_levels(out));
            }
            let mut copy: Vec<u64> = Vec::new();
            copy.extend_from_slice(out.as_slice());
            assert(copy@ =~= out@);
            let ghost before = views(outs@);
            outs.push(copy);
            proof {
                let after = views(outs@);
                assert(after =~= before.push(out@));
                assert forall|i: int| 0 <= i < after.len() implies (#[trigger] after[i]).len()
                    >= block_at(kind, i).width() by {
                    if i < n {
                        assert(after[i] == before[i]);
                    }
                }
            }
            let inputs: Vec<u64> = make_inputs(kind, a, &outs);
            BitScan::Drive(BitWork { kind, a, outs, block: nth_block(kind, n + 1), inputs })
        },
    }
}

// ---- What a whole run gives, when every block does its part ----

/// How many of the first `n` levels are high.
pub open spec fn highs(levels: Seq<u64>, n: nat) -> nat
    decreases n,
{
    if n == 0 {
        0
    } else {
        highs(levels, (n - 1) as nat) + if levels[n - 1] != 0 {
            1nat
        } else {
            0nat
        }
    }
}

/// A block does its part: the scan blocks find and combine, the others count and add.
pub open spec fn does_its_part(block: BitBlock, inp: Seq<u64>, out: Seq<u64>) -> bool {
    match block {
        BitBlock::ScanByte(_) => scans_byte(inp, out),
        BitBlock::ScanHalf(_) => combines_half(inp, out),
        BitBlock::ScanFinal => combines_all(inp, out),
        BitBlock::CountByte(_) => number_of(out, 0, 4) == highs(inp, 8),
        BitBlock::Add4(_) => adds(inp, out, 4),
        BitBlock::Add5(_) => adds(inp, out, 5),
        BitBlock::Add6 => adds(inp, out, 6),
    }
}

/// The outputs of all blocks of a run, each driven with the inputs that it was asked for with and
/// doing its part.
pub open spec fn is_bit_run(kind: BitCount, a: u64, outs: Seq<Seq<u64>>) -> bool {
    &&& outs.len() == block_total(kind)
    &&& outs_wide(kind, outs)
    &&& forall|i: int|
        0 <= i < outs.len() ==> does_its_part(
            block_at(kind, i),
            inputs_at(kind, a, outs.take(i)),
            #[trigger] outs[i],
        )
}

/// The number that is counted.
pub open spec fn counted(kind: BitCount, a: u64) -> int {
    match kind {
        BitCount::LeadingZeros => u64_leading_zeros(a) as int,
        BitCount::TrailingZeros => u64_trailing_zeros(a) as int,
        BitCount::Ones => popcount(a) as int,
    }
}

/// When every block does its part, the count that a run ends with is the word's leading zeros,
/// its trailing zeros or its set bits.
pub proof fn law_bit_run_counts(kind: BitCount, a: u64, outs: Seq<Seq<u64>>)
    requires
        is_bit_run(kind, a, outs),
    ensures
        packed(outs.last(), 0, 7) == counted(kind, a),
{
    law_packed_is_number(outs.last(), 7);
    if kind is Ones {
        lemma_run_adds(a, outs);
    } else {
        lemma_run_scans(kind, a, outs);
    }
}

proof fn lemma_run_scans(kind: BitCount, a: u64, outs: Seq<Seq<u64>>)
    requires
        is_bit_run(kind, a, outs),
        !(kind is Ones),
    ensures
        number_of(outs.last(), 0, 7) == counted(kind, a),
{
    let clz = kind is LeadingZeros;
    let bytes = outs.take(8);
    let halves = seq![outs[8], outs[9]];
    assert forall|s: int| 0 <= s < 8 implies scans_byte(
        scan_byte_levels(a, clz, s),
        #[trigger] bytes[scan_byte(clz, s)],
    ) by {
        let i = scan_byte(clz, s);
        assert(bytes[i] == outs[i]);
        assert(does_its_part(block_at(kind, i), inputs_at(kind, a, outs.take(i)), outs[i]));
        assert(scan_byte(clz, i) == s);
    }
    assert(outs.take(8).take(8) =~= bytes);
    assert(outs.take(9).take(8) =~= bytes);
    assert(does_its_part(block_at(kind, 8), inputs_at(kind, a, outs.take(8)), outs[8]));
    assert(does_its_part(block_at(kind, 9), inputs_at(kind, a, outs.take(9)), outs[9]));
    assert(does_its_part(block_at(kind, 10), inputs_at(kind, a, outs.take(10)), outs[10]));
    assert(outs[8].len() >= 6 && outs[9].len() >= 6);
    law_hierarchy_scans(a, clz, bytes, halves, outs[10]);
    if clz {
        law_first_high_is_leading_zeros(a, number_of(outs[10], 0, 7));
    } else {
        law_first_high_is_trailing_zeros(a, number_of(outs[10], 0, 7));
    }
}

proof fn lemma_run_adds(a: u64, outs: Seq<Seq<u64>>)
    requires
        is_bit_run(BitCount::Ones, a, outs),
    ensures
        number_of(outs.last(), 0, 7) == popcount(a),
{
    let kind = BitCount::Ones;
    let bytes = outs.subrange(0, 8);
    let fours = outs.subrange(8, 12);
    let fives = outs.subrange(12, 14);
    assert forall|i: int| 0 <= i < 8 implies (#[trigger] bytes[i]).len() >= 4 && number_of(
        bytes[i],
        0,
        4,
    ) == byte_ones(a, i) by {
        assert(bytes[i] == outs[i]);
        assert(does_its_part(block_at(kind, i), inputs_at(kind, a, outs.take(i)), outs[i]));
        lemma_highs_of_byte(a, i);
    }
    assert forall|i: int| 0 <= i < 4 implies (#[trigger] fours[i]).len() >= 5 && adds(
        joined(bytes[2 * i], bytes[2 * i + 1], 4),
        fours[i],
        4,
    ) by {
        let n = 8 + i;
        assert(fours[i] == outs[n]);
        assert(does_its_part(block_at(kind, n), inputs_at(kind, a, outs.take(n)), outs[n]));
        assert(outs.take(n)[2 * i] == bytes[2 * i]);
        assert(outs.take(n)[2 * i + 1] == bytes[2 * i + 1]);
    }
    assert forall|i: int| 0 <= i < 2 implies (#[trigger] fives[i]).len() >= 6 && adds(
        joined(fours[2 * i], fours[2 * i + 1], 5),
        fives[i],
        5,
    ) by {
        let n = 12 + i;
        assert(fives[i] == outs[n]);
        assert(does_its_part(block_at(kind, n), inputs_at(kind, a, outs.take(n)), outs[n]));
        assert(outs.take(n)[8 + 2 * i] == fours[2 * i]);
        assert(outs.take(n)[9 + 2 * i] == fours[2 * i + 1]);
    }
    assert(does_its_part(block_at(kind, 14), inputs_at(kind, a, outs.take(14)), outs[14]));
    assert(outs.take(14)[12] == fives[0]);
    assert(outs.take(14)[13] == fives[1]);
    law_hierarchy_counts(a, bytes, fours, fives, outs[14]);
}

/// The high inputs of a byte's counting block are the byte's set bits.
proof fn lemma_highs_of_byte(a: u64, byte: int)
    requires
        0 <= byte < 8,
    ensures
        highs(scan_byte_levels(a, true, scan_byte(true, byte)), 8) == byte_ones(a, byte),
{
    let levels = scan_byte_levels(a, true, scan_byte(true, byte));
    let s = (8 * byte) as u64;
    let y = (a >> s) & 0xFF;
    lemma_byte_of(a, byte);
    assert forall|i: int| 0 <= i < 8 implies #[trigger] levels[i] == level_of(y, i as u64) by {
        let k = i as u64;
        assert(levels[i] == level_of(a, (s + k) as u64));
        let j = (s + k) as u64;
        assert((a >> j) & 1 == (((a >> s) & 0xFF) >> k) & 1) by (bit_vector)
            requires
                j == s + k,
                k < 8,
                s <= 56,
        ;
    }
    assert((a >> s) & 0xFF < 256) by (bit_vector);
    lemma_highs_are_ones(levels, y);
}

/// A byte of a word by division and by shifting.
proof fn lemma_byte_of(a: u64, byte: int)
    requires
        0 <= byte < 8,
    ensures
        byte_ones(a, byte) == popcount((a >> ((8 * byte) as u64)) & 0xFF),
{
    assert(pow2(0) == 1 && pow2(8) == 0x100 && pow2(16) == 0x1_0000 && pow2(24) == 0x100_0000
        && pow2(32) == 0x1_0000_0000 && pow2(40) == 0x100_0000_0000 && pow2(48)
        == 0x1_0000_0000_0000 && pow2(56) == 0x100_0000_0000_0000) by {
        reveal_with_fuel(pow2, 57);
    }
    assert((a >> 0u64) & 0xFF == a % 256 && (a >> 8u64) & 0xFF == (a / 0x100) % 256 && (a >> 16u64)
        & 0xFF == (a / 0x1_0000) % 256 && (a >> 24u64) & 0xFF == (a / 0x100_0000) % 256 && (a
        >> 32u64) & 0xFF == (a / 0x1_0000_0000) % 256 && (a >> 40u64) & 0xFF == (a
        / 0x100_0000_0000) % 256 && (a >> 48u64) & 0xFF == (a / 0x1_0000_0000_0000) % 256 && (a
        >> 56u64) & 0xFF == (a / 0x100_0000_0000_0000) % 256) by (bit_vector);
}

/// The high levels of a byte are its set bits.
proof fn lemma_highs_are_ones(levels: Seq<u64>, y: u64)
    requires
        levels.len() == 8,
        y < 256,
        forall|i: int| 0 <= i < 8 ==> #[trigger] levels[i] == level_of(y, i as u64),
    ensures
        highs(levels, 8) == popcount(y),
{
    reveal_with_fuel(highs, 9);
    assert(y % 2 == (y >> 0u64) & 1 && (y / 2) % 2 == (y >> 1u64) & 1 && (y / 4) % 2 == (y >> 2u64)
        & 1 && (y / 8) % 2 == (y >> 3u64) & 1 && (y / 16) % 2 == (y >> 4u64) & 1 && (y / 32) % 2
        == (y >> 5u64) & 1 && (y / 64) % 2 == (y >> 6u64) & 1 && (y / 128) % 2 == (y >> 7u64) & 1)
        by (bit_vector);
    lemma_popcount_step(y);
    lemma_popcount_step(y / 2);
    lemma_popcount_step(y / 4);
    lemma_popcount_step(y / 8);
    lemma_popcount_step(y / 16);
    lemma_popcount_step(y / 32);
    lemma_popcount_step(y / 64);
    lemma_popcount_step(y / 128);
    assert(popcount(0) == 0);
    assert(levels[0] == level_of(y, 0) && levels[1] == level_of(y, 1) && levels[2] == level_of(
        y,
        2,
    ) && levels[3] == level_of(y, 3) && levels[4] == level_of(y, 4) && levels[5] == level_of(y, 5)
        && levels[6] == level_of(y, 6) && levels[7] == level_of(y, 7));
}

} // verus!
