//! Tile operations: what each of them puts on its output tile, bit by bit or as a number.
//!
//! In every law `v` holds the values of the three operand tiles and of the four neighbours, and `r`
//! is the value put on the output tile.
use vstd::arithmetic::power2::{lemma2_to64, pow2};
use vstd::bits::{lemma_u64_low_bits_mask_is_mod, lemma_u64_shr_is_div};
use vstd::prelude::*;

use crate::bits::lemma_bit_of;
use crate::cop::{
    op_value, COP_ADD, COP_AND, COP_BITSEL, COP_CARRY, COP_CONST, COP_DEC3, COP_GENERIC, COP_MUX,
    COP_MUX16, COP_MUX4, COP_NOT, COP_OR, COP_RAM, COP_SHL, COP_SHR, COP_SUB, COP_THRESHOLD_VIA,
    COP_VIA, COP_WIRE, COP_WIRE_D, COP_WIRE_H, COP_WIRE_L, COP_WIRE_R, COP_WIRE_U, COP_WIRE_V,
    COP_WVIA, COP_XOR, COP_ZERO,
};

verus! {

/// A wire or via with one driver carries its value: the first operand from the left and through a
/// via, the second from the right, the third from above and below. A wire with two drivers carries
/// a bit that either of them carries.
pub proof fn law_wires_carry_their_drivers(
    code: u8,
    v: Seq<u64>,
    cur: u64,
    threshold: u8,
    shift: u8,
    mask: u64,
    r: u64,
    k: u64,
)
    requires
        r == op_value(code, v, cur, threshold, shift, mask),
        k < 64,
    ensures
        code == COP_WIRE_R || code == COP_VIA ==> r == v[0],
        code == COP_WIRE_L ==> r == v[1],
        code == COP_WIRE_D || code == COP_WIRE_U ==> r == v[2],
        code == COP_WIRE_H ==> ((r >> k) & 1 == 1 <==> (v[0] >> k) & 1 == 1 || (v[1] >> k) & 1
            == 1),
        code == COP_WIRE_V ==> ((r >> k) & 1 == 1 <==> (v[1] >> k) & 1 == 1 || (v[2] >> k) & 1
            == 1),
{
    lemma_bit_of(v[0], v[1], 0, k);
    lemma_bit_of(v[1], v[2], 0, k);
}

/// The gates work bit by bit: AND where both are set, OR where one is, XOR where they differ, NOT
/// where the operand is clear. The zero test drives all ones for a zero and zero for all else.
pub proof fn law_gates_work_bit_by_bit(
    code: u8,
    v: Seq<u64>,
    cur: u64,
    threshold: u8,
    shift: u8,
    mask: u64,
    r: u64,
    k: u64,
)
    requires
        r == op_value(code, v, cur, threshold, shift, mask),
        k < 64,
    ensures
        code == COP_AND ==> ((r >> k) & 1 == 1 <==> (v[0] >> k) & 1 == 1 && (v[1] >> k) & 1 == 1),
        code == COP_OR ==> ((r >> k) & 1 == 1 <==> (v[0] >> k) & 1 == 1 || (v[1] >> k) & 1 == 1),
        code == COP_XOR ==> ((r >> k) & 1 == 1 <==> ((v[0] >> k) & 1 == 1) != ((v[1] >> k) & 1
            == 1)),
        code == COP_NOT ==> ((r >> k) & 1 == 1 <==> (v[0] >> k) & 1 != 1),
        code == COP_ZERO && v[0] == 0 ==> r == 0xFFFF_FFFF_FFFF_FFFF,
        code == COP_ZERO && v[0] != 0 ==> r == 0,
{
    lemma_bit_of(v[0], v[1], 0, k);
}

/// The adder and the subtractor work modulo two to the sixty-fourth; the carry tile drives all ones
/// where its first operand exceeds the second, as it does a sum's operand where the sum wrapped.
pub proof fn law_tiles_add_and_subtract(
    code: u8,
    v: Seq<u64>,
    cur: u64,
    threshold: u8,
    shift: u8,
    mask: u64,
    r: u64,
)
    requires
        r == op_value(code, v, cur, threshold, shift, mask),
    ensures
        code == COP_ADD ==> r == (v[0] + v[1]) % 0x1_0000_0000_0000_0000,
        code == COP_SUB ==> r == (v[0] - v[1]) % 0x1_0000_0000_0000_0000,
        code == COP_CARRY && v[0] > v[1] ==> r == 0xFFFF_FFFF_FFFF_FFFF,
        code == COP_CARRY && v[0] <= v[1] ==> r == 0,
{
}

/// The shifters move bit `k` down or up by the low six bits of the second operand and let zeros in;
/// a weighted via moves it down by its shift and lets through the bits of its mask.
pub proof fn law_tiles_shift(
    code: u8,
    v: Seq<u64>,
    cur: u64,
    threshold: u8,
    shift: u8,
    mask: u64,
    r: u64,
    k: u64,
)
    requires
        r == op_value(code, v, cur, threshold, shift, mask),
        k < 64,
        shift < 64,
    ensures
        code == COP_SHR && k + v[1] % 64 < 64 ==> (r >> k) & 1 == (v[0] >> ((k + v[1]
            % 64) as u64)) & 1,
        code == COP_SHR && k + v[1] % 64 >= 64 ==> (r >> k) & 1 == 0,
        code == COP_SHL && k >= v[1] % 64 ==> (r >> k) & 1 == (v[0] >> ((k - v[1] % 64) as u64)) & 1,
        code == COP_SHL && k < v[1] % 64 ==> (r >> k) & 1 == 0,
        code == COP_WVIA ==> ((r >> k) & 1 == 1 <==> (mask >> k) & 1 == 1 && k + shift < 64 && (v[0]
            >> ((k + shift) as u64)) & 1 == 1),
{
    lemma_bit_of(v[0], v[0], v[1] % 64, k);
    lemma_bit_of(v[0], v[0], shift as u64, k);
    lemma_bit_of(v[0] >> (shift as u64), mask, 0, k);
}

/// The two-way multiplexer gives its first operand where the third is not zero, else the second. A
/// 16-way byte multiplexer with selector `s` gives byte `s` of the sixteen that the first operand
/// and then the third hold, lowest first; a four-way one, whose selector is the third operand, byte
/// `s` of the first.
pub proof fn law_multiplexers_select(
    code: u8,
    v: Seq<u64>,
    cur: u64,
    threshold: u8,
    shift: u8,
    mask: u64,
    r: u64,
    s: int,
)
    requires
        r == op_value(code, v, cur, threshold, shift, mask),
        s == if code == COP_MUX16 {
            v[1] as int % 16
        } else {
            v[2] as int % 4
        },
    ensures
        code == COP_MUX && v[2] != 0 ==> r == v[0],
        code == COP_MUX && v[2] == 0 ==> r == v[1],
        code == COP_MUX16 && s < 8 ==> r == (v[0] as int / pow2((8 * s) as nat) as int) % 256,
        code == COP_MUX16 && s >= 8 ==> r == (v[2] as int / pow2((8 * (s - 8)) as nat) as int)
            % 256,
        code == COP_MUX4 ==> r == (v[0] as int / pow2((8 * s) as nat) as int) % 256,
{
    lemma2_to64();
    if code == COP_MUX16 {
        let sel = v[1] % 16;
        let data = if sel < 8 {
            v[0]
        } else {
            v[2]
        };
        let amount = ((sel % 8) * 8) as u64;
        assert(amount == if s < 8 {
            8 * s
        } else {
            8 * (s - 8)
        });
        lemma_u64_shr_is_div(data, amount);
        lemma_u64_low_bits_mask_is_mod(data >> amount, 8);
    }
    if code == COP_MUX4 {
        let amount = ((v[2] % 4) * 8) as u64;
        assert(amount == 8 * s);
        lemma_u64_shr_is_div(v[0], amount);
        lemma_u64_low_bits_mask_is_mod(v[0] >> amount, 8);
    }
}

/// The decoder sets the one bit that the low three bits of its operand name. The bit selector
/// drives all ones where the bit that the low six bits of its second operand name is set in the
/// first, else zero.
pub proof fn law_decoders_name_a_bit(
    code: u8,
    v: Seq<u64>,
    cur: u64,
    threshold: u8,
    shift: u8,
    mask: u64,
    r: u64,
    k: u64,
)
    requires
        r == op_value(code, v, cur, threshold, shift, mask),
        k < 64,
    ensures
        code == COP_DEC3 ==> ((r >> k) & 1 == 1 <==> k == v[0] % 8),
        code == COP_BITSEL && k == v[1] % 64 && (v[0] >> k) & 1 == 1 ==> r
            == 0xFFFF_FFFF_FFFF_FFFF,
        code == COP_BITSEL && k == v[1] % 64 && (v[0] >> k) & 1 == 0 ==> r == 0,
{
    lemma_bit_of(1, 1, v[0] % 8, k);
    lemma_one_bits(k);
    if k >= v[0] % 8 {
        lemma_one_bits((k - v[0] % 8) as u64);
    }
}

/// The bits of one.
pub(crate) proof fn lemma_one_bits(k: u64)
    requires
        k < 64,
    ensures
        (1u64 >> k) & 1 == 1 <==> k == 0,
{
    assert((1u64 >> k) & 1 == 1 <==> k == 0) by (bit_vector)
        requires
            k < 64,
    ;
}

/// A threshold via lets its operand through where at least as many of the four neighbours as its
/// threshold are not zero, else it gives zero. A memory tile takes its first operand where the
/// third is not zero, and else keeps what it holds. An operation that is none of these keeps what
/// its tile holds.
pub proof fn law_thresholds_and_memory(
    code: u8,
    v: Seq<u64>,
    cur: u64,
    threshold: u8,
    shift: u8,
    mask: u64,
    r: u64,
    active: int,
)
    requires
        r == op_value(code, v, cur, threshold, shift, mask),
        active == (if v[3] != 0 {
            1int
        } else {
            0int
        }) + (if v[4] != 0 {
            1int
        } else {
            0int
        }) + (if v[5] != 0 {
            1int
        } else {
            0int
        }) + (if v[6] != 0 {
            1int
        } else {
            0int
        }),
    ensures
        code == COP_THRESHOLD_VIA && active >= threshold ==> r == v[0],
        code == COP_THRESHOLD_VIA && active < threshold ==> r == 0,
        code == COP_RAM && v[2] != 0 ==> r == v[0],
        code == COP_RAM && v[2] == 0 ==> r == cur,
        code == COP_CONST || code == COP_WIRE || code == COP_GENERIC || code > 27 ==> r == cur,
{
}

} // verus!
