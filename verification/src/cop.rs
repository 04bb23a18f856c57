//! Tile operation codes and what each operation computes.
//!
//! A tile operation reads up to three operand tiles (`in0`, `in1`, `in2`) and, for a
//! threshold via, four neighbour tiles, and writes one output tile. The numbering of the
//! codes is internal: op tables and generated kernel text both take it from here.
use vstd::prelude::*;

use crate::bits;

verus! {

pub const COP_CONST: u8 = 0;

pub const COP_WIRE: u8 = 1;

pub const COP_GENERIC: u8 = 2;

pub const COP_WIRE_R: u8 = 3;

pub const COP_WIRE_L: u8 = 4;

pub const COP_WIRE_D: u8 = 5;

pub const COP_WIRE_U: u8 = 6;

pub const COP_WIRE_H: u8 = 7;

pub const COP_WIRE_V: u8 = 8;

pub const COP_VIA: u8 = 9;

pub const COP_WVIA: u8 = 10;

pub const COP_THRESHOLD_VIA: u8 = 11;

pub const COP_AND: u8 = 12;

pub const COP_OR: u8 = 13;

pub const COP_XOR: u8 = 14;

pub const COP_NOT: u8 = 15;

pub const COP_ZERO: u8 = 16;

pub const COP_ADD: u8 = 17;

pub const COP_SUB: u8 = 18;

pub const COP_SHR: u8 = 19;

pub const COP_SHL: u8 = 20;

pub const COP_MUX: u8 = 21;

pub const COP_MUX4: u8 = 22;

pub const COP_MUX16: u8 = 23;

pub const COP_DEC3: u8 = 24;

pub const COP_BITSEL: u8 = 25;

pub const COP_CARRY: u8 = 26;

pub const COP_RAM: u8 = 27;

/// All ones for `true`, zero for `false`.
pub open spec fn level(b: bool) -> u64 {
    if b {
        u64::MAX
    } else {
        0
    }
}

/// All ones for `true`, zero for `false`.
pub fn drive_level(b: bool) -> (r: u64)
    ensures
        r == level(b),
{
    if b {
        u64::MAX
    } else {
        0
    }
}

/// How many of the four neighbour values are non-zero.
pub open spec fn active_neighbors(n0: u64, n1: u64, n2: u64, n3: u64) -> int {
    (if n0 != 0 { 1int } else { 0int }) + (if n1 != 0 { 1int } else { 0int })
        + (if n2 != 0 { 1int } else { 0int }) + (if n3 != 0 { 1int } else { 0int })
}

/// The value an operation with code `code` puts on its output tile.
///
/// `v` holds the values of `in0`, `in1`, `in2` and the four neighbours, in that order, and
/// `cur` is what the output tile holds. A code without a rule of its own keeps `cur`.
pub open spec fn op_value(
    code: u8,
    v: Seq<u64>,
    cur: u64,
    threshold: u8,
    shift: u8,
    mask: u64,
) -> u64 {
    if code == COP_WIRE_R || code == COP_VIA {
        v[0]
    } else if code == COP_WIRE_L {
        v[1]
    } else if code == COP_WIRE_D || code == COP_WIRE_U {
        v[2]
    } else if code == COP_WIRE_H || code == COP_OR {
        v[0] | v[1]
    } else if code == COP_WIRE_V {
        v[1] | v[2]
    } else if code == COP_AND {
        v[0] & v[1]
    } else if code == COP_XOR {
        v[0] ^ v[1]
    } else if code == COP_MUX {
        if v[2] != 0 {
            v[0]
        } else {
            v[1]
        }
    } else if code == COP_NOT {
        !v[0]
    } else if code == COP_ZERO {
        level(v[0] == 0)
    } else if code == COP_ADD {
        v[0].wrapping_add(v[1])
    } else if code == COP_SUB {
        v[0].wrapping_sub(v[1])
    } else if code == COP_SHR {
        v[0] >> (v[1] % 64)
    } else if code == COP_SHL {
        v[0] << (v[1] % 64)
    } else if code == COP_MUX16 {
        let sel = v[1] % 16;
        ((if sel < 8 {
            v[0]
        } else {
            v[2]
        }) >> ((sel % 8) * 8) as u64) & 0xFF
    } else if code == COP_DEC3 {
        1u64 << (v[0] % 8)
    } else if code == COP_BITSEL {
        level((v[0] >> (v[1] % 64)) & 1 != 0)
    } else if code == COP_CARRY {
        level(v[0] > v[1])
    } else if code == COP_WVIA {
        (v[0] >> shift) & mask
    } else if code == COP_THRESHOLD_VIA {
        if active_neighbors(v[3], v[4], v[5], v[6]) >= threshold {
            v[0]
        } else {
            0
        }
    } else if code == COP_MUX4 {
        (v[0] >> ((v[2] % 4) * 8) as u64) & 0xFF
    } else if code == COP_RAM {
        if v[2] != 0 {
            v[0]
        } else {
            cur
        }
    } else {
        cur
    }
}

/// The codes that combine their inputs alone; their result never depends on `cur`.
pub open spec fn is_combinational(code: u8) -> bool {
    COP_WIRE_R <= code && code <= COP_CARRY
}

/// Which of the seven inputs an operation reads.
pub open spec fn reads_input(code: u8, k: int) -> bool {
    if code == COP_WIRE_R || code == COP_VIA || code == COP_NOT || code == COP_ZERO || code
        == COP_DEC3 || code == COP_WVIA {
        k == 0
    } else if code == COP_WIRE_L {
        k == 1
    } else if code == COP_WIRE_D || code == COP_WIRE_U {
        k == 2
    } else if code == COP_WIRE_H || code == COP_OR || code == COP_AND || code == COP_XOR || code
        == COP_ADD || code == COP_SUB || code == COP_SHR || code == COP_SHL || code == COP_BITSEL
        || code == COP_CARRY {
        k == 0 || k == 1
    } else if code == COP_WIRE_V {
        k == 1 || k == 2
    } else if code == COP_MUX || code == COP_MUX16 {
        k == 0 || k == 1 || k == 2
    } else if code == COP_MUX4 || code == COP_RAM {
        k == 0 || k == 2
    } else if code == COP_THRESHOLD_VIA {
        k == 0 || (3 <= k && k < 7)
    } else {
        false
    }
}

/// An operation's value depends only on the inputs it reads and, unless the code is
/// combinational, on what the output tile holds.
pub proof fn lemma_op_value_reads(
    code: u8,
    v: Seq<u64>,
    w: Seq<u64>,
    cur_v: u64,
    cur_w: u64,
    threshold: u8,
    shift: u8,
    mask: u64,
)
    requires
        forall|k: int| 0 <= k < 7 && reads_input(code, k) ==> v[k] == w[k],
        is_combinational(code) || cur_v == cur_w,
    ensures
        op_value(code, v, cur_v, threshold, shift, mask) == op_value(
            code,
            w,
            cur_w,
            threshold,
            shift,
            mask,
        ),
{
    assert(reads_input(code, 0) ==> v[0] == w[0]);
    assert(reads_input(code, 1) ==> v[1] == w[1]);
    assert(reads_input(code, 2) ==> v[2] == w[2]);
    assert(reads_input(code, 3) ==> v[3] == w[3]);
    assert(reads_input(code, 4) ==> v[4] == w[4]);
    assert(reads_input(code, 5) ==> v[5] == w[5]);
    assert(reads_input(code, 6) ==> v[6] == w[6]);
}

/// The value an operation puts on its output tile, from the seven input values and the
/// value the output tile holds.
pub fn eval_op(
    code: u8,
    v0: u64,
    v1: u64,
    v2: u64,
    n0: u64,
    n1: u64,
    n2: u64,
    n3: u64,
    cur: u64,
    threshold: u8,
    shift: u8,
    mask: u64,
) -> (r: u64)
    requires
        shift < 64,
    ensures
        r == op_value(code, seq![v0, v1, v2, n0, n1, n2, n3], cur, threshold, shift, mask),
        code == COP_MUX16 && v1 % 16 < 8 ==> r == (v0 >> ((8 * (v1 % 16)) as u64)) & 0xFF,
        code == COP_MUX16 && v1 % 16 >= 8 ==> r == (v2 >> ((8 * (v1 % 16 - 8)) as u64)) & 0xFF,
{
    proof {
        bits::lemma_and_63(v1);
        bits::lemma_and_15(v1);
        bits::lemma_and_7(v0);
        bits::lemma_and_3(v2);
    }
    if code == COP_WIRE_R || code == COP_VIA {
        v0
    } else if code == COP_WIRE_L {
        v1
    } else if code == COP_WIRE_D || code == COP_WIRE_U {
        v2
    } else if code == COP_WIRE_H || code == COP_OR {
        v0 | v1
    } else if code == COP_WIRE_V {
        v1 | v2
    } else if code == COP_AND {
        v0 & v1
    } else if code == COP_XOR {
        v0 ^ v1
    } else if code == COP_MUX {
        if v2 != 0 {
            v0
        } else {
            v1
        }
    } else if code == COP_NOT {
        !v0
    } else if code == COP_ZERO {
        drive_level(v0 == 0)
    } else if code == COP_ADD {
        v0.wrapping_add(v1)
    } else if code == COP_SUB {
        v0.wrapping_sub(v1)
    } else if code == COP_SHR {
        v0 >> (v1 & 63)
    } else if code == COP_SHL {
        v0 << (v1 & 63)
    } else if code == COP_MUX16 {
        let sel: u64 = v1 & 0xF;
        let data: u64 = if sel < 8 {
            v0
        } else {
            v2
        };
        (data >> ((sel % 8) * 8)) & 0xFF
    } else if code == COP_DEC3 {
        1u64 << (v0 & 7)
    } else if code == COP_BITSEL {
        drive_level((v0 >> (v1 & 63)) & 1 != 0)
    } else if code == COP_CARRY {
        drive_level(v0 > v1)
    } else if code == COP_WVIA {
        (v0 >> shift) & mask
    } else if code == COP_THRESHOLD_VIA {
        let mut active: u8 = 0;
        if n0 != 0 {
            active = active + 1;
        }
        if n1 != 0 {
            active = active + 1;
        }
        if n2 != 0 {
            active = active + 1;
        }
        if n3 != 0 {
            active = active + 1;
        }
        if active >= threshold {
            v0
        } else {
            0
        }
    } else if code == COP_MUX4 {
        (v0 >> ((v2 & 3) * 8)) & 0xFF
    } else if code == COP_RAM {
        if v2 != 0 {
            v0
        } else {
            cur
        }
    } else {
        cur
    }
}

} // verus!
