//! What each instruction computes: results, register writes and flags.
use vstd::prelude::*;
use vstd::std_specs::bits::{u64_leading_zeros, u64_trailing_zeros};

verus! {

/// How many bits are set.
pub open spec fn popcount(x: u64) -> nat
    decreases x,
{
    if x == 0 {
        0
    } else {
        (x % 2) as nat + popcount(x / 2)
    }
}

/// Arithmetic right shift.
pub open spec fn sra(a: u64, s: int) -> u64 {
    ((a as i64) >> (s as u64)) as u64
}

/// Arithmetic right shift.
pub fn shift_arithmetic(a: u64, s: u64) -> (r: u64)
    requires
        s < 64,
    ensures
        r == sra(a, s as int),
{
    ((a as i64) >> s) as u64
}

/// How many bits are set.
pub fn count_ones(x: u64) -> (n: u64)
    ensures
        n == popcount(x),
        n <= 64,
{
    let mut n: u64 = 0;
    let mut rest: u64 = x;
    let mut left: u64 = 64;
    assert(pow2(64) == 0x1_0000_0000_0000_0000) by {
        reveal_with_fuel(pow2, 65);
    }
    while rest != 0
        invariant
            n + popcount(rest) == popcount(x),
            n + left <= 64,
            left <= 64,
            rest < pow2(left as nat),
        decreases rest,
    {
        proof {
            if left == 0 {
                assert(pow2(0) == 1);
            }
            assert(pow2(left as nat) == 2 * pow2((left - 1) as nat));
        }
        n = n + rest % 2;
        rest = rest / 2;
        left = left - 1;
    }
    n
}

/// A power of two.
pub open spec fn pow2(k: nat) -> int
    decreases k,
{
    if k == 0 {
        1
    } else {
        2 * pow2((k - 1) as nat)
    }
}

/// The opcode reads its source register.
pub open spec fn uses_rs(opcode: u8) -> bool {
    opcode == 0x02 || (0x04 <= opcode && opcode <= 0x08) || opcode == 0x0F || opcode == 0x16
        || opcode == 0x17
}

/// Whether the opcode reads its source register.
pub fn opcode_uses_rs(opcode: u8) -> (r: bool)
    ensures
        r == uses_rs(opcode),
{
    opcode == 0x02 || (0x04 <= opcode && opcode <= 0x08) || opcode == 0x0F || opcode == 0x16
        || opcode == 0x17
}

/// An instruction that shares its opcode with a base operation: MUL, CLZ, CTZ, POPCNT, SRA.
pub open spec fn is_sub_function(opcode: u8, imm8: u8) -> bool {
    (opcode == 0x04 && imm8 % 32 == 1) || (opcode == 0x09 && imm8 % 32 >= 1) || (opcode == 0x0E && (
    imm8 / 8) % 2 == 1)
}

/// Whether an instruction shares its opcode with a base operation.
pub fn sub_function(opcode: u8, imm8: u8) -> (r: bool)
    ensures
        r == is_sub_function(opcode, imm8),
{
    (opcode == 0x04 && imm8 % 32 == 1) || (opcode == 0x09 && imm8 % 32 >= 1) || (opcode == 0x0E && (
    imm8 / 8) % 2 == 1)
}

/// An instruction that loads from memory.
pub open spec fn is_load(opcode: u8) -> bool {
    opcode == 0x16 || opcode == 0x18
}

/// An instruction that stores to memory.
pub open spec fn is_store(opcode: u8) -> bool {
    opcode == 0x17 || opcode == 0x19
}

/// The opcode writes the flags.
pub open spec fn writes_flags(opcode: u8) -> bool {
    (0x03 <= opcode && opcode <= 0x14) || is_load(opcode)
}

/// Whether the opcode writes the flags.
pub fn opcode_writes_flags(opcode: u8) -> (r: bool)
    ensures
        r == writes_flags(opcode),
{
    (0x03 <= opcode && opcode <= 0x14) || opcode == 0x16 || opcode == 0x18
}

/// The inputs of one execution that are not memory: operands, immediates, flags and the link
/// register.
pub struct AluInputs {
    pub opcode: u8,
    pub imm8: u8,
    /// The immediate, extended to 16 bits when the instruction has a wide one.
    pub imm: u64,
    pub a: u64,
    pub b: u64,
    pub flag_z: bool,
    pub flag_c: bool,
    pub link: u64,
}

/// What an execution gives: the result, whether it is written to the destination register,
/// and the flags after it.
#[derive(Clone, Copy, Debug)]
pub struct AluOutcome {
    pub result: u64,
    pub writes_reg: bool,
    pub flag_z: bool,
    pub flag_c: bool,
}

/// The bit operation that sub-function `sub` of the NOT opcode computes.
pub open spec fn bit_function(sub: int, a: u64) -> u64 {
    if sub == 1 {
        u64_leading_zeros(a) as u64
    } else if sub == 2 {
        u64_trailing_zeros(a) as u64
    } else if sub == 3 {
        popcount(a) as u64
    } else {
        !a
    }
}

/// The result of an instruction that does not access memory; zero where it has none.
pub open spec fn result_of(i: AluInputs) -> u64 {
    let op = i.opcode;
    let sub = i.imm8 % 32;
    if op == 0x02 {
        if sub == 5 {
            i.link
        } else {
            i.b
        }
    } else if op == 0x03 {
        i.imm
    } else if op == 0x04 {
        if sub == 1 {
            i.a.wrapping_mul(i.b)
        } else {
            i.a.wrapping_add(i.b)
        }
    } else if op == 0x05 || op == 0x0F {
        i.a.wrapping_sub(i.b)
    } else if op == 0x06 {
        i.a & i.b
    } else if op == 0x07 {
        i.a | i.b
    } else if op == 0x08 {
        i.a ^ i.b
    } else if op == 0x09 {
        bit_function(sub as int, i.a)
    } else if op == 0x0A {
        0u64.wrapping_sub(i.b)
    } else if op == 0x0B {
        i.a.wrapping_add(i.imm8 as u64)
    } else if op == 0x0C {
        i.a.wrapping_sub(i.imm8 as u64)
    } else if op == 0x0D {
        i.a << ((i.imm8 % 64) as u64)
    } else if op == 0x0E {
        if (i.imm8 / 8) % 2 == 1 {
            sra(i.a, (i.imm8 % 8) as int)
        } else {
            i.a >> ((i.imm8 % 8) as u64)
        }
    } else if op == 0x10 {
        i.a.wrapping_add(i.imm)
    } else if op == 0x11 {
        i.a.wrapping_sub(i.imm)
    } else if op == 0x12 {
        i.a & i.imm
    } else if op == 0x13 {
        i.a | i.imm
    } else if op == 0x14 {
        i.a ^ i.imm
    } else {
        0
    }
}

/// The condition of a move holds.
pub open spec fn move_taken(sub: int, z: bool, c: bool) -> bool {
    if sub == 1 {
        z
    } else if sub == 2 {
        !z
    } else if sub == 3 {
        c
    } else if sub == 4 {
        !c
    } else {
        true
    }
}

/// The instruction, which does not access memory, writes its destination register.
pub open spec fn writes_reg(i: AluInputs) -> bool {
    if i.opcode == 0x02 {
        move_taken((i.imm8 % 32) as int, i.flag_z, i.flag_c)
    } else {
        (0x03 <= i.opcode && i.opcode <= 0x0E) || (0x10 <= i.opcode && i.opcode <= 0x14)
    }
}

/// The carry after an instruction whose result is `result`.
///
/// Additions carry when they wrap, subtractions when they borrow, shifts by an amount that is
/// no multiple of eight give the last bit of the low byte shifted out; everything else keeps
/// the carry.
pub open spec fn carry_after(i: AluInputs, result: u64) -> bool {
    let op = i.opcode;
    if (op == 0x04 && i.imm8 % 32 != 1) || op == 0x0B || op == 0x10 {
        i.a > result
    } else if op == 0x05 || op == 0x0A || op == 0x0C || op == 0x0F || op == 0x11 {
        result > i.a
    } else if op == 0x0D && i.imm8 % 8 != 0 {
        (i.a >> (((72 - i.imm8 % 64) % 64) as u64)) & 1 != 0
    } else if op == 0x0E && i.imm8 % 8 != 0 {
        (i.a >> ((i.imm8 % 8 - 1) as u64)) & 1 != 0
    } else {
        i.flag_c
    }
}

/// The zero flag after an instruction whose result is `result`.
pub open spec fn zero_after(i: AluInputs, result: u64) -> bool {
    if 0x03 <= i.opcode && i.opcode <= 0x14 {
        result == 0
    } else {
        i.flag_z
    }
}

/// What an instruction that does not access memory gives.
pub open spec fn outcome_of(i: AluInputs) -> AluOutcome {
    AluOutcome {
        result: result_of(i),
        writes_reg: writes_reg(i),
        flag_z: zero_after(i, result_of(i)),
        flag_c: carry_after(i, result_of(i)),
    }
}

/// The bit operation that sub-function `sub` of the NOT opcode computes.
pub fn bit_op(sub: u8, a: u64) -> (r: u64)
    ensures
        r == bit_function(sub as int, a),
{
    if sub == 1 {
        a.leading_zeros() as u64
    } else if sub == 2 {
        a.trailing_zeros() as u64
    } else if sub == 3 {
        count_ones(a)
    } else {
        !a
    }
}

/// The result of an instruction that does not access memory.
fn compute_result(i: &AluInputs) -> (r: u64)
    ensures
        r == result_of(*i),
{
    let sub: u8 = i.imm8 % 32;
    match i.opcode {
        0x02 => if sub == 5 {
            i.link
        } else {
            i.b
        },
        0x03 => i.imm,
        0x04 => if sub == 1 {
            i.a.wrapping_mul(i.b)
        } else {
            i.a.wrapping_add(i.b)
        },
        0x05 => i.a.wrapping_sub(i.b),
        0x06 => i.a & i.b,
        0x07 => i.a | i.b,
        0x08 => i.a ^ i.b,
        0x09 => bit_op(sub, i.a),
        0x0A => 0u64.wrapping_sub(i.b),
        0x0B => i.a.wrapping_add(i.imm8 as u64),
        0x0C => i.a.wrapping_sub(i.imm8 as u64),
        0x0D => i.a << ((i.imm8 % 64) as u64),
        0x0E => if (i.imm8 / 8) % 2 == 1 {
            ((i.a as i64) >> ((i.imm8 % 8) as u64)) as u64
        } else {
            i.a >> ((i.imm8 % 8) as u64)
        },
        0x0F => i.a.wrapping_sub(i.b),
        0x10 => i.a.wrapping_add(i.imm),
        0x11 => i.a.wrapping_sub(i.imm),
        0x12 => i.a & i.imm,
        0x13 => i.a | i.imm,
        0x14 => i.a ^ i.imm,
        _ => 0,
    }
}

/// The carry after an instruction whose result is `result`.
pub fn carry_of(i: &AluInputs, result: u64) -> (c: bool)
    ensures
        c == carry_after(*i, result),
{
    let op: u8 = i.opcode;
    if (op == 0x04 && i.imm8 % 32 != 1) || op == 0x0B || op == 0x10 {
        i.a > result
    } else if op == 0x05 || op == 0x0A || op == 0x0C || op == 0x0F || op == 0x11 {
        result > i.a
    } else if op == 0x0D && i.imm8 % 8 != 0 {
        let bit_pos: u64 = ((72 - i.imm8 % 64) % 64) as u64;
        (i.a >> bit_pos) & 1 != 0
    } else if op == 0x0E && i.imm8 % 8 != 0 {
        let bit_pos: u64 = (i.imm8 % 8 - 1) as u64;
        (i.a >> bit_pos) & 1 != 0
    } else {
        i.flag_c
    }
}

/// Execute an instruction that does not access memory.
pub fn execute(i: &AluInputs) -> (o: AluOutcome)
    ensures
        o == outcome_of(*i),
        i.opcode == 0x06 ==> o.result == i.a & i.b,
        i.opcode == 0x07 ==> o.result == i.a | i.b,
        i.opcode == 0x08 ==> o.result == i.a ^ i.b,
        i.opcode == 0x12 ==> o.result == i.a & i.imm,
        i.opcode == 0x13 ==> o.result == i.a | i.imm,
        i.opcode == 0x14 ==> o.result == i.a ^ i.imm,
        0x03 <= i.opcode <= 0x14 ==> (o.flag_z <==> o.result == 0),
{
    let result: u64 = compute_result(i);
    let sub: u8 = i.imm8 % 32;
    let writes: bool = if i.opcode == 0x02 {
        match sub {
            1 => i.flag_z,
            2 => !i.flag_z,
            3 => i.flag_c,
            4 => !i.flag_c,
            _ => true,
        }
    } else {
        (0x03 <= i.opcode && i.opcode <= 0x0E) || (0x10 <= i.opcode && i.opcode <= 0x14)
    };
    AluOutcome {
        result,
        writes_reg: writes,
        flag_z: if 0x03 <= i.opcode && i.opcode <= 0x14 {
            result == 0
        } else {
            i.flag_z
        },
        flag_c: carry_of(i, result),
    }
}

/// Subtracting what was added gives the operand back, and the two carries tell the same
/// story: an addition carries if and only if the subtraction that undoes it borrows.
pub proof fn law_subtraction_undoes_addition(a: u64, b: u64)
    ensures
        a.wrapping_add(b).wrapping_sub(b) == a,
        (a > a.wrapping_add(b)) == (a > u64::MAX - b),
{
}

/// CMP sets the flags that SUB sets and leaves the register alone.
pub proof fn law_compare_is_subtraction_without_write(i: AluInputs)
    requires
        i.opcode == 0x0F,
    ensures
        ({
            let s = AluInputs { opcode: 0x05, ..i };
            &&& outcome_of(i).flag_z == outcome_of(s).flag_z
            &&& outcome_of(i).flag_c == outcome_of(s).flag_c
            &&& outcome_of(i).result == outcome_of(s).result
            &&& !outcome_of(i).writes_reg
        }),
{
}

} // verus!
