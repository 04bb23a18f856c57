//! The instruction set: what one step of the simulator does, in terms of the instruction word at
//! the program counter and of the state before.
//!
//! In every law `w` is that word and `n` the state after the step. The word's opcode is in bits 11
//! to 15. Register `rd` is named by bits 8 to 10 and bit 16, register `rs` by bits 5 to 7 and bit
//! 17. The immediate is the low byte, with the top byte above it where bit 18 is set.
use vstd::prelude::*;
use vstd::std_specs::bits::{axiom_u64_leading_zeros, axiom_u64_trailing_zeros};

use crate::alu::{popcount, uses_rs};
use crate::bits::lemma_bit_of;
use crate::iss::{latch_of, stepped, IssModel};
use crate::pc_stage::through_register;

verus! {

/// The fields of a latched word.
pub(crate) proof fn lemma_latched_fields(w: u32, pc: u32, regs: Seq<u64>)
    requires
        regs.len() == 16,
    ensures
        ({
            let l = latch_of(w, pc, regs);
            let x = w as int;
            let rd = (x / 256) % 8 + 8 * ((x / 65536) % 2);
            let rs = (x / 32) % 8 + 8 * ((x / 131072) % 2);
            &&& l.pc == pc
            &&& l.opcode == (x / 2048) % 32
            &&& l.ir_low == x % 256
            &&& l.ir_ext == x / 65536
            &&& l.rd_eff() == rd
            &&& 0 <= rd < 16
            &&& 0 <= rs < 16
            &&& l.a == regs[rd]
            &&& uses_rs(l.opcode) ==> l.b == regs[rs]
            &&& !uses_rs(l.opcode) ==> l.b == regs[(x / 32) % 8 + 8 * ((x / 65536) % 2)]
            &&& l.imm() == x % 256 + if (x / 262144) % 2 == 1 {
                256 * (x / 16777216)
            } else {
                0
            }
            &&& through_register(l) == ((x / 1048576) % 2 == 1)
        }),
{
    let x = w as int;
    let ext = (w / 65536) as u16;
    assert(ext == x / 65536);
    assert(ext % 2 == (x / 65536) % 2);
    assert((ext / 2) % 2 == (x / 131072) % 2);
    assert((ext / 4) % 2 == (x / 262144) % 2);
    assert((ext / 16) % 2 == (x / 1048576) % 2);
    assert(ext / 256 == x / 16777216);
}

/// AND, OR and XOR of two registers, and ANDI, ORI and XORI of a register and the immediate: bit
/// `k` of the destination afterwards is set exactly when it is set in both, in either, in one of
/// the two. The carry stays.
pub proof fn law_bitwise_instructions(
    m: IssModel,
    program: Seq<u32>,
    mask: u32,
    n: IssModel,
    w: u32,
    rd: int,
    rs: int,
    imm: u64,
    k: u64,
)
    requires
        n == stepped(m, program, mask),
        !m.halted,
        m.regs.len() == 16,
        m.pc < program.len(),
        w == program[m.pc as int],
        rd == (w as int / 256) % 8 + 8 * ((w as int / 65536) % 2),
        rs == (w as int / 32) % 8 + 8 * ((w as int / 131072) % 2),
        imm == w as int % 256 + if (w as int / 262144) % 2 == 1 {
            256 * (w as int / 16777216)
        } else {
            0
        },
        k < 64,
    ensures
        (w as int / 2048) % 32 == 0x06 ==> ((n.regs[rd] >> k) & 1 == 1 <==> (m.regs[rd] >> k) & 1
            == 1 && (m.regs[rs] >> k) & 1 == 1),
        (w as int / 2048) % 32 == 0x07 ==> ((n.regs[rd] >> k) & 1 == 1 <==> (m.regs[rd] >> k) & 1
            == 1 || (m.regs[rs] >> k) & 1 == 1),
        (w as int / 2048) % 32 == 0x08 ==> ((n.regs[rd] >> k) & 1 == 1 <==> ((m.regs[rd] >> k) & 1
            == 1) != ((m.regs[rs] >> k) & 1 == 1)),
        (w as int / 2048) % 32 == 0x12 ==> ((n.regs[rd] >> k) & 1 == 1 <==> (m.regs[rd] >> k) & 1
            == 1 && (imm >> k) & 1 == 1),
        (w as int / 2048) % 32 == 0x13 ==> ((n.regs[rd] >> k) & 1 == 1 <==> (m.regs[rd] >> k) & 1
            == 1 || (imm >> k) & 1 == 1),
        (w as int / 2048) % 32 == 0x14 ==> ((n.regs[rd] >> k) & 1 == 1 <==> ((m.regs[rd] >> k) & 1
            == 1) != ((imm >> k) & 1 == 1)),
        0x06 <= (w as int / 2048) % 32 <= 0x08 || 0x12 <= (w as int / 2048) % 32 <= 0x14
            ==> n.flag_c == m.flag_c,
{
    lemma_latched_fields(w, m.pc, m.regs);
    lemma_bit_of(m.regs[rd], m.regs[rs], 0, k);
    lemma_bit_of(m.regs[rd], imm, 0, k);
}

/// ADD, ADDI and INC give the sum modulo two to the sixty-fourth, and the carry tells whether it
/// did not fit. MUL gives the product modulo the same, and keeps the carry.
pub proof fn law_sums_and_products(
    m: IssModel,
    program: Seq<u32>,
    mask: u32,
    n: IssModel,
    w: u32,
    rd: int,
    rs: int,
    imm: int,
)
    requires
        n == stepped(m, program, mask),
        !m.halted,
        m.regs.len() == 16,
        m.pc < program.len(),
        w == program[m.pc as int],
        rd == (w as int / 256) % 8 + 8 * ((w as int / 65536) % 2),
        rs == (w as int / 32) % 8 + 8 * ((w as int / 131072) % 2),
        imm == w as int % 256 + if (w as int / 262144) % 2 == 1 {
            256 * (w as int / 16777216)
        } else {
            0
        },
    ensures
        (w as int / 2048) % 32 == 0x04 && w % 32 != 1 ==> n.regs[rd] == (m.regs[rd] + m.regs[rs])
            % 0x1_0000_0000_0000_0000 && n.flag_c == (m.regs[rd] + m.regs[rs]
            >= 0x1_0000_0000_0000_0000),
        (w as int / 2048) % 32 == 0x10 ==> n.regs[rd] == (m.regs[rd] + imm)
            % 0x1_0000_0000_0000_0000 && n.flag_c == (m.regs[rd] + imm
            >= 0x1_0000_0000_0000_0000),
        (w as int / 2048) % 32 == 0x0B ==> n.regs[rd] == (m.regs[rd] + w as int % 256)
            % 0x1_0000_0000_0000_0000 && n.flag_c == (m.regs[rd] + w as int % 256
            >= 0x1_0000_0000_0000_0000),
        (w as int / 2048) % 32 == 0x04 && w % 32 == 1 ==> n.regs[rd] == (m.regs[rd] * m.regs[rs])
            % 0x1_0000_0000_0000_0000 && n.flag_c == m.flag_c,
{
    lemma_latched_fields(w, m.pc, m.regs);
}

/// SUB, SUBI and DEC give the difference modulo two to the sixty-fourth, and the carry tells
/// whether it was negative. CMP sets the flags alike and changes no register: zero exactly when
/// the two are equal, carry exactly when the first is less. NEG gives the difference of zero and
/// its source, which is in the bank of its destination.
pub proof fn law_differences(
    m: IssModel,
    program: Seq<u32>,
    mask: u32,
    n: IssModel,
    w: u32,
    rd: int,
    rs: int,
    imm: int,
)
    requires
        n == stepped(m, program, mask),
        !m.halted,
        m.regs.len() == 16,
        m.pc < program.len(),
        w == program[m.pc as int],
        rd == (w as int / 256) % 8 + 8 * ((w as int / 65536) % 2),
        rs == (w as int / 32) % 8 + 8 * ((w as int / 131072) % 2),
        imm == w as int % 256 + if (w as int / 262144) % 2 == 1 {
            256 * (w as int / 16777216)
        } else {
            0
        },
    ensures
        (w as int / 2048) % 32 == 0x05 ==> n.regs[rd] == (m.regs[rd] - m.regs[rs])
            % 0x1_0000_0000_0000_0000 && n.flag_c == (m.regs[rd] < m.regs[rs]),
        (w as int / 2048) % 32 == 0x11 ==> n.regs[rd] == (m.regs[rd] - imm)
            % 0x1_0000_0000_0000_0000 && n.flag_c == (m.regs[rd] < imm),
        (w as int / 2048) % 32 == 0x0C ==> n.regs[rd] == (m.regs[rd] - w as int % 256)
            % 0x1_0000_0000_0000_0000 && n.flag_c == (m.regs[rd] < w as int % 256),
        (w as int / 2048) % 32 == 0x0F ==> n.regs == m.regs && n.flag_c == (m.regs[rd]
            < m.regs[rs]) && n.flag_z == (m.regs[rd] == m.regs[rs]),
        (w as int / 2048) % 32 == 0x0A ==> n.regs[rd] == (0 - m.regs[(w as int / 32) % 8 + 8 * ((
        w as int / 65536) % 2)]) % 0x1_0000_0000_0000_0000 && n.flag_c == (n.regs[rd]
            > m.regs[rd]),
{
    lemma_latched_fields(w, m.pc, m.regs);
}

/// The parts of the low byte of a word.
proof fn lemma_low_byte(w: u32)
    ensures
        ((w % 256) as u8) % 64 == w % 64,
        ((w % 256) as u8) % 32 == w % 32,
        ((w % 256) as u8) % 8 == w % 8,
        (((w % 256) as u8) / 8) % 2 == (w / 8) % 2,
{
    assert((w % 256) % 64 == w % 64 && (w % 256) % 32 == w % 32 && (w % 256) % 8 == w % 8 && ((w
        % 256) / 8) % 2 == (w / 8) % 2) by (bit_vector);
}

/// SHL by the low six bits of its byte moves bit `k` up and lets zeros in; SHR and SRA by the low
/// three bits move it down, SHR with zeros and SRA with the top bit coming in. Bit 3 of the byte
/// tells SRA from SHR.
pub proof fn law_shifts_move_bits(
    m: IssModel,
    program: Seq<u32>,
    mask: u32,
    n: IssModel,
    w: u32,
    rd: int,
    k: u64,
)
    requires
        n == stepped(m, program, mask),
        !m.halted,
        m.regs.len() == 16,
        m.pc < program.len(),
        w == program[m.pc as int],
        rd == (w as int / 256) % 8 + 8 * ((w as int / 65536) % 2),
        k < 64,
    ensures
        (w as int / 2048) % 32 == 0x0D && k >= w % 64 ==> (n.regs[rd] >> k) & 1 == (m.regs[rd] >> ((
        k - w % 64) as u64)) & 1,
        (w as int / 2048) % 32 == 0x0D && k < w % 64 ==> (n.regs[rd] >> k) & 1 == 0,
        (w as int / 2048) % 32 == 0x0E && k + w % 8 < 64 ==> (n.regs[rd] >> k) & 1 == (m.regs[rd]
            >> ((k + w % 8) as u64)) & 1,
        (w as int / 2048) % 32 == 0x0E && k + w % 8 >= 64 && (w / 8) % 2 == 0 ==> (n.regs[rd] >> k)
            & 1 == 0,
        (w as int / 2048) % 32 == 0x0E && k + w % 8 >= 64 && (w / 8) % 2 == 1 ==> (n.regs[rd] >> k)
            & 1 == (m.regs[rd] >> 63u64) & 1,
{
    lemma_latched_fields(w, m.pc, m.regs);
    lemma_low_byte(w);
    let a = m.regs[rd];
    let l = latch_of(w, m.pc, m.regs);
    lemma_bit_of(a, a, (l.ir_low % 64) as u64, k);
    lemma_bit_of(a, a, (l.ir_low % 8) as u64, k);
    if l.opcode == 0x0D {
        assert(n.regs[rd] == a << ((l.ir_low % 64) as u64));
    } else if l.opcode == 0x0E && (w / 8) % 2 == 1 {
        assert(n.regs[rd] == ((a as i64) >> ((l.ir_low % 8) as u64)) as u64);
    } else if l.opcode == 0x0E {
        assert(n.regs[rd] == a >> ((l.ir_low % 8) as u64));
    }
}

/// Unless a shift's amount is a multiple of eight, the carry is the bit that left the low byte
/// last: bit `8 - s` of a shift up by `s`, counted round the word where `s` is above eight, and bit
/// `s - 1` of a shift down. Else the carry stays.
pub proof fn law_shifts_carry_a_bit(
    m: IssModel,
    program: Seq<u32>,
    mask: u32,
    n: IssModel,
    w: u32,
    rd: int,
    s: int,
)
    requires
        n == stepped(m, program, mask),
        !m.halted,
        m.regs.len() == 16,
        m.pc < program.len(),
        w == program[m.pc as int],
        rd == (w as int / 256) % 8 + 8 * ((w as int / 65536) % 2),
        s == if (w as int / 2048) % 32 == 0x0D {
            w as int % 64
        } else {
            w as int % 8
        },
    ensures
        (w as int / 2048) % 32 == 0x0D && 0 < s < 8 ==> n.flag_c == ((m.regs[rd] >> ((8
            - s) as u64)) & 1 != 0),
        (w as int / 2048) % 32 == 0x0D && 8 < s && s % 8 != 0 ==> n.flag_c == ((m.regs[rd] >> ((72
            - s) as u64)) & 1 != 0),
        (w as int / 2048) % 32 == 0x0E && s != 0 ==> n.flag_c == ((m.regs[rd] >> ((s - 1) as u64))
            & 1 != 0),
        ((w as int / 2048) % 32 == 0x0D || (w as int / 2048) % 32 == 0x0E) && s % 8 == 0
            ==> n.flag_c == m.flag_c,
{
    lemma_latched_fields(w, m.pc, m.regs);
    lemma_low_byte(w);
    let l = latch_of(w, m.pc, m.regs);
    if l.opcode == 0x0D {
        assert(l.ir_low % 64 == s);
        assert(l.ir_low % 8 == s % 8);
        assert((72 - l.ir_low % 64) % 64 == if s <= 8 {
            8 - s
        } else {
            72 - s
        });
    } else if l.opcode == 0x0E {
        assert(l.ir_low % 8 == s);
    }
}

/// NOT turns every bit round. CLZ gives how many bits from the top, CTZ how many from the bottom
/// are clear before the first one that is set; 64 of a zero. The carry stays.
pub proof fn law_complement_and_scans(
    m: IssModel,
    program: Seq<u32>,
    mask: u32,
    n: IssModel,
    w: u32,
    rd: int,
    k: u64,
)
    requires
        n == stepped(m, program, mask),
        !m.halted,
        m.regs.len() == 16,
        m.pc < program.len(),
        w == program[m.pc as int],
        (w as int / 2048) % 32 == 0x09,
        rd == (w as int / 256) % 8 + 8 * ((w as int / 65536) % 2),
        k < 64,
    ensures
        w % 32 == 0 || w % 32 > 3 ==> ((n.regs[rd] >> k) & 1 == 1 <==> (m.regs[rd] >> k) & 1 != 1),
        w % 32 == 1 ==> n.regs[rd] <= 64 && (n.regs[rd] == 64 <==> m.regs[rd] == 0),
        w % 32 == 1 && n.regs[rd] == 63 - k ==> (m.regs[rd] >> k) & 1 == 1,
        w % 32 == 1 && n.regs[rd] > 63 - k ==> (m.regs[rd] >> k) & 1 == 0,
        w % 32 == 2 ==> n.regs[rd] <= 64 && (n.regs[rd] == 64 <==> m.regs[rd] == 0),
        w % 32 == 2 && n.regs[rd] == k ==> (m.regs[rd] >> k) & 1 == 1,
        w % 32 == 2 && n.regs[rd] > k ==> (m.regs[rd] >> k) & 1 == 0,
        n.flag_c == m.flag_c,
{
    lemma_latched_fields(w, m.pc, m.regs);
    let a = m.regs[rd];
    lemma_bit_of(a, a, 0, k);
    axiom_u64_leading_zeros(a);
    axiom_u64_trailing_zeros(a);
    lemma_low_byte(w);
}

/// Setting a clear bit makes the population count one more.
proof fn lemma_one_more_bit(a: u64, k: u64)
    requires
        k < 64,
        (a >> k) & 1 == 0,
    ensures
        popcount(a | (1u64 << k)) == popcount(a) + 1,
    decreases k,
{
    let b = a | (1u64 << k);
    let j = if k > 0 {
        (k - 1) as u64
    } else {
        0u64
    };
    assert((k == 0 ==> b % 2 == 1 && a % 2 == 0 && b / 2 == a / 2) && (k > 0 ==> b % 2 == a % 2 && b
        / 2 == (a / 2) | (1u64 << j) && ((a / 2) >> j) & 1 == 0) && b != 0) by (bit_vector)
        requires
            k < 64,
            (a >> k) & 1 == 0,
            b == a | (1u64 << k),
            k > 0 ==> j == k - 1,
            k == 0 ==> j == 0,
    ;
    if k > 0 {
        lemma_one_more_bit(a / 2, j);
        if a == 0 {
            assert(popcount(0) == 0);
        }
    } else if a == 0 {
        assert(popcount(0) == 0);
    }
}

/// POPCNT of zero is zero, and of a word with one more bit set it is one more.
pub proof fn law_population_count(
    m: IssModel,
    m1: IssModel,
    program: Seq<u32>,
    mask: u32,
    n: IssModel,
    n1: IssModel,
    w: u32,
    rd: int,
    k: u64,
)
    requires
        n == stepped(m, program, mask),
        n1 == stepped(m1, program, mask),
        !m.halted,
        !m1.halted,
        m.regs.len() == 16,
        m1.regs.len() == 16,
        m1.pc == m.pc,
        m.pc < program.len(),
        w == program[m.pc as int],
        (w as int / 2048) % 32 == 0x09,
        w % 32 == 3,
        rd == (w as int / 256) % 8 + 8 * ((w as int / 65536) % 2),
        k < 64,
        (m.regs[rd] >> k) & 1 == 0,
        m1.regs[rd] == m.regs[rd] | (1u64 << k),
    ensures
        m.regs[rd] == 0 ==> n.regs[rd] == 0,
        n1.regs[rd] == n.regs[rd] + 1,
        n.flag_c == m.flag_c,
{
    lemma_latched_fields(w, m.pc, m.regs);
    lemma_latched_fields(w, m.pc, m1.regs);
    lemma_one_more_bit(m.regs[rd], k);
    lemma_popcount_bound(m.regs[rd], 64);
    lemma_popcount_bound(m1.regs[rd], 64);
    assert(popcount(0) == 0);
    lemma_low_byte(w);
}

proof fn lemma_popcount_bound(x: u64, n: nat)
    requires
        n <= 64,
        x < crate::alu::pow2(n) || n == 64,
    ensures
        popcount(x) <= n,
    decreases n,
{
    if x != 0 {
        if n == 64 {
            assert(crate::alu::pow2(63) == 0x8000_0000_0000_0000) by {
                reveal_with_fuel(crate::alu::pow2, 64);
            }
        }
        if n == 0 {
            assert(crate::alu::pow2(0) == 1);
        }
        lemma_popcount_bound(x / 2, (n - 1) as nat);
    }
}

/// LDI puts the immediate into its register. MOV copies the source register, under a condition on
/// the flags where it has one, or the link register. The other way round, a move to the link
/// register takes the low 32 bits of the source, within the address space. No move changes a flag.
pub proof fn law_moves(
    m: IssModel,
    program: Seq<u32>,
    mask: u32,
    n: IssModel,
    w: u32,
    rd: int,
    rs: int,
    imm: int,
)
    requires
        n == stepped(m, program, mask),
        !m.halted,
        m.regs.len() == 16,
        m.pc < program.len(),
        w == program[m.pc as int],
        rd == (w as int / 256) % 8 + 8 * ((w as int / 65536) % 2),
        rs == (w as int / 32) % 8 + 8 * ((w as int / 131072) % 2),
        imm == w as int % 256 + if (w as int / 262144) % 2 == 1 {
            256 * (w as int / 16777216)
        } else {
            0
        },
    ensures
        (w as int / 2048) % 32 == 0x03 ==> n.regs[rd] == imm && n.flag_c == m.flag_c,
        (w as int / 2048) % 32 == 0x02 ==> n.flag_z == m.flag_z && n.flag_c == m.flag_c,
        (w as int / 2048) % 32 == 0x02 && (w % 32 == 0 || w % 32 > 6) ==> n.regs[rd] == m.regs[rs],
        (w as int / 2048) % 32 == 0x02 && w % 32 == 1 ==> n.regs[rd] == if m.flag_z {
            m.regs[rs]
        } else {
            m.regs[rd]
        },
        (w as int / 2048) % 32 == 0x02 && w % 32 == 2 ==> n.regs[rd] == if m.flag_z {
            m.regs[rd]
        } else {
            m.regs[rs]
        },
        (w as int / 2048) % 32 == 0x02 && w % 32 == 3 ==> n.regs[rd] == if m.flag_c {
            m.regs[rs]
        } else {
            m.regs[rd]
        },
        (w as int / 2048) % 32 == 0x02 && w % 32 == 4 ==> n.regs[rd] == if m.flag_c {
            m.regs[rd]
        } else {
            m.regs[rs]
        },
        (w as int / 2048) % 32 == 0x02 && w % 32 == 5 ==> n.regs[rd] == m.lr,
        (w as int / 2048) % 32 == 0x02 && w % 32 == 6 ==> n.regs == m.regs && n.lr == (m.regs[rs]
            % 0x1_0000_0000) as u32 & mask,
{
    lemma_latched_fields(w, m.pc, m.regs);
    lemma_low_byte(w);
}

/// What a step leaves alone. A register that is not the destination stays, and every register does
/// where the instruction has no destination. Only a store, or a load that a device answers,
/// changes memory; only a store changes what was sent; what was received never changes. Only a
/// call and a move to it change the link register. The zero flag tells after arithmetic, logic,
/// shifts, immediates and loads whether the result is zero, and stays otherwise; the carry stays
/// but for arithmetic and shifts. Only HALT halts.
pub proof fn law_what_a_step_leaves_alone(
    m: IssModel,
    program: Seq<u32>,
    mask: u32,
    n: IssModel,
    w: u32,
    rd: int,
    r: int,
)
    requires
        n == stepped(m, program, mask),
        !m.halted,
        m.regs.len() == 16,
        m.pc < program.len(),
        w == program[m.pc as int],
        rd == (w as int / 256) % 8 + 8 * ((w as int / 65536) % 2),
        0 <= r < 16,
    ensures
        n.regs.len() == 16,
        r != rd ==> n.regs[r] == m.regs[r],
        (w as int / 2048) % 32 <= 0x01 || (w as int / 2048) % 32 == 0x0F || (w as int / 2048) % 32
            == 0x15 || (w as int / 2048) % 32 == 0x17 || (w as int / 2048) % 32 >= 0x19
            ==> n.regs == m.regs,
        (w as int / 2048) % 32 != 0x17 && (w as int / 2048) % 32 != 0x19 ==> n.ports == m.ports,
        !(0x16 <= (w as int / 2048) % 32 <= 0x19) ==> n.ram == m.ram && n.main_mem == m.main_mem,
        n.mem_addr_mask == m.mem_addr_mask,
        (w as int / 2048) % 32 != 0x1F && !((w as int / 2048) % 32 == 0x02 && w % 32 == 6)
            ==> n.lr == m.lr,
        0x03 <= (w as int / 2048) % 32 <= 0x14 && (w as int / 2048) % 32 != 0x0F ==> n.flag_z == (
        n.regs[rd] == 0),
        (w as int / 2048) % 32 == 0x16 || (w as int / 2048) % 32 == 0x18 ==> n.flag_z == (
        n.regs[rd] == 0),
        (w as int / 2048) % 32 <= 0x02 || (w as int / 2048) % 32 == 0x15 || (w as int / 2048) % 32
            == 0x17 || (w as int / 2048) % 32 >= 0x19 ==> n.flag_z == m.flag_z,
        (w as int / 2048) % 32 <= 0x03 || (w as int / 2048) % 32 >= 0x15 ==> n.flag_c == m.flag_c,
        n.halted == ((w as int / 2048) % 32 == 0x01),
{
    lemma_latched_fields(w, m.pc, m.regs);
    lemma_low_byte(w);
}

/// Where the program goes. HALT stays; JMP goes to its target, JZ, JNZ, JC and JNC go there where
/// the zero flag is set, is clear, the carry is set, is clear; CALL goes there and notes the
/// address behind it in the link register, to which RET goes. A jump or a call whose word has bit
/// 20 goes to the address in its destination register. All else goes to the next address. Targets
/// are taken within the address space, and the flags are those before the instruction.
pub proof fn law_where_the_program_goes(
    m: IssModel,
    program: Seq<u32>,
    mask: u32,
    n: IssModel,
    w: u32,
    rd: int,
    target: u32,
    behind: u32,
)
    requires
        n == stepped(m, program, mask),
        !m.halted,
        m.regs.len() == 16,
        m.pc < program.len(),
        m.pc & mask == m.pc,
        m.pc < u32::MAX,
        w == program[m.pc as int],
        rd == (w as int / 256) % 8 + 8 * ((w as int / 65536) % 2),
        behind == (m.pc + 1) as u32 & mask,
        target == (w as int % 256 + if (w as int / 262144) % 2 == 1 {
            256 * (w as int / 16777216)
        } else {
            0
        }) as u32 & mask,
    ensures
        (w as int / 2048) % 32 == 0x01 ==> n.pc == m.pc,
        (w as int / 2048) % 32 == 0x1A && (w as int / 1048576) % 2 == 0 ==> n.pc == target,
        (w as int / 2048) % 32 == 0x1A && (w as int / 1048576) % 2 == 1 ==> n.pc == (m.regs[rd]
            % 0x1_0000_0000) as u32 & mask,
        (w as int / 2048) % 32 == 0x1B ==> n.pc == if m.flag_z {
            target
        } else {
            behind
        },
        (w as int / 2048) % 32 == 0x1C ==> n.pc == if m.flag_z {
            behind
        } else {
            target
        },
        (w as int / 2048) % 32 == 0x1D ==> n.pc == if m.flag_c {
            target
        } else {
            behind
        },
        (w as int / 2048) % 32 == 0x1E ==> n.pc == if m.flag_c {
            behind
        } else {
            target
        },
        (w as int / 2048) % 32 == 0x1F && (w as int / 1048576) % 2 == 0 ==> n.pc == target,
        (w as int / 2048) % 32 == 0x1F && (w as int / 1048576) % 2 == 1 ==> n.pc == (m.regs[rd]
            % 0x1_0000_0000) as u32 & mask,
        (w as int / 2048) % 32 == 0x1F ==> n.lr == behind,
        (w as int / 2048) % 32 == 0x15 ==> n.pc == m.lr & mask,
        (w as int / 2048) % 32 != 0x01 && (w as int / 2048) % 32 != 0x15 && (w as int / 2048) % 32
            < 0x1A ==> n.pc == behind,
{
    lemma_latched_fields(w, m.pc, m.regs);
}

/// Behind the end of a program the step only goes on to the next address.
pub proof fn law_nothing_happens_behind_the_program(
    m: IssModel,
    program: Seq<u32>,
    mask: u32,
    n: IssModel,
)
    requires
        n == stepped(m, program, mask),
        !m.halted,
        m.regs.len() == 16,
        program.len() <= m.pc < u32::MAX,
        m.pc & mask == m.pc,
    ensures
        n == (IssModel { pc: (m.pc + 1) as u32 & mask, ..m }),
{
    lemma_latched_fields(0, m.pc, m.regs);
}

} // verus!
