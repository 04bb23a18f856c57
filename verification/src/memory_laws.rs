//! Loads and stores: which address an instruction accesses, what it finds there and what it leaves
//! there, in terms of the instruction word and of the state before.
use vstd::arithmetic::power2::{lemma_pow2_strictly_increases, lemma_pow2_unfold, pow2};
use vstd::bits::lemma_u64_low_bits_mask_is_mod;
use vstd::prelude::*;

use crate::instruction_laws::lemma_latched_fields;
use crate::iss::{access_at, latch_of, stepped, IssModel, PortModel};
use crate::memory::{is_pow2, mem_addr, DataMemory};

verus! {

proof fn lemma_exponent(n: int) -> (e: nat)
    requires
        is_pow2(n),
    ensures
        pow2(e) == n,
    decreases n,
{
    if n <= 1 {
        vstd::arithmetic::power2::lemma2_to64();
        0
    } else {
        let e = lemma_exponent(n / 2);
        lemma_pow2_unfold(e + 1);
        e + 1
    }
}

/// Masking with one less than a power of two takes the remainder.
proof fn lemma_masked_is_remainder(x: u64, mask: u64)
    requires
        is_pow2(mask + 1),
        mask < u64::MAX,
    ensures
        x & mask == x as int % (mask + 1),
{
    let e = lemma_exponent(mask + 1);
    vstd::arithmetic::power2::lemma2_to64_rest();
    if e >= 64 {
        if e > 64 {
            lemma_pow2_strictly_increases(64, e);
        }
    }
    lemma_u64_low_bits_mask_is_mod(x, e);
}

/// With an offset every load and store accesses the word that lies that far behind the one its
/// base register names, round the memory's end. Without one, LD and ST access the word that the
/// register names, and LDB and STB the one that the low byte names.
pub proof fn law_accessed_address(
    opcode: u8,
    ir_low: u8,
    ir_ext: u16,
    b: u64,
    regs: Seq<u64>,
    mask: u64,
    base: u64,
)
    requires
        0x16 <= opcode <= 0x19,
        regs.len() == 16,
        is_pow2(mask + 1),
        mask < u64::MAX,
        base == regs[ir_low as int / 32 + 8 * ((ir_ext as int / 2) % 2)],
        opcode <= 0x17 ==> b == base,
    ensures
        (ir_ext as int / 8) % 2 == 1 ==> mem_addr(opcode, ir_low, ir_ext, b, regs, mask) == ((base
            + ir_ext as int / 256) % 0x1_0000_0000_0000_0000) % (mask + 1),
        (ir_ext as int / 8) % 2 == 1 && base + ir_ext as int / 256 <= mask ==> mem_addr(
            opcode,
            ir_low,
            ir_ext,
            b,
            regs,
            mask,
        ) == base + ir_ext as int / 256,
        (ir_ext as int / 8) % 2 == 0 && opcode <= 0x17 ==> mem_addr(
            opcode,
            ir_low,
            ir_ext,
            b,
            regs,
            mask,
        ) == base as int % (mask + 1),
        (ir_ext as int / 8) % 2 == 0 && opcode >= 0x18 ==> mem_addr(
            opcode,
            ir_low,
            ir_ext,
            b,
            regs,
            mask,
        ) == ir_low as int % (mask + 1),
{
    assert((ir_ext / 2) % 2 == (ir_ext as int / 2) % 2);
    assert((ir_ext / 8) % 2 == (ir_ext as int / 8) % 2);
    let off = (ir_ext / 256) as u64;
    lemma_masked_is_remainder(base.wrapping_add(off), mask);
    lemma_masked_is_remainder(base, mask);
    lemma_masked_is_remainder(ir_low as u64, mask);
    if base + off <= mask {
        vstd::arithmetic::div_mod::lemma_small_mod((base + off) as nat, (mask + 1) as nat);
    }
}

/// Two offsets from one base register name addresses that differ by as much as the offsets do.
pub proof fn law_offsets_are_distances(
    opcode: u8,
    ir_low: u8,
    ext1: u16,
    ext2: u16,
    b: u64,
    regs: Seq<u64>,
    mask: u64,
    base: u64,
)
    requires
        0x16 <= opcode <= 0x19,
        regs.len() == 16,
        is_pow2(mask + 1),
        mask < u64::MAX,
        (ext1 as int / 2) % 2 == (ext2 as int / 2) % 2,
        (ext1 as int / 8) % 2 == 1,
        (ext2 as int / 8) % 2 == 1,
        base == regs[ir_low as int / 32 + 8 * ((ext1 as int / 2) % 2)],
        opcode <= 0x17 ==> b == base,
        base + ext1 as int / 256 <= mask,
        base + ext2 as int / 256 <= mask,
    ensures
        mem_addr(opcode, ir_low, ext1, b, regs, mask) - mem_addr(
            opcode,
            ir_low,
            ext2,
            b,
            regs,
            mask,
        ) == ext1 as int / 256 - ext2 as int / 256,
{
    law_accessed_address(opcode, ir_low, ext1, b, regs, mask, base);
    law_accessed_address(opcode, ir_low, ext2, b, regs, mask, base);
}

/// The address that a step accesses, from the instruction word.
proof fn lemma_step_address(m: IssModel, w: u32, rs: int)
    requires
        m.regs.len() == 16,
        is_pow2(m.mem_addr_mask + 1),
        m.mem_addr_mask < usize::MAX,
        0x16 <= (w as int / 2048) % 32 <= 0x19,
        rs == (w as int / 32) % 8 + 8 * ((w as int / 131072) % 2),
    ensures
        access_at(m, latch_of(w, m.pc, m.regs)) == ((if (w as int / 524288) % 2 == 1 {
            m.regs[rs] + w as int / 16777216
        } else if (w as int / 2048) % 32 <= 0x17 {
            m.regs[rs] as int
        } else {
            w as int % 256
        }) % 0x1_0000_0000_0000_0000) % (m.mem_addr_mask + 1),
{
    lemma_latched_fields(w, m.pc, m.regs);
    let l = latch_of(w, m.pc, m.regs);
    let x = w as int;
    assert(l.ir_low as int / 32 == (x / 32) % 8);
    assert((l.ir_ext as int / 2) % 2 == (x / 131072) % 2);
    assert((l.ir_ext as int / 8) % 2 == (x / 524288) % 2);
    assert(l.ir_ext as int / 256 == x / 16777216);
    law_accessed_address(
        l.opcode,
        l.ir_low,
        l.ir_ext,
        l.b,
        m.regs,
        m.mem_addr_mask as u64,
        m.regs[rs],
    );
}

/// A load puts into its destination register what memory holds at the address accessed, and leaves
/// memory as it is. `addr` is that address: the base register plus the offset where bit 19 of the
/// word is set, else the base register of LD and the low byte of LDB.
pub proof fn law_loads_read_memory(
    m: IssModel,
    program: Seq<u32>,
    mask: u32,
    n: IssModel,
    w: u32,
    rd: int,
    rs: int,
    addr: int,
)
    requires
        n == stepped(m, program, mask),
        !m.halted,
        m.regs.len() == 16,
        m.mem_addr_mask == 127 + m.main_mem.len(),
        is_pow2(m.mem_addr_mask + 1),
        m.mem_addr_mask < usize::MAX,
        m.pc < program.len(),
        w == program[m.pc as int],
        (w as int / 2048) % 32 == 0x16 || (w as int / 2048) % 32 == 0x18,
        rd == (w as int / 256) % 8 + 8 * ((w as int / 65536) % 2),
        rs == (w as int / 32) % 8 + 8 * ((w as int / 131072) % 2),
        addr == ((if (w as int / 524288) % 2 == 1 {
            m.regs[rs] + w as int / 16777216
        } else if (w as int / 2048) % 32 == 0x16 {
            m.regs[rs] as int
        } else {
            w as int % 256
        }) % 0x1_0000_0000_0000_0000) % (m.mem_addr_mask + 1),
        m.ports is None || addr < 41 || addr > 63,
    ensures
        addr < 128 ==> n.regs[rd] == m.ram[addr],
        addr >= 128 ==> n.regs[rd] == m.main_mem[addr - 128],
        n.ram == m.ram,
        n.main_mem == m.main_mem,
{
    lemma_latched_fields(w, m.pc, m.regs);
    lemma_step_address(m, w, rs);
}

/// A store puts its register's value at the address accessed, and into no other word.
pub proof fn law_stores_write_memory(
    m: IssModel,
    program: Seq<u32>,
    mask: u32,
    n: IssModel,
    w: u32,
    rd: int,
    rs: int,
    addr: int,
)
    requires
        n == stepped(m, program, mask),
        !m.halted,
        m.regs.len() == 16,
        m.ram.len() == 128,
        m.mem_addr_mask == 127 + m.main_mem.len(),
        is_pow2(m.mem_addr_mask + 1),
        m.mem_addr_mask < usize::MAX,
        m.pc < program.len(),
        w == program[m.pc as int],
        (w as int / 2048) % 32 == 0x17 || (w as int / 2048) % 32 == 0x19,
        rd == (w as int / 256) % 8 + 8 * ((w as int / 65536) % 2),
        rs == (w as int / 32) % 8 + 8 * ((w as int / 131072) % 2),
        addr == ((if (w as int / 524288) % 2 == 1 {
            m.regs[rs] + w as int / 16777216
        } else if (w as int / 2048) % 32 == 0x17 {
            m.regs[rs] as int
        } else {
            w as int % 256
        }) % 0x1_0000_0000_0000_0000) % (m.mem_addr_mask + 1),
        m.ports is None || addr < 41 || addr > 63,
    ensures
        addr < 128 ==> n.ram == m.ram.update(addr, m.regs[rd]) && n.main_mem == m.main_mem,
        addr >= 128 ==> n.ram == m.ram && n.main_mem == m.main_mem.update(
            addr - 128,
            m.regs[rd],
        ),
        n.ports == m.ports,
{
    lemma_latched_fields(w, m.pc, m.regs);
    lemma_step_address(m, w, rs);
}

/// With a device window, addresses 41 to 63 are the devices'. A load from 60 gives what came from
/// the left, a load from 61 what came from the right, and one from another address what its device
/// has set; memory mirrors the answer. A store to 60 sends to the left, a store to 61 to the right,
/// and one to another address tells its device; memory stays.
pub proof fn law_device_addresses(
    m: IssModel,
    program: Seq<u32>,
    mask: u32,
    n: IssModel,
    w: u32,
    rd: int,
    rs: int,
    addr: int,
)
    requires
        n == stepped(m, program, mask),
        !m.halted,
        m.regs.len() == 16,
        m.ram.len() == 128,
        m.ports is Some,
        m.ports->0.input.len() == 23,
        m.ports->0.output.len() == 23,
        m.mem_addr_mask == 127 + m.main_mem.len(),
        is_pow2(m.mem_addr_mask + 1),
        m.mem_addr_mask < usize::MAX,
        m.pc < program.len(),
        w == program[m.pc as int],
        0x16 <= (w as int / 2048) % 32 <= 0x19,
        rd == (w as int / 256) % 8 + 8 * ((w as int / 65536) % 2),
        rs == (w as int / 32) % 8 + 8 * ((w as int / 131072) % 2),
        addr == ((if (w as int / 524288) % 2 == 1 {
            m.regs[rs] + w as int / 16777216
        } else if (w as int / 2048) % 32 <= 0x17 {
            m.regs[rs] as int
        } else {
            w as int % 256
        }) % 0x1_0000_0000_0000_0000) % (m.mem_addr_mask + 1),
        41 <= addr <= 63,
    ensures
        ((w as int / 2048) % 32 == 0x16 || (w as int / 2048) % 32 == 0x18) ==> {
            &&& addr == 60 ==> n.regs[rd] == m.ports->0.in_recv
            &&& addr == 61 ==> n.regs[rd] == m.ports->0.out_recv
            &&& addr != 60 && addr != 61 ==> n.regs[rd] == m.ports->0.input[addr - 41]
            &&& n.ram == m.ram.update(addr, n.regs[rd])
            &&& n.main_mem == m.main_mem
            &&& n.ports == m.ports
        },
        ((w as int / 2048) % 32 == 0x17 || (w as int / 2048) % 32 == 0x19) ==> {
            &&& addr == 60 ==> n.ports == Some(
                PortModel { in_send: m.regs[rd], ..m.ports->0 },
            )
            &&& addr == 61 ==> n.ports == Some(
                PortModel { out_send: m.regs[rd], ..m.ports->0 },
            )
            &&& addr != 60 && addr != 61 ==> n.ports == Some(
                PortModel {
                    output: m.ports->0.output.update(addr - 41, m.regs[rd]),
                    ..m.ports->0
                },
            )
            &&& n.ram == m.ram
            &&& n.main_mem == m.main_mem
        },
{
    lemma_latched_fields(w, m.pc, m.regs);
    lemma_step_address(m, w, rs);
}

/// A word that is written is read back; every other address reads as before; outside the memory
/// there is nothing but zeros.
pub proof fn law_memory_holds_what_was_written(
    before: DataMemory,
    after: DataMemory,
    addr: int,
    value: u64,
    other: int,
)
    requires
        after.writes(before, addr, value),
    ensures
        0 <= addr < 128 ==> after.ram@[addr] == value && after.word(addr) == value,
        128 <= addr < 128 + before.main_mem@.len() ==> after.main_mem@[addr - 128] == value
            && after.word(addr) == value,
        0 <= other < 128 && other != addr ==> after.ram@[other] == before.ram@[other]
            && after.word(other) == before.ram@[other],
        128 <= other < 128 + before.main_mem@.len() && other != addr ==> after.word(other)
            == before.main_mem@[other - 128],
        other >= 128 + before.main_mem@.len() ==> after.word(other) == 0,
        after.main_mem@.len() == before.main_mem@.len(),
{
}

} // verus!
