//! Data memory: the 128-word scratchpad, the main memory above it, and address computation.
use vstd::prelude::*;

use crate::isa::{effective_reg, ext_flag, is_mmio, is_v2_mmio_addr};

verus! {

/// Words of scratchpad RAM.
pub const RAM_WORDS: usize = 128;

/// Scratchpad and main memory. Addresses are taken modulo a power of two that covers both.
pub struct DataMemory {
    pub ram: [u64; 128],
    pub main_mem: Vec<u64>,
    pub mem_addr_mask: usize,
}

/// `n` is a power of two.
pub open spec fn is_pow2(n: int) -> bool
    decreases n,
{
    if n <= 1 {
        n == 1
    } else {
        n % 2 == 0 && is_pow2(n / 2)
    }
}

impl DataMemory {
    /// The mask covers the scratchpad and the main memory, and nothing more.
    pub open spec fn wf(self) -> bool {
        &&& self.mem_addr_mask == 127 + self.main_mem@.len()
        &&& is_pow2(self.mem_addr_mask + 1)
        &&& self.mem_addr_mask < usize::MAX
    }

    /// What an address holds; zero outside the memory.
    pub open spec fn word(self, addr: int) -> u64 {
        if 0 <= addr < 128 {
            self.ram@[addr]
        } else if 128 <= addr < 128 + self.main_mem@.len() {
            self.main_mem@[addr - 128]
        } else {
            0
        }
    }

    /// The memory differs from `before` only in that `addr`, if it is inside, holds `value`.
    pub open spec fn writes(self, before: DataMemory, addr: int, value: u64) -> bool {
        &&& self.mem_addr_mask == before.mem_addr_mask
        &&& self.ram@ == if 0 <= addr < 128 {
            before.ram@.update(addr, value)
        } else {
            before.ram@
        }
        &&& self.main_mem@ == if 128 <= addr < 128 + before.main_mem@.len() {
            before.main_mem@.update(addr - 128, value)
        } else {
            before.main_mem@
        }
    }

    /// A scratchpad of zeros and no main memory.
    pub fn new() -> (m: Self)
        ensures
            m.wf(),
            m.ram@ == Seq::new(128, |i: int| 0u64),
            m.main_mem@.len() == 0,
            m.mem_addr_mask == 0x7F,
    {
        let m = DataMemory { ram: [0;128], main_mem: Vec::new(), mem_addr_mask: 0x7F };
        assert(m.ram@ =~= Seq::new(128, |i: int| 0u64));
        assert(is_pow2(128)) by {
            reveal_with_fuel(is_pow2, 9);
        }
        m
    }

    /// Read an address; zero outside the memory.
    pub fn read(&self, addr: usize) -> (v: u64)
        ensures
            v == self.word(addr as int),
    {
        if addr < 128 {
            self.ram[addr]
        } else if addr - 128 < self.main_mem.len() {
            self.main_mem[addr - 128]
        } else {
            0
        }
    }

    /// Write an address; nothing happens outside the memory.
    pub fn write(&mut self, addr: usize, value: u64)
        ensures
            final(self).writes(*old(self), addr as int, value),
            old(self).wf() ==> final(self).wf(),
    {
        if addr < 128 {
            self.ram[addr] = value;
        } else if addr - 128 < self.main_mem.len() {
            self.main_mem.set(addr - 128, value);
        }
    }

    /// Provide main memory for `words` words, rounded up so that it ends at a power of two,
    /// all zero; none for zero words. The scratchpad keeps its contents.
    pub fn configure_main_memory(&mut self, words: usize)
        requires
            words < usize::MAX / 4,
        ensures
            final(self).wf(),
            final(self).ram@ == old(self).ram@,
            final(self).main_mem@ == Seq::new(final(self).main_mem@.len(), |i: int| 0u64),
            words == 0 ==> final(self).main_mem@.len() == 0,
            words > 0 ==> final(self).main_mem@.len() >= words && final(self).main_mem@.len() + 128
                < 2 * (words + 128),
    {
        if words == 0 {
            self.main_mem = Vec::new();
            self.mem_addr_mask = 0x7F;
            assert(self.main_mem@ =~= Seq::new(0, |i: int| 0u64));
            assert(is_pow2(128)) by {
                reveal_with_fuel(is_pow2, 9);
            }
            return;
        }
        let total: usize = next_power_of_two(words + 128);
        self.mem_addr_mask = total - 1;
        let zeros: Vec<u64> = vec![0;total - 128];
        assert(zeros@ =~= Seq::new(zeros@.len(), |i: int| 0u64));
        self.main_mem = zeros;
    }
}

/// The smallest power of two that is at least `n`.
pub fn next_power_of_two(n: usize) -> (p: usize)
    requires
        0 < n <= usize::MAX / 2,
    ensures
        is_pow2(p as int),
        n <= p < 2 * n,
{
    let mut p: usize = 1;
    while p < n
        invariant
            is_pow2(p as int),
            0 < p,
            p < 2 * n,
            n <= usize::MAX / 2,
        decreases 2 * n - p,
    {
        assert(is_pow2(p * 2)) by {
            assert((p * 2) / 2 == p as int);
        }
        p = p * 2;
    }
    p
}

/// A memory address stays inside its power-of-two range.
pub proof fn lemma_mask(x: u64, mask: u64)
    ensures
        x & mask <= mask,
{
    assert(x & mask <= mask) by (bit_vector);
}

/// The address a load or store accesses.
///
/// With an offset the address is the base register plus the offset. Without one, the byte
/// variants (0x18 and 0x19) take the immediate and the others the base register. `b` is the
/// value of the base register for the others; the byte variants read it from `regs`.
pub open spec fn mem_addr(
    opcode: u8,
    ir_low: u8,
    ir_ext: u16,
    b: u64,
    regs: Seq<u64>,
    mask: u64,
) -> u64 {
    let byte_variant = opcode == 0x18 || opcode == 0x19;
    let base = (ir_low / 32) % 8 + if ext_flag(ir_ext, 1) {
        8int
    } else {
        0int
    };
    if ext_flag(ir_ext, 3) {
        (if byte_variant {
            regs[base]
        } else {
            b
        }).wrapping_add((ir_ext / 256) as u64) & mask
    } else if byte_variant {
        (ir_low as u64) & mask
    } else {
        b & mask
    }
}

/// The address a load or store accesses.
pub fn compute_mem_addr(
    opcode: u8,
    ir_low: u8,
    ir_ext: u16,
    b: u64,
    regs: &[u64; 16],
    mask: usize,
) -> (addr: usize)
    ensures
        addr == mem_addr(opcode, ir_low, ir_ext, b, regs@, mask as u64),
        addr <= mask,
{
    let has_offset: bool = (ir_ext / 8) % 2 == 1;
    let byte_variant: bool = opcode == 0x18 || opcode == 0x19;
    let m: u64 = mask as u64;
    let raw: u64 = if has_offset {
        let offset: u64 = (ir_ext / 256) as u64;
        let base_val: u64 = if byte_variant {
            let rs_hi: bool = (ir_ext / 2) % 2 == 1;
            regs[effective_reg(ir_low / 32, rs_hi) as usize]
        } else {
            b
        };
        base_val.wrapping_add(offset)
    } else if byte_variant {
        ir_low as u64
    } else {
        b
    };
    proof {
        lemma_mask(raw, m);
    }
    (raw & m) as usize
}

/// The one-hot row enable of a store address: the low three address bits decoded, or nothing
/// for an address that is no scratchpad word.
pub open spec fn store_onehot(addr: int) -> u64 {
    if addr < 128 && !is_mmio(addr) {
        1u64 << ((addr % 8) as u64)
    } else {
        0
    }
}

/// The one-hot row enable of a store address.
pub fn compute_store_onehot(store_addr: usize) -> (r: u64)
    ensures
        r == store_onehot(store_addr as int),
{
    if store_addr < 128 && !is_v2_mmio_addr(store_addr) {
        1u64 << ((store_addr % 8) as u64)
    } else {
        0
    }
}

/// A read gives back the last write to its address, and other addresses keep their words.
pub proof fn law_read_gives_back_write(
    before: DataMemory,
    after: DataMemory,
    addr: int,
    value: u64,
    other: int,
)
    requires
        after.writes(before, addr, value),
        0 <= addr < 128 + before.main_mem@.len(),
    ensures
        after.word(addr) == value,
        other != addr ==> after.word(other) == before.word(other),
{
}

} // verus!
