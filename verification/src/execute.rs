//! The execute step of stage X: results, memory accesses, and which of the tiles' results are
//! trusted.
use vstd::prelude::*;

use crate::alu::{
    carry_after, carry_of, is_load, is_store, is_sub_function, result_of, sub_function, writes_reg,
    zero_after, AluInputs, AluOutcome,
};
use crate::gates::CheckCounter;
use crate::isa::{is_mmio, is_v2_mmio_addr};
use crate::latch::PipelineLatch;
use crate::layout::V2CpuIndices;
use crate::memory::{compute_mem_addr, mem_addr, DataMemory};
use crate::operand::{arithmetic_shift, is_sra, uses_upper};
use crate::simulation::{Grid, Simulation, TileType};
use crate::state::{ArchState, Authority};

verus! {

/// What a store through tiles left to undo after the clock edge.
#[derive(Clone, Copy, Debug)]
pub struct StoreState {
    /// The data tile that was held constant, and what it was.
    pub saved_via: Option<(usize, TileType)>,
    /// The write-enable tile that was raised; zero for none.
    pub inject_up_idx: usize,
    /// The address of the last scratchpad store.
    pub store_addr: usize,
}

/// The device accesses of the last stage X, in order.
pub struct MmioLog {
    pub reads: Vec<(u8, u64)>,
    pub writes: Vec<(u8, u64)>,
}

/// The inputs that an instruction executes on.
pub open spec fn alu_inputs(l: PipelineLatch, arch: ArchState, link: u64) -> AluInputs {
    AluInputs {
        opcode: l.opcode,
        imm8: l.ir_low,
        imm: l.imm(),
        a: l.a,
        b: l.b,
        flag_z: arch.flag_z,
        flag_c: arch.flag_c,
        link,
    }
}

/// A block of tiles computes the instruction, if there is one and it is trusted.
pub open spec fn block_computes(l: PipelineLatch, auth: Authority, block: Option<u64>) -> bool {
    l.opcode == 0x09 && 1 <= l.ir_low % 32 <= 3 && auth.bitop && block is Some
}

/// The result of an instruction that does not access memory: that of a trusted block of
/// tiles, of the tile ALU for a trusted arithmetic shift, and else the software result.
pub open spec fn computed(
    i: AluInputs,
    l: PipelineLatch,
    auth: Authority,
    phys: Option<u64>,
    block: Option<u64>,
) -> u64 {
    if block_computes(l, auth, block) {
        block->0
    } else if is_sra(l.opcode, l.ir_low) && auth.sra && phys is Some {
        phys->0
    } else {
        result_of(i)
    }
}

/// What an instruction that does not access memory gives.
pub open spec fn compute_outcome(
    i: AluInputs,
    l: PipelineLatch,
    auth: Authority,
    phys: Option<u64>,
    block: Option<u64>,
) -> AluOutcome {
    let r = computed(i, l, auth, phys, block);
    AluOutcome {
        result: r,
        writes_reg: writes_reg(i),
        flag_z: zero_after(i, r),
        flag_c: carry_after(i, r),
    }
}

/// Execute an instruction that does not access memory. A block's result is checked against
/// the software result.
pub fn compute(
    l: &PipelineLatch,
    arch: &ArchState,
    link: u64,
    auth: &Authority,
    phys: Option<u64>,
    block: Option<u64>,
    counter: &mut CheckCounter,
) -> (o: AluOutcome)
    requires
        old(counter).room(1),
    ensures
        o == compute_outcome(alu_inputs(*l, *arch, link), *l, *auth, phys, block),
        *final(counter) == if block_computes(*l, *auth, block) {
            old(counter).after(block->0 != result_of(alu_inputs(*l, *arch, link)))
        } else {
            *old(counter)
        },
{
    let i: AluInputs = AluInputs {
        opcode: l.opcode,
        imm8: l.ir_low,
        imm: l.get_imm(),
        a: l.a,
        b: l.b,
        flag_z: arch.flag_z,
        flag_c: arch.flag_c,
        link,
    };
    let soft: AluOutcome = crate::alu::execute(&i);
    let mut result: u64 = soft.result;
    if l.opcode == 0x09 && 1 <= l.ir_low % 32 && l.ir_low % 32 <= 3 && auth.bitop {
        match block {
            Some(v) => {
                counter.record(v != soft.result);
                result = v;
            },
            None => {},
        }
    } else if arithmetic_shift(l.opcode, l.ir_low) && auth.sra {
        match phys {
            Some(v) => {
                result = v;
            },
            None => {},
        }
    }
    AluOutcome {
        result,
        writes_reg: soft.writes_reg,
        flag_z: if 0x03 <= l.opcode && l.opcode <= 0x14 {
            result == 0
        } else {
            arch.flag_z
        },
        flag_c: carry_of(&i, result),
    }
}

/// The address that a load or store accesses.
pub open spec fn access_addr(l: PipelineLatch, arch: ArchState, mem: DataMemory) -> int {
    mem_addr(l.opcode, l.ir_low, l.ir_ext, l.b, arch.regs@, mem.mem_addr_mask as u64) as int
}

/// The device access that an instruction makes, if there is a device: its address, and the
/// data for a store.
pub fn device_request(l: &PipelineLatch, arch: &ArchState, mem: &DataMemory) -> (r: Option<
    (u8, Option<u64>),
>)
    ensures
        r == if (is_load(l.opcode) || is_store(l.opcode)) && is_mmio(access_addr(*l, *arch, *mem)) {
            Some(
                (
                    access_addr(*l, *arch, *mem) as u8,
                    if is_store(l.opcode) {
                        Some(l.a)
                    } else {
                        None
                    },
                ),
            )
        } else {
            None
        },
{
    let load: bool = l.opcode == 0x16 || l.opcode == 0x18;
    let store: bool = l.opcode == 0x17 || l.opcode == 0x19;
    if !load && !store {
        return None;
    }
    let addr: usize = compute_mem_addr(
        l.opcode,
        l.ir_low,
        l.ir_ext,
        l.b,
        &arch.regs,
        mem.mem_addr_mask,
    );
    if !is_v2_mmio_addr(addr) {
        return None;
    }
    if store {
        Some((addr as u8, Some(l.a)))
    } else {
        Some((addr as u8, None))
    }
}

/// The memory after a load: a device's answer is mirrored at its address.
pub open spec fn loaded(
    before: DataMemory,
    after: DataMemory,
    addr: int,
    device: Option<u64>,
) -> bool {
    match device {
        Some(v) if is_mmio(addr) => after.writes(before, addr, v),
        _ => after == before,
    }
}

/// The grid after a load.
pub open spec fn with_load(idx: V2CpuIndices, g: Grid, addr: int, device: Option<u64>) -> Grid {
    match device {
        Some(v) if is_mmio(addr) => g.put(idx.ram_indices@[addr] as int, v),
        _ => g,
    }
}

/// Execute a load. `device` is what a device answered, where there is one.
pub fn load(
    idx: &V2CpuIndices,
    sim: &mut Simulation,
    mem: &mut DataMemory,
    l: &PipelineLatch,
    arch: &ArchState,
    device: Option<u64>,
    log: &mut MmioLog,
) -> (o: AluOutcome)
    requires
        old(sim).wf(),
        old(mem).wf(),
        idx.fits_commit(old(sim).len()),
    ensures
        ({
            let addr = access_addr(*l, *arch, *old(mem));
            &&& loaded(*old(mem), *final(mem), addr, device)
            &&& final(sim)@ == with_load(*idx, old(sim)@, addr, device)
            &&& o.result == final(mem).word(addr)
            &&& o.writes_reg
            &&& o.flag_z == (o.result == 0)
            &&& o.flag_c == arch.flag_c
            &&& final(log).writes@ == old(log).writes@
            &&& final(log).reads@ == if device is Some && is_mmio(addr) {
                old(log).reads@.push((addr as u8, device->0))
            } else {
                old(log).reads@
            }
        }),
        final(mem).wf(),
        final(sim).wf(),
        final(sim).len() == old(sim).len(),
{
    let addr: usize = compute_mem_addr(
        l.opcode,
        l.ir_low,
        l.ir_ext,
        l.b,
        &arch.regs,
        mem.mem_addr_mask,
    );
    match device {
        Some(v) => {
            if is_v2_mmio_addr(addr) {
                mem.write(addr, v);
                sim.set_logic_value_by_idx(idx.ram_indices[addr], v);
                log.reads.push((addr as u8, v));
            }
        },
        None => {},
    }
    let result: u64 = mem.read(addr);
    AluOutcome { result, writes_reg: true, flag_z: result == 0, flag_c: arch.flag_c }
}

/// The grid after a scratchpad store: the word's tile is written, or, where tiles do the
/// store, its data and write-enable neighbours are set for the clock edge.
pub open spec fn with_store(
    idx: V2CpuIndices,
    g: Grid,
    addr: int,
    value: u64,
    through_tiles: bool,
) -> Grid {
    let cell = idx.ram_indices@[addr] as int;
    if addr >= 128 {
        g
    } else if through_tiles && addr < 8 {
        g.retype(cell - 1, TileType::Const).put(cell - 1, value).put(cell - g.width, u64::MAX)
    } else {
        g.put(cell, value)
    }
}

/// Execute a store. A device, where there is one, takes the stores to its addresses.
pub fn store(
    idx: &V2CpuIndices,
    sim: &mut Simulation,
    mem: &mut DataMemory,
    l: &PipelineLatch,
    arch: &ArchState,
    auth: &Authority,
    device: bool,
    st: &mut StoreState,
    countdown: &mut u8,
    log: &mut MmioLog,
)
    requires
        old(sim).wf(),
        old(mem).wf(),
        idx.fits_commit(old(sim).len()),
        auth.ram_store ==> forall|i: int|
            0 <= i < 8 ==> #[trigger] idx.ram_indices@[i] >= old(sim).width,
    ensures
        ({
            let addr = access_addr(*l, *arch, *old(mem));
            if device && is_mmio(addr) {
                &&& *final(mem) == *old(mem)
                &&& final(sim)@ == old(sim)@
                &&& *final(st) == *old(st)
                &&& *final(countdown) == *old(countdown)
                &&& final(log).writes@ == old(log).writes@.push((addr as u8, l.a))
            } else {
                &&& final(mem).writes(*old(mem), addr, l.a)
                &&& final(sim)@ == with_store(*idx, old(sim)@, addr, l.a, auth.ram_store)
                &&& final(log).writes@ == old(log).writes@
                &&& *final(countdown) == if addr < 128 {
                    2
                } else {
                    *old(countdown)
                }
                &&& *final(st) == if addr >= 128 {
                    *old(st)
                } else if auth.ram_store && addr < 8 {
                    StoreState {
                        saved_via: Some(
                            (
                                (idx.ram_indices@[addr] - 1) as usize,
                                old(sim)@.kinds[idx.ram_indices@[addr] - 1],
                            ),
                        ),
                        inject_up_idx: (idx.ram_indices@[addr] - old(sim).width) as usize,
                        store_addr: addr as usize,
                    }
                } else {
                    StoreState { store_addr: addr as usize, ..*old(st) }
                }
            }
        }),
        final(log).reads@ == old(log).reads@,
        final(mem).wf(),
        final(sim).wf(),
        final(sim).len() == old(sim).len(),
{
    let addr: usize = compute_mem_addr(
        l.opcode,
        l.ir_low,
        l.ir_ext,
        l.b,
        &arch.regs,
        mem.mem_addr_mask,
    );
    if device && is_v2_mmio_addr(addr) {
        log.writes.push((addr as u8, l.a));
        return;
    }
    mem.write(addr, l.a);
    if addr < 128 {
        let cell: usize = idx.ram_indices[addr];
        if auth.ram_store && addr < 8 {
            let left: usize = cell - 1;
            let up: usize = cell - sim.width;
            st.saved_via = Some((left, sim.tile_type(left)));
            sim.set_tile(left, TileType::Const);
            sim.set_logic_value_by_idx(left, l.a);
            sim.set_logic_value_by_idx(up, u64::MAX);
            st.inject_up_idx = up;
        } else {
            sim.set_logic_value_by_idx(cell, l.a);
        }
        st.store_addr = addr;
        *countdown = 2;
    }
}

/// Which of the tiles' values are trusted for an instruction.
#[derive(Clone, Copy, Debug, PartialEq, Eq, Structural)]
pub struct Granted {
    /// The tile ALU's result.
    pub alu: bool,
    /// The write-back path of a move or load-immediate to the lower bank.
    pub wb_path: bool,
    /// The write-back path of a move or load-immediate to the upper bank.
    pub high_reg_wb: bool,
    /// The flags of a comparison.
    pub compare_flag: bool,
    /// The delivery of a sub-function's result.
    pub sub_fn: bool,
    /// The flags of a sub-function.
    pub sub_fn_flag: bool,
    /// The delivery of a loaded word.
    pub load: bool,
}

/// The tiles decode the instruction: they do in the lower half of the program, and in the
/// upper half where decode is trusted to them.
pub open spec fn tiles_decode(l: PipelineLatch, auth: Authority) -> bool {
    (l.pc / 64) % 2 == 0 || auth.decode
}

/// The tile ALU decides the result.
pub open spec fn alu_granted(
    l: PipelineLatch,
    auth: Authority,
    phys: Option<u64>,
    o: AluOutcome,
) -> bool {
    &&& phys is Some
    &&& auth.covers(l.opcode)
    &&& o.writes_reg
    &&& tiles_decode(l, auth)
    &&& !is_sub_function(l.opcode, l.ir_low)
}

/// The write-back path of a move or load-immediate to the lower bank is compared with the
/// result.
pub open spec fn wb_path_checked(
    l: PipelineLatch,
    auth: Authority,
    phys: Option<u64>,
    o: AluOutcome,
) -> bool {
    &&& auth.wb_data
    &&& !alu_granted(l, auth, phys, o)
    &&& o.writes_reg
    &&& !uses_upper(l)
    &&& l.opcode == 0x02 || l.opcode == 0x03
    &&& phys is Some
}

/// Which of the tiles' values are trusted, given the tile ALU's result and the software
/// outcome.
pub open spec fn granted(
    l: PipelineLatch,
    auth: Authority,
    phys: Option<u64>,
    o: AluOutcome,
) -> Granted {
    let alu = alu_granted(l, auth, phys, o);
    let agrees = phys == Some(o.result);
    let wb_path = wb_path_checked(l, auth, phys, o) && agrees;
    let sub = is_sub_function(l.opcode, l.ir_low);
    Granted {
        alu,
        wb_path,
        high_reg_wb: auth.high_reg_writeback && !alu && !wb_path && o.writes_reg && l.rd_hi() && (
        l.opcode == 0x02 || l.opcode == 0x03) && agrees,
        compare_flag: l.opcode == 0x0F && auth.flag_writeback && auth.covers(0x0F) && tiles_decode(
            l,
            auth,
        ) && agrees,
        sub_fn: sub && auth.sub_fn_delivery && o.writes_reg,
        sub_fn_flag: sub && auth.sub_fn_flag && o.writes_reg && !(is_sra(l.opcode, l.ir_low)
            && !auth.sra),
        load: is_load(l.opcode) && auth.load_delivery && o.writes_reg,
    }
}

/// The result after the tile ALU has had its say.
pub open spec fn decided(
    l: PipelineLatch,
    auth: Authority,
    phys: Option<u64>,
    o: AluOutcome,
) -> AluOutcome {
    if alu_granted(l, auth, phys, o) {
        AluOutcome { result: phys->0, ..o }
    } else {
        o
    }
}

/// Decide which of the tiles' values are trusted, and take the tile ALU's result where it is.
pub fn resolve_authority(
    l: &PipelineLatch,
    auth: &Authority,
    phys: Option<u64>,
    o: &mut AluOutcome,
    trunk: &mut CheckCounter,
    wb_data: &mut CheckCounter,
) -> (g: Granted)
    requires
        l.opcode < 32,
        old(trunk).room(1),
        old(wb_data).room(1),
    ensures
        *final(o) == decided(*l, *auth, phys, *old(o)),
        g == granted(*l, *auth, phys, *old(o)),
        *final(trunk) == if g.alu && uses_upper(*l) {
            old(trunk).after(false)
        } else {
            *old(trunk)
        },
        *final(wb_data) == if wb_path_checked(*l, *auth, phys, *old(o)) {
            old(wb_data).after(!g.wb_path)
        } else {
            *old(wb_data)
        },
{
    let bank_ok: bool = (l.pc / 64) % 2 == 0 || auth.decode;
    let sub: bool = sub_function(l.opcode, l.ir_low);
    let upper: bool = l.get_rd_hi() || l.get_rs_hi();
    let mover: bool = l.opcode == 0x02 || l.opcode == 0x03;
    let agrees: bool = match phys {
        Some(v) => v == o.result,
        None => false,
    };
    let alu: bool = phys.is_some() && auth.get_covers(l.opcode) && o.writes_reg && bank_ok && !sub;
    let mut wb_path: bool = false;
    if auth.wb_data && !alu && o.writes_reg && !upper && mover && phys.is_some() {
        wb_data.record(!agrees);
        wb_path = agrees;
    }
    let high_reg_wb: bool = auth.high_reg_writeback && !alu && !wb_path && o.writes_reg
        && l.get_rd_hi() && mover && agrees;
    let compare_flag: bool = l.opcode == 0x0F && auth.flag_writeback && auth.get_covers(0x0F) && bank_ok
        && agrees;
    let g: Granted = Granted {
        alu,
        wb_path,
        high_reg_wb,
        compare_flag,
        sub_fn: sub && auth.sub_fn_delivery && o.writes_reg,
        sub_fn_flag: sub && auth.sub_fn_flag && o.writes_reg && !(arithmetic_shift(
            l.opcode,
            l.ir_low,
        ) && !auth.sra),
        load: (l.opcode == 0x16 || l.opcode == 0x18) && auth.load_delivery && o.writes_reg,
    };
    if alu {
        if upper {
            trunk.record(false);
        }
        match phys {
            Some(v) => {
                o.result = v;
            },
            None => {},
        }
    }
    g
}

/// Where the tile ALU agrees with software, trusting it changes nothing.
pub proof fn law_agreeing_alu_changes_nothing(
    l: PipelineLatch,
    auth: Authority,
    phys: u64,
    o: AluOutcome,
)
    requires
        phys == o.result,
    ensures
        decided(l, auth, Some(phys), o) == o,
{
}

/// At most one of the three register paths is trusted for an instruction.
pub proof fn law_register_paths_exclude_each_other(
    l: PipelineLatch,
    auth: Authority,
    phys: Option<u64>,
    o: AluOutcome,
)
    ensures
        ({
            let g = granted(l, auth, phys, o);
            &&& !(g.alu && g.wb_path)
            &&& !(g.alu && g.high_reg_wb)
            &&& !(g.wb_path && g.high_reg_wb)
        }),
{
}

} // verus!
