//! Stage F up to its settle: the program counter, the instruction word, and what is injected
//! before the tiles decode it.
use vstd::prelude::*;

use crate::branch_stage::tile_index;
use crate::cop::{drive_level, level};
use crate::isa::ext_flag;
use crate::layout::V2CpuIndices;
use crate::pc_stage::{read_tile_pc, tile_pc};
use crate::simulation::{tile_at, Grid, Simulation, TileType};
use crate::state::{ArchState, Authority, PcMode, PipelineState};

verus! {

/// The grid with the data of every changed register among the first `n` marked.
pub open spec fn with_reg_marks(idx: V2CpuIndices, mask: u16, n: nat, g: Grid) -> Grid
    decreases n,
{
    if n == 0 {
        g
    } else {
        let before = with_reg_marks(idx, mask, (n - 1) as nat, g);
        if (mask >> ((n - 1) as u16)) & 1 == 1 {
            before.mark_all(idx.pipeline_reg_data_dirty_indices@[n - 1]@)
        } else {
            before
        }
    }
}

/// The grid with everything marked that the pipeline settles from: all of it when that is
/// forced, else its backbone and the data of the changed registers.
pub open spec fn with_pipeline_marks(idx: V2CpuIndices, p: PipelineState, g: Grid) -> Grid {
    if p.force_full_dirty {
        g.mark_all(idx.pipeline_dirty_indices@)
    } else {
        with_reg_marks(
            idx,
            p.changed_regs_mask,
            16,
            g.mark_all(idx.pipeline_backbone_dirty_indices@),
        )
    }
}

/// Mark what the pipeline settles from.
pub fn mark_pipeline_dirty(idx: &V2CpuIndices, sim: &mut Simulation, p: &mut PipelineState)
    requires
        old(sim).wf(),
        idx.fits_fetch(old(sim).len()),
    ensures
        final(sim)@ == with_pipeline_marks(*idx, *old(p), old(sim)@),
        *final(p) == (PipelineState {
            force_full_dirty: false,
            changed_regs_mask: 0,
            ..*old(p)
        }),
        final(sim).wf(),
        final(sim).len() == old(sim).len(),
{
    if p.force_full_dirty {
        p.force_full_dirty = false;
        sim.mark_all(&idx.pipeline_dirty_indices);
        p.changed_regs_mask = 0;
        return;
    }
    sim.mark_all(&idx.pipeline_backbone_dirty_indices);
    let mask: u16 = p.changed_regs_mask;
    let ghost g = sim@;
    let ghost n = sim.len();
    let mut r: usize = 0;
    while r < 16
        invariant
            r <= 16,
            sim.wf(),
            sim.len() == n,
            idx.fits_fetch(n),
            sim@ == with_reg_marks(*idx, mask, r as nat, g),
        decreases 16 - r,
    {
        if (mask >> (r as u16)) & 1 == 1 {
            sim.mark_all(&idx.pipeline_reg_data_dirty_indices[r]);
        }
        r = r + 1;
    }
    p.changed_regs_mask = 0;
}

/// The four bytes of a program word, lowest first.
pub open spec fn word_bytes(w: u32) -> Seq<u64> {
    seq![
        (w % 256) as u64,
        ((w / 256) % 256) as u64,
        ((w / 65536) % 256) as u64,
        (w / 16777216) as u64,
    ]
}

/// The address has no word in the tiles.
pub open spec fn beyond_tiles(mode: PcMode, pc: u32) -> bool {
    mode.extended_pc && pc >= 128
}

/// The word of the upper program at an address; zero past its end.
pub open spec fn ext_word(program_ext: Seq<u32>, pc: u32) -> u32 {
    if pc - 128 < program_ext.len() {
        program_ext[pc - 128]
    } else {
        0
    }
}

/// The four lanes of the instruction word at the program counter: of the upper program, or of
/// the selected memory bank's tiles.
pub open spec fn rom_lanes(
    idx: V2CpuIndices,
    mode: PcMode,
    program_ext: Seq<u32>,
    pc: u32,
    g: Grid,
) -> Seq<u64> {
    if beyond_tiles(mode, pc) {
        word_bytes(ext_word(program_ext, pc))
    } else {
        Seq::new(
            4,
            |lane: int|
                if (pc / 64) % 2 == 0 {
                    g.values[idx.final_mux_indices@[lane] as int]
                } else {
                    g.values[idx.bank47_mux_indices@[4 * ((pc / 16) % 4) + lane] as int]
                },
        )
    }
}

/// The four lanes of the instruction word at the program counter.
pub fn read_active_rom_lanes(
    idx: &V2CpuIndices,
    mode: &PcMode,
    program_ext: &Vec<u32>,
    sim: &Simulation,
) -> (r: [u64; 4])
    requires
        sim.wf(),
        idx.fits_fetch(sim.len()),
    ensures
        r@ == rom_lanes(*idx, *mode, program_ext@, tile_pc(*idx, *mode, sim@), sim@),
{
    let pc: u32 = read_tile_pc(idx, mode, sim);
    if mode.extended_pc && pc >= 128 {
        let at: usize = pc as usize - 128;
        let w: u32 = if at < program_ext.len() {
            program_ext[at]
        } else {
            0
        };
        let r: [u64; 4] = [
            (w % 256) as u64,
            ((w / 256) % 256) as u64,
            ((w / 65536) % 256) as u64,
            (w / 16777216) as u64,
        ];
        assert(r@ =~= word_bytes(w));
        return r;
    }
    let low: bool = (pc / 64) % 2 == 0;
    let bank: usize = ((pc / 16) % 4) as usize;
    let mut r: [u64; 4] = [0u64; 4];
    let mut lane: usize = 0;
    while lane < 4
        invariant
            lane <= 4,
            bank < 4,
            bank == (pc / 16) % 4,
            low == ((pc / 64) % 2 == 0),
            sim.wf(),
            idx.fits_fetch(sim.len()),
            forall|k: int|
                0 <= k < lane ==> #[trigger] r@[k] == if (pc / 64) % 2 == 0 {
                    sim@.values[idx.final_mux_indices@[k] as int]
                } else {
                    sim@.values[idx.bank47_mux_indices@[4 * ((pc / 16) % 4) + k] as int]
                },
        decreases 4 - lane,
    {
        r[lane] =
        if low {
            sim.get_logic_value_by_idx(idx.final_mux_indices[lane])
        } else {
            sim.get_logic_value_by_idx(idx.bank47_mux_indices[4 * bank + lane])
        };
        lane = lane + 1;
    }
    assert(r@ =~= rom_lanes(*idx, *mode, program_ext@, pc, sim@));
    r
}

/// The extension half of the instruction word at the program counter.
pub fn read_ir_ext(
    idx: &V2CpuIndices,
    mode: &PcMode,
    program_ext: &Vec<u32>,
    sim: &Simulation,
) -> (r: u16)
    requires
        sim.wf(),
        idx.fits_fetch(sim.len()),
    ensures
        ({
            let lanes = rom_lanes(*idx, *mode, program_ext@, tile_pc(*idx, *mode, sim@), sim@);
            r == (lanes[3] % 256) * 256 + lanes[2] % 256
        }),
{
    let lanes: [u64; 4] = read_active_rom_lanes(idx, mode, program_ext, sim);
    ((lanes[3] % 256) as u16) * 256 + (lanes[2] % 256) as u16
}

/// What the fetch found at the program counter.
#[derive(Clone, Copy)]
pub struct FetchWord {
    pub pc: u32,
    /// The instruction word, one lane per byte.
    pub lanes: [u64; 4],
    pub ir_low: u8,
    pub ir_ext: u16,
    pub opcode: u8,
    pub rd: u8,
    pub rs_lo: u8,
    /// The word comes from the upper program.
    pub beyond: bool,
    /// The word is delivered to the decoder from above: the upper program, or the upper half
    /// of the tiles' program with decode trusted to them.
    pub upper: bool,
}

impl FetchWord {
    /// The fields of lanes fetched at `pc`.
    pub open spec fn is_word(self, mode: PcMode, auth: Authority, pc: u32, lanes: Seq<u64>) -> bool {
        &&& self.pc == pc
        &&& self.lanes@ == lanes
        &&& self.ir_low == lanes[0] % 256
        &&& self.ir_ext == (((lanes[3] % 256) * 256) as u16) | ((lanes[2] % 65536) as u16)
        &&& self.opcode == (lanes[1] % 256) / 8
        &&& self.rd == lanes[1] % 8
        &&& self.rs_lo == (lanes[0] % 256) / 32
        &&& self.beyond == beyond_tiles(mode, pc)
        &&& self.upper == (((pc / 64) % 2 == 1 && auth.decode) || self.beyond)
        &&& self.opcode < 32
        &&& self.rd < 8
        &&& self.rs_lo < 8
    }

    pub open spec fn rd_hi(self) -> bool {
        ext_flag(self.ir_ext, 0)
    }

    pub open spec fn rs_hi(self) -> bool {
        ext_flag(self.ir_ext, 1)
    }

    pub open spec fn wide(self) -> bool {
        ext_flag(self.ir_ext, 2)
    }

    /// A move or load-immediate whose operand passes through the adder, without a wide
    /// immediate.
    pub open spec fn passes_through(self) -> bool {
        (self.opcode == 0x02 || self.opcode == 0x03) && !self.wide_load()
    }

    /// A wide load-immediate.
    pub open spec fn wide_load(self) -> bool {
        self.opcode == 0x03 && self.wide()
    }

    /// The decoder's inputs are held constant for this word.
    pub open spec fn forced(self, auth: Authority) -> bool {
        self.upper && (!auth.ir_spine || self.beyond)
    }

    pub fn get_rd_hi(&self) -> (r: bool)
        ensures
            r == self.rd_hi(),
    {
        self.ir_ext % 2 == 1
    }

    pub fn get_rs_hi(&self) -> (r: bool)
        ensures
            r == self.rs_hi(),
    {
        (self.ir_ext / 2) % 2 == 1
    }

    pub fn get_wide(&self) -> (r: bool)
        ensures
            r == self.wide(),
    {
        (self.ir_ext / 4) % 2 == 1
    }
}

/// Take the fields out of fetched lanes.
pub fn split_word(mode: &PcMode, auth: &Authority, pc: u32, lanes: [u64; 4]) -> (w: FetchWord)
    ensures
        w.is_word(*mode, *auth, pc, lanes@),
{
    let beyond: bool = mode.extended_pc && pc >= 128;
    let ir_low: u8 = (lanes[0] % 256) as u8;
    let ir_high: u8 = (lanes[1] % 256) as u8;
    let hi: u16 = ((lanes[3] % 256) * 256) as u16;
    let lo: u16 = (lanes[2] % 65536) as u16;
    FetchWord {
        pc,
        lanes,
        ir_low,
        ir_ext: hi | lo,
        opcode: ir_high / 8,
        rd: ir_high % 8,
        rs_lo: ir_low / 32,
        beyond,
        upper: ((pc / 64) % 2 == 1 && auth.decode) || beyond,
    }
}

/// The grid with the first `n` lanes injected at both inputs of their selectors.
pub open spec fn with_super_mux(idx: V2CpuIndices, w: FetchWord, n: nat, g: Grid) -> Grid
    decreases n,
{
    if n == 0 {
        g
    } else {
        let b = with_super_mux(idx, w, (n - 1) as nat, g);
        let lane = n - 1;
        let low = if w.beyond {
            w.lanes@[lane]
        } else {
            b.values[idx.final_mux_indices@[lane] as int]
        };
        let high = if w.beyond {
            w.lanes@[lane]
        } else {
            b.values[idx.bank47_mux_indices@[4 * ((w.pc / 16) % 4) + lane] as int]
        };
        b.put(idx.super_mux_inject_right_indices@[lane] as int, low).put(
            idx.super_mux_inject_indices@[lane] as int,
            high,
        ).mark(idx.rom_selected_indices@[lane] as int)
    }
}

fn inject_super_mux(idx: &V2CpuIndices, sim: &mut Simulation, w: &FetchWord)
    requires
        old(sim).wf(),
        idx.fits_fetch(old(sim).len()),
    ensures
        final(sim)@ == with_super_mux(*idx, *w, 4, old(sim)@),
        final(sim).wf(),
        final(sim).len() == old(sim).len(),
{
    let bank: usize = ((w.pc / 16) % 4) as usize;
    let ghost g = sim@;
    let ghost n = sim.len();
    let mut lane: usize = 0;
    while lane < 4
        invariant
            lane <= 4,
            bank < 4,
            bank == (w.pc / 16) % 4,
            sim.wf(),
            sim.len() == n,
            idx.fits_fetch(n),
            sim@ == with_super_mux(*idx, *w, lane as nat, g),
        decreases 4 - lane,
    {
        let low: u64 = if w.beyond {
            w.lanes[lane]
        } else {
            sim.get_logic_value_by_idx(idx.final_mux_indices[lane])
        };
        let high: u64 = if w.beyond {
            w.lanes[lane]
        } else {
            sim.get_logic_value_by_idx(idx.bank47_mux_indices[4 * bank + lane])
        };
        sim.set_logic_value_by_idx(idx.super_mux_inject_right_indices[lane], low);
        sim.set_logic_value_by_idx(idx.super_mux_inject_indices[lane], high);
        sim.mark_dirty(idx.rom_selected_indices[lane]);
        lane = lane + 1;
    }
}

/// The decoder's input tile for the high instruction byte.
pub open spec fn high_ingress(w: int, h: int, ox: int, oy: int) -> int {
    tile_at(w, h, ox + 13, oy + 4, 0)
}

/// The decoder's input tile for the low instruction byte.
pub open spec fn low_ingress(w: int, h: int, ox: int, oy: int) -> int {
    tile_at(w, h, ox + 1, oy + 4, 1)
}

/// The `i`th of the eight tiles that carry the low instruction byte to the operand selectors.
pub open spec fn immediate_tile(w: int, h: int, ox: int, oy: int, i: int) -> int {
    tile_at(w, h, ox + 18 + 4 * i, oy + 37, 0)
}

/// The CPU's decoder fits on a grid with at least four layers.
pub open spec fn decoder_fits(sim: Simulation, ox: int, oy: int) -> bool {
    &&& ox + 46 < sim.width
    &&& oy + 37 < sim.height
    &&& 4 * (sim.width * sim.height) <= sim.len()
}

/// The grid with the first `n` immediate tiles holding `v`.
pub open spec fn with_immediates(g: Grid, ox: int, oy: int, v: u64, n: nat) -> Grid
    decreases n,
{
    if n == 0 {
        g
    } else {
        with_immediates(g, ox, oy, v, (n - 1) as nat).put(
            immediate_tile(g.width, g.height, ox, oy, n - 1),
            v,
        )
    }
}

/// The grid with the decoder's inputs held at the instruction word.
pub open spec fn with_forced_word(g: Grid, ox: int, oy: int, w: FetchWord) -> Grid {
    let hi = high_ingress(g.width, g.height, ox, oy);
    let lo = low_ingress(g.width, g.height, ox, oy);
    with_immediates(
        g.retype(hi, TileType::Const).put(hi, w.lanes@[1]).retype(lo, TileType::Const).put(
            lo,
            w.lanes@[0],
        ),
        ox,
        oy,
        w.lanes@[0],
        8,
    )
}

fn force_word(sim: &mut Simulation, ox: usize, oy: usize, w: &FetchWord)
    requires
        old(sim).wf(),
        decoder_fits(*old(sim), ox as int, oy as int),
    ensures
        final(sim)@ == with_forced_word(old(sim)@, ox as int, oy as int, *w),
        final(sim).wf(),
        final(sim).len() == old(sim).len(),
{
    let hi: usize = tile_index(sim, ox + 13, oy + 4, 0);
    let lo: usize = tile_index(sim, ox + 1, oy + 4, 1);
    sim.set_tile(hi, TileType::Const);
    sim.set_logic_value_by_idx(hi, w.lanes[1]);
    sim.set_tile(lo, TileType::Const);
    sim.set_logic_value_by_idx(lo, w.lanes[0]);
    let ghost g = sim@;
    let ghost n = sim.len();
    let mut i: usize = 0;
    while i < 8
        invariant
            i <= 8,
            sim.wf(),
            sim.len() == n,
            sim.width == g.width,
            sim.height == g.height,
            decoder_fits(*sim, ox as int, oy as int),
            sim@ == with_immediates(g, ox as int, oy as int, w.lanes@[0], i as nat),
        decreases 8 - i,
    {
        let at: usize = tile_index(sim, ox + 18 + 4 * i, oy + 37, 0);
        sim.set_logic_value_by_idx(at, w.lanes[0]);
        i = i + 1;
    }
}

/// The grid with the upper registers on the inputs of the two upper operand trees. The second
/// tree takes its two halves in swapped order.
pub open spec fn with_high_data(idx: V2CpuIndices, regs: Seq<u64>, g: Grid) -> Grid {
    g.put_each(idx.high_tree_a_data_const_indices@, high_data_a(regs), 8).put_each(
        idx.high_tree_b_data_const_indices@,
        high_data_b(regs),
        8,
    )
}

/// The inputs of the first upper operand tree.
pub open spec fn high_data_a(regs: Seq<u64>) -> Seq<u64> {
    Seq::new(8, |i: int| regs[8 + i])
}

/// The inputs of the second upper operand tree.
pub open spec fn high_data_b(regs: Seq<u64>) -> Seq<u64> {
    Seq::new(8, |i: int| regs[8 + (i + 4) % 8])
}

fn inject_high_data(idx: &V2CpuIndices, sim: &mut Simulation, regs: &[u64; 16])
    requires
        old(sim).wf(),
        idx.fits_fetch(old(sim).len()),
    ensures
        final(sim)@ == with_high_data(*idx, regs@, old(sim)@),
        final(sim).wf(),
        final(sim).len() == old(sim).len(),
{
    let mut a: Vec<u64> = Vec::new();
    let mut b: Vec<u64> = Vec::new();
    let mut i: usize = 0;
    while i < 8
        invariant
            i <= 8,
            a@ =~= high_data_a(regs@).take(i as int),
            b@ =~= high_data_b(regs@).take(i as int),
        decreases 8 - i,
    {
        a.push(regs[8 + i]);
        b.push(regs[8 + (i + 4) % 8]);
        i = i + 1;
    }
    assert(a@ =~= high_data_a(regs@));
    assert(b@ =~= high_data_b(regs@));
    sim.put_list(&idx.high_tree_a_data_const_indices, &a);
    sim.put_list(&idx.high_tree_b_data_const_indices, &b);
}

/// The levels of a tree's seven selectors for register bits `x`: four of the first level, two
/// of the second, one of the third.
pub open spec fn tree_selectors(x: u8, third: bool) -> Seq<u64> {
    let s0 = level(x % 2 == 1);
    let s1 = level((x / 2) % 2 == 1);
    seq![s0, s0, s0, s0, s1, s1, level(third)]
}

/// The selectors of the first upper tree.
pub open spec fn selectors_a(w: FetchWord) -> Seq<u64> {
    tree_selectors(w.rd, (w.rd / 4) % 2 == 1)
}

/// The selectors of the second upper tree as they are injected: with its halves swapped, its
/// last selector is inverted.
pub open spec fn selectors_b(w: FetchWord) -> Seq<u64> {
    tree_selectors(w.rs_lo, (w.rs_lo / 4) % 2 == 0)
}

/// The levels of a tree's seven selectors.
pub fn selector_levels(x: u8, third: bool) -> (r: Vec<u64>)
    ensures
        r@ == tree_selectors(x, third),
{
    let s0: u64 = drive_level(x % 2 == 1);
    let s1: u64 = drive_level((x / 2) % 2 == 1);
    let r: Vec<u64> = vec![s0, s0, s0, s0, s1, s1, drive_level(third)];
    assert(r@ =~= tree_selectors(x, third));
    r
}

/// The grid with the operand trees' selectors set, and their paths marked.
pub open spec fn with_tree_selects(
    idx: V2CpuIndices,
    auth: Authority,
    w: FetchWord,
    g: Grid,
) -> Grid {
    let a = if auth.via_decode {
        g
    } else {
        g.put_each(idx.high_tree_a_sel_const_indices@, selectors_a(w), 7).put_each(
            idx.high_tree_b_sel_const_indices@,
            selectors_b(w),
            7,
        )
    };
    let b = a.put(idx.top_mux_a_sel_const_idx as int, level(w.rd_hi())).put(
        idx.top_mux_b_sel_const_idx as int,
        level(w.rs_hi()),
    );
    let c = if auth.via_decode {
        b.mark_all(idx.high_tree_a_sel_const_indices@).mark_all(
            idx.high_tree_b_sel_const_indices@,
        ).mark_all(idx.via_decode_inversion_dirty@)
    } else {
        b
    };
    c.mark_all(idx.high_tree_a_dirty_indices@).mark_all(idx.high_tree_b_dirty_indices@).mark_all(
        idx.top_mux_a_dirty_indices@,
    ).mark_all(idx.top_mux_b_dirty_indices@)
}

fn inject_tree_selects(idx: &V2CpuIndices, sim: &mut Simulation, auth: &Authority, w: &FetchWord)
    requires
        old(sim).wf(),
        idx.fits_fetch(old(sim).len()),
    ensures
        final(sim)@ == with_tree_selects(*idx, *auth, *w, old(sim)@),
        final(sim).wf(),
        final(sim).len() == old(sim).len(),
{
    if !auth.via_decode {
        let a: Vec<u64> = selector_levels(w.rd, (w.rd / 4) % 2 == 1);
        let b: Vec<u64> = selector_levels(w.rs_lo, (w.rs_lo / 4) % 2 == 0);
        sim.put_list(&idx.high_tree_a_sel_const_indices, &a);
        sim.put_list(&idx.high_tree_b_sel_const_indices, &b);
    }
    sim.set_logic_value_by_idx(idx.top_mux_a_sel_const_idx, drive_level(w.get_rd_hi()));
    sim.set_logic_value_by_idx(idx.top_mux_b_sel_const_idx, drive_level(w.get_rs_hi()));
    if auth.via_decode {
        sim.mark_all(&idx.high_tree_a_sel_const_indices);
        sim.mark_all(&idx.high_tree_b_sel_const_indices);
        sim.mark_all(&idx.via_decode_inversion_dirty);
    }
    sim.mark_all(&idx.high_tree_a_dirty_indices);
    sim.mark_all(&idx.high_tree_b_dirty_indices);
    sim.mark_all(&idx.top_mux_a_dirty_indices);
    sim.mark_all(&idx.top_mux_b_dirty_indices);
}

/// The grid with the adder passing its second operand through.
pub open spec fn with_pass_through(idx: V2CpuIndices, g: Grid) -> Grid {
    g.put(idx.alu_add_l_enable_idx as int, u64::MAX).mark(idx.alu_add_l_mux_idx as int)
}

/// The adder passes a move or load-immediate through while the fetch settles.
pub open spec fn pre_injected(auth: Authority, w: FetchWord) -> bool {
    auth.wb_data && w.passes_through()
}

/// The pipeline state after the word of the upper half is delivered.
pub open spec fn delivered_state(
    idx: V2CpuIndices,
    auth: Authority,
    w: FetchWord,
    p: PipelineState,
) -> PipelineState {
    if w.upper {
        PipelineState {
            compact_eval_inhibit: p.compact_eval_inhibit || w.forced(auth),
            compact_eval_inhibit_count: if w.forced(auth) {
                (p.compact_eval_inhibit_count + 1) as u64
            } else {
                p.compact_eval_inhibit_count
            },
            force_full_dirty: p.force_full_dirty || !(auth.ir_spine && !w.beyond
                && idx.upper_bank_dirty_indices@.len() > 0),
            ..p
        }
    } else {
        p
    }
}

/// The grid after the word of the upper half is delivered to the decoder.
pub open spec fn with_delivery(
    idx: V2CpuIndices,
    auth: Authority,
    ox: int,
    oy: int,
    w: FetchWord,
    g: Grid,
) -> Grid {
    let f = if w.forced(auth) {
        with_forced_word(g, ox, oy, w)
    } else {
        g
    };
    if w.upper && auth.ir_spine && !w.beyond && idx.upper_bank_dirty_indices@.len() > 0 {
        f.mark_all(idx.upper_bank_dirty_indices@)
    } else {
        f
    }
}

fn deliver_word(
    idx: &V2CpuIndices,
    sim: &mut Simulation,
    auth: &Authority,
    ox: usize,
    oy: usize,
    w: &FetchWord,
    p: &mut PipelineState,
)
    requires
        old(sim).wf(),
        idx.fits_fetch(old(sim).len()),
        decoder_fits(*old(sim), ox as int, oy as int),
        old(p).compact_eval_inhibit_count < u64::MAX,
    ensures
        final(sim)@ == with_delivery(*idx, *auth, ox as int, oy as int, *w, old(sim)@),
        *final(p) == delivered_state(*idx, *auth, *w, *old(p)),
        final(sim).wf(),
        final(sim).len() == old(sim).len(),
{
    if w.upper {
        if !auth.ir_spine || w.beyond {
            force_word(sim, ox, oy, w);
            p.compact_eval_inhibit = true;
            p.compact_eval_inhibit_count = p.compact_eval_inhibit_count + 1;
        }
        if auth.ir_spine && !w.beyond && idx.upper_bank_dirty_indices.len() > 0 {
            sim.mark_all(&idx.upper_bank_dirty_indices);
        } else {
            p.force_full_dirty = true;
        }
    }
}

/// The grid as the fetch settle starts from it, short of the pipeline marks of the upper half.
pub open spec fn with_fetch(
    idx: V2CpuIndices,
    auth: Authority,
    ox: int,
    oy: int,
    w: FetchWord,
    regs: Seq<u64>,
    g: Grid,
) -> Grid {
    let a = if auth.super_mux {
        with_super_mux(idx, w, 4, g)
    } else {
        g
    };
    let b = with_delivery(idx, auth, ox, oy, w, a);
    let c = with_tree_selects(idx, auth, w, with_high_data(idx, regs, b));
    if pre_injected(auth, w) {
        with_pass_through(idx, c)
    } else {
        c
    }
}

/// Read the program counter and mark what the fetch cone settles from.
pub fn begin_fetch(
    idx: &V2CpuIndices,
    mode: &PcMode,
    sim: &mut Simulation,
    arch: &mut ArchState,
    p: &mut PipelineState,
)
    requires
        old(sim).wf(),
        idx.fits_fetch(old(sim).len()),
    ensures
        *final(arch) == (ArchState { pc: tile_pc(*idx, *mode, old(sim)@), ..*old(arch) }),
        final(sim)@ == with_pipeline_marks(*idx, *old(p), old(sim)@),
        *final(p) == (PipelineState {
            force_full_dirty: false,
            changed_regs_mask: 0,
            ..*old(p)
        }),
        final(sim).wf(),
        final(sim).len() == old(sim).len(),
{
    arch.pc = read_tile_pc(idx, mode, sim);
    mark_pipeline_dirty(idx, sim, p);
}

/// Fetch the word at `pc` and inject everything the fetch settle needs. The lanes are read at
/// the program counter that the tiles hold.
pub fn inject_fetch(
    idx: &V2CpuIndices,
    mode: &PcMode,
    program_ext: &Vec<u32>,
    sim: &mut Simulation,
    arch: &ArchState,
    auth: &Authority,
    ox: usize,
    oy: usize,
    p: &mut PipelineState,
    reasons: &mut [u64; 7],
) -> (w: FetchWord)
    requires
        old(sim).wf(),
        idx.fits_fetch(old(sim).len()),
        decoder_fits(*old(sim), ox as int, oy as int),
        old(p).compact_eval_inhibit_count < u64::MAX,
        old(reasons)@[0] < u64::MAX,
    ensures
        ({
            let g = old(sim)@;
            let lanes = rom_lanes(*idx, *mode, program_ext@, tile_pc(*idx, *mode, g), g);
            let p1 = delivered_state(*idx, *auth, w, *old(p));
            let g1 = with_fetch(*idx, *auth, ox as int, oy as int, w, arch.regs@, g);
            &&& w.is_word(*mode, *auth, arch.pc, lanes)
            &&& final(sim)@ == if w.upper {
                with_pipeline_marks(*idx, p1, g1)
            } else {
                g1
            }
            &&& *final(p) == if w.upper {
                PipelineState { force_full_dirty: false, changed_regs_mask: 0, ..p1 }
            } else {
                p1
            }
        }),
        final(reasons)@ == old(reasons)@.update(0, (old(reasons)@[0] + 1) as u64),
        final(sim).wf(),
        final(sim).len() == old(sim).len(),
{
    let lanes: [u64; 4] = read_active_rom_lanes(idx, mode, program_ext, sim);
    let w: FetchWord = split_word(mode, auth, arch.pc, lanes);
    if auth.super_mux {
        inject_super_mux(idx, sim, &w);
    }
    proof {
        lemma_super_mux_shape(*idx, w, 4, old(sim)@);
    }
    deliver_word(idx, sim, auth, ox, oy, &w, p);
    inject_high_data(idx, sim, &arch.regs);
    inject_tree_selects(idx, sim, auth, &w);
    if auth.wb_data && (w.opcode == 0x02 || w.opcode == 0x03) && !(w.opcode == 0x03
        && w.get_wide()) {
        sim.set_logic_value_by_idx(idx.alu_add_l_enable_idx, u64::MAX);
        sim.mark_dirty(idx.alu_add_l_mux_idx);
    }
    reasons[0] = reasons[0] + 1;
    if w.upper {
        mark_pipeline_dirty(idx, sim, p);
    }
    w
}

proof fn lemma_super_mux_shape(idx: V2CpuIndices, w: FetchWord, n: nat, g: Grid)
    ensures
        with_super_mux(idx, w, n, g).width == g.width,
        with_super_mux(idx, w, n, g).height == g.height,
    decreases n,
{
    if n > 0 {
        lemma_super_mux_shape(idx, w, (n - 1) as nat, g);
    }
}

} // verus!
