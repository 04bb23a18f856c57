//! The tile CPU and the simulator: stage X executes an instruction as the simulator does, and
//! stage F latches the word that the simulator fetches, whatever the grid does in between.
use vstd::prelude::*;

use crate::alu::AluOutcome;
use crate::branch::{branch_kind, ctrl_b_of, halts};
use crate::cpu::TileCpuV2;
use crate::debug::begun;
use crate::decode::{acting_ctrl_b, operand_of, operand_regs};
use crate::execute::{alu_granted, block_computes};
use crate::fast::FastModel;
use crate::fetch::FetchWord;
use crate::iss::{
    after_access, executed, is_mtlr, latch_of, link_with, next_pc, outcome, regs_with, same_state,
    word_at, IssModel,
};
use crate::latch::PipelineLatch;
use crate::operand::is_sra;
use crate::pc_stage::{
    extended_next, low_word, narrow_next, pc_rule, pc_written, through_register, tile_pc,
};
use crate::simulation::Grid;
use crate::stage_f::fetch_finished;
use crate::stage_x::{stage_x_steps, Outside, StageX};
use crate::state::{Authority, PcMode};

verus! {

/// One step of stage X: the CPU and the grid before and after it, and what was done outside
/// before it.
pub struct XStep {
    pub a: TileCpuV2,
    pub g: Grid,
    pub b: TileCpuV2,
    pub h: Grid,
    pub at: StageX,
    pub out: Outside,
    pub to: StageX,
}

#[verifier::opaque]
pub open spec fn is_step(s: XStep) -> bool {
    stage_x_steps(s.a, s.g, s.b, s.h, s.at, s.out, s.to)
}

/// What the grid's settling and the devices leave alone in the CPU: its registers, its memory and
/// how it is set up. Grid and counters may change.
pub open spec fn undisturbed(b: TileCpuV2, a: TileCpuV2) -> bool {
    &&& a.arch == b.arch
    &&& a.mem == b.mem
    &&& a.auth == b.auth
    &&& a.mode == b.mode
    &&& a.idx == b.idx
}

/// Stage X from start to end on a latched instruction.
pub open spec fn is_stage_x_run(t: Seq<XStep>, l: PipelineLatch) -> bool {
    &&& t.len() == 16
    &&& t[0].at == StageX::Start(l)
    &&& forall|i: int| 0 <= i < 16 ==> is_step(#[trigger] t[i])
    &&& forall|i: int|
        0 <= i < 15 ==> t[i + 1].at == (#[trigger] t[i]).to && undisturbed(t[i].b, t[i + 1].a)
}

/// Where a value of the tiles is taken for the result, it is the simulator's.
pub open spec fn tiles_agree(
    m: IssModel,
    l: PipelineLatch,
    auth: Authority,
    phys: Option<u64>,
    bits: Option<u64>,
) -> bool {
    let o = outcome(m, l);
    &&& alu_granted(l, auth, phys, o) ==> phys == Some(o.result)
    &&& is_sra(l.opcode, l.ir_low) && auth.sra && phys is Some ==> phys == Some(o.result)
    &&& block_computes(l, auth, bits) ==> bits == Some(o.result)
}

/// A step that changes neither registers nor memory.
pub open spec fn is_quiet(at: StageX) -> bool {
    match at {
        StageX::Compute(_, _, _) => false,
        StageX::BranchSettle(_, _) => false,
        StageX::Captured(_) => false,
        StageX::Registers(_) => false,
        StageX::Flags(_, _, _) => false,
        _ => true,
    }
}

proof fn lemma_quiet_step(s: XStep)
    requires
        is_step(s),
        is_quiet(s.at),
    ensures
        undisturbed(s.a, s.b),
{
    reveal(is_step);
}

/// The instruction of a state stays the same, and the states follow each other.
proof fn lemma_successors(s: XStep)
    requires
        is_step(s),
    ensures
        match s.at {
            StageX::Start(l) => s.to matches StageX::Operands(m, _) && m == l,
            StageX::Operands(l, _) => s.to matches StageX::Compute(m, _, _) && m == l,
            StageX::Compute(l, _, p) => s.to matches StageX::Executed(x) && x.l == l && x.phys == p,
            StageX::Executed(x) => s.to matches StageX::Branch(y) && y.l == x.l,
            StageX::Branch(x) => s.to matches StageX::BranchSettle(y, _) && y == x,
            StageX::BranchSettle(x, _) => s.to == StageX::Select(x),
            StageX::Select(x) => s.to == StageX::Selected(x),
            StageX::Selected(x) => s.to matches StageX::Product(y) && y.l == x.l && y.o == x.o,
            StageX::Product(x) => s.to matches StageX::Commit(y) && y.l == x.l && y.o == x.o,
            StageX::Commit(x) => s.to matches StageX::Recommit(y, _) && y == x,
            StageX::Recommit(x, _) => s.to == StageX::Clock(x),
            StageX::Clock(x) => s.to == StageX::Captured(x),
            StageX::Captured(x) => s.to == StageX::Registers(x),
            StageX::Registers(x) => s.to == StageX::Flags(x, s.a.arch.flag_z, s.a.arch.flag_c),
            StageX::Flags(x, z, c) => s.to == StageX::Verify(x.l, z, c),
            _ => true,
        },
{
    reveal(is_step);
}

/// The instruction is executed as the simulator does.
proof fn lemma_compute_step(s: XStep, m: IssModel, l: PipelineLatch)
    requires
        is_step(s),
        s.at matches StageX::Compute(k, _, p) && k == l && tiles_agree(
            m,
            l,
            s.a.auth,
            p,
            s.out.bits,
        ),
        same_state(m, s.a.arch, s.a.mem),
        m.ports is None,
        !s.out.device,
        s.out.answer is None,
        !is_mtlr(l),
        s.g.values[s.a.idx.lr_idx as int] == s.a.arch.lr,
    ensures
        s.to matches StageX::Executed(x) && x.o == outcome(m, l),
        s.b.arch == s.a.arch,
        s.b.auth == s.a.auth,
        s.b.mode == s.a.mode,
        s.b.idx == s.a.idx,
        ({
            let n = after_access(m, l);
            &&& s.b.mem.ram@ == n.ram
            &&& s.b.mem.main_mem@ == n.main_mem
            &&& s.b.mem.mem_addr_mask == n.mem_addr_mask
        }),
{
    reveal(is_step);
}

proof fn lemma_executed_step(s: XStep, m: IssModel, l: PipelineLatch)
    requires
        is_step(s),
        s.at matches StageX::Executed(x) && x.l == l && x.o == outcome(m, l) && (alu_granted(
            l,
            s.a.auth,
            x.phys,
            x.o,
        ) ==> x.phys == Some(x.o.result)),
    ensures
        s.to matches StageX::Branch(y) && y.o == outcome(m, l),
{
    reveal(is_step);
}

proof fn lemma_control_step(s: XStep, m: IssModel, l: PipelineLatch)
    requires
        is_step(s),
        s.at matches StageX::BranchSettle(x, _) && x.l == l,
        m.lr == s.a.arch.lr,
        m.halted == s.a.arch.halted,
        !is_mtlr(l),
    ensures
        s.b.arch == (crate::state::ArchState {
            halted: m.halted || halts(l.ctrl_b),
            lr: link_with(m, l, s.a.mode.pc_phys_mask),
            ..s.a.arch
        }),
        s.b.mem == s.a.mem,
        s.b.auth == s.a.auth,
        s.b.mode == s.a.mode,
        s.b.idx == s.a.idx,
{
    reveal(is_step);
}

proof fn lemma_register_step(s: XStep, m: IssModel, l: PipelineLatch)
    requires
        is_step(s),
        s.at matches StageX::Captured(x) && x.l == l && x.o == outcome(m, l),
        m.regs == s.a.arch.regs@,
    ensures
        s.b.arch.regs@ == regs_with(m.regs, l, outcome(m, l)),
        s.b.arch == (crate::state::ArchState { regs: s.b.arch.regs, ..s.a.arch }),
        s.b.mem == s.a.mem,
        s.b.auth == s.a.auth,
        s.b.mode == s.a.mode,
        s.b.idx == s.a.idx,
{
    reveal(is_step);
}

proof fn lemma_flag_step(s: XStep, o: AluOutcome)
    requires
        is_step(s),
        s.at matches StageX::Registers(x) && x.o == o,
    ensures
        s.b.arch == (crate::state::ArchState { flag_z: o.flag_z, flag_c: o.flag_c, ..s.a.arch }),
        s.b.mem == s.a.mem,
        s.b.auth == s.a.auth,
        s.b.mode == s.a.mode,
        s.b.idx == s.a.idx,
{
    reveal(is_step);
}

proof fn lemma_pc_step(s: XStep, l: PipelineLatch, z: bool, c: bool)
    requires
        is_step(s),
        s.at matches StageX::Flags(x, u, v) && x.l == l && u == z && v == c,
    ensures
        s.b.arch == (crate::state::ArchState {
            pc: settled_pc(l, s.a.arch, s.a.mode, s.a.auth, z, c, tile_pc(s.a.idx, s.a.mode, s.g)),
            ..s.a.arch
        }),
        s.b.mem == s.a.mem,
{
    reveal(is_step);
}

/// The program counter that an instruction ends with, when the tiles hold `pc` after the clock
/// edge.
pub open spec fn settled_pc(
    l: PipelineLatch,
    arch: crate::state::ArchState,
    mode: PcMode,
    auth: Authority,
    z: bool,
    c: bool,
    pc: u32,
) -> u32 {
    match pc_written(pc_rule(l, arch, mode, auth, z, c), pc) {
        Some(v) => v & mode.pc_phys_mask,
        None => pc,
    }
}

/// The tiles alone decide where the program goes after this instruction: the program counter is
/// not sequenced in software, and the instruction is in the lower half of the program.
pub open spec fn tiles_decide(l: PipelineLatch, mode: PcMode) -> bool {
    !mode.extended_pc && (l.pc / 64) % 2 == 0
}

/// The program counter is kept in software, or has the seven bits that the tiles decode.
pub open spec fn is_mode(mode: PcMode) -> bool {
    mode.extended_pc || mode.pc_phys_mask == 0x7F
}

/// Software sequences this instruction as the simulator does: a halt names its own address, and
/// in the 128-word address space no target is in a register.
pub open spec fn sequenced_alike(l: PipelineLatch, mode: PcMode) -> bool {
    &&& halts(l.ctrl_b) ==> {
        &&& branch_kind(l.ctrl_b) == 1
        &&& !through_register(l)
        &&& low_word(l.imm()) & mode.pc_phys_mask == l.pc
    }
    &&& !mode.extended_pc && through_register(l) ==> branch_kind(l.ctrl_b) != 1 && branch_kind(
        l.ctrl_b,
    ) != 6
}

proof fn lemma_seven_bits(x: u32)
    ensures
        x & 0x7F == x % 128,
{
    assert(x & 0x7F == x % 128) by (bit_vector);
}

/// The next program counter in the 128-word address space, where no target is in a register.
proof fn lemma_narrow_is_extended(
    l: PipelineLatch,
    arch: crate::state::ArchState,
    z: bool,
    c: bool,
)
    requires
        through_register(l) ==> branch_kind(l.ctrl_b) != 1 && branch_kind(l.ctrl_b) != 6,
    ensures
        narrow_next(l, arch, 0x7F, z, c) == extended_next(l, arch, 0x7F, z, c),
{
    lemma_seven_bits(low_word(l.imm()));
    lemma_seven_bits(arch.lr);
    lemma_seven_bits((l.pc & 0x7F).wrapping_add(1));
    assert(low_word(l.imm()) % 128 == l.ir_low % 128);
}

/// The program counter that an instruction ends with is the simulator's: the tiles' where they
/// decide, which has to be it, and else the one that software gives.
proof fn lemma_settled_is_next(
    l: PipelineLatch,
    arch: crate::state::ArchState,
    mode: PcMode,
    auth: Authority,
    z: bool,
    c: bool,
    pc: u32,
)
    requires
        is_mode(mode),
        tiles_decide(l, mode) ==> pc == next_pc(l, arch.regs@, arch.lr, mode.pc_phys_mask, z, c),
        !tiles_decide(l, mode) ==> sequenced_alike(l, mode),
    ensures
        settled_pc(l, arch, mode, auth, z, c, pc) == next_pc(
            l,
            arch.regs@,
            arch.lr,
            mode.pc_phys_mask,
            z,
            c,
        ),
{
    let mask = mode.pc_phys_mask;
    if !tiles_decide(l, mode) {
        lemma_extended_is_masked(l, arch, mask, z, c);
        if !mode.extended_pc {
            lemma_narrow_is_extended(l, arch, z, c);
        }
    }
}

proof fn lemma_mask_twice(x: u32, mask: u32)
    ensures
        (x & mask) & mask == x & mask,
{
    assert((x & mask) & mask == x & mask) by (bit_vector);
}

proof fn lemma_extended_is_masked(
    l: PipelineLatch,
    arch: crate::state::ArchState,
    mask: u32,
    z: bool,
    c: bool,
)
    ensures
        extended_next(l, arch, mask, z, c) & mask == extended_next(l, arch, mask, z, c),
{
    lemma_mask_twice(low_word(arch.regs@[l.rd_eff()]), mask);
    lemma_mask_twice(arch.lr, mask);
    lemma_mask_twice(low_word(l.imm()), mask);
    lemma_mask_twice((l.pc & mask).wrapping_add(1), mask);
}

/// Stage X leaves registers, memory, flags, link register, halted state and program counter as the
/// simulator does, whatever the grid holds between its steps. Where a value of the tiles is taken
/// for the result it has to agree, and so has the program counter where the tiles alone decide
/// it; where software sequences it, the instruction has to be one that is sequenced alike. The
/// link register's tile has to hold it; there is no device; and the instruction does not move a
/// register to the link register, which only the simulator does.
pub proof fn law_stage_x_is_a_simulator_step(
    t: Seq<XStep>,
    m: IssModel,
    l: PipelineLatch,
)
    requires
        is_stage_x_run(t, l),
        same_state(m, t[0].a.arch, t[0].a.mem),
        m.ports is None,
        !is_mtlr(l),
        t[2].at matches StageX::Compute(_, _, p) && tiles_agree(
            m,
            l,
            t[0].a.auth,
            p,
            t[2].out.bits,
        ),
        !t[2].out.device,
        t[2].out.answer is None,
        t[2].g.values[t[2].a.idx.lr_idx as int] == t[0].a.arch.lr,
        is_mode(t[0].a.mode),
    ensures
        t[15].to is Done,
        ({
            let mask = t[0].a.mode.pc_phys_mask;
            let n = executed(m, l, mask);
            let arch = t[15].b.arch;
            let mem = t[15].b.mem;
            &&& arch.regs@ == n.regs
            &&& arch.lr == n.lr
            &&& arch.flag_z == n.flag_z
            &&& arch.flag_c == n.flag_c
            &&& arch.halted == n.halted
            &&& mem.ram@ == n.ram
            &&& mem.main_mem@ == n.main_mem
            &&& mem.mem_addr_mask == n.mem_addr_mask
            &&& pc_agrees(t[14], m, l) ==> arch.pc == n.pc
        }),
{
    lemma_front(t, m, l);
    lemma_middle(t, l, outcome(m, l));
    lemma_back(t, m, l, t[5].b);
    if pc_agrees(t[14], m, l) {
        lemma_settled_is_next(
            l,
            t[14].a.arch,
            t[14].a.mode,
            t[14].a.auth,
            m.flag_z,
            m.flag_c,
            tile_pc(t[14].a.idx, t[14].a.mode, t[14].g),
        );
    }
}

/// Where the tiles decide the program counter they hold the simulator's in this step, and where
/// software does, the instruction is sequenced alike.
pub open spec fn pc_agrees(s: XStep, m: IssModel, l: PipelineLatch) -> bool {
    if tiles_decide(l, s.a.mode) {
        tile_pc(s.a.idx, s.a.mode, s.g) == executed(m, l, s.a.mode.pc_phys_mask).pc
    } else {
        sequenced_alike(l, s.a.mode)
    }
}

/// The steps up to the control state.
proof fn lemma_front(t: Seq<XStep>, m: IssModel, l: PipelineLatch)
    requires
        is_stage_x_run(t, l),
        same_state(m, t[0].a.arch, t[0].a.mem),
        m.ports is None,
        !is_mtlr(l),
        t[2].at matches StageX::Compute(_, _, p) && tiles_agree(
            m,
            l,
            t[0].a.auth,
            p,
            t[2].out.bits,
        ),
        !t[2].out.device,
        t[2].out.answer is None,
        t[2].g.values[t[2].a.idx.lr_idx as int] == t[0].a.arch.lr,
    ensures
        t[5].to matches StageX::Select(x) && x.l == l && x.o == outcome(m, l),
        t[5].b.mode == t[0].a.mode,
        t[5].b.arch == (crate::state::ArchState {
            halted: m.halted || halts(l.ctrl_b),
            lr: link_with(m, l, t[0].a.mode.pc_phys_mask),
            ..t[0].a.arch
        }),
        ({
            let n = after_access(m, l);
            &&& t[5].b.mem.ram@ == n.ram
            &&& t[5].b.mem.main_mem@ == n.main_mem
            &&& t[5].b.mem.mem_addr_mask == n.mem_addr_mask
        }),
{
    lemma_link(t, 0, l);
    lemma_successors(t[0]);
    lemma_quiet_step(t[0]);
    lemma_link(t, 1, l);
    lemma_successors(t[1]);
    lemma_quiet_step(t[1]);
    lemma_link(t, 2, l);
    lemma_compute_step(t[2], m, l);
    lemma_successors(t[2]);
    lemma_link(t, 3, l);
    lemma_executed_step(t[3], m, l);
    lemma_successors(t[3]);
    lemma_quiet_step(t[3]);
    lemma_link(t, 4, l);
    lemma_successors(t[4]);
    lemma_quiet_step(t[4]);
    lemma_link(t, 5, l);
    lemma_control_step(t[5], m, l);
    lemma_successors(t[5]);
}

proof fn lemma_link(t: Seq<XStep>, i: int, l: PipelineLatch)
    requires
        is_stage_x_run(t, l),
        0 <= i < 16,
    ensures
        is_step(t[i]),
        i < 15 ==> t[i + 1].at == t[i].to && undisturbed(t[i].b, t[i + 1].a),
{
    assert(is_step(t[i]));
    if i < 15 {
        assert(t[i + 1].at == t[i].to);
    }
}

/// The steps around the commit, up to the clock edge.
proof fn lemma_middle(t: Seq<XStep>, l: PipelineLatch, o: AluOutcome)
    requires
        is_stage_x_run(t, l),
        t[5].to matches StageX::Select(x) && x.l == l && x.o == o,
    ensures
        t[12].at matches StageX::Captured(x) && x.l == l && x.o == o,
        undisturbed(t[5].b, t[12].a),
{
    lemma_link(t, 5, l);
    lemma_link(t, 6, l);
    lemma_successors(t[6]);
    lemma_quiet_step(t[6]);
    lemma_link(t, 7, l);
    lemma_successors(t[7]);
    lemma_quiet_step(t[7]);
    lemma_link(t, 8, l);
    lemma_successors(t[8]);
    lemma_quiet_step(t[8]);
    lemma_link(t, 9, l);
    lemma_successors(t[9]);
    lemma_quiet_step(t[9]);
    lemma_link(t, 10, l);
    lemma_successors(t[10]);
    lemma_quiet_step(t[10]);
    lemma_link(t, 11, l);
    lemma_successors(t[11]);
    lemma_quiet_step(t[11]);
}

/// The steps after the clock edge.
proof fn lemma_back(t: Seq<XStep>, m: IssModel, l: PipelineLatch, b: TileCpuV2)
    requires
        is_stage_x_run(t, l),
        t[12].at matches StageX::Captured(x) && x.l == l && x.o == outcome(m, l),
        undisturbed(b, t[12].a),
        m.regs == b.arch.regs@,
        m.flag_z == b.arch.flag_z,
        m.flag_c == b.arch.flag_c,
    ensures
        t[15].to is Done,
        t[15].b.mem == b.mem,
        ({
            let arch = t[15].b.arch;
            &&& arch.regs@ == regs_with(m.regs, l, outcome(m, l))
            &&& arch.lr == b.arch.lr
            &&& arch.flag_z == outcome(m, l).flag_z
            &&& arch.flag_c == outcome(m, l).flag_c
            &&& arch.halted == b.arch.halted
            &&& t[14].a.arch.regs == arch.regs
            &&& t[14].a.arch.lr == arch.lr
            &&& t[14].a.mode == b.mode
            &&& arch.pc == settled_pc(
                l,
                t[14].a.arch,
                b.mode,
                t[14].a.auth,
                m.flag_z,
                m.flag_c,
                tile_pc(t[14].a.idx, b.mode, t[14].g),
            )
        }),
{
    lemma_link(t, 12, l);
    lemma_register_step(t[12], m, l);
    lemma_successors(t[12]);
    lemma_link(t, 13, l);
    lemma_flag_step(t[13], outcome(m, l));
    lemma_successors(t[13]);
    lemma_link(t, 14, l);
    lemma_successors(t[14]);
    lemma_flags_keep_rest(t[14]);
    lemma_pc_step(t[14], l, m.flag_z, m.flag_c);
    lemma_link(t, 15, l);
    lemma_quiet_step(t[15]);
    lemma_done(t[15]);
}

proof fn lemma_flags_keep_rest(s: XStep)
    requires
        is_step(s),
        s.at is Flags,
    ensures
        s.b.arch == (crate::state::ArchState { pc: s.b.arch.pc, ..s.a.arch }),
        s.b.mem == s.a.mem,
{
    reveal(is_step);
}

proof fn lemma_done(s: XStep)
    requires
        is_step(s),
        s.at is Verify,
    ensures
        s.to is Done,
{
    reveal(is_step);
}

/// The bytes of an instruction word are in the lanes.
pub open spec fn holds_word(lanes: Seq<u64>, word: u32) -> bool {
    &&& lanes.len() == 4
    &&& lanes[0] == word % 256
    &&& lanes[1] == (word / 256) % 256
    &&& lanes[2] == (word / 65536) % 256
    &&& lanes[3] == word / 16777216
}

proof fn lemma_bytes_of_word(x: u64)
    requires
        x <= u32::MAX,
    ensures
        (x / 16777216) * 256 + (x / 65536) % 256 == x / 65536,
        x / 16777216 < 256,
        ((x / 256) % 256) / 8 == (x / 2048) % 32,
        ((x / 256) % 256) % 8 == (x / 256) % 8,
        (x % 256) / 32 == (x / 32) % 8,
{
    assert((x / 16777216) * 256 + (x / 65536) % 256 == x / 65536 && x / 16777216 < 256 && ((x
        / 256) % 256) / 8 == (x / 2048) % 32 && ((x / 256) % 256) % 8 == (x / 256) % 8 && (x % 256)
        / 32 == (x / 32) % 8) by (bit_vector)
        requires
            x <= 0xFFFF_FFFFu64,
    ;
}

proof fn lemma_joined_bytes(hi: u16, lo: u16)
    requires
        hi < 256,
        lo < 256,
    ensures
        ((hi * 256) as u16) | lo == hi * 256 + lo,
{
    assert(((hi * 256) as u16) | lo == hi * 256 + lo) by (bit_vector)
        requires
            hi < 256,
            lo < 256,
    ;
}

/// Stage F fills the latch as the simulator latches the word at the program counter, when the
/// lanes hold that word, the control byte is the table's, and the tiles that the operands are
/// taken from hold the registers. Only what the latch notes of the operand trees is its own.
pub proof fn law_stage_f_latches_the_word(
    a: TileCpuV2,
    g: Grid,
    b: TileCpuV2,
    h: Grid,
    w: FetchWord,
    block: Option<Seq<u64>>,
    l: PipelineLatch,
    lanes: Seq<u64>,
    word: u32,
    pc: u32,
    regs: Seq<u64>,
)
    requires
        w.is_word(a.mode, a.auth, pc, lanes),
        holds_word(lanes, word),
        regs.len() == 16,
        fetch_finished(a, g, b, h, w, block, l),
        acting_ctrl_b(
            a.tables,
            a.auth,
            a.gates.ctrl_b.enabled,
            block,
            w,
            g.values[a.idx.ctrl_b_mux_idx as int],
        ) == ctrl_b_of(w.opcode as int),
        ({
            let (rd, rs) = operand_regs(w);
            let gate = a.gates.operand.enabled;
            &&& operand_of(
                gate,
                w,
                g.values[a.idx.op_a_root_idx as int],
                g.values[a.idx.reg_indices@[rd] as int],
            ) == regs[rd]
            &&& operand_of(
                gate,
                w,
                g.values[a.idx.op_b_root_idx as int],
                g.values[a.idx.reg_indices@[rs] as int],
            ) == regs[rs]
        }),
    ensures
        l == (PipelineLatch {
            phys_top_a: l.phys_top_a,
            phys_top_b: l.phys_top_b,
            ..latch_of(word, pc, regs)
        }),
{
    lemma_word_fields(w, a.mode, a.auth, pc, lanes, word);
    lemma_latched(a, g, b, h, w, block, l);
}

/// What a finished fetch latches, over the fields of its word.
proof fn lemma_latched(
    a: TileCpuV2,
    g: Grid,
    b: TileCpuV2,
    h: Grid,
    w: FetchWord,
    block: Option<Seq<u64>>,
    l: PipelineLatch,
)
    requires
        fetch_finished(a, g, b, h, w, block, l),
    ensures
        l.valid,
        l.pc == w.pc,
        l.opcode == w.opcode,
        l.rd == w.rd,
        l.ir_low == w.ir_low,
        l.ir_ext == w.ir_ext,
        l.ctrl_b == acting_ctrl_b(
            a.tables,
            a.auth,
            a.gates.ctrl_b.enabled,
            block,
            w,
            g.values[a.idx.ctrl_b_mux_idx as int],
        ),
        l.a == operand_of(
            a.gates.operand.enabled,
            w,
            g.values[a.idx.op_a_root_idx as int],
            g.values[a.idx.reg_indices@[operand_regs(w).0] as int],
        ),
        l.b == operand_of(
            a.gates.operand.enabled,
            w,
            g.values[a.idx.op_b_root_idx as int],
            g.values[a.idx.reg_indices@[operand_regs(w).1] as int],
        ),
{
}

/// The fields of a word fetched from lanes that hold it.
proof fn lemma_word_fields(
    w: FetchWord,
    mode: PcMode,
    auth: Authority,
    pc: u32,
    lanes: Seq<u64>,
    word: u32,
)
    requires
        w.is_word(mode, auth, pc, lanes),
        holds_word(lanes, word),
    ensures
        w.pc == pc,
        w.ir_ext == word / 65536,
        w.opcode == (word / 2048) % 32,
        w.rd == (word / 256) % 8,
        w.rs_lo == (word / 32) % 8,
        w.ir_low == word % 256,
{
    lemma_bytes_of_word(word as u64);
    let hi = (word / 16777216) as u16;
    let lo = ((word / 65536) % 256) as u16;
    lemma_joined_bytes(hi, lo);
    assert(lanes[3] % 256 == hi);
    assert(lanes[2] % 65536 == lo);
    assert(((lanes[3] % 256) * 256) as u16 == (hi * 256) as u16);
    assert((lanes[2] % 65536) as u16 == lo);
    assert(lanes[1] % 256 == (word / 256) % 256);
    assert(lanes[0] % 256 == word % 256);
}

/// The cycle counts of the pipeline, and whether it executed an instruction.
pub open spec fn counts_of(c: TileCpuV2) -> (u64, u64, bool) {
    (c.pipe.cycle_count, c.pipe.retired_count, c.pipe.last_stage_x_valid)
}

proof fn lemma_step_keeps_counts(s: XStep)
    requires
        is_step(s),
    ensures
        counts_of(s.b) == counts_of(s.a),
{
    reveal(is_step);
}

/// Neither a step of stage X nor what happens between two steps changes the cycle counts.
proof fn lemma_run_keeps_counts(t: Seq<XStep>, l: PipelineLatch, i: int)
    requires
        is_stage_x_run(t, l),
        0 <= i < 16,
        forall|k: int| 0 <= k < 15 ==> counts_of(t[k + 1].a) == counts_of((#[trigger] t[k]).b),
    ensures
        counts_of(t[i].b) == counts_of(t[0].a),
    decreases i,
{
    lemma_link(t, i, l);
    lemma_step_keeps_counts(t[i]);
    if i > 0 {
        lemma_run_keeps_counts(t, l, i - 1);
        assert(counts_of(t[(i - 1) + 1].a) == counts_of(t[i - 1].b));
    }
}

/// The latch holds an instruction word with the operands that it had at an address; what it notes
/// of the operand trees does not count.
pub open spec fn latches(l: PipelineLatch, word: u32, pc: u32, regs: Seq<u64>) -> bool {
    l == (PipelineLatch {
        phys_top_a: l.phys_top_a,
        phys_top_b: l.phys_top_b,
        ..latch_of(word, pc, regs)
    })
}

/// The tile CPU and the fast CPU are in the same state: registers, memory and counts agree, and
/// the latch holds the next instruction once the pipeline is filled.
pub open spec fn in_step(c: TileCpuV2, f: FastModel) -> bool {
    &&& same_state(f.iss, c.arch, c.mem)
    &&& f.iss.ports is None
    &&& f.halted == c.arch.halted
    &&& f.mask == c.mode.pc_phys_mask
    &&& f.cycles == c.pipe.cycle_count
    &&& f.retired == c.pipe.retired_count
    &&& f.valid == c.pipe.last_stage_x_valid
    &&& f.filled == (c.pipe.cycle_count > 0)
    &&& c.pipe.latch.valid == (f.filled && !f.halted)
    &&& c.pipe.latch.valid ==> latches(
        c.pipe.latch,
        word_at(f.program, c.arch.pc),
        c.arch.pc,
        c.arch.regs@,
    )
}

/// Stage X runs on the latch of a tick that has begun, and what it takes from outside agrees with
/// the simulator.
pub open spec fn executes_in_tick(c: TileCpuV2, m: IssModel, t: Seq<XStep>) -> bool {
    let l = c.pipe.latch;
    &&& is_stage_x_run(t, l)
    &&& undisturbed(c, t[0].a)
    &&& counts_of(t[0].a) == (
        begun(c.pipe).cycle_count,
        begun(c.pipe).retired_count,
        begun(c.pipe).last_stage_x_valid,
    )
    &&& forall|k: int| 0 <= k < 15 ==> counts_of(t[k + 1].a) == counts_of((#[trigger] t[k]).b)
    &&& t[2].at matches StageX::Compute(_, _, p) && tiles_agree(
        m,
        l,
        c.auth,
        p,
        t[2].out.bits,
    )
    &&& !t[2].out.device
    &&& t[2].out.answer is None
    &&& t[2].g.values[t[2].a.idx.lr_idx as int] == c.arch.lr
    &&& pc_agrees(t[14], m, l)
}

/// A tick of the tile CPU from `c` to `e`. `t` is the run of stage X, which there is once the
/// pipeline is filled; stage F latched the word at the program counter unless the CPU is halted.
/// What stage X takes from the tiles agrees with a simulator in state `m`, and the instruction
/// does not move a register to the link register.
pub open spec fn is_tile_tick(
    c: TileCpuV2,
    m: IssModel,
    program: Seq<u32>,
    t: Seq<XStep>,
    e: TileCpuV2,
) -> bool {
    &&& is_mode(c.mode)
    &&& c.pipe.cycle_count < u64::MAX
    &&& c.pipe.retired_count < u64::MAX
    &&& if c.pipe.latch.valid {
        &&& !is_mtlr(c.pipe.latch)
        &&& executes_in_tick(c, m, t)
        &&& undisturbed(t[15].b, e)
        &&& counts_of(e) == counts_of(t[15].b)
    } else {
        &&& undisturbed(c, e)
        &&& counts_of(e) == (
            begun(c.pipe).cycle_count,
            begun(c.pipe).retired_count,
            begun(c.pipe).last_stage_x_valid,
        )
    }
    &&& if e.arch.halted {
        e.pipe.latch.is_empty_latch()
    } else {
        e.pipe.latch.valid && latches(
            e.pipe.latch,
            word_at(program, e.arch.pc),
            e.arch.pc,
            e.arch.regs@,
        )
    }
}

/// A tick of the tile CPU is a tick of the fast CPU: two CPUs in the same state are in the same
/// state after it. It holds in the 128-word address space and in the extended ones.
pub proof fn law_tile_tick_is_a_fast_tick(
    c: TileCpuV2,
    f: FastModel,
    t: Seq<XStep>,
    e: TileCpuV2,
)
    requires
        in_step(c, f),
        !f.halted,
        is_tile_tick(c, f.iss, f.program, t, e),
    ensures
        in_step(e, f.tick()),
{
    let l = c.pipe.latch;
    let m = f.iss;
    let mask = c.mode.pc_phys_mask;
    if l.valid {
        law_stage_x_is_a_simulator_step(t, m, l);
        lemma_run_keeps_counts(t, l, 15);
        lemma_run_keeps_mode(t, l, 15);
        let k = latch_of(word_at(f.program, m.pc), m.pc, m.regs);
        lemma_same_execution(m, l, k, mask);
        let b = t[15].b;
        assert(b.arch.pc == executed(m, l, mask).pc);
        assert(f.tick().iss == executed(m, k, mask));
    }
}

/// The states of the tile CPU before, between and after the ticks of a run, with what stage X did
/// in each, beside a fast CPU that starts in state `f`.
pub open spec fn is_tile_run(cs: Seq<TileCpuV2>, ts: Seq<Seq<XStep>>, f: FastModel) -> bool {
    &&& cs.len() == ts.len() + 1
    &&& forall|i: int|
        0 <= i < ts.len() ==> !cs[i].arch.halted && is_tile_tick(
            cs[i],
            f.ticks(i as nat).iss,
            f.program,
            #[trigger] ts[i],
            cs[i + 1],
        )
}

/// A run of the tile CPU is a run of the fast CPU: two CPUs that start in the same state are in
/// the same state after every tick.
pub proof fn law_tile_run_is_a_fast_run(
    cs: Seq<TileCpuV2>,
    ts: Seq<Seq<XStep>>,
    f: FastModel,
    n: nat,
)
    requires
        is_tile_run(cs, ts, f),
        in_step(cs[0], f),
        n <= ts.len(),
    ensures
        in_step(cs[n as int], f.ticks(n)),
        f.ticks(n).program == f.program,
    decreases n,
{
    if n > 0 {
        let m = (n - 1) as nat;
        law_tile_run_is_a_fast_run(cs, ts, f, m);
        assert(is_tile_tick(
            cs[m as int],
            f.ticks(m).iss,
            f.program,
            ts[m as int],
            cs[m as int + 1],
        ));
        law_tile_tick_is_a_fast_tick(cs[m as int], f.ticks(m), ts[m as int], cs[n as int]);
        lemma_one_more_tick(f, m);
    }
}

/// Ticking `n` times and once more is ticking `n + 1` times, unless the CPU halted before.
proof fn lemma_one_more_tick(f: FastModel, n: nat)
    requires
        !f.ticks(n).halted,
    ensures
        f.ticks(n + 1) == f.ticks(n).tick(),
        f.ticks(n).tick().program == f.ticks(n).program,
    decreases n,
{
    if n == 0 {
        reveal_with_fuel(FastModel::ticks, 2);
    } else {
        lemma_one_more_tick(f.tick(), (n - 1) as nat);
    }
}

/// The tile CPU is at reset, in the 128-word address space and without main memory.
pub open spec fn is_at_reset(c: TileCpuV2) -> bool {
    &&& c.arch.pc == 0
    &&& c.arch.lr == 0
    &&& !c.arch.flag_z
    &&& !c.arch.flag_c
    &&& !c.arch.halted
    &&& forall|i: int| 0 <= i < 16 ==> #[trigger] c.arch.regs@[i] == 0
    &&& c.mem.wf()
    &&& c.mem.main_mem@.len() == 0
    &&& forall|i: int| 0 <= i < 128 ==> #[trigger] c.mem.ram@[i] == 0
    &&& !c.mode.extended_pc
    &&& c.mode.pc_phys_mask == 0x7F
    &&& c.pipe.latch.is_empty_latch()
    &&& c.pipe.cycle_count == 0
    &&& c.pipe.retired_count == 0
    &&& !c.pipe.last_stage_x_valid
}

/// A tile CPU at reset is in the state of a fast CPU at reset, whatever the program.
pub proof fn law_cpus_start_in_step(c: TileCpuV2, program: Seq<u32>)
    requires
        is_at_reset(c),
    ensures
        in_step(c, FastModel::at_reset(program, None)),
{
    let f = FastModel::at_reset(program, None);
    assert(f.iss.regs =~= c.arch.regs@);
    assert(f.iss.ram =~= c.mem.ram@);
    assert(f.iss.main_mem =~= c.mem.main_mem@);
}

/// What a latch notes of the operand trees does not matter to the simulator.
proof fn lemma_same_execution(m: IssModel, l: PipelineLatch, k: PipelineLatch, mask: u32)
    requires
        l == (PipelineLatch { phys_top_a: l.phys_top_a, phys_top_b: l.phys_top_b, ..k }),
    ensures
        executed(m, l, mask) == executed(m, k, mask),
{
    assert(l.rd_eff() == k.rd_eff());
    assert(l.imm() == k.imm());
    assert(outcome(m, l) == outcome(m, k));
    assert(after_access(m, l) == after_access(m, k));
}

proof fn lemma_step_keeps_mode(s: XStep)
    requires
        is_step(s),
    ensures
        s.b.mode == s.a.mode,
{
    reveal(is_step);
}

/// Stage X keeps the width of the program counter.
proof fn lemma_run_keeps_mode(t: Seq<XStep>, l: PipelineLatch, i: int)
    requires
        is_stage_x_run(t, l),
        0 <= i < 16,
    ensures
        t[i].b.mode == t[0].a.mode,
    decreases i,
{
    lemma_link(t, i, l);
    lemma_step_keeps_mode(t[i]);
    if i > 0 {
        lemma_run_keeps_mode(t, l, i - 1);
        lemma_link(t, i - 1, l);
    }
}

} // verus!
