//! The instruction set simulator: one instruction per step, without tiles.
use vstd::prelude::*;

use crate::alu::{carry_after, is_load, is_store, opcode_uses_rs, result_of, uses_rs, writes_reg,
    zero_after, AluInputs, AluOutcome};
use crate::branch::{branch_kind, ctrl_b, ctrl_b_of, halts};
use crate::branch_stage::link_after;
use crate::isa::{ext_flag, is_mmio, is_v2_mmio_addr};
use crate::latch::PipelineLatch;
use crate::memory::{compute_mem_addr, mem_addr, DataMemory};
use crate::pc_stage::{extended_next_pc, get_low_word, low_word, through_register};
use crate::state::ArchState;

verus! {

/// The device window, as far as a lone CPU sees it: the two mailboxes, and what devices at the
/// other addresses answer and were last told.
#[derive(Clone, Copy)]
pub struct MmioPorts {
    /// Sent to and received from the left neighbour, at address 60.
    pub in_send: u64,
    pub in_recv: u64,
    /// Sent to and received from the right neighbour, at address 61.
    pub out_send: u64,
    pub out_recv: u64,
    /// What the device at address 41 + `i` answers.
    pub input: [u64; 23],
    /// What the device at address 41 + `i` was last told.
    pub output: [u64; 23],
}

/// The architectural state.
pub struct V2IssState {
    pub pc: u32,
    pub lr: u32,
    pub flag_z: bool,
    pub flag_c: bool,
    pub halted: bool,
    pub regs: [u64; 16],
    pub mem: DataMemory,
    pub iss_math_a: u64,
    pub iss_math_b: u64,
    pub iss_math_status: u64,
    pub iss_math_result: u64,
}

impl V2IssState {
    /// The words of the math unit are zero.
    pub open spec fn math_is_clear(self) -> bool {
        &&& self.iss_math_a == 0
        &&& self.iss_math_b == 0
        &&& self.iss_math_status == 0
        &&& self.iss_math_result == 0
    }
}

/// A program and the state it runs on.
pub struct V2Iss {
    pub state: V2IssState,
    pub program: Vec<u32>,
    pub pc_mask: u32,
    pub ports: Option<MmioPorts>,
}

/// The device window, as mathematical values.
#[verifier::ext_equal]
pub struct PortModel {
    pub in_send: u64,
    pub in_recv: u64,
    pub out_send: u64,
    pub out_recv: u64,
    pub input: Seq<u64>,
    pub output: Seq<u64>,
}

/// The architectural state and the device window, as mathematical values.
#[verifier::ext_equal]
pub struct IssModel {
    pub pc: u32,
    pub lr: u32,
    pub flag_z: bool,
    pub flag_c: bool,
    pub halted: bool,
    pub regs: Seq<u64>,
    pub ram: Seq<u64>,
    pub main_mem: Seq<u64>,
    pub mem_addr_mask: usize,
    pub ports: Option<PortModel>,
}

impl View for MmioPorts {
    type V = PortModel;

    open spec fn view(&self) -> PortModel {
        PortModel {
            in_send: self.in_send,
            in_recv: self.in_recv,
            out_send: self.out_send,
            out_recv: self.out_recv,
            input: self.input@,
            output: self.output@,
        }
    }
}

/// The model of a state and its device window.
pub open spec fn model_of(s: V2IssState, ports: Option<MmioPorts>) -> IssModel {
    IssModel {
        pc: s.pc,
        lr: s.lr,
        flag_z: s.flag_z,
        flag_c: s.flag_c,
        halted: s.halted,
        regs: s.regs@,
        ram: s.mem.ram@,
        main_mem: s.mem.main_mem@,
        mem_addr_mask: s.mem.mem_addr_mask,
        ports: match ports {
            Some(p) => Some(p@),
            None => None,
        },
    }
}

impl View for V2Iss {
    type V = IssModel;

    open spec fn view(&self) -> IssModel {
        model_of(self.state, self.ports)
    }
}

impl PortModel {
    /// What a load from a device address gives.
    pub open spec fn answer(self, addr: int) -> u64 {
        if addr == 60 {
            self.in_recv
        } else if addr == 61 {
            self.out_recv
        } else {
            self.input[addr - 41]
        }
    }

    /// The window after a store to a device address.
    pub open spec fn told(self, addr: int, v: u64) -> PortModel {
        if addr == 60 {
            PortModel { in_send: v, ..self }
        } else if addr == 61 {
            PortModel { out_send: v, ..self }
        } else {
            PortModel { output: self.output.update(addr - 41, v), ..self }
        }
    }
}

impl IssModel {
    /// What a memory word holds; zero outside the memory.
    pub open spec fn word(self, addr: int) -> u64 {
        if 0 <= addr < 128 {
            self.ram[addr]
        } else if 128 <= addr < 128 + self.main_mem.len() {
            self.main_mem[addr - 128]
        } else {
            0
        }
    }

    /// The state with a memory word set.
    pub open spec fn with_word(self, addr: int, v: u64) -> IssModel {
        IssModel {
            ram: if 0 <= addr < 128 {
                self.ram.update(addr, v)
            } else {
                self.ram
            },
            main_mem: if 128 <= addr < 128 + self.main_mem.len() {
                self.main_mem.update(addr - 128, v)
            } else {
                self.main_mem
            },
            ..self
        }
    }

    /// The address is answered by a device.
    pub open spec fn device_at(self, addr: int) -> bool {
        self.ports is Some && is_mmio(addr)
    }
}

/// The instruction word at an address; zero past the program's end.
pub open spec fn word_at(program: Seq<u32>, pc: u32) -> u32 {
    if pc < program.len() {
        program[pc as int]
    } else {
        0
    }
}

/// An instruction with its operands, as the pipeline would latch it.
pub open spec fn latch_of(word: u32, pc: u32, regs: Seq<u64>) -> PipelineLatch {
    let ext = (word / 65536) as u16;
    let op = ((word / 2048) % 32) as u8;
    let rd = ((word / 256) % 8) as u8;
    let rd_bank = if ext_flag(ext, 0) {
        8int
    } else {
        0int
    };
    let rs_bank = if uses_rs(op) {
        if ext_flag(ext, 1) {
            8int
        } else {
            0int
        }
    } else {
        rd_bank
    };
    PipelineLatch {
        valid: true,
        pc,
        opcode: op,
        rd,
        ctrl_b: ctrl_b_of(op as int),
        ir_low: (word % 256) as u8,
        ir_ext: ext,
        a: regs[rd + rd_bank],
        b: regs[(word / 32) % 8 + rs_bank],
        phys_top_a: 0,
        phys_top_b: 0,
    }
}

/// An instruction with its operands, as the pipeline would latch it.
pub fn latch_word(word: u32, pc: u32, regs: &[u64; 16]) -> (l: PipelineLatch)
    ensures
        l == latch_of(word, pc, regs@),
{
    let ext: u16 = (word / 65536) as u16;
    let op: u8 = ((word / 2048) % 32) as u8;
    let rd: u8 = ((word / 256) % 8) as u8;
    let rs: usize = ((word / 32) % 8) as usize;
    let rd_bank: usize = if ext % 2 == 1 {
        8
    } else {
        0
    };
    let rs_bank: usize = if opcode_uses_rs(op) {
        if (ext / 2) % 2 == 1 {
            8
        } else {
            0
        }
    } else {
        rd_bank
    };
    PipelineLatch {
        valid: true,
        pc,
        opcode: op,
        rd,
        ctrl_b: ctrl_b(op),
        ir_low: (word % 256) as u8,
        ir_ext: ext,
        a: regs[rd as usize + rd_bank],
        b: regs[rs + rs_bank],
        phys_top_a: 0,
        phys_top_b: 0,
    }
}

/// The instruction moves a register to the link register.
pub open spec fn is_mtlr(l: PipelineLatch) -> bool {
    l.opcode == 0x02 && l.ir_low % 32 == 6
}

/// The address that a load or store accesses.
pub open spec fn access_at(m: IssModel, l: PipelineLatch) -> int {
    mem_addr(l.opcode, l.ir_low, l.ir_ext, l.b, m.regs, m.mem_addr_mask as u64) as int
}

/// The inputs that an instruction executes on.
pub open spec fn inputs_of(m: IssModel, l: PipelineLatch) -> AluInputs {
    AluInputs {
        opcode: l.opcode,
        imm8: l.ir_low,
        imm: l.imm(),
        a: l.a,
        b: l.b,
        flag_z: m.flag_z,
        flag_c: m.flag_c,
        link: m.lr as u64,
    }
}

/// What a load gives: the device's answer, or the memory word.
pub open spec fn load_value(m: IssModel, addr: int) -> u64 {
    if m.device_at(addr) {
        m.ports->0.answer(addr)
    } else {
        m.word(addr)
    }
}

/// What an instruction gives.
pub open spec fn outcome(m: IssModel, l: PipelineLatch) -> AluOutcome {
    let i = inputs_of(m, l);
    if is_load(l.opcode) {
        let v = load_value(m, access_at(m, l));
        AluOutcome { result: v, writes_reg: true, flag_z: v == 0, flag_c: m.flag_c }
    } else {
        let r = result_of(i);
        AluOutcome {
            result: r,
            writes_reg: writes_reg(i) && !is_mtlr(l),
            flag_z: zero_after(i, r),
            flag_c: carry_after(i, r),
        }
    }
}

/// The state after an instruction's memory access. A device's answer is mirrored in memory; a
/// device takes the stores to its addresses.
pub open spec fn after_access(m: IssModel, l: PipelineLatch) -> IssModel {
    let addr = access_at(m, l);
    if is_load(l.opcode) && m.device_at(addr) {
        m.with_word(addr, m.ports->0.answer(addr))
    } else if is_store(l.opcode) {
        if m.device_at(addr) {
            IssModel { ports: Some(m.ports->0.told(addr, l.a)), ..m }
        } else {
            m.with_word(addr, l.a)
        }
    } else {
        m
    }
}

/// The registers after an instruction.
pub open spec fn regs_with(regs: Seq<u64>, l: PipelineLatch, o: AluOutcome) -> Seq<u64> {
    if o.writes_reg {
        regs.update(l.rd_eff(), o.result)
    } else {
        regs
    }
}

/// The link register after an instruction.
pub open spec fn link_with(m: IssModel, l: PipelineLatch, mask: u32) -> u32 {
    if is_mtlr(l) {
        low_word(l.b) & mask
    } else {
        link_after(l, m.lr, mask)
    }
}

/// Where the program goes after an instruction whose registers and link register are settled: a
/// halt stays where it is.
pub open spec fn next_pc(
    l: PipelineLatch,
    regs: Seq<u64>,
    lr: u32,
    mask: u32,
    z: bool,
    c: bool,
) -> u32 {
    let kind = branch_kind(l.ctrl_b);
    let fall_through = (l.pc & mask).wrapping_add(1) & mask;
    if halts(l.ctrl_b) {
        l.pc
    } else if through_register(l) && (kind == 1 || kind == 6) {
        low_word(regs[l.rd_eff()]) & mask
    } else if kind == 7 {
        lr & mask
    } else {
        crate::branch::branch_pc(kind, z, c, low_word(l.imm()) & mask, fall_through, lr)
    }
}

/// The state after executing a latched instruction.
pub open spec fn executed(m: IssModel, l: PipelineLatch, mask: u32) -> IssModel {
    let o = outcome(m, l);
    let regs = regs_with(m.regs, l, o);
    let lr = link_with(m, l, mask);
    IssModel {
        pc: next_pc(l, regs, lr, mask, m.flag_z, m.flag_c),
        lr,
        flag_z: o.flag_z,
        flag_c: o.flag_c,
        halted: m.halted || halts(l.ctrl_b),
        regs,
        ..after_access(m, l)
    }
}

/// The state after one step. A halted state stays as it is.
pub open spec fn stepped(m: IssModel, program: Seq<u32>, mask: u32) -> IssModel {
    if m.halted {
        m
    } else {
        executed(m, latch_of(word_at(program, m.pc), m.pc, m.regs), mask)
    }
}

/// The state after `n` steps.
pub open spec fn steps(m: IssModel, program: Seq<u32>, mask: u32, n: nat) -> IssModel
    decreases n,
{
    if n == 0 {
        m
    } else {
        stepped(steps(m, program, mask, (n - 1) as nat), program, mask)
    }
}

impl V2Iss {
    /// The memory is well formed.
    pub open spec fn wf(self) -> bool {
        self.state.mem.wf()
    }

    /// A program at reset, without devices.
    pub fn from_program(program: &Vec<u32>) -> (s: Self)
        ensures
            s.wf(),
            s.program@ == program@,
            s.pc_mask == 0x7F,
            s@ == reset_model(None),
            s.state.math_is_clear(),
    {
        let mut copy: Vec<u32> = Vec::new();
        copy.extend_from_slice(program.as_slice());
        assert(copy@ =~= program@);
        let s: V2Iss = V2Iss {
            state: V2IssState {
                pc: 0,
                lr: 0,
                flag_z: false,
                flag_c: false,
                halted: false,
                regs: [0u64; 16],
                mem: DataMemory::new(),
                iss_math_a: 0,
                iss_math_b: 0,
                iss_math_status: 0,
                iss_math_result: 0,
            },
            program: copy,
            pc_mask: 0x7F,
            ports: None,
        };
        assert(s@ =~= reset_model(None));
        s
    }

    /// A program at reset, with a device window whose devices answer zero.
    pub fn from_program_with_mmio(program: &Vec<u32>) -> (s: Self)
        ensures
            s.wf(),
            s.program@ == program@,
            s.pc_mask == 0x7F,
            s@ == reset_model(Some(quiet_ports())),
            s.state.math_is_clear(),
    {
        let mut s: V2Iss = V2Iss::from_program(program);
        let ports: MmioPorts = MmioPorts {
            in_send: 0,
            in_recv: 0,
            out_send: 0,
            out_recv: 0,
            input: [0u64; 23],
            output: [0u64; 23],
        };
        assert(ports@ =~= quiet_ports());
        s.ports = Some(ports);
        assert(s@ =~= reset_model(Some(quiet_ports())));
        s
    }

    pub fn state(&self) -> (r: &V2IssState)
        ensures
            *r == self.state,
    {
        &self.state
    }

    fn device_load(&self, addr: usize) -> (r: Option<u64>)
        ensures
            r == if self@.device_at(addr as int) {
                Some(self@.ports->0.answer(addr as int))
            } else {
                None
            },
    {
        match &self.ports {
            Some(p) => {
                if !is_v2_mmio_addr(addr) {
                    None
                } else if addr == 60 {
                    Some(p.in_recv)
                } else if addr == 61 {
                    Some(p.out_recv)
                } else {
                    Some(p.input[addr - 41])
                }
            },
            None => None,
        }
    }

    /// Execute one instruction. Returns whether there was one: a halted state does not step.
    pub fn step(&mut self) -> (r: bool)
        requires
            old(self).wf(),
        ensures
            r == !old(self)@.halted,
            final(self)@ == stepped(old(self)@, old(self).program@, old(self).pc_mask),
            final(self).wf(),
            final(self).program == old(self).program,
            final(self).pc_mask == old(self).pc_mask,
    {
        if self.state.halted {
            return false;
        }
        let ghost m = self@;
        let mask: u32 = self.pc_mask;
        let pc: u32 = self.state.pc;
        let word: u32 = if (pc as usize) < self.program.len() {
            self.program[pc as usize]
        } else {
            0
        };
        let l: PipelineLatch = latch_word(word, pc, &self.state.regs);
        assert(l == latch_of(word_at(self.program@, m.pc), m.pc, m.regs));
        let z: bool = self.state.flag_z;
        let c: bool = self.state.flag_c;
        let load: bool = l.opcode == 0x16 || l.opcode == 0x18;
        let store: bool = l.opcode == 0x17 || l.opcode == 0x19;
        let mtlr: bool = l.opcode == 0x02 && l.ir_low % 32 == 6;
        let o: AluOutcome = if load {
            let addr: usize = compute_mem_addr(
                l.opcode,
                l.ir_low,
                l.ir_ext,
                l.b,
                &self.state.regs,
                self.state.mem.mem_addr_mask,
            );
            let device: Option<u64> = self.device_load(addr);
            let v: u64 = match device {
                Some(v) => {
                    self.state.mem.write(addr, v);
                    v
                },
                None => self.state.mem.read(addr),
            };
            AluOutcome { result: v, writes_reg: true, flag_z: v == 0, flag_c: c }
        } else {
            let i: AluInputs = AluInputs {
                opcode: l.opcode,
                imm8: l.ir_low,
                imm: l.get_imm(),
                a: l.a,
                b: l.b,
                flag_z: z,
                flag_c: c,
                link: self.state.lr as u64,
            };
            let soft: AluOutcome = crate::alu::execute(&i);
            AluOutcome { writes_reg: soft.writes_reg && !mtlr, ..soft }
        };
        if store {
            let addr: usize = compute_mem_addr(
                l.opcode,
                l.ir_low,
                l.ir_ext,
                l.b,
                &self.state.regs,
                self.state.mem.mem_addr_mask,
            );
            match &mut self.ports {
                Some(p) => {
                    if is_v2_mmio_addr(addr) {
                        if addr == 60 {
                            p.in_send = l.a;
                        } else if addr == 61 {
                            p.out_send = l.a;
                        } else {
                            p.output[addr - 41] = l.a;
                        }
                    } else {
                        self.state.mem.write(addr, l.a);
                    }
                },
                None => {
                    self.state.mem.write(addr, l.a);
                },
            }
        }
        assert(o == outcome(m, l));
        assert(model_of(self.state, self.ports) =~= after_access(m, l));
        if o.writes_reg {
            self.state.regs[l.get_rd_eff()] = o.result;
        }
        self.state.flag_z = o.flag_z;
        self.state.flag_c = o.flag_c;
        let halt: bool = (l.ctrl_b / 32) % 2 == 1;
        if mtlr {
            self.state.lr = get_low_word(l.b) & mask;
        } else if !halt && l.ctrl_b % 8 == 6 {
            self.state.lr = (pc & mask).wrapping_add(1) & mask;
        }
        if halt {
            self.state.halted = true;
        } else {
            let arch: ArchState = ArchState {
                regs: self.state.regs,
                pc,
                lr: self.state.lr,
                flag_z: z,
                flag_c: c,
                halted: false,
            };
            self.state.pc = extended_next_pc(&l, &arch, mask, z, c);
        }
        assert(self@ =~= executed(m, l, mask));
        true
    }

    pub fn mailbox_in_send(&self) -> (v: u64)
        ensures
            v == match self@.ports {
                Some(p) => p.in_send,
                None => 0,
            },
    {
        match &self.ports {
            Some(p) => p.in_send,
            None => 0,
        }
    }

    pub fn mailbox_out_send(&self) -> (v: u64)
        ensures
            v == match self@.ports {
                Some(p) => p.out_send,
                None => 0,
            },
    {
        match &self.ports {
            Some(p) => p.out_send,
            None => 0,
        }
    }

    /// Set what the left neighbour sent.
    pub fn set_mailbox_in_recv(&mut self, v: u64)
        requires
            old(self).wf(),
        ensures
            final(self)@ == with_in_recv(old(self)@, v),
            final(self).wf(),
            final(self).program == old(self).program,
            final(self).pc_mask == old(self).pc_mask,
    {
        match &mut self.ports {
            Some(p) => {
                p.in_recv = v;
            },
            None => {},
        }
    }

    /// Set what the right neighbour sent.
    pub fn set_mailbox_out_recv(&mut self, v: u64)
        requires
            old(self).wf(),
        ensures
            final(self)@ == with_out_recv(old(self)@, v),
            final(self).wf(),
            final(self).program == old(self).program,
            final(self).pc_mask == old(self).pc_mask,
    {
        match &mut self.ports {
            Some(p) => {
                p.out_recv = v;
            },
            None => {},
        }
    }

    /// Forget what was sent to both neighbours.
    pub fn clear_mailbox_sends(&mut self)
        requires
            old(self).wf(),
        ensures
            final(self)@ == without_sends(old(self)@),
            final(self).wf(),
            final(self).program == old(self).program,
            final(self).pc_mask == old(self).pc_mask,
    {
        match &mut self.ports {
            Some(p) => {
                p.in_send = 0;
                p.out_send = 0;
            },
            None => {},
        }
    }
}

/// The state at reset.
pub open spec fn reset_model(ports: Option<PortModel>) -> IssModel {
    IssModel {
        pc: 0,
        lr: 0,
        flag_z: false,
        flag_c: false,
        halted: false,
        regs: Seq::new(16, |i: int| 0u64),
        ram: Seq::new(128, |i: int| 0u64),
        main_mem: Seq::empty(),
        mem_addr_mask: 127,
        ports,
    }
}

/// A device window in which nothing was said.
pub open spec fn quiet_ports() -> PortModel {
    PortModel {
        in_send: 0,
        in_recv: 0,
        out_send: 0,
        out_recv: 0,
        input: Seq::new(23, |i: int| 0u64),
        output: Seq::new(23, |i: int| 0u64),
    }
}

/// The state with a value received from the left.
pub open spec fn with_in_recv(m: IssModel, v: u64) -> IssModel {
    match m.ports {
        Some(p) => IssModel { ports: Some(PortModel { in_recv: v, ..p }), ..m },
        None => m,
    }
}

/// The state with a value received from the right.
pub open spec fn with_out_recv(m: IssModel, v: u64) -> IssModel {
    match m.ports {
        Some(p) => IssModel { ports: Some(PortModel { out_recv: v, ..p }), ..m },
        None => m,
    }
}

/// The state with nothing sent to either neighbour.
pub open spec fn without_sends(m: IssModel) -> IssModel {
    match m.ports {
        Some(p) => IssModel { ports: Some(PortModel { in_send: 0, out_send: 0, ..p }), ..m },
        None => m,
    }
}

/// A halted state stays as it is, however often it is stepped.
pub proof fn law_halted_state_stays(m: IssModel, program: Seq<u32>, mask: u32, n: nat)
    requires
        m.halted,
    ensures
        steps(m, program, mask, n) == m,
    decreases n,
{
    if n > 0 {
        law_halted_state_stays(m, program, mask, (n - 1) as nat);
    }
}

/// The program counter never leaves the address space.
pub proof fn law_pc_stays_in_range(m: IssModel, program: Seq<u32>, mask: u32, n: nat)
    requires
        m.pc <= mask,
    ensures
        steps(m, program, mask, n).pc <= mask,
    decreases n,
{
    if n > 0 {
        law_pc_stays_in_range(m, program, mask, (n - 1) as nat);
        let b = steps(m, program, mask, (n - 1) as nat);
        let l = latch_of(word_at(program, b.pc), b.pc, b.regs);
        let o = outcome(b, l);
        let regs = regs_with(b.regs, l, o);
        let lr = link_with(b, l, mask);
        lemma_masked(low_word(regs[l.rd_eff()]), mask);
        lemma_masked(lr, mask);
        lemma_masked(low_word(l.imm()), mask);
        lemma_masked((l.pc & mask).wrapping_add(1), mask);
    }
}

proof fn lemma_masked(x: u32, mask: u32)
    ensures
        x & mask <= mask,
{
    assert(x & mask <= mask) by (bit_vector);
}

/// The simulator's registers, memory, flags and link register, and those of the tile CPU.
pub open spec fn same_state(m: IssModel, arch: ArchState, mem: DataMemory) -> bool {
    &&& m.pc == arch.pc
    &&& m.lr == arch.lr
    &&& m.flag_z == arch.flag_z
    &&& m.flag_c == arch.flag_c
    &&& m.halted == arch.halted
    &&& m.regs == arch.regs@
    &&& m.ram == mem.ram@
    &&& m.main_mem == mem.main_mem@
    &&& m.mem_addr_mask == mem.mem_addr_mask
}

/// On the same state the simulator and the execute stage of the tile CPU give the same result,
/// registers, flags, addresses, link register and next program counter, when the tile CPU
/// decides in software, its link register tile holds the link register, and the instruction does
/// not move a register to the link register.
pub proof fn law_simulator_matches_execute_stage(
    m: IssModel,
    arch: ArchState,
    mem: DataMemory,
    l: PipelineLatch,
    auth: crate::state::Authority,
    mask: u32,
)
    requires
        same_state(m, arch, mem),
        !auth.bitop,
        !auth.sra,
        !is_mtlr(l),
    ensures
        access_at(m, l) == crate::execute::access_addr(l, arch, mem),
        !is_load(l.opcode) ==> outcome(m, l) == crate::execute::compute_outcome(
            crate::execute::alu_inputs(l, arch, arch.lr as u64),
            l,
            auth,
            None,
            None,
        ),
        is_load(l.opcode) && m.ports is None ==> outcome(m, l).result == mem.word(
            access_at(m, l),
        ),
        regs_with(m.regs, l, outcome(m, l)) == crate::writeback::regs_after(
            arch.regs@,
            l,
            outcome(m, l),
        ),
        link_with(m, l, mask) == link_after(l, arch.lr, mask),
        !halts(l.ctrl_b) ==> forall|after: ArchState|
            after.lr == link_with(m, l, mask) && after.regs@ == regs_with(
                m.regs,
                l,
                outcome(m, l),
            ) ==> executed(m, l, mask).pc == #[trigger] crate::pc_stage::extended_next(
                l,
                after,
                mask,
                m.flag_z,
                m.flag_c,
            ),
{
}

} // verus!
