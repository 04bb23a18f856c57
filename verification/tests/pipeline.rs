use std::collections::HashSet;

use tile_cpu::compact::OpList;
use tile_cpu::cop::{COP_VIA, COP_WIRE};
use tile_cpu::device_plan::CompactOp;
use tile_cpu::scopes::ScopeSources;
use tile_cpu::commit::BlockLevels;
use tile_cpu::cpu::TileCpuV2;
use tile_cpu::debug::{begin_tick, debug_snapshot, end_tick, stop_after_tick, trace_entry};
use tile_cpu::debug::{next_phase, TickPhase, V2DebugBreakpoint, V2DebugStopReason};
use tile_cpu::fast::V2FastCpu;
use tile_cpu::iss::{latch_word, V2Iss};
use tile_cpu::latch::PipelineLatch;
use tile_cpu::layout::V2CpuIndices;
use tile_cpu::pc_stage::build_program_ext;
use tile_cpu::pool::TileSimSnapshot;
use tile_cpu::settle::{choose_branch_path, SettlePath, SwitchCounts};
use tile_cpu::simulation::{Simulation, TileType};
use tile_cpu::stage_f::StageF;
use tile_cpu::stage_x::{Outside, StageX};

const WIDTH: usize = 64;
const HEIGHT: usize = 48;
const TILES: usize = WIDTH * HEIGHT * 4;

fn grid() -> Simulation {
    let mut sim = Simulation {
        width: WIDTH,
        height: HEIGHT,
        values: vec![0; TILES],
        kinds: vec![TileType::Wire; TILES],
        dirty: vec![false; TILES],
    };
    sim.kinds[4 * WIDTH + 13] = TileType::ViaUp;
    sim.kinds[WIDTH * HEIGHT + 4 * WIDTH + 1] = TileType::ViaUp;
    sim
}

struct Free(usize);

impl Free {
    fn one(&mut self) -> usize {
        self.0 += 2;
        self.0
    }

    fn array<const N: usize>(&mut self) -> [usize; N] {
        let mut a = [0; N];
        for x in a.iter_mut() {
            *x = self.one();
        }
        a
    }

    fn list(&mut self, n: usize) -> Vec<usize> {
        (0..n).map(|_| self.one()).collect()
    }
}

fn layout() -> V2CpuIndices {
    let mut f = Free(9600);
    V2CpuIndices {
        pc_idx: f.one(),
        pc_next_mux_idx: f.one(),
        pc_ingress_idx: f.one(),
        rom_selected_indices: f.array(),
        final_mux_indices: f.array(),
        bank47_mux_indices: f.array(),
        super_mux_inject_indices: f.array(),
        super_mux_inject_right_indices: f.array(),
        extract_opcode_shr_idx: f.one(),
        extract_opcode_bit4_idx: f.one(),
        extract_rd_bit_indices: f.array(),
        extract_rs_field_idx: f.one(),
        ctrl_a_mux_idx: f.one(),
        ctrl_b_mux_idx: f.one(),
        branch_ctrl_b_l1_tap_idx: f.one(),
        branch_flag_z_l1_tap_idx: f.one(),
        branch_flag_c_l1_tap_idx: f.one(),
        branch_taken_core_idx: f.one(),
        branch_dirty_indices: f.list(2),
        branch_flag_dirty_indices: f.list(2),
        op_a_root_idx: f.one(),
        op_b_root_idx: f.one(),
        pipeline_dirty_indices: f.list(4),
        pipeline_backbone_dirty_indices: f.list(2),
        upper_bank_dirty_indices: Vec::new(),
        via_decode_inversion_dirty: Vec::new(),
        pipeline_reg_data_dirty_indices: (0..16).map(|_| f.list(1)).collect(),
        reg_tap_l1_indices: f.array(),
        rd_onehot_decode_idx: f.one(),
        rd_decode_l0_chain: f.list(2),
        we_mask_const_idx: f.one(),
        commit_dirty_indices: f.list(2),
        reg_wb_dirty_indices: f.list(2),
        flag_we_mask_const_idx: f.one(),
        flag_commit_dirty_indices: f.list(2),
        lr_idx: f.one(),
        reg_indices: f.array(),
        flag_z_idx: f.one(),
        flag_c_idx: f.one(),
        ram_indices: f.array(),
        alu_add_l_enable_idx: f.one(),
        alu_add_l_mux_idx: f.one(),
        high_reg_wb_data_const_indices: f.array(),
        high_reg_we_const_indices: f.array(),
        high_reg_merge_mux_indices: f.array(),
        high_tree_a_sel_const_indices: f.list(7),
        high_tree_b_sel_const_indices: f.list(7),
        high_tree_a_data_const_indices: f.list(8),
        high_tree_b_data_const_indices: f.list(8),
        top_mux_a_sel_const_idx: f.one(),
        top_mux_b_sel_const_idx: f.one(),
        high_tree_a_dirty_indices: f.list(1),
        high_tree_b_dirty_indices: f.list(1),
        top_mux_a_dirty_indices: f.list(1),
        top_mux_b_dirty_indices: f.list(1),
        alu_a_trunk_terminal_idx: f.one(),
        alu_b_trunk_terminal_idx: f.one(),
        alu_a_downstream_dirty: f.list(1),
        alu_b_downstream_dirty: f.list(1),
        alu_r_mux_output_indices: f.array(),
        ram_write_decode_idx: f.one(),
        ram_write_gate_idx: f.one(),
        wb_alu_root_idx: f.one(),
        wb_data_mux_idx: f.one(),
        grid_width: WIDTH,
        tile_count: TILES,
        pipeline_scope: Vec::new(),
        branch_scope: Vec::new(),
        commit_scope: Vec::new(),
        pipeline_scope_mask: Vec::new(),
        branch_scope_mask: Vec::new(),
        commit_scope_mask: Vec::new(),
        clock_scope_mask: Vec::new(),
        pipeline_eval_order: Vec::new(),
        branch_eval_order: Vec::new(),
        commit_eval_order: Vec::new(),
        in_scope_clock_cache: Vec::new(),
    }
}

fn nothing() -> Outside {
    Outside {
        sign: None,
        bits: None,
        device: false,
        answer: None,
        taken: None,
        blocks: BlockLevels { rd_decode: None, ram_decode: None, ctrl_a: None },
        product: None,
    }
}

fn extended_cpu() -> TileCpuV2 {
    let mut cpu = TileCpuV2::from_wiring((0, 0), layout(), [0; 32]);
    cpu.mode.extend();
    cpu
}

/// Stage X with nothing done outside. Returns how many steps it took.
fn stage_x(cpu: &mut TileCpuV2, sim: &mut Simulation, l: PipelineLatch) -> usize {
    let out = nothing();
    let mut at = StageX::Start(l);
    let mut n = 0;
    while !matches!(at, StageX::Done) {
        assert!(cpu.get_can_step(sim));
        at = cpu.run_stage_x(sim, at, &out);
        n += 1;
    }
    n
}

fn stage_f(cpu: &mut TileCpuV2, sim: &mut Simulation) -> PipelineLatch {
    let mut at = StageF::Start;
    loop {
        assert!(cpu.get_can_step(sim));
        at = cpu.run_stage_f(sim, at, &None);
        if let StageF::Done(l) = at {
            return l;
        }
    }
}

fn next(x: &mut u64) -> u64 {
    *x ^= *x << 13;
    *x ^= *x >> 7;
    *x ^= *x << 17;
    *x
}

#[test]
fn stage_x_agrees_with_the_simulator_on_every_opcode() {
    let mut seed = 0x1234_5678_9ABC_DEF1u64;
    for round in 0..24u64 {
        for op in 0..32u32 {
            if op == 0x01 {
                continue;
            }
            let low = next(&mut seed) as u32 & 0x7FF;
            let ext = [0u32, 1, 2, 3, 0x1204, 0x0708, 0x1207, 0x070B][(round % 8) as usize];
            let word = (ext << 16) | (op << 11) | low;
            if op == 0x02 && word & 0x1F == 6 {
                continue;
            }
            let pc = (next(&mut seed) % 250) as u32;
            let mut sim = grid();
            let mut cpu = extended_cpu();
            let mut iss = V2Iss::from_program(&vec![word; 256]);
            iss.pc_mask = 0xFF;
            for r in 0..16 {
                let v = if round % 3 == 0 { next(&mut seed) % 4 } else { next(&mut seed) };
                cpu.write_reg(&mut sim, r, v);
                iss.state.regs[r] = v;
            }
            for a in 0..128 {
                let v = next(&mut seed);
                cpu.write_ram(&mut sim, a, v);
                iss.state.mem.ram[a] = v;
            }
            let lr = (next(&mut seed) % 200) as u32;
            cpu.write_lr(lr);
            sim.values[cpu.idx.lr_idx] = lr as u64;
            iss.state.lr = lr;
            let (z, c) = (next(&mut seed) % 2 == 1, next(&mut seed) % 2 == 1);
            cpu.write_flag_z(&mut sim, z);
            cpu.write_flag_c(&mut sim, c);
            iss.state.flag_z = z;
            iss.state.flag_c = c;
            cpu.write_pc(&mut sim, pc);
            iss.state.pc = pc;
            let l = latch_word(word, pc, &cpu.arch.regs);
            assert_eq!(stage_x(&mut cpu, &mut sim, l), 16);
            assert!(iss.step());
            let s = iss.state();
            assert_eq!(cpu.arch.regs, s.regs, "{word:08X}");
            assert_eq!(cpu.mem.ram, s.mem.ram, "{word:08X}");
            assert_eq!(cpu.arch.lr, s.lr, "{word:08X}");
            assert_eq!(cpu.arch.flag_z, s.flag_z, "{word:08X}");
            assert_eq!(cpu.arch.flag_c, s.flag_c, "{word:08X}");
            assert_eq!(cpu.arch.halted, s.halted, "{word:08X}");
            assert_eq!(cpu.arch.pc, s.pc, "{word:08X}");
            for r in 0..16 {
                assert_eq!(sim.values[cpu.idx.reg_indices[r]], s.regs[r]);
            }
        }
    }
}

#[test]
fn stage_f_latches_a_word_of_the_upper_program() {
    let mut program = vec![0u32; 256];
    program[200] = 0x0002_0000 | (0x04 << 11) | (3 << 8) | (2 << 5);
    let mut sim = grid();
    let mut cpu = extended_cpu();
    cpu.program_ext = build_program_ext(&program, 0xFF);
    for r in 0..16 {
        cpu.write_reg(&mut sim, r, 100 + r as u64);
    }
    cpu.write_pc(&mut sim, 200);
    let l = stage_f(&mut cpu, &mut sim);
    let expected = latch_word(program[200], 200, &cpu.arch.regs);
    assert_eq!(l.pc, 200);
    assert_eq!(
        (l.opcode, l.rd, l.ctrl_b, l.ir_low, l.ir_ext),
        (expected.opcode, expected.rd, expected.ctrl_b, expected.ir_low, expected.ir_ext)
    );
    assert_eq!((l.a, l.b), (103, 110));
    assert!(l.valid);
    assert_eq!(sim.kinds[4 * WIDTH + 13], TileType::ViaUp);
    assert_eq!(sim.kinds[WIDTH * HEIGHT + 4 * WIDTH + 1], TileType::ViaUp);
    assert!(!cpu.pipe.compact_eval_inhibit);
    assert_eq!(cpu.pipe.compact_eval_inhibit_count, 1);
}

#[test]
fn stage_f_reads_the_lanes_of_the_lower_program() {
    let mut sim = grid();
    let mut cpu = extended_cpu();
    cpu.write_pc(&mut sim, 5);
    let word: u32 = (0x03 << 11) | (2 << 8) | 77;
    for lane in 0..4 {
        sim.values[cpu.idx.final_mux_indices[lane]] = ((word >> (8 * lane)) & 0xFF) as u64;
    }
    sim.values[cpu.idx.op_a_root_idx] = 11;
    sim.values[cpu.idx.op_b_root_idx] = 12;
    sim.values[cpu.idx.ctrl_b_mux_idx] = 0x40;
    let l = stage_f(&mut cpu, &mut sim);
    assert_eq!((l.opcode, l.rd, l.ir_low, l.ir_ext), (0x03, 2, 77, 0));
    assert_eq!((l.a, l.b), (11, 12), "the operand trees decide");
    assert_eq!(l.ctrl_b, 0x40, "the tiles decide");
}

#[test]
fn a_whole_program_runs_through_the_pipeline() {
    let ldi = |rd: u32, v: u32| (0x03 << 11) | (rd << 8) | v;
    let mut program = vec![0u32; 256];
    program[192] = ldi(0, 0);
    program[193] = ldi(1, 4);
    program[194] = (0x04 << 11) | (1 << 5);
    program[195] = (0x11 << 11) | (1 << 8) | 1;
    program[196] = (0x1C << 11) | 194;
    program[197] = (0x19 << 11) | 9;
    program[198] = (0x01 << 11) | 198;
    let mut sim = grid();
    let mut cpu = extended_cpu();
    cpu.program_ext = build_program_ext(&program, 0xFF);
    cpu.write_pc(&mut sim, 192);
    let mut cycles = 0;
    while begin_tick(&cpu.arch, &mut cpu.pipe, &mut cpu.log).is_some() {
        if cpu.pipe.latch.valid {
            let l = cpu.pipe.latch;
            stage_x(&mut cpu, &mut sim, l);
        }
        let fetched = if cpu.arch.halted { None } else { Some(stage_f(&mut cpu, &mut sim)) };
        end_tick(&mut cpu.pipe, fetched);
        cycles += 1;
        assert!(cycles < 100);
    }
    assert_eq!(cpu.read_reg(&sim, 0), 10);
    assert_eq!(cpu.read_ram(&sim, 9), 10);
    assert_eq!(cpu.read_cycle_count(), 17);
    assert_eq!(cpu.read_retired_count(), 16);
    let snap = TileSimSnapshot::capture(&cpu, &sim);
    assert_eq!(snap.regs[0], 10);
    let fast = V2FastCpu::from_tile_cpu(&cpu, &sim, &program);
    assert!(fast.is_halted());
    assert_eq!(snap.hash, tile_cpu::fast::hash_v2_iss_state(fast.state()));
}

#[test]
fn state_moves_between_the_models() {
    let mut sim = grid();
    let mut cpu = extended_cpu();
    let mut fast = V2FastCpu::from_program(&vec![0]);
    for r in 0..16 {
        fast.state_mut().regs[r] = r as u64 * 3;
    }
    fast.state_mut().mem.ram[127] = 99;
    fast.state_mut().pc = 12;
    fast.state_mut().lr = 13;
    fast.state_mut().flag_c = true;
    fast.sync_to_tile_cpu(&mut cpu, &mut sim);
    assert_eq!(sim.values[cpu.idx.reg_indices[5]], 15);
    assert_eq!(sim.values[cpu.idx.ram_indices[127]], 99);
    assert!(cpu.pipe.force_full_dirty);
    let back = V2FastCpu::from_tile_cpu(&cpu, &sim, &vec![0]);
    assert_eq!(back.state().regs, fast.state().regs);
    assert_eq!(back.state().mem.ram, fast.state().mem.ram);
    assert_eq!((back.read_pc(), back.read_lr()), (12, 13));
    assert!(back.read_flag_c() && !back.read_flag_z());
}

#[test]
fn stores_through_tiles_are_undone_after_the_edge() {
    let mut sim = grid();
    let mut cpu = extended_cpu();
    cpu.auth.ram_store = true;
    cpu.write_reg(&mut sim, 1, 55);
    let word = (0x19 << 11) | (1 << 8) | 3;
    let l = latch_word(word, 0, &cpu.arch.regs);
    let out = nothing();
    let tile = cpu.idx.ram_indices[3];
    sim.kinds[tile - 1] = TileType::ViaUp;
    let mut at = StageX::Start(l);
    while !matches!(at, StageX::Clock(_)) {
        at = cpu.run_stage_x(&mut sim, at, &out);
    }
    assert_eq!(sim.kinds[tile - 1], TileType::Const);
    assert_eq!(sim.values[tile - 1], 55);
    assert_eq!(sim.values[tile - WIDTH], u64::MAX);
    assert_eq!(sim.values[tile], 0, "the clock edge is to write it");
    at = cpu.run_stage_x(&mut sim, at, &out);
    assert!(matches!(at, StageX::Captured(_)));
    assert_eq!(sim.kinds[tile - 1], TileType::ViaUp);
    assert_eq!(sim.values[tile - WIDTH], 0);
    assert_eq!(cpu.read_ram(&sim, 3), 55);
}

#[test]
fn devices_answer_loads_and_take_stores() {
    let mut sim = grid();
    let mut cpu = extended_cpu();
    cpu.write_reg(&mut sim, 1, 7);
    let store = latch_word((0x19 << 11) | (1 << 8) | 60, 0, &cpu.arch.regs);
    let mut out = nothing();
    out.device = true;
    let mut at = StageX::Start(store);
    while !matches!(at, StageX::Done) {
        at = cpu.run_stage_x(&mut sim, at, &out);
    }
    assert_eq!(cpu.log.writes, vec![(60, 7)]);
    assert_eq!(cpu.read_ram(&sim, 60), 0);
    out.answer = Some(123);
    let load = latch_word((0x18 << 11) | (2 << 8) | 60, 0, &cpu.arch.regs);
    let mut at = StageX::Start(load);
    while !matches!(at, StageX::Done) {
        at = cpu.run_stage_x(&mut sim, at, &out);
    }
    assert_eq!(cpu.log.reads, vec![(60, 123)]);
    assert_eq!(cpu.read_reg(&sim, 2), 123);
    assert_eq!(cpu.read_ram(&sim, 60), 123);
}

#[test]
fn a_trusted_alu_decides_the_result() {
    let mut sim = grid();
    let mut cpu = extended_cpu();
    cpu.gates.alu.enable();
    cpu.auth.alu_opcodes = 1 << 0x04;
    cpu.write_reg(&mut sim, 0, 20);
    cpu.write_reg(&mut sim, 1, 22);
    sim.values[cpu.idx.wb_alu_root_idx] = 41;
    let l = latch_word((0x04 << 11) | (1 << 5), 0, &cpu.arch.regs);
    stage_x(&mut cpu, &mut sim, l);
    assert_eq!(cpu.read_reg(&sim, 0), 41);
}

#[test]
fn gates_put_tiles_back() {
    let mut sim = grid();
    let mut cpu = extended_cpu();
    let t = cpu.idx.branch_taken_core_idx;
    sim.kinds[t] = TileType::Other(9);
    cpu.enable_synth_branch(&mut sim);
    assert_eq!(sim.kinds[t], TileType::Const);
    cpu.disable_synth_branch(&mut sim);
    assert_eq!(sim.kinds[t], TileType::Other(9));
}

#[test]
fn breakpoints_stop_before_the_halt() {
    let cpu = extended_cpu();
    let r = stop_after_tick(&cpu.arch, 3, &vec![V2DebugBreakpoint::Pc(0)]).unwrap();
    assert_eq!(r.cycles, 3);
    assert_eq!(r.reason, V2DebugStopReason::Breakpoint(0));
    assert!(stop_after_tick(&cpu.arch, 3, &vec![V2DebugBreakpoint::Pc(1)]).is_none());
    let snap = debug_snapshot(&cpu.arch, &cpu.pipe.latch);
    assert_eq!((snap.pc, snap.halted), (0, false));
}

#[test]
fn traces_tell_what_changed() {
    let mut sim = grid();
    let mut cpu = extended_cpu();
    let (regs, ram) = (cpu.arch.regs, cpu.mem.ram);
    let l = latch_word((0x03 << 11) | (4 << 8) | 9, 6, &regs);
    stage_x(&mut cpu, &mut sim, l);
    let e = trace_entry(
        &l,
        &regs,
        &ram,
        &cpu.arch,
        &cpu.mem.ram,
        &cpu.pipe,
        &cpu.mode,
        &cpu.log,
        cpu.read_hybrid_assist_counters(),
    );
    assert_eq!(e.text, "LDI R4, 9");
    assert_eq!(e.pc, 6);
    assert_eq!(e.reg_writes.len(), 1);
    assert_eq!((e.reg_writes[0].reg, e.reg_writes[0].value), (4, 9));
    assert!(e.ram_writes.is_empty());
}

#[test]
fn rebuilding_splits_the_pipeline_into_scopes() {
    let op = |idx: u32, in0: u32| CompactOp {
        idx,
        op: COP_VIA,
        in0,
        in1: u32::MAX,
        in2: u32::MAX,
    };
    let none = || OpList { ops: vec![], wvia: vec![] };
    let mut cpu = extended_cpu();
    cpu.pipe.compact_ops_stale = true;
    let pipeline: Vec<CompactOp> = vec![op(1, 0), op(2, 1), op(3, 2), op(4, 0)];
    let order = vec![1usize, 2, 3, 4];
    let src = ScopeSources {
        pipeline: OpList { ops: pipeline, wvia: vec![] },
        branch: none(),
        commit: OpList { ops: vec![op(7, 3)], wvia: vec![] },
        clock: none(),
        commit_schedule: OpList { ops: vec![op(7, 3)], wvia: vec![] },
        clock_schedule: none(),
        settle_closure: HashSet::from([2, 3]),
        trunk_closure: HashSet::from([3]),
        backbone_closure: HashSet::from([2]),
    };
    let nb = vec![[u32::MAX; 4]; TILES];
    cpu.rebuild_eval_order(order, src, &nb);
    let idx = |l: &OpList| l.ops.iter().map(|o| o.idx).collect::<Vec<u32>>();
    assert!(!cpu.pipe.compact_ops_stale);
    assert_eq!(idx(&cpu.scopes.pipeline), vec![1, 2, 3, 4]);
    assert_eq!(idx(&cpu.scopes.settle), vec![2, 3]);
    assert_eq!(idx(&cpu.scopes.trunk), vec![3]);
    assert_eq!(idx(&cpu.scopes.backbone), vec![2]);
    assert_eq!(idx(&cpu.scopes.fringe), vec![3]);
    assert_eq!(cpu.settle_memo.output_indices, vec![2, 3]);
    cpu.settle_memo.enabled = true;
    let mut wire = op(2, 1);
    wire.op = COP_WIRE;
    let irregular = ScopeSources {
        pipeline: OpList { ops: vec![wire, op(3, 2)], wvia: vec![] },
        branch: none(),
        commit: none(),
        clock: none(),
        commit_schedule: none(),
        clock_schedule: none(),
        settle_closure: HashSet::from([2, 3]),
        trunk_closure: HashSet::new(),
        backbone_closure: HashSet::from([2]),
    };
    cpu.rebuild_eval_order(vec![], irregular, &nb);
    assert_eq!(idx(&cpu.scopes.backbone), vec![2]);
    assert!(cpu.settle_memo.input_indices.is_empty(), "irregular backbone, no memo");
    let bare = ScopeSources {
        pipeline: none(),
        branch: none(),
        commit: none(),
        clock: none(),
        commit_schedule: none(),
        clock_schedule: none(),
        settle_closure: HashSet::new(),
        trunk_closure: HashSet::new(),
        backbone_closure: HashSet::new(),
    };
    cpu.rebuild_eval_order(vec![], bare, &nb);
    assert!(cpu.settle_memo.enabled);
    assert!(cpu.settle_memo.input_indices.is_empty(), "no backbone, no memo");
    assert!(cpu.decode_memo.input_indices.is_empty(), "no settle, no decode memo");
    assert!(cpu.scopes.execute.ops.is_empty());
    assert!(cpu.settle_memo.output_indices.is_empty());
}

#[test]
fn a_halted_cpu_does_not_tick() {
    let mut cpu = extended_cpu();
    assert_eq!(begin_tick(&cpu.arch, &mut cpu.pipe, &mut cpu.log), Some(1));
    assert_eq!(cpu.read_retired_count(), 0, "the first tick retires nothing");
    cpu.pipe.latch.valid = true;
    assert_eq!(begin_tick(&cpu.arch, &mut cpu.pipe, &mut cpu.log), Some(2));
    assert_eq!((cpu.read_retired_count(), cpu.last_stage_x_valid()), (1, true));
    cpu.set_halted(true);
    cpu.log.reads.push((41, 9));
    assert_eq!(begin_tick(&cpu.arch, &mut cpu.pipe, &mut cpu.log), None);
    assert_eq!((cpu.read_cycle_count(), cpu.read_retired_count()), (2, 1));
    assert!(!cpu.last_stage_x_valid());
    assert_eq!(cpu.log.reads, vec![(41, 9)]);
}

#[test]
fn counted_settles_add_up() {
    let mut cpu = extended_cpu();
    let pass = || SwitchCounts { switched: vec![1, 0, 2], buckets: [10, 20, 30, 40, 50] };
    assert!(!cpu.get_counts_switches(SettlePath::BlockSkip));
    cpu.add_switch_counts(SettlePath::BlockSkip, &pass());
    assert_eq!(cpu.settle_overlap_buckets, [0; 5]);
    cpu.settle_switch_counts = vec![0, 5, 0];
    assert!(cpu.get_counts_switches(SettlePath::BlockSkip));
    assert!(!cpu.get_counts_switches(SettlePath::Compact));
    assert!(cpu.get_switches_fit(&pass()));
    cpu.add_switch_counts(SettlePath::Compact, &pass());
    assert_eq!(cpu.settle_switch_counts, vec![0, 5, 0]);
    cpu.add_switch_counts(SettlePath::BlockSkip, &pass());
    cpu.add_switch_counts(SettlePath::BlockSkip, &pass());
    assert_eq!(cpu.settle_switch_counts, vec![2, 5, 4]);
    assert_eq!(cpu.settle_overlap_buckets, [20, 40, 60, 80, 100]);
    assert!(!cpu.get_switches_fit(&SwitchCounts { switched: vec![1], buckets: [0; 5] }));
    let full = SwitchCounts { switched: vec![u32::MAX, 0, 0], buckets: [0; 5] };
    assert!(!cpu.get_switches_fit(&full));
}

#[test]
fn branch_tiles_settle_compactly_where_they_can() {
    let mut cpu = extended_cpu();
    let (path, scan) = choose_branch_path(&cpu.scopes, 7, false);
    assert!(matches!(path, SettlePath::Levelized));
    assert_eq!(scan, 7);
    cpu.scopes.branch.ops = vec![CompactOp { idx: 1, op: COP_VIA, in0: 2, in1: 3, in2: 3 }; 9];
    let (path, scan) = choose_branch_path(&cpu.scopes, 7, false);
    assert!(matches!(path, SettlePath::Compact));
    assert_eq!(scan, 9);
    let (path, scan) = choose_branch_path(&cpu.scopes, 12, true);
    assert!(matches!(path, SettlePath::Levelized));
    assert_eq!(scan, 12);
}

#[test]
fn stage_x_agrees_with_the_simulator_in_the_128_word_address_space() {
    let mut seed = 0x0FED_CBA9_8765_4321u64;
    for round in 0..16u32 {
        for op in 0..32u32 {
            let ext = [0u32, 1, 2, 3, 0x1204, 0x0708, 0x1207, 0x070B][(round % 8) as usize];
            let pc = (next(&mut seed) % 128) as u32;
            let mut low = next(&mut seed) as u32 & 0x7FF;
            if op == 0x01 {
                low = pc;
            }
            let word = (ext << 16) | (op << 11) | low;
            if op == 0x02 && word & 0x1F == 6 {
                continue;
            }
            let mut sim = grid();
            let mut cpu = TileCpuV2::from_wiring((0, 0), layout(), [0; 32]);
            let mut iss = V2Iss::from_program(&vec![word; 128]);
            for r in 0..16 {
                let v = next(&mut seed);
                cpu.write_reg(&mut sim, r, v);
                iss.state.regs[r] = v;
            }
            let lr = (next(&mut seed) % 128) as u32;
            cpu.write_lr(lr);
            sim.values[cpu.idx.lr_idx] = lr as u64;
            iss.state.lr = lr;
            let (z, c) = (next(&mut seed) % 2 == 1, next(&mut seed) % 2 == 1);
            cpu.write_flag_z(&mut sim, z);
            cpu.write_flag_c(&mut sim, c);
            iss.state.flag_z = z;
            iss.state.flag_c = c;
            cpu.write_pc(&mut sim, pc);
            iss.state.pc = pc;
            let l = latch_word(word, pc, &cpu.arch.regs);
            assert!(iss.step());
            let out = nothing();
            let mut at = StageX::Start(l);
            while !matches!(at, StageX::Done) {
                assert!(cpu.get_can_step(&sim));
                if matches!(at, StageX::Captured(_)) {
                    let wrong = if pc < 64 { 0 } else { 5 };
                    sim.values[cpu.idx.pc_idx] = (iss.state.pc ^ wrong) as u64;
                }
                at = cpu.run_stage_x(&mut sim, at, &out);
            }
            assert_eq!(cpu.arch.pc, iss.state.pc, "{word:08X} at {pc}");
            assert_eq!(cpu.arch.regs, iss.state.regs, "{word:08X}");
            assert_eq!(cpu.arch.lr, iss.state.lr, "{word:08X}");
            assert_eq!(cpu.arch.halted, iss.state.halted, "{word:08X}");
        }
    }
}

#[test]
fn a_tick_runs_the_stages_that_have_work() {
    let mut cpu = extended_cpu();
    let phases = |cpu: &TileCpuV2| {
        let mut at = TickPhase::Begun;
        let mut seen = vec![];
        while at != TickPhase::Ended {
            at = next_phase(&cpu.arch, &cpu.pipe, at);
            seen.push(at);
        }
        seen
    };
    assert_eq!(phases(&cpu), vec![TickPhase::StageF, TickPhase::Ended]);
    cpu.pipe.latch.valid = true;
    assert_eq!(phases(&cpu), vec![TickPhase::StageX, TickPhase::StageF, TickPhase::Ended]);
    cpu.set_halted(true);
    assert_eq!(phases(&cpu), vec![TickPhase::StageX, TickPhase::Ended], "it halted in stage X");
}

#[test]
fn all_memory_tiles_return_to_the_clock_cache() {
    let mut idx = layout();
    idx.clock_scope_mask = vec![0; TILES / 64 + 1];
    idx.in_scope_clock_cache = vec![7, idx.ram_indices[0], idx.ram_indices[100], 9];
    let mut cpu = TileCpuV2::from_wiring((0, 0), idx, [0; 32]);
    cpu.elide_software_writeback_from_clock_cache();
    assert_eq!(cpu.idx.in_scope_clock_cache, vec![7, 9]);
    cpu.restore_ram_clock_cache_for_physical_writeback();
    let cache = &cpu.idx.in_scope_clock_cache;
    assert_eq!(cache[..2], [7, 9]);
    assert_eq!(cache[2..], cpu.idx.ram_indices[..]);
    let in_scope =
        |t: usize| (cpu.idx.clock_scope_mask[t / 64] >> (t % 64)) & 1 == 1;
    assert!((0..8).all(|a| in_scope(cpu.idx.ram_indices[a])));
    assert!((8..128).all(|a| !in_scope(cpu.idx.ram_indices[a])));
    assert!(cpu.auth.ram_writeback);
    assert_eq!(cpu.checks.ram_wb.checks, 0);
}
