use tile_cpu::cop::{eval_op, COP_ADD, COP_AND, COP_MUX, COP_NOT, COP_OR, COP_VIA, COP_XOR};
use tile_cpu::device_alu::DeviceAluProgram;
use tile_cpu::device_plan::{AluKernel, CompactOp, DeviceCyclePlan, DeviceLayout, ThresholdVia};
use tile_cpu::lanes::{
    launch_blocks, pack_lanes, unpack_consoles, unpack_lanes, DeviceCycleState, GpuMetadataMode,
};
use tile_cpu::simulation::{Simulation, TileType};

const TILES: u32 = 60;

fn kernel(ops: Vec<(u32, u8, u32, u32)>) -> AluKernel {
    let n = ops.len();
    AluKernel {
        tile_count: TILES,
        ops: ops
            .into_iter()
            .map(|(idx, op, in0, in1)| CompactOp { idx, op, in0, in1, in2: TILES })
            .collect(),
        wvia: vec![(0, 0); n],
        tvia: vec![ThresholdVia { neighbors: [TILES; 4], threshold: 0 }; n],
    }
}

fn plan() -> DeviceCyclePlan {
    DeviceCyclePlan {
        cone: kernel(vec![
            (1, COP_NOT, 0, TILES),
            (2, COP_VIA, 0, TILES),
            (50, COP_AND, 0, 0),
        ]),
        settle: kernel(vec![(32, COP_OR, 5, 9), (51, COP_XOR, 32, 32)]),
        trunk: kernel(vec![(33, COP_ADD, 29, 30), (31, COP_XOR, 33, 32)]),
        layout: DeviceLayout {
            pc_idx: 0,
            final_mux_indices: [1, 2, 3, 4],
            super_mux_inject_right_indices: [5, 6, 7, 8],
            super_mux_inject_indices: [9, 10, 11, 12],
            bank47_mux_indices: [
                13, 14, 15, 16, 17, 18, 19, 20, 21, 22, 23, 24, 25, 26, 27, 28,
            ],
            alu_a_trunk_terminal_idx: 29,
            alu_b_trunk_terminal_idx: 30,
            wb_alu_root_idx: 31,
        },
    }
}

fn grid() -> Simulation {
    Simulation {
        width: 10,
        height: 6,
        values: (0..60).map(|i| 1000 + i).collect(),
        kinds: vec![TileType::Wire; 60],
        dirty: vec![false; 60],
    }
}

fn run(p: &DeviceAluProgram, pc: u64, a: u64, b: u64) -> u64 {
    let mut vals = p.seed_from_sim(&grid(), 1);
    p.host_decode(&mut vals, pc);
    vals[p.taps.a_term as usize] = a;
    vals[p.taps.b_term as usize] = b;
    p.host_eval_range(&mut vals, p.settle_end, p.ops.len());
    vals[p.taps.root as usize]
}

#[test]
fn pruning_drops_dead_ops_and_keeps_the_result() {
    let full = DeviceAluProgram::from_plan_opt(&plan(), false);
    let pruned = DeviceAluProgram::from_plan(&plan());
    assert_eq!(full.op_count(), 7);
    assert_eq!(full.phase_op_counts(), (3, 2, 2));
    assert!(pruned.op_count() < 7);
    for pc in [0u64, 5, 70] {
        assert_eq!(run(&full, pc, 3, 4), run(&pruned, pc, 3, 4));
    }
    assert_ne!(run(&full, 0, 3, 4), run(&full, 0, 3, 5));
}

#[test]
fn seeds_repeat_in_every_lane() {
    let p = DeviceAluProgram::from_plan(&plan());
    let one = p.seed_from_sim(&grid(), 1);
    let three = p.seed_from_sim(&grid(), 3);
    assert_eq!(one.len(), p.n_slots);
    assert_eq!(*one.last().unwrap(), 0);
    for s in 0..p.n_slots {
        for lane in 0..3 {
            assert_eq!(three[s * 3 + lane], one[s]);
        }
    }
}

#[test]
fn interface_tables_hold_a_row_per_address() {
    let p = DeviceAluProgram::from_plan(&plan());
    let slots = p.warpdecode_broadcast_slots().unwrap();
    let (bcast, table) = p.decode_interface_table(&grid(), 10).unwrap();
    assert_eq!(bcast, slots);
    assert_eq!(table.len(), 10 * slots.len());
    for pc in 0..10usize {
        let mut vals = p.seed_from_sim(&grid(), 1);
        p.host_decode(&mut vals, pc as u64);
        for (i, &s) in slots.iter().enumerate() {
            assert_eq!(table[pc * slots.len() + i], vals[s as usize]);
        }
    }
}

#[test]
fn a_decode_that_reads_its_own_old_value_is_not_pure() {
    let mut q = plan();
    q.settle = kernel(vec![(32, COP_OR, 29, 9)]);
    let p = DeviceAluProgram::from_plan_opt(&q, false);
    let r = p.warpdecode_broadcast_slots();
    assert!(r.is_err());
    assert!(p.decode_interface_table(&grid(), 4).is_err());
}

#[test]
fn packed_metadata_has_a_word_per_op() {
    let p = DeviceAluProgram::from_plan(&plan());
    assert!(p.fits_packed());
    let (meta, extra) = p.packed_metadata();
    assert_eq!(meta.len(), p.op_count());
    assert_eq!(extra.len(), p.op_count());
    assert_eq!(p.ubank_slots().len(), 20);
    let (values, split, packed) = p.traffic_bytes();
    assert!(values > 0 && packed < split);
}

#[test]
fn operations() {
    let op = |code: u8, a: u64, b: u64, c: u64| eval_op(code, a, b, c, 0, 0, 0, 0, 0, 0, 0, 0);
    assert_eq!(op(COP_ADD, u64::MAX, 2, 0), 1);
    assert_eq!(op(COP_AND, 12, 10, 0), 8);
    assert_eq!(op(COP_XOR, 12, 10, 0), 6);
    assert_eq!(op(COP_NOT, 0, 0, 0), u64::MAX);
    assert_eq!(op(COP_MUX, 1, 2, 0) + op(COP_MUX, 1, 2, 1), 3);
}

fn state(k: u64) -> DeviceCycleState {
    DeviceCycleState {
        pc: k as u32,
        lr: k as u32 + 1,
        flag_z: k % 2 == 0,
        flag_c: k % 3 == 0,
        halted: k == 2,
        cycle: 40 + k,
        retired: 40 + k,
        regs: [k; 16],
        ram: vec![k, k + 1, k + 2],
    }
}

#[test]
fn lanes_round_trip() {
    let states: Vec<DeviceCycleState> = (0..4).map(state).collect();
    let b = pack_lanes(&states, 3);
    assert_eq!(b.ram, vec![0, 1, 2, 3, 1, 2, 3, 4, 2, 3, 4, 5]);
    assert_eq!(b.halted, vec![0, 0, 1, 0]);
    let back = unpack_lanes(&b, 4, 3);
    for (s, t) in states.iter().zip(&back) {
        assert_eq!((s.pc, s.lr, s.flag_z, s.flag_c), (t.pc, t.lr, t.flag_z, t.flag_c));
        assert_eq!((s.halted, s.cycle, s.retired), (t.halted, t.cycle, t.retired));
        assert_eq!((s.regs, &s.ram), (t.regs, &t.ram));
    }
}

#[test]
fn consoles_are_cut_at_their_length() {
    let mut console = vec![0u32; 64 * 2];
    console[0] = 'h' as u32;
    console[2] = 'i' as u32 + 0x100;
    console[1] = 'x' as u32;
    let out = unpack_consoles(&console, &vec![2, 1], 2);
    assert_eq!(out, vec![b"hi".to_vec(), b"x".to_vec()]);
}

#[test]
fn launches_cover_every_lane() {
    assert_eq!(launch_blocks(0), 0);
    assert_eq!(launch_blocks(1), 1);
    assert_eq!(launch_blocks(256), 1);
    assert_eq!(launch_blocks(257), 2);
    assert_eq!(GpuMetadataMode::for_lanes(32_767), GpuMetadataMode::Packed);
    assert_eq!(GpuMetadataMode::for_lanes(32_768), GpuMetadataMode::Split);
    assert_eq!(GpuMetadataMode::for_lanes(98_304), GpuMetadataMode::Split);
    assert_eq!(GpuMetadataMode::for_lanes(98_305), GpuMetadataMode::Packed);
    assert_eq!(GpuMetadataMode::Packed.label(), "packed");
    assert_eq!(GpuMetadataMode::Split.alu_kernel_name(), "device_alu_split");
    assert_eq!(GpuMetadataMode::Packed.run_kernel_name(), "device_run_packed");
}

#[test]
fn impure_decodes_are_told_apart() {
    let mut q = plan();
    q.settle = kernel(vec![(32, COP_OR, 29, 9)]);
    let p = DeviceAluProgram::from_plan_opt(&q, false);
    let a = p.taps.a_term;
    assert_eq!(
        p.warpdecode_broadcast_slots().unwrap_err(),
        format!("decode op 3 (code {COP_OR}) reads lane-dependent slot {a}")
    );
    let mut q = plan();
    q.cone = kernel(vec![(1, tile_cpu::cop::COP_RAM, 0, 0)]);
    let p = DeviceAluProgram::from_plan_opt(&q, false);
    let code = tile_cpu::cop::COP_RAM;
    let out = p.ops[0].out;
    assert_eq!(
        p.warpdecode_broadcast_slots().unwrap_err(),
        format!(
            "decode op 0 (code {code}) is state-carrying: reads its own previous output (slot {out})"
        )
    );
}

#[test]
fn pruned_programs_agree_over_a_run() {
    let full = DeviceAluProgram::from_plan_opt(&plan(), false);
    let lean = DeviceAluProgram::from_plan(&plan());
    let (mut f, mut l) = (full.seed_from_sim(&grid(), 1), lean.seed_from_sim(&grid(), 1));
    let (mut pc, mut a, mut b) = (0u64, 3u64, 4u64);
    for _ in 0..20 {
        for (p, vals) in [(&full, &mut f), (&lean, &mut l)] {
            p.host_decode(vals, pc);
            vals[p.taps.a_term as usize] = a;
            vals[p.taps.b_term as usize] = b;
            p.host_eval_range(vals, p.settle_end, p.ops.len());
        }
        let result = f[full.taps.root as usize];
        assert_eq!(result, l[lean.taps.root as usize]);
        (pc, a, b) = (result % 128, b, result);
    }
    let (fc, lc) = (full.phase_op_counts(), lean.phase_op_counts());
    assert!(lc.0 <= fc.0 && lc.1 <= fc.1 && lc.2 <= fc.2);
    assert!(lean.n_slots <= full.n_slots);
    let mut rest = full.touched.iter();
    assert!(lean.touched.iter().all(|t| rest.any(|u| u == t)));
}

#[test]
fn malformed_programs_are_told() {
    let mut p = DeviceAluProgram::from_plan(&plan());
    assert!(p.get_wf());
    let last = p.n_slots as u32;
    let first = p.ops[0].ins[0];
    p.ops[0].ins[0] = last;
    assert!(!p.get_wf());
    p.ops[0].ins[0] = first;
    p.taps.root = last - 1;
    assert!(!p.get_wf(), "the zero row is no tap");
    let mut p = DeviceAluProgram::from_plan(&plan());
    p.touched[1] = p.touched[0];
    assert!(!p.get_wf());
}
