use tile_cpu::alu::{
    bit_op, carry_of, count_ones, execute, opcode_uses_rs, opcode_writes_flags, shift_arithmetic,
    sub_function, AluInputs,
};
use tile_cpu::bit_scan::{begin_bits, next_bit_block, BitBlock, BitScan};
use tile_cpu::bitop::{bitscan_byte_inputs, bitscan_half_inputs, count_of_levels, join_levels};
use tile_cpu::branch::{
    branch_taken_truth_table, compute_branch_pc, compute_synth_branch_inputs, ctrl_b, ctrl_b_lut,
};
use tile_cpu::latch::{combine_stages, report_tick, PipelineLatch, StageStats, TileCpuMetrics};
use tile_cpu::levels::{bit_level, bit_levels, pack_levels};
use tile_cpu::memory::{compute_mem_addr, compute_store_onehot, next_power_of_two, DataMemory};

fn inputs(opcode: u8, imm8: u8, a: u64, b: u64) -> AluInputs {
    AluInputs {
        opcode,
        imm8,
        imm: imm8 as u64,
        a,
        b,
        flag_z: false,
        flag_c: true,
        link: 77,
    }
}

#[test]
fn additions_carry_and_subtractions_borrow() {
    let o = execute(&inputs(0x04, 0, u64::MAX, 1));
    assert_eq!((o.result, o.flag_z, o.flag_c, o.writes_reg), (0, true, true, true));
    let o = execute(&inputs(0x05, 0, 1, 2));
    assert_eq!((o.result, o.flag_z, o.flag_c), (u64::MAX, false, true));
    let o = execute(&inputs(0x0F, 0, 5, 5));
    assert_eq!((o.result, o.flag_z, o.flag_c, o.writes_reg), (0, true, false, false));
    let o = execute(&inputs(0x04, 1, 3, 7));
    assert_eq!((o.result, o.flag_c), (21, true), "a product keeps the carry");
    let o = execute(&inputs(0x0A, 0, 9, 9));
    assert_eq!(o.result, 9u64.wrapping_neg());
}

#[test]
fn shifts_carry_the_last_bit_of_a_byte() {
    let o = execute(&inputs(0x0D, 1, 0x80, 0));
    assert_eq!((o.result, o.flag_c), (0x100, true));
    let o = execute(&inputs(0x0D, 8, 0x80, 0));
    assert_eq!((o.result, o.flag_c), (0x8000, true), "the carry is kept");
    let o = execute(&inputs(0x0E, 3, 0b1000, 0));
    assert_eq!((o.result, o.flag_c), (1, false));
    let o = execute(&inputs(0x0E, 8 | 4, 1 << 63, 0));
    assert_eq!(o.result, 0xF800_0000_0000_0000);
    assert_eq!(shift_arithmetic(1 << 63, 1), 0xC000_0000_0000_0000);
    assert!(carry_of(&inputs(0x0E, 1, 1, 0), 0));
}

#[test]
fn conditional_moves_look_at_the_flags() {
    assert!(execute(&inputs(0x02, 0, 1, 2)).writes_reg);
    assert!(!execute(&inputs(0x02, 1, 1, 2)).writes_reg);
    assert!(execute(&inputs(0x02, 2, 1, 2)).writes_reg);
    assert!(execute(&inputs(0x02, 3, 1, 2)).writes_reg);
    assert!(!execute(&inputs(0x02, 4, 1, 2)).writes_reg);
    assert_eq!(execute(&inputs(0x02, 5, 1, 2)).result, 77);
}

#[test]
fn bit_operations() {
    assert_eq!(bit_op(1, 1), 63);
    assert_eq!(bit_op(1, 0), 64);
    assert_eq!(bit_op(2, 8), 3);
    assert_eq!(bit_op(3, 0xF0F0), 8);
    assert_eq!(bit_op(0, 0), u64::MAX);
    assert_eq!(count_ones(u64::MAX), 64);
    assert!(opcode_uses_rs(0x04) && !opcode_uses_rs(0x03));
    assert!(sub_function(0x04, 1) && !sub_function(0x04, 0) && sub_function(0x0E, 8));
    assert!(opcode_writes_flags(0x0F) && !opcode_writes_flags(0x02));
}

/// What a scan block of tiles gives for its eight inputs.
fn scan_byte(i: &[u64]) -> Vec<u64> {
    let first = (0..8).find(|&k| i[7 - k] != 0);
    let n = first.unwrap_or(0);
    let level = |b: bool| if b { u64::MAX } else { 0 };
    vec![level(first.is_some()), level(n & 1 != 0), level(n & 2 != 0), level(n & 4 != 0)]
}

fn scan_half(i: &[u64]) -> Vec<u64> {
    let first = (0..4).find(|&k| i[4 * k] != 0);
    let s = first.unwrap_or(0);
    let level = |b: bool| if b { u64::MAX } else { 0 };
    vec![
        level(first.is_some()),
        level(s & 1 != 0),
        level(s & 2 != 0),
        i[4 * s + 1],
        i[4 * s + 2],
        i[4 * s + 3],
    ]
}

fn scan_all(i: &[u64]) -> Vec<u64> {
    let bit = |x: u64| (x != 0) as u64;
    let of = |b: usize| bit(i[b + 1]) * 8 + bit(i[b + 2]) * 16 + bit(i[b + 3]) + bit(i[b + 4]) * 2
        + bit(i[b + 5]) * 4;
    let n = if i[0] != 0 {
        of(0)
    } else if i[6] != 0 {
        32 + of(6)
    } else {
        64
    };
    bit_levels(n, 7)
}

#[test]
fn scans_through_blocks_count_zeros() {
    for a in [0u64, 1, 0x80, 1 << 63, 0x0000_1000_0000_0000, 0x00FF_0000, u64::MAX, 0x10_0000_0010] {
        for clz in [true, false] {
            let bytes: Vec<Vec<u64>> =
                (0..8).map(|b| scan_byte(&bitscan_byte_inputs(a, clz, b))).collect();
            let halves: Vec<Vec<u64>> =
                (0..2).map(|h| scan_half(&bitscan_half_inputs(&bytes, clz, h))).collect();
            let out = scan_all(&join_levels(&halves[0], &halves[1], 6));
            let expected = if clz { a.leading_zeros() } else { a.trailing_zeros() };
            assert_eq!(count_of_levels(&out), expected as u64, "{a:X} {clz}");
        }
    }
}

#[test]
fn levels_round_trip() {
    assert_eq!(bit_level(4, 2), u64::MAX);
    assert_eq!(bit_level(4, 1), 0);
    assert_eq!(pack_levels(&bit_levels(0x5A, 8), 0), 0x5A);
    assert_eq!(pack_levels(&vec![1, 0, u64::MAX], 57), (1 << 57) | (1 << 59));
}

#[test]
fn branches() {
    let t = branch_taken_truth_table();
    assert_eq!(t.len(), 32);
    for z in [false, true] {
        for c in [false, true] {
            let at = |k: usize| t[k + 8 * (z as usize) + 16 * (c as usize)];
            assert!(!at(0) && at(1));
            assert_eq!(at(2), z);
            assert_eq!(at(3), !z);
            assert_eq!(at(4), c);
            assert_eq!(at(5), !c);
            assert!(at(6) && at(7));
        }
    }
    assert_eq!(compute_branch_pc(2, true, false, 9, 3, 5), 9);
    assert_eq!(compute_branch_pc(2, false, false, 9, 3, 5), 3);
    assert_eq!(compute_branch_pc(7, false, false, 9, 3, 5), 5);
    assert_eq!(compute_synth_branch_inputs(5, true, false), [u64::MAX, 0, u64::MAX, u64::MAX, 0]);
    let lut = ctrl_b_lut();
    for op in 0..32u8 {
        assert_eq!(lut[op as usize], ctrl_b(op));
    }
    assert_eq!(lut[0x1A] % 8, 1);
    assert_eq!(lut[0x15] % 8, 7);
    assert_ne!(lut[0x01] & 0x20, 0);
}

#[test]
fn memory_reads_back_writes() {
    let mut m = DataMemory::new();
    m.write(5, 9);
    m.write(200, 1);
    assert_eq!((m.read(5), m.read(200), m.read(6)), (9, 0, 0));
    m.configure_main_memory(200);
    assert_eq!(m.mem_addr_mask, 511);
    m.write(200, 1);
    assert_eq!((m.read(5), m.read(200)), (9, 1));
    assert_eq!(next_power_of_two(129), 256);
    assert_eq!(compute_store_onehot(3), 8);
    assert_eq!(compute_store_onehot(8), 1);
    assert_eq!(compute_store_onehot(60), 0);
    assert_eq!(compute_store_onehot(128), 0);
    let mut regs = [0u64; 16];
    regs[2] = 40;
    assert_eq!(compute_mem_addr(0x18, 60, 0, 0, &regs, 127), 60);
    assert_eq!(compute_mem_addr(0x18, 2 << 5, 0x0708, 0, &regs, 127), 47);
    assert_eq!(compute_mem_addr(0x16, 0, 0, 130, &regs, 127), 2);
}

#[test]
fn latches_compose_their_word() {
    let mut l = PipelineLatch::empty();
    assert!(!l.valid);
    l.opcode = 0x03;
    l.rd = 2;
    l.ir_low = 77;
    l.ir_ext = 0x1205;
    assert_eq!(l.compose_word(), 0x1205_1A4D);
    assert_eq!(l.get_rd_eff(), 10);
    assert_eq!(l.get_imm(), 0x124D);
    assert!(l.get_rd_hi() && !l.get_rs_hi() && l.get_wide());
}

#[test]
fn timing_combines_both_stages() {
    let mut f = StageStats::empty();
    f.add_comb(7, 10, 3);
    let mut x = StageStats::empty();
    x.add_comb(5, 20, 4);
    x.add_clock(2, 6, 1, 1, false);
    let t = combine_stages(&f, &x);
    assert_eq!(t.critical_path_deltas, 7);
    assert_eq!(t.total_deltas, 14);
    assert_eq!(t.tiles_evaluated, 36);
    assert_eq!(t.tiles_switched, 8);
    assert_eq!(t.glitches_detected, 1);
    assert!(!t.converged);
    let mut m = TileCpuMetrics::new();
    m.add_tick(&t, true);
    m.add_tick(&t, false);
    assert_eq!((m.cycles, m.instructions_executed, m.total_deltas), (2, 1, 28));
    assert_eq!((m.max_critical_path, m.total_critical), (7, 14));
    assert!(m.had_timing_violation);
}

#[test]
fn a_halted_tick_reports_nothing() {
    let mut f = StageStats::empty();
    f.add_comb(7, 10, 3);
    let x = StageStats::empty();
    let t = report_tick(false, &f, &x);
    assert_eq!(
        (t.critical_path_deltas, t.tiles_switched, t.tiles_evaluated),
        (0, 0, 0)
    );
    assert_eq!((t.total_deltas, t.glitches_detected, t.converged), (0, 0, false));
    let t = report_tick(true, &f, &x);
    assert_eq!((t.critical_path_deltas, t.tiles_switched, t.tiles_evaluated), (7, 3, 10));
    assert!(t.converged);
}

fn number(levels: &[u64]) -> u64 {
    levels.iter().enumerate().map(|(i, &l)| ((l != 0) as u64) << i).sum()
}

fn levels(n: u64, width: usize) -> Vec<u64> {
    (0..width).map(|i| if (n >> i) & 1 == 1 { u64::MAX } else { 0 }).collect()
}

fn drive(block: BitBlock, i: &[u64]) -> Vec<u64> {
    match block {
        BitBlock::ScanByte(_) => scan_byte(i),
        BitBlock::ScanHalf(_) => scan_half(i),
        BitBlock::ScanFinal => scan_all(i),
        BitBlock::CountByte(_) => levels(i.iter().filter(|&&l| l != 0).count() as u64, 4),
        BitBlock::Add4(_) => levels(number(&i[..4]) + number(&i[4..8]), 5),
        BitBlock::Add5(_) => levels(number(&i[..5]) + number(&i[5..10]), 6),
        BitBlock::Add6 => levels(number(&i[..6]) + number(&i[6..12]), 7),
    }
}

#[test]
fn bit_operations_go_from_block_to_block() {
    for a in [0u64, 1, 0x80, 1 << 63, 0x0000_1000_0000_0000, 0x00FF_0000, u64::MAX, 0x10_0000_0010] {
        for (sub, expected, blocks) in [
            (1u8, a.leading_zeros(), 11),
            (2, a.trailing_zeros(), 11),
            (3, a.count_ones(), 15),
        ] {
            let mut at = begin_bits(sub, a);
            let mut n = 0;
            let count = loop {
                let out = match &at {
                    BitScan::Done(r) => break *r,
                    BitScan::Drive(w) => drive(w.block, &w.inputs),
                };
                at = next_bit_block(at, &out);
                n += 1;
            };
            assert_eq!((count, n), (expected as u64, blocks), "{a:X} {sub}");
        }
    }
    match begin_bits(3, 5) {
        BitScan::Drive(w) => assert_eq!((w.block, w.block.get_width()), (BitBlock::CountByte(0), 4)),
        BitScan::Done(_) => panic!("nothing was driven"),
    }
}
