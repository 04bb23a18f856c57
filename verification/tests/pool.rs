use tile_cpu::latch::V2HybridAssistCounters;
use tile_cpu::pool::{
    all_published_halted, summarize, uniform_specs, TileSimBatchReport, TileSimPoolSummary,
    TileSimSnapshot,
};

fn snapshot(halted: bool, cycles: u64, retired: u64, hash: u64) -> Option<TileSimSnapshot> {
    Some(TileSimSnapshot {
        pc: 0,
        lr: 0,
        flag_z: false,
        flag_c: false,
        halted,
        cycle_count: cycles,
        retired_count: retired,
        hash,
        hybrid: V2HybridAssistCounters {
            stage_f_bank_switches: 0,
            stage_f_mixed_dual_capture: 0,
            stage_x_mixed_software: 0,
            ram_high_bank_read_swaps: 0,
            rom_upper_bank_group_select: 0,
        },
        regs: [0; 16],
        ram: [0; 128],
    })
}

fn fold(hashes: &[(usize, u64)]) -> u64 {
    let mut h = 0xCBF2_9CE4_8422_2325u64;
    for &(i, v) in hashes {
        h ^= v.rotate_left((i % 63) as u32 + 1);
        h = h.wrapping_mul(0x100_0000_01B3);
    }
    h
}

#[test]
fn summary_of_ready_workers() {
    let snaps = vec![snapshot(true, 10, 9, 0xABCD), snapshot(false, 20, 19, 0x1234)];
    let s = summarize(&snaps);
    assert_eq!(
        s,
        TileSimPoolSummary {
            workers: 2,
            ready_workers: 2,
            halted_workers: 1,
            total_cycles: 30,
            total_retired: 28,
            combined_hash: fold(&[(0, 0xABCD), (1, 0x1234)]),
        }
    );
    assert!(s.all_ready());
    assert!(!s.all_halted());
    assert!(!all_published_halted(&snaps));
}

#[test]
fn missing_workers_are_not_ready() {
    let snaps = vec![None, snapshot(true, 1, 1, 7)];
    let s = summarize(&snaps);
    assert_eq!(s.ready_workers, 1);
    assert_eq!(s.halted_workers, 1);
    assert_eq!(s.combined_hash, fold(&[(1, 7)]));
    assert!(!s.all_ready());
    assert!(!s.all_halted());
    assert!(!all_published_halted(&snaps));
}

#[test]
fn an_empty_pool_is_ready_but_not_halted() {
    let s = summarize(&Vec::new());
    assert!(s.all_ready());
    assert!(!s.all_halted());
    assert!(all_published_halted(&Vec::new()));
    assert_eq!(s.combined_hash, 0xCBF2_9CE4_8422_2325);
}

#[test]
fn totals_stop_at_the_largest_word() {
    let snaps = vec![snapshot(true, u64::MAX, 1, 1), snapshot(true, 5, 1, 2)];
    assert_eq!(summarize(&snaps).total_cycles, u64::MAX);
}

#[test]
fn the_rotation_repeats_after_sixty_three_workers() {
    let mut snaps = Vec::new();
    let mut hashes = Vec::new();
    for i in 0..70usize {
        snaps.push(snapshot(true, 1, 1, i as u64 * 31 + 1));
        hashes.push((i, i as u64 * 31 + 1));
    }
    let s = summarize(&snaps);
    assert_eq!(s.combined_hash, fold(&hashes));
    assert!(s.all_halted());
}

#[test]
fn reports_add_up() {
    let ready = summarize(&vec![snapshot(false, 0, 0, 3)]);
    let done = vec![snapshot(true, 12, 11, 5)];
    let after = summarize(&done);
    let mut r = TileSimBatchReport::start(1);
    assert!(!r.all_ready());
    assert!(!r.all_halted());
    r.add_job(100, 7, 8, ready, after, done.clone());
    r.add_job(200, 1, u128::MAX, ready, after, done);
    assert_eq!(r.workers, 1);
    assert_eq!(r.jobs.len(), 2);
    assert_eq!(r.jobs[1].job_index, 1);
    assert_eq!(r.jobs[1].max_cycles, 200);
    assert_eq!(r.jobs[0].wall_ns(), 15);
    assert_eq!(r.jobs[1].wall_ns(), u128::MAX);
    assert_eq!(r.total_cycles, 24);
    assert_eq!(r.total_retired, 22);
    assert_eq!(r.total_reset_ns, 8);
    assert_eq!(r.total_run_ns, u128::MAX);
    assert_eq!(r.wall_ns(), u128::MAX);
    assert_eq!(
        r.combined_hash,
        fold(&[(0, after.combined_hash), (1, after.combined_hash)])
    );
    assert!(r.all_ready());
    assert!(r.all_halted());
}

#[test]
fn uniform_specs_repeat_the_program() {
    let program = [1u32, 2, 3];
    let specs = uniform_specs(&program, 3);
    assert_eq!(specs.len(), 3);
    assert_eq!(specs[2].program, &[1, 2, 3]);
    assert_eq!((specs[0].rom_size, specs[0].ram_size), (128, 128));
}
