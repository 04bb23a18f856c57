use tile_cpu::cache::{hash_u64_slice, BackboneCache};
use tile_cpu::clock::{ClockPath, ClockProfile};
use tile_cpu::clock_cache::{add_missing, without_tails};
use tile_cpu::compact::{build_pipeline_cone, op_bitset, partition_ops, select_ops, OpList};
use tile_cpu::device_plan::CompactOp;
use tile_cpu::gates::{CheckCounter, SynthGate};
use tile_cpu::memo::{AdaptiveDecode, SettleMemo};
use tile_cpu::scopes::EvalScopes;
use tile_cpu::settle::{
    begin_settle, choose_kernel, finish_settle, SettleFlags, SettlePath, SettlePlan,
};
use tile_cpu::simulation::{Simulation, TileType};
use tile_cpu::state::PropCounters;

fn grid() -> Simulation {
    Simulation {
        width: 4,
        height: 4,
        values: (0..16).collect(),
        kinds: vec![TileType::Wire; 16],
        dirty: vec![true; 16],
    }
}

#[test]
fn cache_forgets_the_oldest_entry() {
    let mut c = BackboneCache::new(2);
    c.insert(1, vec![1], vec![10]);
    c.insert(2, vec![2], vec![20]);
    assert_eq!(c.len(), 2);
    assert_eq!(c.get(1).unwrap().outputs, vec![10]);
    c.insert(3, vec![3], vec![30]);
    assert_eq!(c.len(), 2);
    assert!(c.get(1).is_none());
    assert_eq!(c.get(2).unwrap().inputs, vec![2]);
    assert_eq!(c.get(3).unwrap().outputs, vec![30]);
    c.insert(3, vec![4], vec![40]);
    assert_eq!(c.len(), 2);
    assert_eq!(c.get(3).unwrap().outputs, vec![40]);
    c.clear();
    assert_eq!(c.len(), 0);
    assert!(c.get(2).is_none());
}

#[test]
fn hashes_depend_on_order() {
    assert_ne!(hash_u64_slice(&vec![1, 2]), hash_u64_slice(&vec![2, 1]));
    assert_eq!(hash_u64_slice(&vec![1, 2]), hash_u64_slice(&vec![1, 2]));
}

#[test]
fn a_kept_settle_is_restored_exactly() {
    let mut sim = grid();
    let mut m = SettleMemo::new(8);
    m.enabled = true;
    m.input_indices = vec![0, 1];
    m.output_indices = vec![5, 6];
    let found = m.lookup(&sim);
    assert!(found.snapshot.is_none());
    assert_eq!(found.inputs, vec![0, 1]);
    sim.values[5] = 55;
    sim.values[6] = 66;
    m.keep(&sim, found.key, found.inputs);
    sim.values[5] = 0;
    sim.values[6] = 0;
    let again = m.lookup(&sim);
    assert_eq!(again.snapshot, Some(vec![55, 66]));
    m.restore(&mut sim, &again.snapshot.unwrap());
    assert_eq!((sim.values[5], sim.values[6]), (55, 66));
    sim.values[0] = 9;
    assert!(m.lookup(&sim).snapshot.is_none());
    m.reset();
    assert_eq!(m.stats(), (0, 0, 0));
}

#[test]
fn a_settle_misses_then_hits() {
    let mut sim = grid();
    let mut memo = SettleMemo::new(4);
    memo.enabled = true;
    memo.input_indices = vec![0];
    memo.output_indices = vec![1];
    let mut decode = SettleMemo::new(4);
    let mut adaptive = AdaptiveDecode::new();
    let scopes = EvalScopes::empty();
    let flags = SettleFlags { hybrid: false, two_phase: false, no_dirty: false, prefiltered: false };
    let mut counters = PropCounters::zero();
    let plan = begin_settle(
        &decode, &mut adaptive, 0, true, &memo, &flags, &scopes, false, false, &mut sim,
    );
    assert_eq!(plan.path, SettlePath::MemoMiss);
    sim.values[1] = 77;
    finish_settle(plan, &mut decode, &mut memo, &scopes, 0, 12, &mut sim, &mut counters);
    assert_eq!(counters.prop_settle_calls, 1);
    assert_eq!(counters.prop_settle_evals, 12);
    sim.values[1] = 0;
    let plan = begin_settle(
        &decode, &mut adaptive, 0, true, &memo, &flags, &scopes, false, false, &mut sim,
    );
    assert_eq!(plan.path, SettlePath::MemoHit);
    assert_eq!(sim.values[1], 77);
    finish_settle(plan, &mut decode, &mut memo, &scopes, 0, 0, &mut sim, &mut counters);
    assert_eq!(memo.stats(), (1, 1, 1));
    let plan: SettlePlan = begin_settle(
        &decode, &mut adaptive, 0, true, &memo, &flags, &scopes, true, false, &mut sim,
    );
    assert_eq!(plan.path, SettlePath::Levelized);
    assert_eq!(choose_kernel(&flags, &scopes, false, true), SettlePath::Levelized);
}

#[test]
fn gating_is_decided_once() {
    let mut a = AdaptiveDecode::new();
    a.configure(true, 4);
    assert!(a.should_use_cache(0, false));
    assert!(!a.should_use_cache(4, false));
    assert!(!a.should_use_cache(5, true));
    assert_eq!(a.skipped, 2);
    a.reset();
    assert!(a.should_use_cache(4, true));
    assert!(a.should_use_cache(500, false));
}

fn op(idx: u32, in0: u32) -> CompactOp {
    CompactOp { idx, op: tile_cpu::cop::COP_VIA, in0, in1: u32::MAX, in2: u32::MAX }
}

#[test]
fn cones_follow_inputs() {
    let ops = vec![op(1, 0), op(2, 1), op(3, 9), op(4, 2)];
    let wvia = vec![];
    let (kept, _, bits) = build_pipeline_cone(&ops, &wvia, &vec![2]);
    let idx: Vec<u32> = kept.iter().map(|o| o.idx).collect();
    assert_eq!(idx, vec![1, 2]);
    assert_eq!(bits[0] & 0b11110, 0b00110);
    assert_eq!(op_bitset(&ops)[0], 0b11110);
    let (sel, _) = select_ops(&ops, &vec![], &vec![true, false, true, false]);
    assert_eq!(sel.len(), 2);
    let set = std::collections::HashSet::from([2u32, 4]);
    let (inside, _, outside, _) = partition_ops(&ops, &vec![], &set);
    assert_eq!((inside.len(), outside.len()), (2, 2));
}

#[test]
fn clock_profiles_warm_up_once() {
    let schedule = OpList { ops: vec![op(1, 0), op(2, 1)], wvia: vec![] };
    let mut p = ClockProfile::new();
    for edge in 0..10 {
        let path = p.begin_edge(Some(&schedule), true, 0, false, false);
        assert_eq!(path, ClockPath::Counted, "{edge}");
        p.counts[1] += 1;
        p.finish_counted_edge(&schedule);
    }
    assert_eq!(p.begin_edge(Some(&schedule), true, 0, false, false), ClockPath::Pruned);
    assert_eq!(p.live_ops.len(), 1);
    assert_eq!(p.live_ops[0].idx, 2);
    assert_eq!(p.begin_edge(Some(&schedule), true, 3, true, false), ClockPath::Lightweight);
    assert_eq!(p.begin_edge(None, true, 3, false, false), ClockPath::Compact);
}

#[test]
fn caches_take_missing_tiles_once() {
    let mut cache = vec![1usize, 2];
    add_missing(&mut cache, &[2, 3, 3]);
    assert_eq!(cache, vec![1, 2, 3]);
    assert_eq!(without_tails(&vec![0, 1, 2], &vec![false, true, false]), vec![0, 2]);
}

#[test]
fn gates_count_from_their_enabling() {
    let mut g = SynthGate::new();
    assert!(!g.is_enabled());
    g.enable();
    g.record_check();
    g.record_mismatch();
    assert_eq!((g.checks(), g.mismatches()), (1, 1));
    g.disable();
    assert_eq!((g.checks(), g.mismatches()), (1, 1));
    g.enable();
    assert_eq!((g.checks(), g.mismatches()), (0, 0));
    let mut c = CheckCounter::zero();
    c.record(true);
    c.record(false);
    assert_eq!((c.checks, c.mismatches), (2, 1));
}

#[test]
fn a_cache_without_room_keeps_nothing() {
    let mut c = BackboneCache::new(0);
    c.insert(1, vec![1], vec![10]);
    assert_eq!(c.len(), 0);
    assert!(c.get(1).is_none());
    let mut m = SettleMemo::new(0);
    m.input_indices = vec![1, 2];
    m.output_indices = vec![5];
    m.enabled = true;
    let sim = grid();
    let found = m.lookup(&sim);
    m.keep(&sim, found.key, found.inputs);
    assert_eq!(m.cache.len(), 0);
    assert!(m.lookup(&sim).snapshot.is_none());
}

#[test]
fn a_miss_keeps_the_other_snapshots() {
    let mut c = BackboneCache::new(3);
    c.insert(1, vec![1], vec![10]);
    c.insert(2, vec![2], vec![20]);
    let copy = c.clone();
    c.insert(2, vec![3], vec![30]);
    assert_eq!(copy.get(2).unwrap().outputs, vec![20]);
    assert_eq!(c.get(1).unwrap().outputs, vec![10]);
    assert_eq!(c.get(2).unwrap().inputs, vec![3]);
    assert_eq!(c.len(), 2);
}
