use std::collections::{HashMap, HashSet};

use tile_cpu::bitset::{empty_bits, insert_tile, insert_tile_within};
use tile_cpu::cache::hash_u64_slice;
use tile_cpu::compact::ops_in_closure;
use tile_cpu::cop::{COP_CONST, COP_OR, COP_VIA, COP_WVIA};
use tile_cpu::decode_partition::{
    classify_tiles, decode_input_tiles, decode_output_tiles, evaluated_tiles, execute_ops,
    sorted_tiles,
};
use tile_cpu::device_plan::CompactOp;
use tile_cpu::scope_tables::{build_block_maps, constswap_ops, slot_tables};
use tile_cpu::slots::{assign_slot, filter_keep, index_of};

const NONE: u32 = u32::MAX;

fn op(idx: u32, code: u8, in0: u32, in1: u32) -> CompactOp {
    CompactOp { idx, op: code, in0, in1, in2: NONE }
}

#[test]
fn slots_are_numbered_by_first_use() {
    let mut slot_of = HashMap::new();
    let mut touched = Vec::new();
    assert_eq!(assign_slot(7, &mut slot_of, &mut touched), 0);
    assert_eq!(assign_slot(3, &mut slot_of, &mut touched), 1);
    assert_eq!(assign_slot(7, &mut slot_of, &mut touched), 0);
    assert_eq!(index_of(100, 100, &mut slot_of, &mut touched), u32::MAX);
    assert_eq!(touched, vec![7, 3]);
    assert_eq!(filter_keep(&vec![1, 2, 3], &vec![true, false, true]), vec![1, 3]);
}

#[test]
fn bits_hold_tiles() {
    let mut b = empty_bits(2);
    insert_tile(&mut b, 65);
    insert_tile_within(&mut b, 3);
    insert_tile_within(&mut b, 500);
    assert_eq!(b, vec![8, 2]);
}

#[test]
fn slot_tables_name_the_last_writer() {
    let ops = vec![op(2, COP_VIA, 0, NONE), op(4, COP_WVIA, 2, NONE), op(2, COP_WVIA, 4, NONE)];
    let (slots, wvia) = slot_tables(&ops, 6);
    assert_eq!(slots, vec![NONE, NONE, 2, NONE, 1, NONE]);
    assert_eq!(wvia, vec![NONE, 0, 1]);
}

#[test]
fn block_maps_cover_what_a_block_writes() {
    let ops: Vec<CompactOp> = (0..65).map(|i| op(i * 2, COP_VIA, NONE, NONE)).collect();
    let (offsets, entries, wvia) = build_block_maps(&ops);
    assert_eq!(offsets.len(), 3);
    assert_eq!(wvia, vec![0, 0]);
    let first = &entries[offsets[0] as usize..offsets[1] as usize];
    assert!(first.contains(&(0, 0x5555_5555_5555_5555)));
    assert!(first.contains(&(1, 0x5555_5555_5555_5555)));
    assert_eq!(&entries[offsets[1] as usize..], &[(2, 1)]);
}

#[test]
fn constant_swaps_keep_the_order() {
    let ops = vec![op(1, COP_VIA, 0, NONE), op(9, COP_VIA, 1, NONE)];
    let r = constswap_ops(&ops, &[9, 90, 91, 92, 93, 94, 95, 96]);
    assert_eq!((r[0].op, r[1].op), (COP_VIA, COP_CONST));
    assert_eq!((r[0].idx, r[1].idx), (1, 9));
}

#[test]
fn register_state_taints_what_it_reaches() {
    let nb = vec![[NONE; 4]; 8];
    let ops = vec![
        op(2, COP_VIA, 0, NONE),
        op(3, COP_VIA, 1, NONE),
        op(4, COP_OR, 2, 3),
        op(5, COP_VIA, 2, NONE),
    ];
    let (tainted, decode) = classify_tiles(&ops, &nb, &vec![1]);
    let mut t: Vec<u32> = tainted.iter().copied().collect();
    t.sort_unstable();
    let mut d: Vec<u32> = decode.iter().copied().collect();
    d.sort_unstable();
    assert!(t.contains(&3) && t.contains(&4) && !t.contains(&2));
    assert_eq!(d, vec![2, 5]);
    assert_eq!(decode_input_tiles(&ops, &nb, &tainted, &decode), vec![0]);
    let (exec, _) = execute_ops(&ops, &vec![], &decode);
    assert_eq!(exec.iter().map(|o| o.idx).collect::<Vec<_>>(), vec![3, 4]);
    let out = decode_output_tiles(&vec![exec], &ops, &nb, &decode);
    assert!(out.contains(&2));
}

#[test]
fn tile_lists_are_sorted_and_single() {
    assert_eq!(sorted_tiles(&vec![5, 1, 5, 3]), vec![1, 3, 5]);
    let ops = vec![op(9, COP_VIA, 0, NONE), op(2, COP_CONST, 0, NONE), op(4, COP_VIA, 0, NONE)];
    assert_eq!(evaluated_tiles(&ops), vec![4, 9]);
    let (inside, _) = ops_in_closure(&ops, &vec![], &HashSet::from([4u32, 2]));
    assert_eq!(inside.iter().map(|o| o.idx).collect::<Vec<_>>(), vec![2, 4]);
}

#[test]
fn word_hashes_fold_by_a_prime() {
    assert_eq!(hash_u64_slice(&vec![]), 0xcbf2_9ce4_8422_2325);
    assert_eq!(
        hash_u64_slice(&vec![1]),
        (0xcbf2_9ce4_8422_2325u64 ^ 1).wrapping_mul(0x100_0000_01b3)
    );
}
