//! Control transfer: branch kinds, branch decisions and the next program counter.
use vstd::prelude::*;

use crate::cop::{drive_level, level};

verus! {

/// The branch, memory and halt control of each opcode. Bits 0 to 2 are the branch kind, bit 3
/// reads memory, bit 4 writes it, bit 5 halts, bit 6 links, bit 7 returns.
pub open spec fn ctrl_b_of(opcode: int) -> u8 {
    if opcode == 0x01 {
        0x21
    } else if opcode == 0x15 {
        0x87
    } else if opcode == 0x16 || opcode == 0x18 {
        0x08
    } else if opcode == 0x17 || opcode == 0x19 {
        0x10
    } else if opcode == 0x1A {
        0x01
    } else if opcode == 0x1B {
        0x02
    } else if opcode == 0x1C {
        0x03
    } else if opcode == 0x1D {
        0x04
    } else if opcode == 0x1E {
        0x05
    } else if opcode == 0x1F {
        0x46
    } else {
        0x00
    }
}

/// The control table by opcode.
pub fn ctrl_b_lut() -> (r: [u8; 32])
    ensures
        forall|op: int| 0 <= op < 32 ==> #[trigger] r@[op] == ctrl_b_of(op),
{
    [
        0x00,
        0x21,
        0x00,
        0x00,
        0x00,
        0x00,
        0x00,
        0x00,
        0x00,
        0x00,
        0x00,
        0x00,
        0x00,
        0x00,
        0x00,
        0x00,
        0x00,
        0x00,
        0x00,
        0x00,
        0x00,
        0x87,
        0x08,
        0x10,
        0x08,
        0x10,
        0x01,
        0x02,
        0x03,
        0x04,
        0x05,
        0x46,
    ]
}

/// The control of one opcode.
pub fn ctrl_b(opcode: u8) -> (r: u8)
    ensures
        r == ctrl_b_of(opcode as int),
{
    match opcode {
        0x01 => 0x21,
        0x15 => 0x87,
        0x16 => 0x08,
        0x17 => 0x10,
        0x18 => 0x08,
        0x19 => 0x10,
        0x1A => 0x01,
        0x1B => 0x02,
        0x1C => 0x03,
        0x1D => 0x04,
        0x1E => 0x05,
        0x1F => 0x46,
        _ => 0x00,
    }
}

/// The branch kind of a control byte: 0 none, 1 JMP, 2 JZ, 3 JNZ, 4 JC, 5 JNC, 6 CALL, 7 RET.
pub open spec fn branch_kind(ctrl: u8) -> int {
    ctrl as int % 8
}

/// The control byte halts.
pub open spec fn halts(ctrl: u8) -> bool {
    (ctrl / 32) % 2 == 1
}

/// A branch of this kind is taken under these flags.
pub open spec fn branch_taken(kind: int, z: bool, c: bool) -> bool {
    if kind == 2 {
        z
    } else if kind == 3 {
        !z
    } else if kind == 4 {
        c
    } else if kind == 5 {
        !c
    } else {
        kind == 1 || kind == 6 || kind == 7
    }
}

/// Where a branch goes: to its target when taken, but a return to the 7-bit link register.
pub open spec fn branch_pc(
    kind: int,
    z: bool,
    c: bool,
    target: u32,
    fall_through: u32,
    lr: u32,
) -> u32 {
    if !branch_taken(kind, z, c) {
        fall_through
    } else if kind == 7 {
        lr % 128
    } else {
        target
    }
}

/// Where a branch goes.
pub fn compute_branch_pc(
    branch_kind: u8,
    flag_z: bool,
    carry: bool,
    target: u32,
    fall_through: u32,
    lr: u32,
) -> (pc: u32)
    ensures
        pc == branch_pc(branch_kind as int, flag_z, carry, target, fall_through, lr),
{
    match branch_kind {
        1 => target,
        6 => target,
        2 => if flag_z {
            target
        } else {
            fall_through
        },
        3 => if !flag_z {
            target
        } else {
            fall_through
        },
        4 => if carry {
            target
        } else {
            fall_through
        },
        5 => if !carry {
            target
        } else {
            fall_through
        },
        7 => lr % 128,
        _ => fall_through,
    }
}

/// The entry of the branch table for a kind and flags.
pub open spec fn branch_selector(kind: int, z: bool, c: bool) -> int {
    kind + (if z {
        8int
    } else {
        0int
    }) + (if c {
        16int
    } else {
        0int
    })
}

/// The branch decisions, by selector: kind in bits 0 to 2, zero flag in bit 3, carry in bit 4.
pub fn branch_taken_truth_table() -> (t: Vec<bool>)
    ensures
        t@.len() == 32,
        forall|k: int, z: bool, c: bool|
            0 <= k < 8 ==> t@[#[trigger] branch_selector(k, z, c)] == branch_taken(k, z, c),
{
    let mut t: Vec<bool> = Vec::new();
    let mut i: u8 = 0;
    while i < 32
        invariant
            i <= 32,
            t@.len() == i,
            forall|m: int|
                0 <= m < i ==> #[trigger] t@[m] == branch_taken(
                    m % 8,
                    (m / 8) % 2 == 1,
                    (m / 16) % 2 == 1,
                ),
        decreases 32 - i,
    {
        let z: bool = (i / 8) % 2 == 1;
        let c: bool = (i / 16) % 2 == 1;
        let taken: bool = match i % 8 {
            1 => true,
            2 => z,
            3 => !z,
            4 => c,
            5 => !c,
            6 => true,
            7 => true,
            _ => false,
        };
        t.push(taken);
        i = i + 1;
    }
    t
}

/// The levels that drive a branch block: the three kind bits, the zero flag, the carry.
pub fn compute_synth_branch_inputs(branch_kind: u8, flag_z: bool, carry: bool) -> (r: [u64; 5])
    ensures
        r@ == seq![
            level(branch_kind % 2 == 1),
            level((branch_kind / 2) % 2 == 1),
            level((branch_kind / 4) % 2 == 1),
            level(flag_z),
            level(carry),
        ],
{
    let r: [u64; 5] = [
        drive_level(branch_kind % 2 == 1),
        drive_level((branch_kind / 2) % 2 == 1),
        drive_level((branch_kind / 4) % 2 == 1),
        drive_level(flag_z),
        drive_level(carry),
    ];
    assert(r@ =~= seq![
        level(branch_kind % 2 == 1),
        level((branch_kind / 2) % 2 == 1),
        level((branch_kind / 4) % 2 == 1),
        level(flag_z),
        level(carry),
    ]);
    r
}

/// A conditional branch and its opposite never go the same way, and one of them is taken.
pub proof fn law_conditional_branches_are_opposite(z: bool, c: bool)
    ensures
        branch_taken(2, z, c) != branch_taken(3, z, c),
        branch_taken(4, z, c) != branch_taken(5, z, c),
{
}

} // verus!
