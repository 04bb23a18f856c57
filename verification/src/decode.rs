//! Stage F after its settle: checking and correcting what the tiles decoded, and filling the
//! pipeline latch.
use vstd::prelude::*;

use crate::alu::{opcode_uses_rs, uses_rs};
use crate::branch::{ctrl_b, ctrl_b_of};
use crate::branch_stage::tile_index;
use crate::commit::{seq_of, DecodeTables};
use crate::fetch::{
    decoder_fits, high_ingress, immediate_tile, low_ingress, pre_injected, selector_levels,
    tree_selectors, with_forced_word, with_immediates, FetchWord,
};
use crate::gates::{CheckCounter, SynthGate};
use crate::latch::PipelineLatch;
use crate::layout::V2CpuIndices;
use crate::levels::{pack_levels, packed};
use crate::simulation::{Grid, Simulation, TileType};
use crate::state::{Authority, Checks, PipelineState};
use crate::writeback::after_if;

verus! {

/// The grid with the decoder's inputs turned back into vias.
pub open spec fn unforced(g: Grid, ox: int, oy: int) -> Grid {
    g.retype(high_ingress(g.width, g.height, ox, oy), TileType::ViaUp).retype(
        low_ingress(g.width, g.height, ox, oy),
        TileType::ViaUp,
    )
}

/// A word that was forced on the decoder leaves its input tiles the vias they were, when settling
/// leaves the tiles' kinds alone.
pub proof fn law_forced_inputs_are_freed(g: Grid, k: Grid, ox: int, oy: int, w: FetchWord)
    requires
        0 <= high_ingress(g.width, g.height, ox, oy) < g.kinds.len(),
        0 <= low_ingress(g.width, g.height, ox, oy) < g.kinds.len(),
        g.kinds[high_ingress(g.width, g.height, ox, oy)] == TileType::ViaUp,
        g.kinds[low_ingress(g.width, g.height, ox, oy)] == TileType::ViaUp,
        k.width == g.width,
        k.height == g.height,
        k.kinds == with_forced_word(g, ox, oy, w).kinds,
    ensures
        unforced(k, ox, oy).kinds == g.kinds,
{
    let hi = high_ingress(g.width, g.height, ox, oy);
    let lo = low_ingress(g.width, g.height, ox, oy);
    let f = g.retype(hi, TileType::Const).put(hi, w.lanes@[1]).retype(lo, TileType::Const).put(
        lo,
        w.lanes@[0],
    );
    lemma_immediates_keep_kinds(f, ox, oy, w.lanes@[0], 8);
    assert(unforced(k, ox, oy).kinds =~= g.kinds);
}

proof fn lemma_immediates_keep_kinds(g: Grid, ox: int, oy: int, v: u64, n: nat)
    ensures
        with_immediates(g, ox, oy, v, n).kinds == g.kinds,
    decreases n,
{
    if n > 0 {
        lemma_immediates_keep_kinds(g, ox, oy, v, (n - 1) as nat);
    }
}

/// The decoder's inputs do not hold the instruction word.
pub open spec fn ingress_differs(g: Grid, ox: int, oy: int, w: FetchWord) -> bool {
    g.values[high_ingress(g.width, g.height, ox, oy)] != w.lanes@[1]
        || g.values[low_ingress(g.width, g.height, ox, oy)] != w.lanes@[0]
}

/// How many of the first `n` immediate tiles do not hold the low instruction byte.
pub open spec fn immediate_differences(g: Grid, ox: int, oy: int, v: u64, n: nat) -> nat
    decreases n,
{
    if n == 0 {
        0
    } else {
        immediate_differences(g, ox, oy, v, (n - 1) as nat) + if g.values[immediate_tile(
            g.width,
            g.height,
            ox,
            oy,
            n - 1,
        )] != v {
            1nat
        } else {
            0nat
        }
    }
}

/// The counters after the delivery of a word of the upper half is checked.
pub open spec fn delivery_checks(
    auth: Authority,
    g: Grid,
    ox: int,
    oy: int,
    w: FetchWord,
    c: Checks,
) -> Checks {
    if !w.upper {
        c
    } else if auth.ir_spine {
        Checks {
            ir_spine: CheckCounter {
                checks: (c.ir_spine.checks + 1) as u64,
                mismatches: (c.ir_spine.mismatches + (if ingress_differs(g, ox, oy, w) {
                    1int
                } else {
                    0int
                }) + immediate_differences(g, ox, oy, w.lanes@[0], 8)) as u64,
            },
            ..c
        }
    } else {
        Checks { upper_bank_ir: c.upper_bank_ir.after(ingress_differs(g, ox, oy, w)), ..c }
    }
}

fn count_immediate_differences(sim: &Simulation, ox: usize, oy: usize, v: u64) -> (d: u64)
    requires
        sim.wf(),
        decoder_fits(*sim, ox as int, oy as int),
    ensures
        d == immediate_differences(sim@, ox as int, oy as int, v, 8),
        d <= 8,
{
    let mut d: u64 = 0;
    let mut i: usize = 0;
    while i < 8
        invariant
            i <= 8,
            d <= i,
            sim.wf(),
            decoder_fits(*sim, ox as int, oy as int),
            d == immediate_differences(sim@, ox as int, oy as int, v, i as nat),
        decreases 8 - i,
    {
        let at: usize = tile_index(sim, ox + 18 + 4 * i, oy + 37, 0);
        if sim.get_logic_value_by_idx(at) != v {
            d = d + 1;
        }
        i = i + 1;
    }
    d
}

/// Free the decoder's inputs, and check what was delivered to them.
pub fn check_delivery(
    sim: &mut Simulation,
    auth: &Authority,
    ox: usize,
    oy: usize,
    w: &FetchWord,
    p: &mut PipelineState,
    checks: &mut Checks,
)
    requires
        old(sim).wf(),
        decoder_fits(*old(sim), ox as int, oy as int),
        old(checks).ir_spine.room(9),
        old(checks).upper_bank_ir.room(1),
    ensures
        ({
            let g = if w.forced(*auth) {
                unforced(old(sim)@, ox as int, oy as int)
            } else {
                old(sim)@
            };
            &&& final(sim)@ == g
            &&& *final(checks) == delivery_checks(
                *auth,
                g,
                ox as int,
                oy as int,
                *w,
                *old(checks),
            )
        }),
        *final(p) == (PipelineState {
            compact_eval_inhibit: old(p).compact_eval_inhibit && !w.forced(*auth),
            ..*old(p)
        }),
        final(sim).wf(),
        final(sim).len() == old(sim).len(),
{
    if w.upper {
        let hi: usize = tile_index(sim, ox + 13, oy + 4, 0);
        let lo: usize = tile_index(sim, ox + 1, oy + 4, 1);
        if !auth.ir_spine || w.beyond {
            sim.set_tile(hi, TileType::ViaUp);
            sim.set_tile(lo, TileType::ViaUp);
            p.compact_eval_inhibit = false;
        }
        let differs: bool = sim.get_logic_value_by_idx(hi) != w.lanes[1]
            || sim.get_logic_value_by_idx(lo) != w.lanes[0];
        if auth.ir_spine {
            let d: u64 = count_immediate_differences(sim, ox, oy, w.lanes[0]);
            checks.ir_spine.checks = checks.ir_spine.checks + 1;
            checks.ir_spine.mismatches = checks.ir_spine.mismatches + d;
            if differs {
                checks.ir_spine.mismatches = checks.ir_spine.mismatches + 1;
            }
        } else {
            checks.upper_bank_ir.record(differs);
        }
    }
}

/// The grid with the first `n` word selectors holding their lanes.
pub open spec fn with_lanes(idx: V2CpuIndices, w: FetchWord, n: nat, g: Grid) -> Grid
    decreases n,
{
    if n == 0 {
        g
    } else {
        with_lanes(idx, w, (n - 1) as nat, g).put(
            idx.rom_selected_indices@[n - 1] as int,
            w.lanes@[n - 1],
        )
    }
}

/// The counter after the first `n` word selectors are checked.
pub open spec fn lane_checks(
    idx: V2CpuIndices,
    w: FetchWord,
    n: nat,
    g: Grid,
    c: CheckCounter,
) -> CheckCounter
    decreases n,
{
    if n == 0 {
        c
    } else {
        lane_checks(idx, w, (n - 1) as nat, g, c).after(
            with_lanes(idx, w, (n - 1) as nat, g).values[idx.rom_selected_indices@[n - 1] as int]
                != w.lanes@[n - 1],
        )
    }
}

/// Make the word selectors hold the instruction word, counting corrections where they are
/// trusted.
pub fn settle_lanes(
    idx: &V2CpuIndices,
    sim: &mut Simulation,
    auth: &Authority,
    w: &FetchWord,
    counter: &mut CheckCounter,
)
    requires
        old(sim).wf(),
        idx.fits_fetch(old(sim).len()),
        old(counter).room(4),
    ensures
        final(sim)@ == with_lanes(*idx, *w, 4, old(sim)@),
        *final(counter) == if auth.super_mux {
            lane_checks(*idx, *w, 4, old(sim)@, *old(counter))
        } else {
            *old(counter)
        },
        final(sim).wf(),
        final(sim).len() == old(sim).len(),
{
    let ghost g = sim@;
    let ghost n = sim.len();
    let mut lane: usize = 0;
    while lane < 4
        invariant
            lane <= 4,
            sim.wf(),
            sim.len() == n,
            g == old(sim)@,
            idx.fits_fetch(n),
            sim@ == with_lanes(*idx, *w, lane as nat, g),
            counter.room(4 - lane),
            *counter == if auth.super_mux {
                lane_checks(*idx, *w, lane as nat, g, *old(counter))
            } else {
                *old(counter)
            },
        decreases 4 - lane,
    {
        let at: usize = idx.rom_selected_indices[lane];
        if auth.super_mux {
            let differs: bool = sim.get_logic_value_by_idx(at) != w.lanes[lane];
            counter.record(differs);
        }
        sim.set_logic_value_by_idx(at, w.lanes[lane]);
        lane = lane + 1;
    }
}

/// Compare the bank bits of the extension byte with the tiles', where those are trusted.
pub fn check_byte2(
    idx: &V2CpuIndices,
    sim: &Simulation,
    auth: &Authority,
    w: &FetchWord,
    counter: &mut CheckCounter,
)
    requires
        sim.wf(),
        idx.fits_fetch(sim.len()),
        old(counter).room(1),
    ensures
        ({
            let byte2 = sim@.values[idx.rom_selected_indices@[2] as int];
            *final(counter) == after_if(
                *old(counter),
                auth.byte2_selector,
                (byte2 % 2 == 1) != w.rd_hi() || ((byte2 / 2) % 2 == 1) != w.rs_hi(),
            )
        }),
{
    if auth.byte2_selector {
        let byte2: u64 = sim.get_logic_value_by_idx(idx.rom_selected_indices[2]);
        counter.record(
            (byte2 % 2 == 1) != w.get_rd_hi() || ((byte2 / 2) % 2 == 1) != w.get_rs_hi(),
        );
    }
}

/// The tile is raised although its level is low, or the other way round.
pub open spec fn wrong_level(g: Grid, i: int, expected: u64) -> bool {
    (g.values[i] != 0) != (expected != 0)
}

/// The grid with a tile corrected and marked, if its level is wrong.
pub open spec fn with_level(g: Grid, i: int, expected: u64) -> Grid {
    if wrong_level(g, i, expected) {
        g.put(i, expected).mark(i)
    } else {
        g
    }
}

/// The grid with the first `n` selectors of both upper trees corrected.
pub open spec fn with_selectors(
    idx: V2CpuIndices,
    a: Seq<u64>,
    b: Seq<u64>,
    n: nat,
    g: Grid,
) -> Grid
    decreases n,
{
    if n == 0 {
        g
    } else {
        with_level(
            with_level(
                with_selectors(idx, a, b, (n - 1) as nat, g),
                idx.high_tree_a_sel_const_indices@[n - 1] as int,
                a[n - 1],
            ),
            idx.high_tree_b_sel_const_indices@[n - 1] as int,
            b[n - 1],
        )
    }
}

/// Some of the first `n` selectors had to be corrected.
pub open spec fn selectors_differ(
    idx: V2CpuIndices,
    a: Seq<u64>,
    b: Seq<u64>,
    n: nat,
    g: Grid,
) -> bool
    decreases n,
{
    if n == 0 {
        false
    } else {
        let before = with_selectors(idx, a, b, (n - 1) as nat, g);
        let at = idx.high_tree_a_sel_const_indices@[n - 1] as int;
        ||| selectors_differ(idx, a, b, (n - 1) as nat, g)
        ||| wrong_level(before, at, a[n - 1])
        ||| wrong_level(
            with_level(before, at, a[n - 1]),
            idx.high_tree_b_sel_const_indices@[n - 1] as int,
            b[n - 1],
        )
    }
}

fn correct_level(sim: &mut Simulation, i: usize, expected: u64) -> (wrong: bool)
    requires
        old(sim).wf(),
        i < old(sim).len(),
    ensures
        wrong == wrong_level(old(sim)@, i as int, expected),
        final(sim)@ == with_level(old(sim)@, i as int, expected),
        final(sim).wf(),
        final(sim).len() == old(sim).len(),
{
    if (sim.get_logic_value_by_idx(i) != 0) != (expected != 0) {
        sim.set_logic_value_by_idx(i, expected);
        sim.mark_dirty(i);
        true
    } else {
        false
    }
}

/// The selectors that the tiles compute for the second upper tree, not inverted.
pub open spec fn raw_selectors_b(w: FetchWord) -> Seq<u64> {
    tree_selectors(w.rs_lo, (w.rs_lo / 4) % 2 == 1)
}

/// Check the upper trees' selectors, where the tiles compute them. Returns whether a
/// correction calls for another settle.
pub fn check_selectors(
    idx: &V2CpuIndices,
    sim: &mut Simulation,
    auth: &Authority,
    w: &FetchWord,
    counter: &mut CheckCounter,
    reasons: &mut [u64; 7],
) -> (again: bool)
    requires
        old(sim).wf(),
        idx.fits_fetch(old(sim).len()),
        old(counter).room(1),
        old(reasons)@[1] < u64::MAX,
    ensures
        ({
            let a = crate::fetch::selectors_a(*w);
            let b = raw_selectors_b(*w);
            &&& again == (auth.via_decode && selectors_differ(*idx, a, b, 7, old(sim)@))
            &&& final(sim)@ == if auth.via_decode {
                with_selectors(*idx, a, b, 7, old(sim)@)
            } else {
                old(sim)@
            }
        }),
        *final(counter) == after_if(*old(counter), auth.via_decode, again),
        final(reasons)@ == if again {
            old(reasons)@.update(1, (old(reasons)@[1] + 1) as u64)
        } else {
            old(reasons)@
        },
        final(sim).wf(),
        final(sim).len() == old(sim).len(),
{
    if !auth.via_decode {
        return false;
    }
    let a: Vec<u64> = selector_levels(w.rd, (w.rd / 4) % 2 == 1);
    let b: Vec<u64> = selector_levels(w.rs_lo, (w.rs_lo / 4) % 2 == 1);
    let ghost g = sim@;
    let ghost n = sim.len();
    let mut any: bool = false;
    let mut i: usize = 0;
    while i < 7
        invariant
            i <= 7,
            a@.len() == 7,
            b@.len() == 7,
            sim.wf(),
            sim.len() == n,
            idx.fits_fetch(n),
            sim@ == with_selectors(*idx, a@, b@, i as nat, g),
            any == selectors_differ(*idx, a@, b@, i as nat, g),
        decreases 7 - i,
    {
        let wrong_a: bool = correct_level(sim, idx.high_tree_a_sel_const_indices[i], a[i]);
        let wrong_b: bool = correct_level(sim, idx.high_tree_b_sel_const_indices[i], b[i]);
        any = any || wrong_a || wrong_b;
        i = i + 1;
    }
    counter.record(any);
    if any {
        reasons[1] = reasons[1] + 1;
    }
    any
}

/// The wide load-immediate's constant goes through the adder in a settle of its own.
pub open spec fn wide_load_injected(auth: Authority, w: FetchWord) -> bool {
    auth.wb_data && w.wide_load()
}

/// The constant of a wide load-immediate.
pub open spec fn wide_constant(w: FetchWord) -> u64 {
    ((w.ir_ext / 256) * 256 + w.ir_low) as u64
}

/// The grid with a wide load-immediate's constant at the first operand selector and the adder
/// passing it through.
pub open spec fn with_wide_load(idx: V2CpuIndices, w: FetchWord, g: Grid) -> Grid {
    crate::fetch::with_pass_through(
        idx,
        g.put(idx.alu_r_mux_output_indices@[0] as int, wide_constant(w)).mark(
            idx.alu_r_mux_output_indices@[0] - 1,
        ),
    )
}

/// Inject a wide load-immediate's constant. Returns whether a settle is needed for it.
pub fn inject_wide_load(
    idx: &V2CpuIndices,
    sim: &mut Simulation,
    auth: &Authority,
    w: &FetchWord,
    reasons: &mut [u64; 7],
) -> (settle: bool)
    requires
        old(sim).wf(),
        idx.fits(old(sim).len()),
        old(reasons)@[3] < u64::MAX,
    ensures
        settle == wide_load_injected(*auth, *w),
        final(sim)@ == if settle {
            with_wide_load(*idx, *w, old(sim)@)
        } else {
            old(sim)@
        },
        final(reasons)@ == if settle {
            old(reasons)@.update(3, (old(reasons)@[3] + 1) as u64)
        } else {
            old(reasons)@
        },
        final(sim).wf(),
        final(sim).len() == old(sim).len(),
{
    if auth.wb_data && w.opcode == 0x03 && w.get_wide() {
        let at: usize = idx.alu_r_mux_output_indices[0];
        let v: u64 = ((w.ir_ext / 256) as u64) * 256 + w.ir_low as u64;
        sim.set_logic_value_by_idx(at, v);
        sim.mark_dirty(at - 1);
        sim.set_logic_value_by_idx(idx.alu_add_l_enable_idx, u64::MAX);
        sim.mark_dirty(idx.alu_add_l_mux_idx);
        reasons[3] = reasons[3] + 1;
        true
    } else {
        false
    }
}

/// Stop passing through the adder.
pub fn end_pass_through(idx: &V2CpuIndices, sim: &mut Simulation)
    requires
        old(sim).wf(),
        idx.fits_fetch(old(sim).len()),
    ensures
        final(sim)@ == old(sim)@.put(idx.alu_add_l_enable_idx as int, 0),
        final(sim).wf(),
        final(sim).len() == old(sim).len(),
{
    sim.set_logic_value_by_idx(idx.alu_add_l_enable_idx, 0);
}

/// End the pass-through of a move or load-immediate after the fetch settle.
pub fn end_pre_injection(idx: &V2CpuIndices, sim: &mut Simulation, auth: &Authority, w: &FetchWord)
    requires
        old(sim).wf(),
        idx.fits_fetch(old(sim).len()),
    ensures
        final(sim)@ == if pre_injected(*auth, *w) {
            old(sim)@.put(idx.alu_add_l_enable_idx as int, 0)
        } else {
            old(sim)@
        },
        final(sim).wf(),
        final(sim).len() == old(sim).len(),
{
    if auth.wb_data && (w.opcode == 0x02 || w.opcode == 0x03) && !(w.opcode == 0x03
        && w.get_wide()) {
        end_pass_through(idx, sim);
    }
}

impl DecodeTables {
    /// Control byte B of an opcode.
    pub open spec fn ctrl_b_of(self, opcode: u8) -> u8 {
        match self.combined {
            Some(t) => (t@[opcode as int] / 256) as u8,
            None => ctrl_b_of(opcode as int),
        }
    }

    /// Control byte B of an opcode.
    pub fn get_ctrl_b(&self, opcode: u8) -> (r: u8)
        requires
            opcode < 32,
        ensures
            r == self.ctrl_b_of(opcode),
    {
        match self.combined {
            Some(t) => (t[opcode as usize] / 256) as u8,
            None => ctrl_b(opcode),
        }
    }
}

/// Control byte B as it is acted on. A trusted decode agrees with the table or is overruled by
/// it; a combined table comes next; then a synthesized block; and without any of these the
/// tiles decide in the lower half of the program and the table in the upper.
pub open spec fn acting_ctrl_b(
    tables: DecodeTables,
    auth: Authority,
    gate: bool,
    block: Option<Seq<u64>>,
    w: FetchWord,
    tile: u64,
) -> u8 {
    if auth.decode || tables.combined is Some {
        tables.ctrl_b_of(w.opcode)
    } else if gate {
        match block {
            Some(v) => packed(v, 0, v.len()) as u8,
            None => ctrl_b_of(w.opcode as int),
        }
    } else if (w.pc / 64) % 2 == 0 {
        (tile % 256) as u8
    } else {
        ctrl_b_of(w.opcode as int)
    }
}

/// Decide control byte B.
pub fn decide_ctrl_b(
    idx: &V2CpuIndices,
    sim: &Simulation,
    tables: &DecodeTables,
    auth: &Authority,
    block: &Option<Vec<u64>>,
    w: &FetchWord,
    gate: &mut SynthGate,
    checks: &mut Checks,
) -> (cb: u8)
    requires
        sim.wf(),
        idx.fits_fetch(sim.len()),
        w.opcode < 32,
        block matches Some(v) ==> v@.len() <= 8,
        old(gate).room(),
        old(checks).decode_ctrl_b.room(1),
        old(checks).combined_decode_checks < u64::MAX,
    ensures
        ({
            let tile = sim@.values[idx.ctrl_b_mux_idx as int];
            let synth = !auth.decode && tables.combined is None && old(gate).enabled;
            &&& cb == acting_ctrl_b(
                *tables,
                *auth,
                old(gate).enabled,
                seq_of(*block),
                *w,
                tile,
            )
            &&& *final(gate) == if synth {
                SynthGate {
                    checks: (old(gate).checks + 1) as u64,
                    mismatches: if (w.pc / 64) % 2 == 0 && cb != tile % 256 {
                        (old(gate).mismatches + 1) as u64
                    } else {
                        old(gate).mismatches
                    },
                    ..*old(gate)
                }
            } else {
                *old(gate)
            }
            &&& *final(checks) == (Checks {
                decode_ctrl_b: after_if(
                    old(checks).decode_ctrl_b,
                    auth.decode,
                    tile % 256 != tables.ctrl_b_of(w.opcode),
                ),
                combined_decode_checks: if !auth.decode && tables.combined is Some {
                    (old(checks).combined_decode_checks + 1) as u64
                } else {
                    old(checks).combined_decode_checks
                },
                ..*old(checks)
            })
        }),
{
    let tile: u64 = sim.get_logic_value_by_idx(idx.ctrl_b_mux_idx) % 256;
    let lower: bool = (w.pc / 64) % 2 == 0;
    if auth.decode {
        let expected: u8 = tables.get_ctrl_b(w.opcode);
        checks.decode_ctrl_b.record(tile != expected as u64);
        expected
    } else if tables.combined.is_some() {
        checks.combined_decode_checks = checks.combined_decode_checks + 1;
        tables.get_ctrl_b(w.opcode)
    } else if gate.enabled {
        let cb: u8 = match block {
            Some(v) => pack_levels(v, 0) as u8,
            None => ctrl_b(w.opcode),
        };
        gate.record_check();
        if lower && cb as u64 != tile {
            gate.record_mismatch();
        }
        cb
    } else if lower {
        tile as u8
    } else {
        ctrl_b(w.opcode)
    }
}

/// The registers that the operands come from. An instruction without a source register takes
/// the destination's bank for its second operand.
pub open spec fn operand_regs(w: FetchWord) -> (int, int) {
    let rd = w.rd + if w.rd_hi() {
        8int
    } else {
        0int
    };
    let rs_high = if uses_rs(w.opcode) {
        w.rs_hi()
    } else {
        w.rd_hi()
    };
    (rd, w.rs_lo + if rs_high {
        8int
    } else {
        0int
    })
}

/// An operand: the register's own tile where the operand gate is in force or the word is in the
/// upper half of the program, else what the operand tree gives.
pub open spec fn operand_of(gate: bool, w: FetchWord, tree: u64, direct: u64) -> u64 {
    if gate || (w.pc / 64) % 2 == 1 {
        direct
    } else {
        tree
    }
}

/// This gate after an operand is compared, if it is.
pub open spec fn operand_gate(g: SynthGate, compared: bool, differs: bool) -> SynthGate {
    if compared {
        SynthGate {
            checks: (g.checks + 1) as u64,
            mismatches: if differs {
                (g.mismatches + 1) as u64
            } else {
                g.mismatches
            },
            ..g
        }
    } else {
        g
    }
}

fn read_operand(
    gate: &mut SynthGate,
    counter: &mut CheckCounter,
    auth: &Authority,
    w: &FetchWord,
    compared: bool,
    tree: u64,
    direct: u64,
) -> (v: u64)
    requires
        old(gate).room(),
        old(counter).room(1),
        compared ==> old(gate).enabled,
    ensures
        v == operand_of(old(gate).enabled, *w, tree, direct),
        *final(gate) == operand_gate(*old(gate), compared, tree != direct),
        *final(counter) == after_if(*old(counter), compared && auth.operand, tree != direct),
{
    if compared {
        gate.record_check();
        if tree != direct {
            gate.record_mismatch();
        }
        if auth.operand {
            counter.record(tree != direct);
        }
    }
    if gate.enabled || (w.pc / 64) % 2 == 1 {
        direct
    } else {
        tree
    }
}

/// The grid with the injection points of the upper operand trees cleared.
pub open spec fn with_trees_cleared(idx: V2CpuIndices, auth: Authority, g: Grid) -> Grid {
    let a = g.put_all(idx.high_tree_a_data_const_indices@, 0).put_all(
        idx.high_tree_b_data_const_indices@,
        0,
    );
    let b = if auth.via_decode {
        a
    } else {
        a.put_all(idx.high_tree_a_sel_const_indices@, 0).put_all(
            idx.high_tree_b_sel_const_indices@,
            0,
        )
    };
    b.put(idx.top_mux_a_sel_const_idx as int, 0).put(idx.top_mux_b_sel_const_idx as int, 0)
}

/// Read the operands, clear what was injected for them, and fill the latch.
pub fn finish_fetch(
    idx: &V2CpuIndices,
    sim: &mut Simulation,
    auth: &Authority,
    w: &FetchWord,
    cb: u8,
    gate: &mut SynthGate,
    counter: &mut CheckCounter,
) -> (l: PipelineLatch)
    requires
        old(sim).wf(),
        idx.fits(old(sim).len()),
        w.opcode < 32,
        w.rd < 8,
        w.rs_lo < 8,
        old(gate).checks + 2 <= u64::MAX,
        old(gate).mismatches + 2 <= u64::MAX,
        old(counter).room(2),
    ensures
        ({
            let g = old(sim)@;
            let (rd, rs) = operand_regs(*w);
            let tree_a = g.values[idx.op_a_root_idx as int];
            let tree_b = g.values[idx.op_b_root_idx as int];
            let direct_a = g.values[idx.reg_indices@[rd] as int];
            let direct_b = g.values[idx.reg_indices@[rs] as int];
            let compare_a = old(gate).enabled && (w.pc / 64) % 2 == 0;
            let compare_b = compare_a && uses_rs(w.opcode);
            &&& l == (PipelineLatch {
                valid: true,
                pc: w.pc,
                opcode: w.opcode,
                rd: w.rd,
                ctrl_b: cb,
                ir_low: w.ir_low,
                ir_ext: w.ir_ext,
                a: operand_of(old(gate).enabled, *w, tree_a, direct_a),
                b: operand_of(old(gate).enabled, *w, tree_b, direct_b),
                phys_top_a: tree_a,
                phys_top_b: tree_b,
            })
            &&& *final(gate) == operand_gate(
                operand_gate(*old(gate), compare_a, tree_a != direct_a),
                compare_b,
                tree_b != direct_b,
            )
            &&& *final(counter) == after_if(
                after_if(*old(counter), compare_a && auth.operand, tree_a != direct_a),
                compare_b && auth.operand,
                tree_b != direct_b,
            )
            &&& final(sim)@ == with_trees_cleared(*idx, *auth, g)
        }),
        final(sim).wf(),
        final(sim).len() == old(sim).len(),
{
    let uses: bool = opcode_uses_rs(w.opcode);
    let rd_hi: bool = w.get_rd_hi();
    let rs_high: bool = if uses {
        w.get_rs_hi()
    } else {
        rd_hi
    };
    let rd: usize = if rd_hi {
        w.rd as usize + 8
    } else {
        w.rd as usize
    };
    let rs: usize = if rs_high {
        w.rs_lo as usize + 8
    } else {
        w.rs_lo as usize
    };
    let lower: bool = (w.pc / 64) % 2 == 0;
    let tree_a: u64 = sim.get_logic_value_by_idx(idx.op_a_root_idx);
    let tree_b: u64 = sim.get_logic_value_by_idx(idx.op_b_root_idx);
    let direct_a: u64 = sim.get_logic_value_by_idx(idx.reg_indices[rd]);
    let direct_b: u64 = sim.get_logic_value_by_idx(idx.reg_indices[rs]);
    let compare_a: bool = gate.enabled && lower;
    let compare_b: bool = compare_a && uses;
    let a: u64 = read_operand(gate, counter, auth, w, compare_a, tree_a, direct_a);
    let b: u64 = read_operand(gate, counter, auth, w, compare_b, tree_b, direct_b);
    sim.set_all(&idx.high_tree_a_data_const_indices, 0);
    sim.set_all(&idx.high_tree_b_data_const_indices, 0);
    if !auth.via_decode {
        sim.set_all(&idx.high_tree_a_sel_const_indices, 0);
        sim.set_all(&idx.high_tree_b_sel_const_indices, 0);
    }
    sim.set_logic_value_by_idx(idx.top_mux_a_sel_const_idx, 0);
    sim.set_logic_value_by_idx(idx.top_mux_b_sel_const_idx, 0);
    PipelineLatch {
        valid: true,
        pc: w.pc,
        opcode: w.opcode,
        rd: w.rd,
        ctrl_b: cb,
        ir_low: w.ir_low,
        ir_ext: w.ir_ext,
        a,
        b,
        phys_top_a: tree_a,
        phys_top_b: tree_b,
    }
}

} // verus!
