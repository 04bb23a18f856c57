//! What holds of a fast CPU however it is driven, and of the hash of its state.
use vstd::arithmetic::div_mod::{lemma_mod_multiples_vanish, lemma_mul_mod_noop_left};
use vstd::prelude::*;

use crate::cpu::TileCpuV2;
use crate::fast::{
    flag_word, law_batch_is_ticks, mixed, mixed_all, run_count, state_hash, synced, taken_from,
    FastModel,
};
use crate::iss::{
    model_of, reset_model, stepped, steps, with_in_recv, with_out_recv, without_sends, IssModel,
    PortModel, V2IssState,
};
use crate::state::PcMode;

verus! {

/// What a caller does to a fast CPU.
pub enum FastCall {
    Tick,
    Batch(nat),
    InRecv(u64),
    OutRecv(u64),
    ClearSends,
}

impl FastModel {
    /// A CPU at reset.
    pub open spec fn at_reset(program: Seq<u32>, ports: Option<PortModel>) -> FastModel {
        FastModel {
            iss: reset_model(ports),
            program,
            mask: 0x7F,
            cycles: 0,
            retired: 0,
            valid: false,
            filled: false,
            halted: false,
        }
    }

    /// The CPU after a call.
    pub open spec fn called(self, c: FastCall) -> FastModel {
        match c {
            FastCall::Tick => self.tick(),
            FastCall::Batch(n) => self.batch(n),
            FastCall::InRecv(v) => FastModel { iss: with_in_recv(self.iss, v), ..self },
            FastCall::OutRecv(v) => FastModel { iss: with_out_recv(self.iss, v), ..self },
            FastCall::ClearSends => FastModel { iss: without_sends(self.iss), ..self },
        }
    }

    /// The CPU after a sequence of calls.
    pub open spec fn driven(self, calls: Seq<FastCall>) -> FastModel
        decreases calls.len(),
    {
        if calls.len() == 0 {
            self
        } else {
            self.driven(calls.drop_last()).called(calls.last())
        }
    }

    /// The CPU halts with its simulator, and every cycle but the first has retired an
    /// instruction.
    pub open spec fn in_order(self) -> bool {
        &&& self.halted == self.iss.halted
        &&& self.filled == (self.cycles > 0)
        &&& self.cycles == self.retired + if self.filled {
            1int
        } else {
            0int
        }
        &&& self.retired >= 0
    }
}

/// Where fewer steps were taken than allowed, the state is halted.
pub(crate) proof fn lemma_short_run_halts(m: IssModel, program: Seq<u32>, mask: u32, n: nat)
    ensures
        run_count(m, program, mask, n) <= n,
        run_count(m, program, mask, n) < n ==> steps(
            m,
            program,
            mask,
            run_count(m, program, mask, n),
        ).halted,
    decreases n,
{
    if n > 0 && !m.halted {
        let next = stepped(m, program, mask);
        lemma_short_run_halts(next, program, mask, (n - 1) as nat);
        crate::fast::lemma_steps_from_front(
            m,
            program,
            mask,
            run_count(next, program, mask, (n - 1) as nat),
        );
    }
}

/// A tick retires an instruction exactly where it says so, and counts a cycle unless the CPU is
/// halted; then nothing but that word of it changes. The first tick of a CPU retires nothing.
pub proof fn law_tick_tells_what_it_retired(f: FastModel)
    ensures
        f.tick().retired == f.retired + if f.tick().valid {
            1int
        } else {
            0int
        },
        f.tick().cycles == f.cycles + if f.halted {
            0int
        } else {
            1int
        },
        f.halted ==> f.tick() == (FastModel { valid: false, ..f }),
        !f.filled ==> f.tick().retired == f.retired && f.tick().iss == f.iss,
        f.tick().program == f.program,
        f.tick().mask == f.mask,
{
}

/// A batch uses no more cycles than it is given, and fewer only where the CPU halts. Each cycle
/// but one that fills the pipeline retires an instruction. A halted CPU, or a batch of no cycles,
/// leaves everything as it is, and no batch changes the program.
pub proof fn law_batch_stops_at_its_limit_or_a_halt(f: FastModel, n: nat)
    ensures
        f.cycles <= f.batch(n).cycles <= f.cycles + n,
        f.batch(n).retired - f.retired == f.batch(n).cycles - f.cycles - if !f.filled && f.batch(
            n,
        ).filled {
            1int
        } else {
            0int
        },
        f.batch(n).cycles < f.cycles + n ==> f.batch(n).halted,
        f.halted || n == 0 ==> f.batch(n) == f,
        f.batch(n).filled == (f.filled || (!f.halted && n > 0)),
        f.batch(n).program == f.program,
        f.batch(n).mask == f.mask,
{
    lemma_short_run_halts(f.iss, f.program, f.mask, n);
    if n > 0 {
        lemma_short_run_halts(f.iss, f.program, f.mask, (n - 1) as nat);
    }
}

proof fn lemma_instructions_in_order(f: FastModel, n: nat)
    requires
        f.in_order(),
        f.filled,
    ensures
        f.instructions(n).in_order(),
{
}

proof fn lemma_call_in_order(f: FastModel, c: FastCall)
    requires
        f.in_order(),
    ensures
        f.called(c).in_order(),
{
    match c {
        FastCall::Batch(n) => {
            if !f.halted && n > 0 {
                if f.filled {
                    lemma_instructions_in_order(f, n);
                } else {
                    lemma_instructions_in_order(f.fill(), (n - 1) as nat);
                }
            }
        },
        _ => {},
    }
}

/// A CPU stays in order however it is driven.
pub proof fn law_calls_keep_order(f: FastModel, calls: Seq<FastCall>)
    requires
        f.in_order(),
    ensures
        f.driven(calls).in_order(),
    decreases calls.len(),
{
    if calls.len() > 0 {
        law_calls_keep_order(f, calls.drop_last());
        lemma_call_in_order(f.driven(calls.drop_last()), calls.last());
    }
}

/// However a CPU is driven from reset, its cycles and its retired instructions differ by the one
/// cycle that fills the pipeline, once there was a cycle.
pub proof fn law_driven_cpu_stays_in_order(
    program: Seq<u32>,
    ports: Option<PortModel>,
    calls: Seq<FastCall>,
)
    ensures
        FastModel::at_reset(program, ports).driven(calls).in_order(),
        ({
            let f = FastModel::at_reset(program, ports).driven(calls);
            f.cycles - f.retired == if f.cycles < 1 {
                f.cycles
            } else {
                1
            }
        }),
{
    law_calls_keep_order(FastModel::at_reset(program, ports), calls);
}

/// However a CPU was driven from reset, a batch of cycles leaves it as that many ticks do.
pub proof fn law_driven_batch_is_ticks(
    program: Seq<u32>,
    ports: Option<PortModel>,
    calls: Seq<FastCall>,
    n: nat,
)
    ensures
        FastModel::at_reset(program, ports).driven(calls).batch(n) == FastModel::at_reset(
            program,
            ports,
        ).driven(calls).ticks(n),
{
    law_driven_cpu_stays_in_order(program, ports, calls);
    law_batch_is_ticks(FastModel::at_reset(program, ports).driven(calls), n);
}

/// The widths that a program counter can have.
pub open spec fn is_pc_width(mode: PcMode) -> bool {
    mode.pc_phys_mask == 0x7F || mode.pc_phys_mask == 0xFF || mode.pc_phys_mask == 0xFFFF
}

/// A program counter within its width is left as it is by the width's mask.
proof fn lemma_within_mask(pc: u32)
    ensures
        pc <= 0x7F ==> pc & 0x7F == pc,
        pc <= 0xFF ==> pc & 0xFF == pc,
        pc <= 0xFFFF ==> pc & 0xFFFF == pc,
{
    assert((pc <= 0x7Fu32 ==> pc & 0x7Fu32 == pc) && (pc <= 0xFFu32 ==> pc & 0xFFu32 == pc) && (pc
        <= 0xFFFFu32 ==> pc & 0xFFFFu32 == pc)) by (bit_vector);
}

/// Moving a state into a tile CPU and taking it back gives the same program counter, link
/// register, flags, registers and scratchpad, where the program counter and the link register are
/// within the tile CPU's address space; main memory and devices are not moved. The tile CPU's
/// counts stay.
pub proof fn law_state_survives_the_round_trip(before: TileCpuV2, after: TileCpuV2, s: V2IssState)
    requires
        synced(before, after, s),
        is_pc_width(before.mode),
        s.pc <= before.mode.pc_phys_mask,
        s.lr <= before.mode.pc_phys_mask,
    ensures
        taken_from(after) == (IssModel {
            main_mem: Seq::empty(),
            mem_addr_mask: 127,
            ports: None,
            ..model_of(s, None)
        }),
        after.pipe.cycle_count == before.pipe.cycle_count,
        after.pipe.retired_count == before.pipe.retired_count,
        after.pipe.last_stage_x_valid == before.pipe.last_stage_x_valid,
{
    let pc = s.pc;
    let lr = s.lr;
    lemma_within_mask(pc);
    lemma_within_mask(lr);
    assert(taken_from(after) =~= (IssModel {
        main_mem: Seq::empty(),
        mem_addr_mask: 127,
        ports: None,
        ..model_of(s, None)
    }));
}

/// Multiplying by a number and then by its inverse gives the word back.
proof fn lemma_multiplied_back(v: u64, by: u64, inverse: int, k: int)
    requires
        by * inverse == 1 + k * 0x1_0000_0000_0000_0000,
    ensures
        (v.wrapping_mul(by) * inverse) % 0x1_0000_0000_0000_0000 == v,
{
    let m: int = 0x1_0000_0000_0000_0000;
    lemma_mul_mod_noop_left(v * by, inverse, m);
    assert(v.wrapping_mul(by) == (v * by) % m);
    assert((v * by) * inverse == v + m * (v * k)) by (nonlinear_arith)
        requires
            by * inverse == 1 + k * m,
    ;
    lemma_mod_multiples_vanish(v * k, v as int, m);
}

/// Words that differ still differ after the first multiplication of the mixing.
proof fn lemma_spread_is_one_to_one(a: u64, b: u64)
    requires
        a.wrapping_mul(0x9E37_79B9_7F4A_7C15) == b.wrapping_mul(0x9E37_79B9_7F4A_7C15),
    ensures
        a == b,
{
    lemma_multiplied_back(a, 0x9E37_79B9_7F4A_7C15, 0xF1DE_83E1_9937_733D, 10771413168148108919);
    lemma_multiplied_back(b, 0x9E37_79B9_7F4A_7C15, 0xF1DE_83E1_9937_733D, 10771413168148108919);
}

/// Words that differ still differ after the second multiplication of the mixing.
proof fn lemma_scatter_is_one_to_one(a: u64, b: u64)
    requires
        a.wrapping_mul(0x94D0_49BB_1331_11EB) == b.wrapping_mul(0x94D0_49BB_1331_11EB),
    ensures
        a == b,
{
    lemma_multiplied_back(a, 0x94D0_49BB_1331_11EB, 0x3196_42B2_D24D_8EC3, 2077064247507883091);
    lemma_multiplied_back(b, 0x94D0_49BB_1331_11EB, 0x3196_42B2_D24D_8EC3, 2077064247507883091);
}

/// The mixing loses nothing of either argument.
proof fn lemma_mixed_is_one_to_one(acc1: u64, v1: u64, acc2: u64, v2: u64)
    requires
        mixed(acc1, v1) == mixed(acc2, v2),
    ensures
        acc1 == acc2 ==> v1 == v2,
        v1 == v2 ==> acc1 == acc2,
{
    let w1 = v1.wrapping_mul(0x9E37_79B9_7F4A_7C15);
    let w2 = v2.wrapping_mul(0x9E37_79B9_7F4A_7C15);
    let x1 = acc1 ^ w1;
    let x2 = acc2 ^ w2;
    lemma_scatter_is_one_to_one((x1 << 27u64) | (x1 >> 37u64), (x2 << 27u64) | (x2 >> 37u64));
    assert(x1 == x2) by (bit_vector)
        requires
            (x1 << 27u64) | (x1 >> 37u64) == (x2 << 27u64) | (x2 >> 37u64),
    ;
    assert(acc1 == acc2 ==> w1 == w2) by (bit_vector)
        requires
            acc1 ^ w1 == acc2 ^ w2,
    ;
    assert(w1 == w2 ==> acc1 == acc2) by (bit_vector)
        requires
            acc1 ^ w1 == acc2 ^ w2,
    ;
    if acc1 == acc2 {
        lemma_spread_is_one_to_one(v1, v2);
    }
}

/// Lists of words that differ in one place have different hashes.
proof fn lemma_one_change_shows(acc: u64, a: Seq<u64>, b: Seq<u64>, n: nat, at: int)
    requires
        0 <= at,
        a[at] != b[at],
        forall|j: int| 0 <= j < n && j != at ==> a[j] == b[j],
    ensures
        at < n ==> mixed_all(acc, a, n) != mixed_all(acc, b, n),
        at >= n ==> mixed_all(acc, a, n) == mixed_all(acc, b, n),
    decreases n,
{
    if n > 0 {
        lemma_one_change_shows(acc, a, b, (n - 1) as nat, at);
        let h1 = mixed_all(acc, a, (n - 1) as nat);
        let h2 = mixed_all(acc, b, (n - 1) as nat);
        if at < n && mixed(h1, a[n - 1]) == mixed(h2, b[n - 1]) {
            lemma_mixed_is_one_to_one(h1, a[n - 1], h2, b[n - 1]);
        }
    }
}

/// A state's words in the order in which they are hashed.
pub open spec fn state_words(
    pc: u32,
    lr: u32,
    z: bool,
    c: bool,
    halted: bool,
    regs: Seq<u64>,
    ram: Seq<u64>,
) -> Seq<u64> {
    seq![pc as u64, lr as u64, flag_word(z), flag_word(c), flag_word(halted)] + regs + ram
}

/// A list's hash does not depend on what follows.
proof fn lemma_mixed_part(acc: u64, part: Seq<u64>, words: Seq<u64>, from: nat, n: nat)
    requires
        from + n <= words.len(),
        n <= part.len(),
        forall|j: int| 0 <= j < n ==> #[trigger] part[j] == words[from + j],
    ensures
        mixed_all(mixed_all(acc, words, from), part, n) == mixed_all(acc, words, from + n),
    decreases n,
{
    if n > 0 {
        lemma_mixed_part(acc, part, words, from, (n - 1) as nat);
        assert(part[n - 1] == words[from + (n - 1)]);
    }
}

/// The hash of a state is that of its words.
proof fn lemma_hash_of_words(
    pc: u32,
    lr: u32,
    z: bool,
    c: bool,
    halted: bool,
    regs: Seq<u64>,
    ram: Seq<u64>,
)
    requires
        regs.len() == 16,
        ram.len() == 128,
    ensures
        state_hash(pc, lr, z, c, halted, regs, ram) == mixed_all(
            0xCBF2_9CE4_8422_2325,
            state_words(pc, lr, z, c, halted, regs, ram),
            149,
        ),
{
    let w = state_words(pc, lr, z, c, halted, regs, ram);
    reveal_with_fuel(mixed_all, 6);
    assert(w[0] == pc as u64 && w[1] == lr as u64 && w[2] == flag_word(z) && w[3] == flag_word(c)
        && w[4] == flag_word(halted));
    lemma_mixed_part(0xCBF2_9CE4_8422_2325, regs, w, 5, 16);
    lemma_mixed_part(0xCBF2_9CE4_8422_2325, ram, w, 21, 128);
}

/// The words of a simulator state that are hashed.
pub open spec fn hashed_words(s: V2IssState) -> Seq<u64> {
    state_words(s.pc, s.lr, s.flag_z, s.flag_c, s.halted, s.regs@, s.mem.ram@)
}

/// The hash of a simulator state.
pub open spec fn hash_of(s: V2IssState) -> u64 {
    state_hash(s.pc, s.lr, s.flag_z, s.flag_c, s.halted, s.regs@, s.mem.ram@)
}

/// Two states that differ in one word of those hashed, whichever it is, have different hashes.
pub proof fn law_one_changed_word_changes_the_hash(a: V2IssState, b: V2IssState, at: int)
    requires
        0 <= at < 149,
        hashed_words(a)[at] != hashed_words(b)[at],
        forall|j: int| 0 <= j < 149 && j != at ==> hashed_words(a)[j] == hashed_words(b)[j],
    ensures
        hash_of(a) != hash_of(b),
{
    lemma_hash_of_words(a.pc, a.lr, a.flag_z, a.flag_c, a.halted, a.regs@, a.mem.ram@);
    lemma_hash_of_words(b.pc, b.lr, b.flag_z, b.flag_c, b.halted, b.regs@, b.mem.ram@);
    lemma_one_change_shows(0xCBF2_9CE4_8422_2325, hashed_words(a), hashed_words(b), 149, at);
}

/// Two states that agree on the program counter, the link register, the flags, the registers and
/// the scratchpad have the same hash, whatever main memory holds.
pub proof fn law_hash_reads_the_hashed_words_only(a: V2IssState, b: V2IssState)
    requires
        hashed_words(a) == hashed_words(b),
    ensures
        hash_of(a) == hash_of(b),
{
    lemma_hash_of_words(a.pc, a.lr, a.flag_z, a.flag_c, a.halted, a.regs@, a.mem.ram@);
    lemma_hash_of_words(b.pc, b.lr, b.flag_z, b.flag_c, b.halted, b.regs@, b.mem.ram@);
}

} // verus!
