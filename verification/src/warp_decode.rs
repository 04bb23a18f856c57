//! Decode-once analysis: when is the decode half of a device cycle a function of the program
//! counter alone, and what does the execute half read of it?
use vstd::prelude::*;
use vstd::string::*;

use crate::cop;
use crate::device_alu::{set_flags, DeviceAluProgram, DeviceOp};
use crate::device_eval::{
    bridge_slots, decode_slots, run_slots, slot_inputs, slot_step,
};
use crate::device_model::bank_within;
use crate::text::{dec, push_dec};

verus! {

/// The slots that an op reads, in operand order; a RAM op and an op without a rule of its
/// own also read their output slot.
pub open spec fn read_slots(op: DeviceOp) -> Seq<u32> {
    let c = op.code;
    if c == cop::COP_WIRE_R || c == cop::COP_VIA || c == cop::COP_NOT || c == cop::COP_ZERO || c
        == cop::COP_DEC3 || c == cop::COP_WVIA {
        seq![op.ins@[0]]
    } else if c == cop::COP_WIRE_L {
        seq![op.ins@[1]]
    } else if c == cop::COP_WIRE_D || c == cop::COP_WIRE_U {
        seq![op.ins@[2]]
    } else if c == cop::COP_WIRE_H || c == cop::COP_OR || c == cop::COP_AND || c == cop::COP_XOR
        || c == cop::COP_ADD || c == cop::COP_SUB || c == cop::COP_SHR || c == cop::COP_SHL || c
        == cop::COP_BITSEL || c == cop::COP_CARRY {
        seq![op.ins@[0], op.ins@[1]]
    } else if c == cop::COP_WIRE_V {
        seq![op.ins@[1], op.ins@[2]]
    } else if c == cop::COP_MUX || c == cop::COP_MUX16 {
        seq![op.ins@[0], op.ins@[1], op.ins@[2]]
    } else if c == cop::COP_MUX4 {
        seq![op.ins@[0], op.ins@[2]]
    } else if c == cop::COP_RAM {
        seq![op.ins@[0], op.ins@[2], op.out]
    } else if c == cop::COP_THRESHOLD_VIA {
        seq![op.ins@[0], op.ins@[3], op.ins@[4], op.ins@[5], op.ins@[6]]
    } else {
        seq![op.out]
    }
}

impl DeviceAluProgram {
    /// The bridge writes the slot.
    pub open spec fn bridge_writes(self, s: int) -> bool {
        self.taps.inject_right@.contains(s as u32) || self.taps.inject@.contains(s as u32)
    }

    /// Some op of `[lo, hi)` writes the slot.
    pub open spec fn range_writes(self, lo: int, hi: int, s: int) -> bool {
        exists|j: int| lo <= j < hi && (#[trigger] self.ops@[j]).out == s
    }

    /// The slot may differ between lanes when decoding starts: an operand terminal or a slot
    /// that the trunk writes.
    pub open spec fn lane_dependent(self, s: int) -> bool {
        s == self.taps.a_term || s == self.taps.b_term || self.range_writes(
            self.settle_end as int,
            self.ops@.len() as int,
            s,
        )
    }

    /// The slot has been written in this decode pass before op `j` runs.
    pub open spec fn rewritten(self, j: int, s: int) -> bool {
        s == self.taps.pc || (j >= self.cone_end && self.bridge_writes(s)) || self.range_writes(
            0,
            j,
            s,
        )
    }

    /// The decode pass writes the slot.
    pub open spec fn decode_writes(self, s: int) -> bool {
        s == self.taps.pc || self.bridge_writes(s) || self.range_writes(
            0,
            self.settle_end as int,
            s,
        )
    }

    /// Decode op `j` keeps state from an earlier pass.
    pub open spec fn carries_state(self, j: int) -> bool {
        !cop::is_combinational(self.ops@[j].code) && !self.rewritten(j, self.ops@[j].out as int)
    }

    /// A read of slot `s` by decode op `j` may differ between lanes.
    pub open spec fn stray_read(self, j: int, s: u32) -> bool {
        s != self.zero() && self.lane_dependent(s as int) && !self.rewritten(j, s as int)
    }

    /// Decode op `j` neither keeps state nor reads a slot that may differ between lanes.
    pub open spec fn op_uniform(self, j: int) -> bool {
        !self.carries_state(j) && forall|i: int|
            0 <= i < read_slots(self.ops@[j]).len() ==> !self.stray_read(
                j,
                #[trigger] read_slots(self.ops@[j])[i],
            )
    }

    /// The trunk reads the slot, it is no operand terminal, and decoding writes it.
    pub open spec fn is_interface(self, s: u32) -> bool {
        &&& s != self.zero() && s != self.taps.a_term && s != self.taps.b_term
        &&& self.decode_writes(s as int)
        &&& exists|j: int|
            self.settle_end <= j < self.ops@.len() && read_slots(#[trigger] self.ops@[j]).contains(
                s,
            )
    }
}

impl DeviceAluProgram {
    /// Every decode op is uniform across lanes, and `v` lists the decode-to-trunk interface
    /// in increasing order.
    pub open spec fn broadcast_is(self, v: Seq<u32>) -> bool {
        &&& self.decode_uniform()
        &&& forall|i: int, k: int| 0 <= i < k < v.len() ==> v[i] < v[k]
        &&& forall|s: u32| #[trigger] v.contains(s) <==> self.is_interface(s)
    }

    /// Some decode op is not uniform across lanes, and `e` tells of the first one: that it
    /// keeps state, or else the first slot that it may read differently.
    pub open spec fn broadcast_fails(self, e: Seq<char>) -> bool {
        exists|j: int| #[trigger] self.fails_at(j, e)
    }

    /// Decode op `j` is the first that is not uniform, and `e` tells why.
    pub open spec fn fails_at(self, j: int, e: Seq<char>) -> bool {
        &&& 0 <= j < self.settle_end
        &&& forall|m: int| 0 <= m < j ==> #[trigger] self.op_uniform(m)
        &&& {
            ||| {
                &&& self.carries_state(j)
                &&& e == carries_state_text(
                    j,
                    self.ops@[j].code as int,
                    self.ops@[j].out as int,
                )
            }
            ||| {
                &&& !self.carries_state(j)
                &&& exists|i: int| #[trigger] self.strays_first(j, i, e)
            }
        }
    }

    /// Read `i` of decode op `j` is its first stray read, and `e` tells of it.
    pub open spec fn strays_first(self, j: int, i: int, e: Seq<char>) -> bool {
        &&& 0 <= i < read_slots(self.ops@[j]).len()
        &&& self.stray_read(j, read_slots(self.ops@[j])[i])
        &&& forall|k: int|
            0 <= k < i ==> !self.stray_read(j, #[trigger] read_slots(self.ops@[j])[k])
        &&& e == stray_read_text(
            j,
            self.ops@[j].code as int,
            read_slots(self.ops@[j])[i] as int,
        )
    }
}

/// What is said of decode op `j` when it keeps state.
pub open spec fn carries_state_text(j: int, code: int, slot: int) -> Seq<char> {
    "decode op "@ + dec(j as nat) + " (code "@ + dec(code as nat)
        + ") is state-carrying: reads its own previous output (slot "@ + dec(slot as nat) + ")"@
}

/// What is said of decode op `j` when it reads a lane-dependent slot.
pub open spec fn stray_read_text(j: int, code: int, slot: int) -> Seq<char> {
    "decode op "@ + dec(j as nat) + " (code "@ + dec(code as nat)
        + ") reads lane-dependent slot "@ + dec(slot as nat)
}

fn carries_state_message(j: usize, code: u8, slot: u32) -> (r: String)
    ensures
        r@ == carries_state_text(j as int, code as int, slot as int),
{
    let mut s: String = String::from_str("decode op ");
    push_dec(&mut s, j as u64);
    s.append(" (code ");
    push_dec(&mut s, code as u64);
    s.append(") is state-carrying: reads its own previous output (slot ");
    push_dec(&mut s, slot as u64);
    s.append(")");
    s
}

fn stray_read_message(j: usize, code: u8, slot: u32) -> (r: String)
    ensures
        r@ == stray_read_text(j as int, code as int, slot as int),
{
    let mut s: String = String::from_str("decode op ");
    push_dec(&mut s, j as u64);
    s.append(" (code ");
    push_dec(&mut s, code as u64);
    s.append(") reads lane-dependent slot ");
    push_dec(&mut s, slot as u64);
    s
}

/// The slots that an op reads, in operand order.
pub fn op_reads(op: &DeviceOp) -> (r: Vec<u32>)
    ensures
        r@ == read_slots(*op),
{
    let c: u8 = op.code;
    let mut r: Vec<u32> = Vec::new();
    if c == cop::COP_WIRE_R || c == cop::COP_VIA || c == cop::COP_NOT || c == cop::COP_ZERO || c
        == cop::COP_DEC3 || c == cop::COP_WVIA {
        r.push(op.ins[0]);
    } else if c == cop::COP_WIRE_L {
        r.push(op.ins[1]);
    } else if c == cop::COP_WIRE_D || c == cop::COP_WIRE_U {
        r.push(op.ins[2]);
    } else if c == cop::COP_WIRE_H || c == cop::COP_OR || c == cop::COP_AND || c == cop::COP_XOR
        || c == cop::COP_ADD || c == cop::COP_SUB || c == cop::COP_SHR || c == cop::COP_SHL || c
        == cop::COP_BITSEL || c == cop::COP_CARRY {
        r.push(op.ins[0]);
        r.push(op.ins[1]);
    } else if c == cop::COP_WIRE_V {
        r.push(op.ins[1]);
        r.push(op.ins[2]);
    } else if c == cop::COP_MUX || c == cop::COP_MUX16 {
        r.push(op.ins[0]);
        r.push(op.ins[1]);
        r.push(op.ins[2]);
    } else if c == cop::COP_MUX4 {
        r.push(op.ins[0]);
        r.push(op.ins[2]);
    } else if c == cop::COP_RAM {
        r.push(op.ins[0]);
        r.push(op.ins[2]);
        r.push(op.out);
    } else if c == cop::COP_THRESHOLD_VIA {
        r.push(op.ins[0]);
        r.push(op.ins[3]);
        r.push(op.ins[4]);
        r.push(op.ins[5]);
        r.push(op.ins[6]);
    } else {
        r.push(op.out);
    }
    assert(r@ =~= read_slots(*op));
    r
}

pub proof fn lemma_reads_below(p: DeviceAluProgram, j: int)
    requires
        p.wf(),
        0 <= j < p.ops@.len(),
    ensures
        p.ops@[j].out < p.n_slots,
        forall|i: int|
            0 <= i < read_slots(p.ops@[j]).len() ==> #[trigger] read_slots(p.ops@[j])[i]
                < p.n_slots,
{
    let op = p.ops@[j];
    assert(op.in_range(p.touched@.len(), p.zero()));
    assert forall|k: int| 0 <= k < 7 implies #[trigger] op.ins@[k] < p.n_slots by {
        assert(op.ins@[k] == p.zero() || op.ins@[k] < p.touched@.len());
    }
    assert(op.ins@[0] < p.n_slots && op.ins@[1] < p.n_slots && op.ins@[2] < p.n_slots
        && op.ins@[3] < p.n_slots && op.ins@[4] < p.n_slots && op.ins@[5] < p.n_slots && op.ins@[6]
        < p.n_slots);
}

impl DeviceAluProgram {
    /// Flag the output slots of the ops `[lo, hi)`.
    fn flag_outputs(&self, flags: &mut Vec<bool>, lo: usize, hi: usize)
        requires
            self.wf(),
            lo <= hi <= self.ops@.len(),
            old(flags)@.len() == self.n_slots,
        ensures
            final(flags)@.len() == self.n_slots,
            forall|s: int|
                0 <= s < self.n_slots ==> #[trigger] final(flags)@[s] == (old(flags)@[s]
                    || self.range_writes(lo as int, hi as int, s)),
    {
        let mut j: usize = lo;
        while j < hi
            invariant
                self.wf(),
                lo <= j <= hi <= self.ops@.len(),
                old(flags)@.len() == self.n_slots,
                flags@.len() == self.n_slots,
                forall|s: int|
                    0 <= s < self.n_slots ==> #[trigger] flags@[s] == (old(flags)@[s]
                        || self.range_writes(lo as int, j as int, s)),
            decreases hi - j,
        {
            let ghost before = flags@;
            proof {
                lemma_reads_below(*self, j as int);
            }
            flags.set(self.ops[j].out as usize, true);
            proof {
                assert forall|s: int| 0 <= s < self.n_slots implies #[trigger] flags@[s] == (old(
                    flags,
                )@[s] || self.range_writes(lo as int, j + 1, s)) by {
                    assert(before[s] == (old(flags)@[s] || self.range_writes(
                        lo as int,
                        j as int,
                        s,
                    )));
                    if self.range_writes(lo as int, j as int, s) {
                        let m = choose|m: int|
                            lo <= m < j && (#[trigger] self.ops@[m]).out == s;
                        assert(self.ops@[m].out == s);
                    }
                    if s == self.ops@[j as int].out {
                        assert(self.range_writes(lo as int, j + 1, s));
                    } else if self.range_writes(lo as int, j + 1, s) {
                        let m = choose|m: int|
                            lo <= m < j + 1 && (#[trigger] self.ops@[m]).out == s;
                        assert(m < j);
                        assert(self.range_writes(lo as int, j as int, s));
                    }
                }
            }
            j = j + 1;
        }
    }

    /// Flag the slots that the super-mux bridge writes.
    fn flag_bridge(&self, flags: &mut Vec<bool>)
        requires
            self.wf(),
            old(flags)@.len() == self.n_slots,
        ensures
            final(flags)@.len() == self.n_slots,
            forall|s: int|
                0 <= s < self.n_slots ==> #[trigger] final(flags)@[s] == (old(flags)@[s]
                    || self.bridge_writes(s)),
    {
        set_flags(flags, self.taps.inject_right.as_slice(), true);
        let ghost mid = flags@;
        set_flags(flags, self.taps.inject.as_slice(), true);
        proof {
            assert forall|s: int| 0 <= s < self.n_slots implies #[trigger] flags@[s] == (old(
                flags,
            )@[s] || self.bridge_writes(s)) by {
                assert(mid[s] == mid[s]);
                if self.taps.inject_right@.contains(s as u32) {
                    let i = choose|i: int|
                        0 <= i < 4 && self.taps.inject_right@[i] == s as u32;
                    assert(self.taps.inject_right@[i] == s);
                }
                if self.taps.inject@.contains(s as u32) {
                    let i = choose|i: int| 0 <= i < 4 && self.taps.inject@[i] == s as u32;
                    assert(self.taps.inject@[i] == s);
                }
            }
        }
    }

    /// The first slot that decode op `j` may read differently on different lanes.
    fn first_stray_read(
        &self,
        j: usize,
        lane_dep: &Vec<bool>,
        rewritten: &Vec<bool>,
    ) -> (r: Option<u32>)
        requires
            self.wf(),
            j < self.settle_end,
            lane_dep@.len() == self.n_slots,
            rewritten@.len() == self.n_slots,
            forall|s: int|
                0 <= s < self.n_slots ==> #[trigger] lane_dep@[s] == self.lane_dependent(s),
            forall|s: int|
                0 <= s < self.n_slots ==> #[trigger] rewritten@[s] == self.rewritten(j as int, s),
        ensures
            match r {
                None => forall|i: int|
                    0 <= i < read_slots(self.ops@[j as int]).len() ==> !self.stray_read(
                        j as int,
                        #[trigger] read_slots(self.ops@[j as int])[i],
                    ),
                Some(s) => exists|i: int|
                    {
                        &&& 0 <= i < read_slots(self.ops@[j as int]).len()
                        &&& #[trigger] read_slots(self.ops@[j as int])[i] == s
                        &&& self.stray_read(j as int, s)
                        &&& forall|k: int|
                            0 <= k < i ==> !self.stray_read(
                                j as int,
                                #[trigger] read_slots(self.ops@[j as int])[k],
                            )
                    },
            },
    {
        proof {
            lemma_reads_below(*self, j as int);
        }
        let zero: u32 = (self.n_slots - 1) as u32;
        let reads: Vec<u32> = op_reads(&self.ops[j]);
        let mut i: usize = 0;
        while i < reads.len()
            invariant
                self.wf(),
                j < self.settle_end,
                zero == self.zero(),
                reads@ == read_slots(self.ops@[j as int]),
                i <= reads@.len(),
                lane_dep@.len() == self.n_slots,
                rewritten@.len() == self.n_slots,
                forall|s: int|
                    0 <= s < self.n_slots ==> #[trigger] lane_dep@[s] == self.lane_dependent(s),
                forall|s: int|
                    0 <= s < self.n_slots ==> #[trigger] rewritten@[s] == self.rewritten(
                        j as int,
                        s,
                    ),
                forall|k: int| 0 <= k < reads@.len() ==> #[trigger] reads@[k] < self.n_slots,
                forall|k: int|
                    0 <= k < i ==> !self.stray_read(
                        j as int,
                        #[trigger] read_slots(self.ops@[j as int])[k],
                    ),
            decreases reads@.len() - i,
        {
            let s: u32 = reads[i];
            if s != zero && lane_dep[s as usize] && !rewritten[s as usize] {
                assert(read_slots(self.ops@[j as int])[i as int] == s);
                return Some(s);
            }
            i = i + 1;
        }
        None
    }

    /// The decode-to-trunk interface: the slots that decoding writes and the trunk reads, in
    /// increasing order, once every decode op is known to be uniform across lanes.
    pub fn warpdecode_broadcast_slots(&self) -> (r: Result<Vec<u32>, String>)
        requires
            self.wf(),
        ensures
            match r {
                Ok(v) => self.broadcast_is(v@),
                Err(e) => self.broadcast_fails(e@),
            },
    {
        let n: usize = self.ops.len();
        let mut lane_dep: Vec<bool> = vec![false;self.n_slots];
        lane_dep.set(self.taps.a_term as usize, true);
        lane_dep.set(self.taps.b_term as usize, true);
        self.flag_outputs(&mut lane_dep, self.settle_end, n);
        let mut rewritten: Vec<bool> = vec![false;self.n_slots];
        rewritten.set(self.taps.pc as usize, true);
        let mut j: usize = 0;
        while j < self.settle_end
            invariant
                self.wf(),
                j <= self.settle_end,
                lane_dep@.len() == self.n_slots,
                rewritten@.len() == self.n_slots,
                forall|s: int|
                    0 <= s < self.n_slots ==> #[trigger] lane_dep@[s] == self.lane_dependent(s),
                forall|s: int|
                    0 <= s < self.n_slots ==> #[trigger] rewritten@[s] == (s == self.taps.pc || (j
                        > self.cone_end && self.bridge_writes(s)) || self.range_writes(
                        0,
                        j as int,
                        s,
                    )),
                forall|m: int| 0 <= m < j ==> #[trigger] self.op_uniform(m),
            decreases self.settle_end - j,
        {
            if j == self.cone_end {
                self.flag_bridge(&mut rewritten);
            }
            assert forall|s: int| 0 <= s < self.n_slots implies #[trigger] rewritten@[s]
                == self.rewritten(j as int, s) by {}
            proof {
                lemma_reads_below(*self, j as int);
            }
            let op = self.ops[j];
            let combinational: bool = cop::COP_WIRE_R <= op.code && op.code <= cop::COP_CARRY;
            if !combinational && !rewritten[op.out as usize] {
                let e: String = carries_state_message(j, op.code, op.out);
                assert(self.fails_at(j as int, e@));
                return Err(e);
            }
            assert(!self.carries_state(j as int));
            match self.first_stray_read(j, &lane_dep, &rewritten) {
                Some(s) => {
                    let e: String = stray_read_message(j, op.code, s);
                    proof {
                        let reads = read_slots(self.ops@[j as int]);
                        let i = choose|i: int|
                            {
                                &&& 0 <= i < reads.len()
                                &&& #[trigger] reads[i] == s
                                &&& self.stray_read(j as int, s)
                                &&& forall|k: int|
                                    0 <= k < i ==> !self.stray_read(j as int, #[trigger] reads[k])
                            };
                        assert(self.strays_first(j as int, i, e@));
                        assert(self.fails_at(j as int, e@));
                    }
                    return Err(e);
                },
                None => {},
            }
            assert(self.op_uniform(j as int));
            self.flag_outputs(&mut rewritten, j, j + 1);
            proof {
                assert forall|s: int| 0 <= s < self.n_slots implies #[trigger] rewritten@[s] == (s
                    == self.taps.pc || (j + 1 > self.cone_end && self.bridge_writes(s))
                    || self.range_writes(0, j + 1, s)) by {
                    if self.range_writes(0, j as int, s) {
                        let m = choose|m: int|
                            0 <= m < j && (#[trigger] self.ops@[m]).out == s;
                        assert(self.ops@[m].out == s);
                    }
                    if self.range_writes(j as int, j + 1, s) {
                        let m = choose|m: int|
                            j <= m < j + 1 && (#[trigger] self.ops@[m]).out == s;
                        assert(self.ops@[m].out == s);
                    }
                    if self.range_writes(0, j + 1, s) {
                        let m = choose|m: int|
                            0 <= m < j + 1 && (#[trigger] self.ops@[m]).out == s;
                        assert(self.ops@[m].out == s);
                        if m < j {
                            assert(self.range_writes(0, j as int, s));
                        } else {
                            assert(self.range_writes(j as int, j + 1, s));
                        }
                    }
                }
            }
            j = j + 1;
        }
        Ok(self.interface_slots())
    }

    /// The slots that decoding writes and the trunk reads, in increasing order.
    fn interface_slots(&self) -> (v: Vec<u32>)
        requires
            self.wf(),
        ensures
            forall|i: int, k: int| 0 <= i < k < v@.len() ==> v@[i] < v@[k],
            forall|s: u32| #[trigger] v@.contains(s) <==> self.is_interface(s),
    {
        let n: usize = self.ops.len();
        let mut writes: Vec<bool> = vec![false;self.n_slots];
        writes.set(self.taps.pc as usize, true);
        self.flag_outputs(&mut writes, 0, self.settle_end);
        self.flag_bridge(&mut writes);
        let mut read: Vec<bool> = vec![false;self.n_slots];
        let mut j: usize = self.settle_end;
        while j < n
            invariant
                self.wf(),
                self.settle_end <= j <= n,
                n == self.ops@.len(),
                read@.len() == self.n_slots,
                forall|s: int|
                    0 <= s < self.n_slots ==> #[trigger] read@[s] == exists|m: int|
                        self.settle_end <= m < j && read_slots(
                            #[trigger] self.ops@[m],
                        ).contains(s as u32),
            decreases n - j,
        {
            let ghost before = read@;
            proof {
                lemma_reads_below(*self, j as int);
            }
            let list: Vec<u32> = op_reads(&self.ops[j]);
            set_flags(&mut read, list.as_slice(), true);
            proof {
                assert forall|s: int| 0 <= s < self.n_slots implies #[trigger] read@[s]
                    == exists|m: int|
                    self.settle_end <= m < j + 1 && read_slots(#[trigger] self.ops@[m]).contains(
                        s as u32,
                    ) by {
                    let here = read_slots(self.ops@[j as int]);
                    assert(before[s] == before[s]);
                    if exists|i: int| 0 <= i < list@.len() && #[trigger] list@[i] == s {
                        let i = choose|i: int| 0 <= i < list@.len() && #[trigger] list@[i] == s;
                        assert(here[i] == s as u32);
                        assert(here.contains(s as u32));
                    }
                    if here.contains(s as u32) {
                        let i = choose|i: int| 0 <= i < here.len() && here[i] == s as u32;
                        assert(list@[i] == s);
                    }
                    if before[s] {
                        let m = choose|m: int|
                            self.settle_end <= m < j && read_slots(
                                #[trigger] self.ops@[m],
                            ).contains(s as u32);
                        assert(read_slots(self.ops@[m]).contains(s as u32));
                    }
                }
            }
            j = j + 1;
        }
        let mut v: Vec<u32> = Vec::new();
        let zero: u32 = (self.n_slots - 1) as u32;
        let mut s: u32 = 0;
        assert forall|t: int| 0 <= t < self.n_slots implies #[trigger] writes@[t]
            == self.decode_writes(t) by {}
        while s < zero
            invariant
                self.wf(),
                zero == self.zero(),
                s <= zero,
                n == self.ops@.len(),
                writes@.len() == self.n_slots,
                read@.len() == self.n_slots,
                forall|t: int|
                    0 <= t < self.n_slots ==> #[trigger] writes@[t] == self.decode_writes(t),
                forall|t: int|
                    0 <= t < self.n_slots ==> #[trigger] read@[t] == exists|m: int|
                        self.settle_end <= m < n && read_slots(
                            #[trigger] self.ops@[m],
                        ).contains(t as u32),
                forall|i: int, k: int| 0 <= i < k < v@.len() ==> v@[i] < v@[k],
                forall|i: int| 0 <= i < v@.len() ==> #[trigger] v@[i] < s,
                forall|t: u32| #[trigger] v@.contains(t) <==> (t < s && self.is_interface(t)),
            decreases zero - s,
        {
            let ghost before = v@;
            if s != self.taps.a_term && s != self.taps.b_term && writes[s as usize]
                && read[s as usize] {
                v.push(s);
                assert(self.is_interface(s));
            } else {
                assert(!self.is_interface(s)) by {
                    assert(writes@[s as int] == self.decode_writes(s as int));
                    assert(read@[s as int] == read@[s as int]);
                }
            }
            proof {
                assert forall|t: u32| #[trigger] v@.contains(t) <==> (t < s + 1
                    && self.is_interface(t)) by {
                    assert(before.contains(t) <==> (t < s && self.is_interface(t)));
                    if v@.len() > before.len() {
                        assert(v@ == before.push(s));
                        if before.contains(t) {
                            let i = choose|i: int| 0 <= i < before.len() && before[i] == t;
                            assert(v@[i] == t);
                        }
                        if t == s {
                            assert(v@[before.len() as int] == t);
                        }
                        if v@.contains(t) && t != s {
                            let i = choose|i: int| 0 <= i < v@.len() && v@[i] == t;
                            assert(before[i] == t);
                        }
                    }
                }
            }
            s = s + 1;
        }
        proof {
            assert forall|t: u32| #[trigger] v@.contains(t) <==> self.is_interface(t) by {
                if self.is_interface(t) && t >= zero {
                    let m = choose|m: int|
                        self.settle_end <= m < self.ops@.len() && read_slots(
                            #[trigger] self.ops@[m],
                        ).contains(t);
                    lemma_reads_below(*self, m);
                    let i = choose|i: int|
                        0 <= i < read_slots(self.ops@[m]).len() && read_slots(self.ops@[m])[i] == t;
                    assert(read_slots(self.ops@[m])[i] < self.n_slots);
                }
            }
        }
        v
    }
}

impl DeviceAluProgram {
    /// Neither decoding nor a lane's own data writes the slot: it keeps its seed.
    pub open spec fn is_static(self, s: int) -> bool {
        !self.lane_dependent(s) && !self.decode_writes(s)
    }

    /// Decoding reads nothing that it writes only later: every slot that it writes is written
    /// in this pass before an op or the bridge reads it, and the zero row stays zero.
    pub open spec fn decode_ordered(self) -> bool {
        &&& forall|j: int, i: int|
            0 <= j < self.settle_end && 0 <= i < read_slots(self.ops@[j]).len() && self.decode_writes(
                #[trigger] read_slots(self.ops@[j])[i] as int,
            ) ==> self.rewritten(j, read_slots(self.ops@[j])[i] as int)
        &&& forall|i: int|
            0 <= i < 4 ==> self.fetched(#[trigger] self.taps.final_mux@[i] as int)
        &&& forall|i: int| 0 <= i < 16 ==> self.fetched(#[trigger] self.taps.bank47@[i] as int)
        &&& !self.lane_dependent(self.zero() as int)
    }

    /// The slot is static, or written before the bridge runs.
    pub open spec fn fetched(self, s: int) -> bool {
        self.is_static(s) || s == self.taps.pc || self.range_writes(0, self.cone_end as int, s)
    }

    /// Lane `i` of the bridge writes the slot.
    pub open spec fn lane_writes(self, i: int, s: int) -> bool {
        self.taps.inject_right@[i] == s || self.taps.inject@[i] == s
    }

    /// Every decode op is uniform across lanes.
    pub open spec fn decode_uniform(self) -> bool {
        forall|j: int| 0 <= j < self.settle_end ==> #[trigger] self.op_uniform(j)
    }

    /// What holds of a slot before op `j`: it is static or already written in this pass.
    pub open spec fn known(self, j: int, bridged: bool, s: int) -> bool {
        self.is_static(s) || s == self.taps.pc || (bridged && self.bridge_writes(s))
            || self.range_writes(0, j, s)
    }
}

/// Two rows agree on the slots known before op `j`.
pub open spec fn same_known(
    p: DeviceAluProgram,
    j: int,
    bridged: bool,
    v: Seq<u64>,
    w: Seq<u64>,
) -> bool {
    &&& v.len() == p.n_slots
    &&& w.len() == p.n_slots
    &&& forall|s: int| 0 <= s < p.n_slots && p.known(j, bridged, s) ==> #[trigger] v[s] == w[s]
}

pub(crate) proof fn lemma_reads_covered(op: DeviceOp, k: int) -> (i: int)
    requires
        0 <= k < 7,
        cop::reads_input(op.code, k),
    ensures
        0 <= i < read_slots(op).len(),
        read_slots(op)[i] == op.ins@[k],
{
    let r = read_slots(op);
    if r.len() > 0 && r[0] == op.ins@[k] {
        0
    } else if r.len() > 1 && r[1] == op.ins@[k] {
        1
    } else if r.len() > 2 && r[2] == op.ins@[k] {
        2
    } else if r.len() > 3 && r[3] == op.ins@[k] {
        3
    } else {
        4
    }
}

proof fn lemma_step_known(
    p: DeviceAluProgram,
    j: int,
    bridged: bool,
    v: Seq<u64>,
    w: Seq<u64>,
)
    requires
        p.wf(),
        p.decode_uniform(),
        p.decode_ordered(),
        0 <= j < p.settle_end,
        bridged == (j >= p.cone_end),
        same_known(p, j, bridged, v, w),
    ensures
        same_known(p, j + 1, bridged, slot_step(p.ops@[j], v), slot_step(p.ops@[j], w)),
{
    let op = p.ops@[j];
    lemma_reads_below(p, j);
    assert(p.op_uniform(j));
    let reads = read_slots(op);
    assert forall|k: int| 0 <= k < 7 && cop::reads_input(op.code, k) implies slot_inputs(op, v)[k]
        == slot_inputs(op, w)[k] by {
        let i = lemma_reads_covered(op, k);
        let s = reads[i] as int;
        assert(reads[i] < p.n_slots);
        assert(!p.stray_read(j, reads[i]));
        if p.decode_writes(s) {
            assert(p.rewritten(j, s));
        }
        assert(p.known(j, bridged, s));
        assert(v[s] == w[s]);
    }
    if !cop::is_combinational(op.code) {
        assert(!p.carries_state(j));
        assert(p.known(j, bridged, op.out as int));
        assert(v[op.out as int] == w[op.out as int]);
    }
    cop::lemma_op_value_reads(
        op.code,
        slot_inputs(op, v),
        slot_inputs(op, w),
        v[op.out as int],
        w[op.out as int],
        op.threshold,
        op.shift,
        op.mask,
    );
    let v2 = slot_step(op, v);
    let w2 = slot_step(op, w);
    assert forall|s: int| 0 <= s < p.n_slots && p.known(j + 1, bridged, s) implies #[trigger] v2[s]
        == w2[s] by {
        if s != op.out {
            if p.range_writes(0, j + 1, s) {
                let m = choose|m: int| 0 <= m < j + 1 && (#[trigger] p.ops@[m]).out == s;
                assert(m < j);
                assert(p.range_writes(0, j, s));
            }
            assert(p.known(j, bridged, s));
            assert(v[s] == w[s]);
        }
    }
}

proof fn lemma_run_known(
    p: DeviceAluProgram,
    lo: int,
    hi: int,
    bridged: bool,
    v: Seq<u64>,
    w: Seq<u64>,
)
    requires
        p.wf(),
        p.decode_uniform(),
        p.decode_ordered(),
        0 <= lo <= hi <= p.settle_end,
        bridged ==> p.cone_end <= lo,
        !bridged ==> hi <= p.cone_end,
        same_known(p, lo, bridged, v, w),
    ensures
        same_known(
            p,
            hi,
            bridged,
            run_slots(p.ops@.subrange(lo, hi), v),
            run_slots(p.ops@.subrange(lo, hi), w),
        ),
    decreases hi - lo,
{
    let ops = p.ops@.subrange(lo, hi);
    if lo < hi {
        lemma_run_known(p, lo, hi - 1, bridged, v, w);
        assert(ops.drop_last() =~= p.ops@.subrange(lo, hi - 1));
        lemma_step_known(
            p,
            hi - 1,
            bridged,
            run_slots(ops.drop_last(), v),
            run_slots(ops.drop_last(), w),
        );
    }
}

/// Two rows agree on the slots fetched, and on the bridge slots of the first `n` lanes.
pub open spec fn same_bridged(p: DeviceAluProgram, n: int, v: Seq<u64>, w: Seq<u64>) -> bool {
    &&& v.len() == p.n_slots
    &&& w.len() == p.n_slots
    &&& forall|s: int|
        0 <= s < p.n_slots && (p.fetched(s) || exists|i: int|
            0 <= i < n && #[trigger] p.lane_writes(i, s)) ==> #[trigger] v[s] == w[s]
}

proof fn lemma_bridge_known(p: DeviceAluProgram, bw: int, n: nat, v: Seq<u64>, w: Seq<u64>)
    requires
        p.wf(),
        p.decode_ordered(),
        0 <= bw < 4,
        n <= 4,
        same_bridged(p, 0, v, w),
    ensures
        same_bridged(p, n as int, bridge_slots(p, bw, n, v), bridge_slots(p, bw, n, w)),
    decreases n,
{
    if n > 0 {
        let i = n - 1;
        lemma_bridge_known(p, bw, (n - 1) as nat, v, w);
        let v0 = bridge_slots(p, bw, (n - 1) as nat, v);
        let w0 = bridge_slots(p, bw, (n - 1) as nat, w);
        assert(p.taps.final_mux@[i] < p.n_slots);
        assert(p.taps.bank47@[4 * bw + i] < p.n_slots);
        assert(p.fetched(p.taps.final_mux@[i] as int));
        assert(p.fetched(p.taps.bank47@[4 * bw + i] as int));
        assert(v0[p.taps.final_mux@[i] as int] == w0[p.taps.final_mux@[i] as int]);
        assert(v0[p.taps.bank47@[4 * bw + i] as int] == w0[p.taps.bank47@[4 * bw + i] as int]);
        let v1 = bridge_slots(p, bw, n, v);
        let w1 = bridge_slots(p, bw, n, w);
        assert forall|s: int|
            0 <= s < p.n_slots && (p.fetched(s) || exists|m: int|
                0 <= m < n && #[trigger] p.lane_writes(m, s)) implies #[trigger] v1[s]
            == w1[s] by {
            if !p.lane_writes(i, s) {
                if !p.fetched(s) {
                    let m = choose|m: int| 0 <= m < n && #[trigger] p.lane_writes(m, s);
                    assert(m < n - 1);
                    assert(p.lane_writes(m, s));
                }
                assert(v0[s] == w0[s]);
            }
        }
    }
}

/// Decoding is a function of the program counter: when the analysis accepts a program and
/// decoding reads nothing that it writes only later, two rows with the same seed in every
/// slot that neither decoding nor the lanes write decode to the same values, whatever else
/// the rows held.
pub proof fn law_decode_is_pure(p: DeviceAluProgram, pc: u64, v: Seq<u64>, w: Seq<u64>)
    requires
        p.wf(),
        p.decode_uniform(),
        p.decode_ordered(),
        v.len() == p.n_slots,
        w.len() == p.n_slots,
        forall|s: int| 0 <= s < p.n_slots && p.is_static(s) ==> #[trigger] v[s] == w[s],
    ensures
        forall|s: int|
            0 <= s < p.n_slots && (p.decode_writes(s) || p.is_static(s)) ==> #[trigger] decode_slots(
                p,
                pc,
                v,
            )[s] == decode_slots(p, pc, w)[s],
{
    let bw = bank_within(pc as int);
    let v0 = v.update(p.taps.pc as int, pc);
    let w0 = w.update(p.taps.pc as int, pc);
    lemma_run_known(p, 0, p.cone_end as int, false, v0, w0);
    let v1 = run_slots(p.ops@.subrange(0, p.cone_end as int), v0);
    let w1 = run_slots(p.ops@.subrange(0, p.cone_end as int), w0);
    assert(same_bridged(p, 0, v1, w1)) by {
        assert forall|s: int| 0 <= s < p.n_slots && p.fetched(s) implies #[trigger] v1[s]
            == w1[s] by {
            assert(p.known(p.cone_end as int, false, s));
        }
    }
    lemma_bridge_known(p, bw, 4, v1, w1);
    let v2 = bridge_slots(p, bw, 4, v1);
    let w2 = bridge_slots(p, bw, 4, w1);
    assert(same_known(p, p.cone_end as int, true, v2, w2)) by {
        assert forall|s: int|
            0 <= s < p.n_slots && p.known(p.cone_end as int, true, s) implies #[trigger] v2[s]
            == w2[s] by {
            if p.bridge_writes(s) && !p.fetched(s) {
                if p.taps.inject_right@.contains(s as u32) {
                    let i = choose|i: int| 0 <= i < 4 && p.taps.inject_right@[i] == s as u32;
                    assert(p.lane_writes(i, s));
                } else {
                    let i = choose|i: int| 0 <= i < 4 && p.taps.inject@[i] == s as u32;
                    assert(p.lane_writes(i, s));
                }
            }
        }
    }
    lemma_run_known(p, p.cone_end as int, p.settle_end as int, true, v2, w2);
    let v3 = decode_slots(p, pc, v);
    let w3 = decode_slots(p, pc, w);
    assert forall|s: int|
        0 <= s < p.n_slots && (p.decode_writes(s) || p.is_static(s)) implies #[trigger] v3[s]
        == w3[s] by {
        assert(p.known(p.settle_end as int, true, s));
    }
}

} // verus!
