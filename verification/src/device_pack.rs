//! Packed op metadata, op counts and traffic estimates of a device ALU program.
use vstd::prelude::*;

use crate::cop;
use crate::device_alu::{DeviceAluProgram, DeviceOp};

verus! {

/// Slots below this fit the packed metadata.
pub const PACKED_SLOT_LIMIT: u32 = 16384;

/// The packed code, output and operand slots of an op.
pub open spec fn packed_meta(op: DeviceOp) -> u64 {
    (op.code as u64) | ((op.out as u64) << 8) | ((op.ins@[0] as u64) << 22) | ((
    op.ins@[1] as u64) << 36) | ((op.ins@[2] as u64) << 50)
}

/// The packed neighbour slots and threshold of a threshold via, the shift of any other op.
pub open spec fn packed_extra(op: DeviceOp) -> u64 {
    if op.code == cop::COP_THRESHOLD_VIA {
        (op.ins@[3] as u64) | ((op.ins@[4] as u64) << 14) | ((op.ins@[5] as u64) << 28) | ((
        op.ins@[6] as u64) << 42) | ((op.threshold as u64) << 56)
    } else {
        op.shift as u64
    }
}

/// The op's slots fit the packed metadata.
pub open spec fn packable(op: DeviceOp) -> bool {
    &&& op.out < PACKED_SLOT_LIMIT
    &&& op.ins@[0] < PACKED_SLOT_LIMIT
    &&& op.ins@[1] < PACKED_SLOT_LIMIT
    &&& op.ins@[2] < PACKED_SLOT_LIMIT
    &&& op.code == cop::COP_THRESHOLD_VIA ==> op.ins@[3] < PACKED_SLOT_LIMIT && op.ins@[4]
        < PACKED_SLOT_LIMIT && op.ins@[5] < PACKED_SLOT_LIMIT && op.ins@[6] < PACKED_SLOT_LIMIT
}

/// Packing loses nothing: the fields a kernel shifts and masks out of the packed words are
/// the op's own, so packed and split metadata describe the same program.
pub proof fn law_packing_round_trips(op: DeviceOp)
    requires
        packable(op),
    ensures
        ({
            let m = packed_meta(op);
            &&& m & 0xFF == op.code
            &&& (m >> 8) & 0x3FFF == op.out
            &&& (m >> 22) & 0x3FFF == op.ins@[0]
            &&& (m >> 36) & 0x3FFF == op.ins@[1]
            &&& (m >> 50) & 0x3FFF == op.ins@[2]
        }),
        op.code == cop::COP_THRESHOLD_VIA ==> ({
            let e = packed_extra(op);
            &&& e & 0x3FFF == op.ins@[3]
            &&& (e >> 14) & 0x3FFF == op.ins@[4]
            &&& (e >> 28) & 0x3FFF == op.ins@[5]
            &&& (e >> 42) & 0x3FFF == op.ins@[6]
            &&& (e >> 56) & 0xFF == op.threshold
        }),
        op.code != cop::COP_THRESHOLD_VIA ==> packed_extra(op) == op.shift,
{
    let c = op.code as u64;
    let o = op.out as u64;
    let a = op.ins@[0] as u64;
    let b = op.ins@[1] as u64;
    let d = op.ins@[2] as u64;
    let m = c | (o << 8) | (a << 22) | (b << 36) | (d << 50);
    assert(m & 0xFF == c && (m >> 8) & 0x3FFF == o && (m >> 22) & 0x3FFF == a && (m >> 36) & 0x3FFF
        == b && (m >> 50) & 0x3FFF == d) by (bit_vector)
        requires
            m == c | (o << 8) | (a << 22) | (b << 36) | (d << 50),
            c < 256,
            o < 16384,
            a < 16384,
            b < 16384,
            d < 16384,
    ;
    if op.code == cop::COP_THRESHOLD_VIA {
        let n0 = op.ins@[3] as u64;
        let n1 = op.ins@[4] as u64;
        let n2 = op.ins@[5] as u64;
        let n3 = op.ins@[6] as u64;
        let t = op.threshold as u64;
        let e = n0 | (n1 << 14) | (n2 << 28) | (n3 << 42) | (t << 56);
        assert(e & 0x3FFF == n0 && (e >> 14) & 0x3FFF == n1 && (e >> 28) & 0x3FFF == n2 && (e >> 42)
            & 0x3FFF == n3 && (e >> 56) & 0xFF == t) by (bit_vector)
            requires
                e == n0 | (n1 << 14) | (n2 << 28) | (n3 << 42) | (t << 56),
                n0 < 16384,
                n1 < 16384,
                n2 < 16384,
                n3 < 16384,
                t < 256,
        ;
    }
}

/// How many values an op reads, for the traffic estimate.
pub open spec fn value_reads(code: u8) -> int {
    if code == cop::COP_WIRE_H || code == cop::COP_OR || code == cop::COP_WIRE_V || code
        == cop::COP_AND || code == cop::COP_XOR || code == cop::COP_ADD || code == cop::COP_SUB
        || code == cop::COP_SHR || code == cop::COP_SHL || code == cop::COP_BITSEL || code
        == cop::COP_CARRY || code == cop::COP_MUX4 {
        2
    } else if code == cop::COP_MUX || code == cop::COP_MUX16 || code == cop::COP_RAM {
        3
    } else if code == cop::COP_THRESHOLD_VIA {
        5
    } else {
        1
    }
}

/// How many metadata bytes an op takes in split form, for the traffic estimate.
pub open spec fn split_bytes(code: u8) -> int {
    if code == cop::COP_WIRE_R || code == cop::COP_VIA || code == cop::COP_WIRE_L || code
        == cop::COP_WIRE_D || code == cop::COP_WIRE_U || code == cop::COP_NOT || code
        == cop::COP_ZERO || code == cop::COP_DEC3 {
        12
    } else if value_reads(code) == 2 {
        16
    } else if value_reads(code) == 3 {
        20
    } else if code == cop::COP_WVIA {
        24
    } else if code == cop::COP_THRESHOLD_VIA {
        32
    } else {
        8
    }
}

/// How many metadata bytes an op takes in packed form, for the traffic estimate.
pub open spec fn packed_bytes(code: u8) -> int {
    if code == cop::COP_WVIA {
        24
    } else if code == cop::COP_THRESHOLD_VIA {
        16
    } else {
        8
    }
}

/// The sum over the ops of 8 bytes per value read and one value written.
pub open spec fn value_bytes_sum(ops: Seq<DeviceOp>) -> int
    decreases ops.len(),
{
    if ops.len() == 0 {
        0
    } else {
        value_bytes_sum(ops.drop_last()) + (value_reads(ops.last().code) + 1) * 8
    }
}

/// The sum over the ops of their split metadata bytes.
pub open spec fn split_bytes_sum(ops: Seq<DeviceOp>) -> int
    decreases ops.len(),
{
    if ops.len() == 0 {
        0
    } else {
        split_bytes_sum(ops.drop_last()) + split_bytes(ops.last().code)
    }
}

/// The sum over the ops of their packed metadata bytes.
pub open spec fn packed_bytes_sum(ops: Seq<DeviceOp>) -> int
    decreases ops.len(),
{
    if ops.len() == 0 {
        0
    } else {
        packed_bytes_sum(ops.drop_last()) + packed_bytes(ops.last().code)
    }
}

fn op_traffic(code: u8) -> (r: (u64, u64, u64))
    ensures
        r.0 == (value_reads(code) + 1) * 8,
        r.1 == split_bytes(code),
        r.2 == packed_bytes(code),
{
    if code == cop::COP_WIRE_R || code == cop::COP_VIA || code == cop::COP_WIRE_L || code
        == cop::COP_WIRE_D || code == cop::COP_WIRE_U || code == cop::COP_NOT || code
        == cop::COP_ZERO || code == cop::COP_DEC3 {
        (16, 12, 8)
    } else if code == cop::COP_WIRE_H || code == cop::COP_OR || code == cop::COP_WIRE_V || code
        == cop::COP_AND || code == cop::COP_XOR || code == cop::COP_ADD || code == cop::COP_SUB
        || code == cop::COP_SHR || code == cop::COP_SHL || code == cop::COP_BITSEL || code
        == cop::COP_CARRY || code == cop::COP_MUX4 {
        (24, 16, 8)
    } else if code == cop::COP_MUX || code == cop::COP_MUX16 || code == cop::COP_RAM {
        (32, 20, 8)
    } else if code == cop::COP_WVIA {
        (16, 24, 24)
    } else if code == cop::COP_THRESHOLD_VIA {
        (48, 32, 16)
    } else {
        (16, 8, 8)
    }
}

impl DeviceAluProgram {
    /// How many ops the program has.
    pub fn op_count(&self) -> (n: usize)
        ensures
            n == self.ops@.len(),
    {
        self.ops.len()
    }

    /// How many ops the cone, the settle stream and the trunk have.
    pub fn phase_op_counts(&self) -> (r: (usize, usize, usize))
        requires
            self.wf(),
        ensures
            r.0 == self.program().cone.len(),
            r.1 == self.program().settle.len(),
            r.2 == self.program().trunk.len(),
    {
        (self.cone_end, self.settle_end - self.cone_end, self.ops.len() - self.settle_end)
    }

    /// The upper-bank bridge slots: the four inject targets, then the four lanes of each of
    /// banks 4 to 7.
    pub fn ubank_slots(&self) -> (r: Vec<u32>)
        ensures
            r@ == self.taps.inject@ + self.taps.bank47@,
    {
        let mut r: Vec<u32> = Vec::new();
        r.extend_from_slice(self.taps.inject.as_slice());
        r.extend_from_slice(self.taps.bank47.as_slice());
        assert(r@ =~= self.taps.inject@ + self.taps.bank47@);
        r
    }

    /// Whether every op's slots fit the packed metadata.
    pub fn fits_packed(&self) -> (r: bool)
        ensures
            r == forall|j: int| 0 <= j < self.ops@.len() ==> packable(#[trigger] self.ops@[j]),
    {
        let mut j: usize = 0;
        while j < self.ops.len()
            invariant
                j <= self.ops@.len(),
                forall|m: int| 0 <= m < j ==> packable(#[trigger] self.ops@[m]),
            decreases self.ops@.len() - j,
        {
            let op = self.ops[j];
            let base: bool = op.out < PACKED_SLOT_LIMIT && op.ins[0] < PACKED_SLOT_LIMIT
                && op.ins[1] < PACKED_SLOT_LIMIT && op.ins[2] < PACKED_SLOT_LIMIT;
            let near: bool = op.code != cop::COP_THRESHOLD_VIA || (op.ins[3] < PACKED_SLOT_LIMIT
                && op.ins[4] < PACKED_SLOT_LIMIT && op.ins[5] < PACKED_SLOT_LIMIT && op.ins[6]
                < PACKED_SLOT_LIMIT);
            if !(base && near) {
                assert(!packable(self.ops@[j as int]));
                return false;
            }
            j = j + 1;
        }
        true
    }

    /// The packed metadata: one word of code and slots and one extra word per op.
    pub fn packed_metadata(&self) -> (r: (Vec<u64>, Vec<u64>))
        requires
            forall|j: int| 0 <= j < self.ops@.len() ==> packable(#[trigger] self.ops@[j]),
        ensures
            r.0@ == Seq::new(self.ops@.len(), |j: int| packed_meta(self.ops@[j])),
            r.1@ == Seq::new(self.ops@.len(), |j: int| packed_extra(self.ops@[j])),
    {
        let mut meta: Vec<u64> = Vec::new();
        let mut extra: Vec<u64> = Vec::new();
        let mut j: usize = 0;
        while j < self.ops.len()
            invariant
                j <= self.ops@.len(),
                meta@ == Seq::new(j as nat, |m: int| packed_meta(self.ops@[m])),
                extra@ == Seq::new(j as nat, |m: int| packed_extra(self.ops@[m])),
            decreases self.ops@.len() - j,
        {
            let op = self.ops[j];
            meta.push(
                (op.code as u64) | ((op.out as u64) << 8) | ((op.ins[0] as u64) << 22) | ((
                op.ins[1] as u64) << 36) | ((op.ins[2] as u64) << 50),
            );
            if op.code == cop::COP_THRESHOLD_VIA {
                extra.push(
                    (op.ins[3] as u64) | ((op.ins[4] as u64) << 14) | ((op.ins[5] as u64) << 28) | ((
                    op.ins[6] as u64) << 42) | ((op.threshold as u64) << 56),
                );
            } else {
                extra.push(op.shift as u64);
            }
            j = j + 1;
            assert(meta@ =~= Seq::new(j as nat, |m: int| packed_meta(self.ops@[m])));
            assert(extra@ =~= Seq::new(j as nat, |m: int| packed_extra(self.ops@[m])));
        }
        (meta, extra)
    }

    /// The program's estimated traffic in bytes per evaluation of all its ops: values, split
    /// metadata, packed metadata.
    pub fn traffic_bytes(&self) -> (r: (u64, u64, u64))
        requires
            48 * self.ops@.len() <= u64::MAX,
        ensures
            r.0 == value_bytes_sum(self.ops@),
            r.1 == split_bytes_sum(self.ops@),
            r.2 == packed_bytes_sum(self.ops@),
    {
        let mut value: u64 = 0;
        let mut split: u64 = 0;
        let mut packed: u64 = 0;
        let mut j: usize = 0;
        assert(self.ops@.take(0) =~= Seq::<DeviceOp>::empty());
        while j < self.ops.len()
            invariant
                j <= self.ops@.len(),
                48 * self.ops@.len() <= u64::MAX,
                value <= 48 * j,
                split <= 48 * j,
                packed <= 48 * j,
                value == value_bytes_sum(self.ops@.take(j as int)),
                split == split_bytes_sum(self.ops@.take(j as int)),
                packed == packed_bytes_sum(self.ops@.take(j as int)),
            decreases self.ops@.len() - j,
        {
            let t: (u64, u64, u64) = op_traffic(self.ops[j].code);
            assert(self.ops@.take(j + 1).drop_last() =~= self.ops@.take(j as int));
            value = value + t.0;
            split = split + t.1;
            packed = packed + t.2;
            j = j + 1;
        }
        assert(self.ops@.take(j as int) =~= self.ops@);
        (value, split, packed)
    }
}

} // verus!
