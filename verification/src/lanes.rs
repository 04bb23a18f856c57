//! Lane buffers: many device states laid out field by field, lane by lane.
use vstd::prelude::*;

verus! {

/// Console bytes kept per lane.
pub const CONSOLE_CAP: usize = 64;

/// Threads per launch block.
pub const LAUNCH_THREADS: u32 = 256;

/// The architectural state of one device CPU.
pub struct DeviceCycleState {
    pub pc: u32,
    pub lr: u32,
    pub flag_z: bool,
    pub flag_c: bool,
    pub halted: bool,
    pub cycle: u64,
    pub retired: u64,
    pub regs: [u64; 16],
    pub ram: Vec<u64>,
}

/// The states of many lanes. Entry `i * lanes + lane` of `regs` and `ram` is word `i` of that
/// lane; flags are 0 or 1.
pub struct LaneBuffers {
    pub pc: Vec<u32>,
    pub regs: Vec<u64>,
    pub flag_z: Vec<u32>,
    pub flag_c: Vec<u32>,
    pub lr: Vec<u32>,
    pub ram: Vec<u64>,
    pub halted: Vec<u32>,
    pub retired: Vec<u64>,
}

/// 1 for `true`, 0 for `false`.
pub open spec fn bit_of(b: bool) -> u32 {
    if b {
        1
    } else {
        0
    }
}

impl LaneBuffers {
    /// Every table has its entries for `lanes` lanes of `ram_words` words of RAM.
    pub open spec fn shaped(self, lanes: nat, ram_words: nat) -> bool {
        &&& self.pc@.len() == lanes
        &&& self.regs@.len() == 16 * lanes
        &&& self.flag_z@.len() == lanes
        &&& self.flag_c@.len() == lanes
        &&& self.lr@.len() == lanes
        &&& self.ram@.len() == ram_words * lanes
        &&& self.halted@.len() == lanes
        &&& self.retired@.len() == lanes
    }

    /// Lane `lane` holds the state, its cycle counter aside.
    pub open spec fn holds(self, lanes: int, lane: int, s: DeviceCycleState) -> bool {
        &&& self.pc@[lane] == s.pc
        &&& self.lr@[lane] == s.lr
        &&& self.flag_z@[lane] == bit_of(s.flag_z)
        &&& self.flag_c@[lane] == bit_of(s.flag_c)
        &&& self.halted@[lane] == bit_of(s.halted)
        &&& self.retired@[lane] == s.retired
        &&& forall|r: int| 0 <= r < 16 ==> #[trigger] self.regs@[r * lanes + lane] == s.regs@[r]
        &&& forall|a: int|
            0 <= a < s.ram@.len() ==> #[trigger] self.ram@[a * lanes + lane] == s.ram@[a]
    }

    /// The state is what lane `lane` holds: flags are set when their entry is not zero, and
    /// one cycle passed per retired instruction.
    pub open spec fn reads_as(self, lanes: int, ram_words: int, lane: int, s: DeviceCycleState) -> bool {
        &&& s.pc == self.pc@[lane]
        &&& s.lr == self.lr@[lane]
        &&& s.flag_z == (self.flag_z@[lane] != 0)
        &&& s.flag_c == (self.flag_c@[lane] != 0)
        &&& s.halted == (self.halted@[lane] != 0)
        &&& s.retired == self.retired@[lane]
        &&& s.cycle == self.retired@[lane]
        &&& forall|r: int| 0 <= r < 16 ==> #[trigger] s.regs@[r] == self.regs@[r * lanes + lane]
        &&& s.ram@.len() == ram_words
        &&& forall|a: int|
            0 <= a < ram_words ==> #[trigger] s.ram@[a] == self.ram@[a * lanes + lane]
    }
}

/// Packing and reading back changes nothing but the cycle counter, which becomes the number
/// of retired instructions.
pub proof fn law_lanes_round_trip(
    b: LaneBuffers,
    lanes: int,
    lane: int,
    packed: DeviceCycleState,
    read: DeviceCycleState,
)
    requires
        b.holds(lanes, lane, packed),
        b.reads_as(lanes, packed.ram@.len() as int, lane, read),
    ensures
        read.pc == packed.pc,
        read.lr == packed.lr,
        read.flag_z == packed.flag_z,
        read.flag_c == packed.flag_c,
        read.halted == packed.halted,
        read.retired == packed.retired,
        read.cycle == packed.retired,
        read.regs@ == packed.regs@,
        read.ram@ == packed.ram@,
{
    assert forall|r: int| 0 <= r < 16 implies read.regs@[r] == packed.regs@[r] by {
        assert(read.regs@[r] == b.regs@[r * lanes + lane]);
    }
    assert(read.regs@ =~= packed.regs@);
    assert forall|a: int| 0 <= a < packed.ram@.len() implies read.ram@[a] == packed.ram@[a] by {
        assert(read.ram@[a] == b.ram@[a * lanes + lane]);
    }
    assert(read.ram@ =~= packed.ram@);
}

/// Entry `row * lanes + lane` lies in a table of `rows` rows, and says its row and lane.
pub proof fn lemma_lane_index(row: int, lanes: int, lane: int, rows: int)
    requires
        0 <= row < rows,
        0 <= lane < lanes,
    ensures
        0 <= row * lanes + lane < rows * lanes,
        (row * lanes + lane) / lanes == row,
        (row * lanes + lane) % lanes == lane,
{
    assert(row * lanes + lane < rows * lanes && 0 <= row * lanes) by (nonlinear_arith)
        requires
            0 <= row < rows,
            0 <= lane < lanes,
    ;
    vstd::arithmetic::div_mod::lemma_fundamental_div_mod_converse(
        row * lanes + lane,
        lanes,
        row,
        lane,
    );
}

proof fn lemma_row_below(i: int, lanes: int, rows: int)
    requires
        0 <= i < rows * lanes,
        0 < lanes,
    ensures
        0 <= i / lanes < rows,
        0 <= i % lanes < lanes,
{
    vstd::arithmetic::div_mod::lemma_fundamental_div_mod(i, lanes);
    assert(i / lanes < rows && 0 <= i / lanes) by (nonlinear_arith)
        requires
            i == lanes * (i / lanes) + i % lanes,
            0 <= i % lanes,
            0 <= i < rows * lanes,
            0 < lanes,
    ;
}

/// Lay the states of many lanes out field by field.
pub fn pack_lanes(init: &Vec<DeviceCycleState>, ram_words: usize) -> (b: LaneBuffers)
    requires
        forall|l: int| 0 <= l < init@.len() ==> (#[trigger] init@[l]).ram@.len() == ram_words,
        16 * init@.len() <= usize::MAX,
        ram_words * init@.len() <= usize::MAX,
    ensures
        b.shaped(init@.len(), ram_words as nat),
        forall|l: int|
            0 <= l < init@.len() ==> b.holds(init@.len() as int, l, #[trigger] init@[l]),
{
    let lanes: usize = init.len();
    let mut pc: Vec<u32> = Vec::new();
    let mut flag_z: Vec<u32> = Vec::new();
    let mut flag_c: Vec<u32> = Vec::new();
    let mut lr: Vec<u32> = Vec::new();
    let mut halted: Vec<u32> = Vec::new();
    let mut retired: Vec<u64> = Vec::new();
    let mut l: usize = 0;
    while l < lanes
        invariant
            l <= lanes,
            lanes == init@.len(),
            pc@.len() == l,
            flag_z@.len() == l,
            flag_c@.len() == l,
            lr@.len() == l,
            halted@.len() == l,
            retired@.len() == l,
            forall|k: int|
                0 <= k < l ==> {
                    &&& pc@[k] == (#[trigger] init@[k]).pc
                    &&& flag_z@[k] == bit_of(init@[k].flag_z)
                    &&& flag_c@[k] == bit_of(init@[k].flag_c)
                    &&& lr@[k] == init@[k].lr
                    &&& halted@[k] == bit_of(init@[k].halted)
                    &&& retired@[k] == init@[k].retired
                },
        decreases lanes - l,
    {
        pc.push(init[l].pc);
        flag_z.push(if init[l].flag_z { 1 } else { 0 });
        flag_c.push(if init[l].flag_c { 1 } else { 0 });
        lr.push(init[l].lr);
        halted.push(if init[l].halted { 1 } else { 0 });
        retired.push(init[l].retired);
        l = l + 1;
    }
    let regs_total: usize = 16 * lanes;
    let mut regs: Vec<u64> = Vec::new();
    let mut i: usize = 0;
    while i < regs_total
        invariant
            lanes == init@.len(),
            regs_total == 16 * lanes,
            i <= regs_total,
            regs@.len() == i,
            forall|k: int|
                0 <= k < i ==> #[trigger] regs@[k] == init@[k % lanes as int].regs@[k / lanes as int],
        decreases regs_total - i,
    {
        proof {
            lemma_row_below(i as int, lanes as int, 16);
        }
        let v: u64 = init[i % lanes].regs[i / lanes];
        regs.push(v);
        i = i + 1;
    }
    let ram_total: usize = ram_words * lanes;
    let mut ram: Vec<u64> = Vec::new();
    i = 0;
    while i < ram_total
        invariant
            lanes == init@.len(),
            ram_total == ram_words * lanes,
            i <= ram_total,
            ram@.len() == i,
            forall|k: int| 0 <= k < lanes ==> (#[trigger] init@[k]).ram@.len() == ram_words,
            forall|k: int|
                0 <= k < i ==> #[trigger] ram@[k] == init@[k % lanes as int].ram@[k / lanes as int],
        decreases ram_total - i,
    {
        assert(lanes > 0) by (nonlinear_arith)
            requires
                0 <= i < ram_words * lanes,
        ;
        proof {
            lemma_row_below(i as int, lanes as int, ram_words as int);
        }
        let lane: usize = i % lanes;
        assert(init@[lane as int].ram@.len() == ram_words);
        let v: u64 = init[lane].ram[i / lanes];
        ram.push(v);
        i = i + 1;
    }
    let b = LaneBuffers { pc, regs, flag_z, flag_c, lr, ram, halted, retired };
    proof {
        assert forall|k: int| 0 <= k < lanes implies b.holds(
            lanes as int,
            k,
            #[trigger] init@[k],
        ) by {
            let s = init@[k];
            assert forall|r: int| 0 <= r < 16 implies #[trigger] b.regs@[r * lanes + k]
                == s.regs@[r] by {
                lemma_lane_index(r, lanes as int, k, 16);
            }
            assert(s.ram@.len() == ram_words);
            assert forall|a: int| 0 <= a < s.ram@.len() implies #[trigger] b.ram@[a * lanes + k]
                == s.ram@[a] by {
                lemma_lane_index(a, lanes as int, k, ram_words as int);
            }
        }
    }
    b
}

/// Read lane `lane` back.
fn unpack_lane(b: &LaneBuffers, lanes: usize, ram_words: usize, lane: usize) -> (s: DeviceCycleState)
    requires
        b.shaped(lanes as nat, ram_words as nat),
        lane < lanes,
        16 * lanes <= usize::MAX,
        ram_words * lanes <= usize::MAX,
    ensures
        b.reads_as(lanes as int, ram_words as int, lane as int, s),
{
    let mut regs: [u64; 16] = [0;16];
    let mut r: usize = 0;
    while r < 16
        invariant
            b.shaped(lanes as nat, ram_words as nat),
            lane < lanes,
            16 * lanes <= usize::MAX,
            r <= 16,
            forall|k: int| 0 <= k < r ==> #[trigger] regs@[k] == b.regs@[k * lanes + lane],
        decreases 16 - r,
    {
        proof {
            lemma_lane_index(r as int, lanes as int, lane as int, 16);
        }
        regs[r] = b.regs[r * lanes + lane];
        r = r + 1;
    }
    let mut ram: Vec<u64> = Vec::new();
    let mut a: usize = 0;
    while a < ram_words
        invariant
            b.shaped(lanes as nat, ram_words as nat),
            lane < lanes,
            ram_words * lanes <= usize::MAX,
            a <= ram_words,
            ram@.len() == a,
            forall|k: int| 0 <= k < a ==> #[trigger] ram@[k] == b.ram@[k * lanes + lane],
        decreases ram_words - a,
    {
        proof {
            lemma_lane_index(a as int, lanes as int, lane as int, ram_words as int);
            assert(a * lanes <= a * lanes + lane);
        }
        ram.push(b.ram[a * lanes + lane]);
        a = a + 1;
    }
    DeviceCycleState {
        pc: b.pc[lane],
        lr: b.lr[lane],
        flag_z: b.flag_z[lane] != 0,
        flag_c: b.flag_c[lane] != 0,
        halted: b.halted[lane] != 0,
        cycle: b.retired[lane],
        retired: b.retired[lane],
        regs,
        ram,
    }
}

/// Read every lane back.
pub fn unpack_lanes(b: &LaneBuffers, lanes: usize, ram_words: usize) -> (out: Vec<DeviceCycleState>)
    requires
        b.shaped(lanes as nat, ram_words as nat),
        16 * lanes <= usize::MAX,
        ram_words * lanes <= usize::MAX,
    ensures
        out@.len() == lanes,
        forall|l: int|
            0 <= l < lanes ==> b.reads_as(lanes as int, ram_words as int, l, #[trigger] out@[l]),
{
    let mut out: Vec<DeviceCycleState> = Vec::new();
    let mut l: usize = 0;
    while l < lanes
        invariant
            b.shaped(lanes as nat, ram_words as nat),
            16 * lanes <= usize::MAX,
            ram_words * lanes <= usize::MAX,
            l <= lanes,
            out@.len() == l,
            forall|k: int|
                0 <= k < l ==> b.reads_as(
                    lanes as int,
                    ram_words as int,
                    k,
                    #[trigger] out@[k],
                ),
        decreases lanes - l,
    {
        let s = unpack_lane(b, lanes, ram_words, l);
        out.push(s);
        l = l + 1;
    }
    out
}

/// The console bytes of each lane: the low bytes of its first `lens[lane]` entries.
pub fn unpack_consoles(console: &Vec<u32>, lens: &Vec<u32>, lanes: usize) -> (out: Vec<Vec<u8>>)
    requires
        console@.len() == CONSOLE_CAP * lanes,
        lens@.len() == lanes,
        forall|l: int| 0 <= l < lanes ==> #[trigger] lens@[l] <= CONSOLE_CAP,
    ensures
        out@.len() == lanes,
        forall|l: int| 0 <= l < lanes ==> (#[trigger] out@[l])@.len() == lens@[l],
        forall|l: int, i: int|
            0 <= l < lanes && 0 <= i < lens@[l] ==> #[trigger] out@[l]@[i] == console@[i * lanes
                + l] % 256,
{
    let total: usize = console.len();
    let mut out: Vec<Vec<u8>> = Vec::new();
    let mut l: usize = 0;
    while l < lanes
        invariant
            l <= lanes,
            total == console@.len(),
            console@.len() == CONSOLE_CAP * lanes,
            lens@.len() == lanes,
            forall|k: int| 0 <= k < lanes ==> #[trigger] lens@[k] <= CONSOLE_CAP,
            out@.len() == l,
            forall|k: int| 0 <= k < l ==> (#[trigger] out@[k])@.len() == lens@[k],
            forall|k: int, i: int|
                0 <= k < l && 0 <= i < lens@[k] ==> #[trigger] out@[k]@[i] == console@[i * lanes
                    + k] % 256,
        decreases lanes - l,
    {
        let n: usize = lens[l] as usize;
        assert(lens@[l as int] <= CONSOLE_CAP);
        let mut text: Vec<u8> = Vec::new();
        let mut i: usize = 0;
        while i < n
            invariant
                i <= n,
                n <= CONSOLE_CAP,
                l < lanes,
                total == console@.len(),
                console@.len() == CONSOLE_CAP * lanes,
                text@.len() == i,
                forall|k: int|
                    0 <= k < i ==> #[trigger] text@[k] == console@[k * lanes + l] % 256,
            decreases n - i,
        {
            proof {
                lemma_lane_index(i as int, lanes as int, l as int, CONSOLE_CAP as int);
            }
            text.push((console[i * lanes + l] % 256) as u8);
            i = i + 1;
        }
        out.push(text);
        l = l + 1;
    }
    out
}

/// How many blocks cover the lanes.
pub fn launch_blocks(lanes: u32) -> (n: u32)
    ensures
        n * LAUNCH_THREADS >= lanes,
        n > 0 ==> (n - 1) * LAUNCH_THREADS < lanes,
{
    if lanes % LAUNCH_THREADS == 0 {
        lanes / LAUNCH_THREADS
    } else {
        lanes / LAUNCH_THREADS + 1
    }
}

/// How op metadata is laid out on the device.
#[derive(Clone, Copy, Debug, PartialEq, Eq, Structural)]
pub enum GpuMetadataMode {
    Packed,
    Split,
}

impl GpuMetadataMode {
    /// Split metadata for 32768 to 98304 lanes, packed metadata otherwise.
    pub fn for_lanes(lanes: usize) -> (m: Self)
        ensures
            m == if 32768 <= lanes && lanes <= 98304 {
                GpuMetadataMode::Split
            } else {
                GpuMetadataMode::Packed
            },
    {
        if 32768 <= lanes && lanes <= 98304 {
            GpuMetadataMode::Split
        } else {
            GpuMetadataMode::Packed
        }
    }

    pub fn label(self) -> (s: &'static str)
        ensures
            s@ == match self {
                GpuMetadataMode::Packed => "packed"@,
                GpuMetadataMode::Split => "split"@,
            },
    {
        match self {
            GpuMetadataMode::Packed => "packed",
            GpuMetadataMode::Split => "split",
        }
    }

    pub fn alu_kernel_name(self) -> (s: &'static str)
        ensures
            s@ == match self {
                GpuMetadataMode::Packed => "device_alu_packed"@,
                GpuMetadataMode::Split => "device_alu_split"@,
            },
    {
        match self {
            GpuMetadataMode::Packed => "device_alu_packed",
            GpuMetadataMode::Split => "device_alu_split",
        }
    }

    pub fn run_kernel_name(self) -> (s: &'static str)
        ensures
            s@ == match self {
                GpuMetadataMode::Packed => "device_run_packed"@,
                GpuMetadataMode::Split => "device_run_split"@,
            },
    {
        match self {
            GpuMetadataMode::Packed => "device_run_packed",
            GpuMetadataMode::Split => "device_run_split",
        }
    }
}

} // verus!
