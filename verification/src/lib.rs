//! The V2 tile CPU: a two-stage CPU whose datapath is a grid of tiles, the programs that run its
//! tile ALU on a device, and a simulator of its instructions.
use vstd::prelude::*;

pub mod accessors;
pub mod alu;
pub mod bit_scan;
pub mod bitop;
pub mod bits;
pub mod bitset;
pub mod blocks;
pub mod branch;
pub mod branch_stage;
pub mod cache;
pub mod clock;
pub mod clock_cache;
pub mod commit;
pub mod commit_laws;
pub mod compact;
pub mod cop;
pub mod cop_laws;
pub mod cpu;
pub mod debug;
pub mod decode;
pub mod decode_partition;
pub mod device_alu;
pub mod device_eval;
pub mod device_laws;
pub mod device_model;
pub mod device_pack;
pub mod device_plan;
pub mod device_runs;
pub mod device_tables;
pub mod disassembler;
pub mod equivalence;
pub mod execute;
pub mod fabric;
pub mod fabric_laws;
pub mod fast;
pub mod fast_laws;
pub mod fetch;
pub mod fetch_laws;
pub mod gates;
pub mod isa;
pub mod instruction_laws;
pub mod iss;
pub mod lanes;
pub mod latch;
pub mod layout;
pub mod levels;
pub mod listing;
pub mod listing_laws;
pub mod memo;
pub mod memory;
pub mod memory_laws;
pub mod operand;
pub mod pc_stage;
pub mod pool;
pub mod ready;
pub mod scope_laws;
pub mod scope_tables;
pub mod scopes;
pub mod seeds;
pub mod settle;
pub mod settle_commit;
pub mod settle_laws;
pub mod simulation;
pub mod slots;
pub mod stage_f;
pub mod stage_laws;
pub mod stage_x;
pub mod state;
pub mod text;
pub mod table_laws;
pub mod tile_laws;
pub mod trace_laws;
pub mod view_laws;
pub mod warp_decode;
pub mod writeback;

verus! {

} // verus!
