# tile_cpu

A verified library for the V2 tile CPU: a CPU with two pipeline stages whose datapath is laid out
as tiles on a layered grid. Every function of `src/` carries a contract that Verus proves.

## What is here

| Modules | What they hold |
| --- | --- |
| `isa`, `text`, `disassembler`, `listing` | instruction words, their fields and their text; the text can be read back |
| `alu`, `branch`, `memory`, `levels`, `bitop`, `bit_scan` | what instructions compute, and how bit operations go through blocks of tiles |
| `simulation`, `layout`, `state`, `latch`, `gates` | the grid as plain values, the CPU's place on it, its state and counters |
| `fetch`, `decode`, `stage_f` | stage F: fetching, checking what tiles decoded, filling the latch |
| `operand`, `execute`, `branch_stage`, `commit`, `settle_commit`, `clock`, `writeback`, `pc_stage`, `blocks`, `stage_x` | stage X: operands, execution, commit, clock edge, write-back |
| `cpu`, `accessors`, `debug`, `ready` | the CPU as a whole |
| `bitset`, `compact`, `scope_tables`, `decode_partition`, `seeds`, `scopes`, `clock_cache` | which operations belong to which part of the grid |
| `settle`, `cache`, `memo` | how a settle runs, and what memos save it |
| `cop`, `device_*`, `slots`, `warp_decode`, `lanes`, `bits` | programs that run the tile ALU on a device, for many lanes |
| `iss`, `fast`, `fast_laws`, `fabric`, `fabric_laws`, `pool` | the instruction simulator, the fast CPU, mailbox-coupled CPUs, pools, and what holds of them over whole runs |
| `equivalence` | the tile CPU executes instructions as the simulator does, tick by tick and over whole runs |

Stages F and X are sequences of steps. Between two steps something outside the library happens:
the grid settles, the clock ticks, a block of tiles is driven, a device is accessed. A step takes
what came of it and says what is to be done next.

Functions named `law_*` state what holds across functions; their doc comments say it in words.

`app/` is ordinary Rust around the library: the loop that carries out what the steps ask for,
thread pools, CUDA launches, and statistics in floating point.

## What is taken on trust

The operations of `rustc_hash`'s map (`cache`): that it is a map.
