use tile_cpu::fabric::{
    deliver, next_epoch, run_worker_epoch, CpuSnapshot, V2FastFabric, V2FastFabricTopology,
};
use tile_cpu::fast::{hash_v2_iss_state, mix_hash, V2FastCpu, V2FastTickResult};
use tile_cpu::iss::V2Iss;
use tile_cpu::pool::run_ticks;

fn regs(op: u32, rd: u32, rs: u32) -> u32 {
    (op << 11) | (rd << 8) | (rs << 5)
}

fn imm(op: u32, rd: u32, imm8: u32) -> u32 {
    (op << 11) | (rd << 8) | imm8
}

const LDI: u32 = 0x03;
const ADD: u32 = 0x04;
const SUBI: u32 = 0x11;
const LDB: u32 = 0x18;
const STB: u32 = 0x19;
const JMP: u32 = 0x1A;
const JNZ: u32 = 0x1C;
const CALL: u32 = 0x1F;
const RET: u32 = 0x15 << 11;
const HALT: u32 = 0x01 << 11;

/// Adds 5 + 4 + 3 + 2 + 1 into R0.
fn sum_program() -> Vec<u32> {
    vec![
        imm(LDI, 0, 0),
        imm(LDI, 1, 5),
        regs(ADD, 0, 1),
        imm(SUBI, 1, 1),
        imm(JNZ, 0, 2),
        imm(STB, 0, 10),
        HALT,
    ]
}

#[test]
fn first_tick_fills_the_pipeline() {
    let mut cpu = V2FastCpu::from_program(&sum_program());
    assert_eq!(cpu.tick(), V2FastTickResult { retired: false, cycle_count: 1 });
    assert_eq!(cpu.tick(), V2FastTickResult { retired: true, cycle_count: 2 });
    assert_eq!(cpu.retired_count(), 1);
    assert!(cpu.last_stage_x_valid());
}

#[test]
fn program_runs_to_halt_and_stays() {
    let mut cpu = V2FastCpu::from_program(&sum_program());
    let used = cpu.run_batch(1000);
    assert!(cpu.is_halted());
    assert_eq!(cpu.read_reg(0), 15);
    assert_eq!(cpu.read_ram(10), 15);
    assert_eq!(cpu.read_ram(4000), 0);
    assert_eq!(used, cpu.cycle_count());
    assert_eq!(cpu.cycle_count(), cpu.retired_count() + 1);
    let h = hash_v2_iss_state(cpu.state());
    assert_eq!(cpu.run_batch(10), 0);
    assert_eq!(cpu.tick(), V2FastTickResult { retired: false, cycle_count: used });
    assert_eq!(hash_v2_iss_state(cpu.state()), h);
}

#[test]
fn batch_equals_ticks() {
    for n in 0..40u64 {
        let mut a = V2FastCpu::from_program(&sum_program());
        let mut b = V2FastCpu::from_program(&sum_program());
        a.run_batch(n);
        run_ticks(&mut b, n);
        assert_eq!(a.cycle_count(), b.cycle_count(), "{n}");
        assert_eq!(a.retired_count(), b.retired_count(), "{n}");
        assert_eq!(a.is_halted(), b.is_halted(), "{n}");
        assert_eq!(hash_v2_iss_state(a.state()), hash_v2_iss_state(b.state()), "{n}");
    }
}

#[test]
fn calls_link_and_return() {
    let program = vec![imm(CALL, 0, 3), imm(LDI, 2, 9), HALT, imm(LDI, 1, 7), RET];
    let mut cpu = V2FastCpu::from_program(&program);
    cpu.run_batch(3);
    assert_eq!(cpu.read_lr(), 1);
    assert_eq!(cpu.read_pc(), 4);
    cpu.run_batch(100);
    assert_eq!(cpu.read_reg(1), 7);
    assert_eq!(cpu.read_reg(2), 9);
    assert_eq!(cpu.read_pc(), 2);
}

#[test]
fn addresses_wrap_at_the_program_counter_mask() {
    let program = vec![imm(JMP, 0, 0x7F)];
    let mut iss = V2Iss::from_program(&program);
    assert!(iss.step());
    assert_eq!(iss.state().pc, 0x7F);
    assert!(iss.step());
    assert_eq!(iss.state().pc, 0);
}

#[test]
fn state_can_be_changed_from_outside() {
    let mut cpu = V2FastCpu::from_program(&sum_program());
    cpu.state_mut().regs[3] = 77;
    assert_eq!(cpu.read_reg(3), 77);
    assert_eq!(cpu.program_words(), &sum_program());
    assert!(!cpu.read_flag_z());
    assert!(!cpu.read_flag_c());
}

#[test]
fn hash_mixes_every_word() {
    assert_eq!(
        mix_hash(0, 1),
        0x9E37_79B9_7F4A_7C15u64.rotate_left(27).wrapping_mul(0x94D0_49BB_1331_11EB)
    );
    let mut cpu = V2FastCpu::from_program(&sum_program());
    let h0 = hash_v2_iss_state(cpu.state());
    let mut expected = 0xCBF2_9CE4_8422_2325u64;
    for _ in 0..149 {
        expected = expected.rotate_left(27).wrapping_mul(0x94D0_49BB_1331_11EB);
    }
    assert_eq!(h0, expected);
    cpu.state_mut().mem.ram[127] = 1;
    assert_ne!(hash_v2_iss_state(cpu.state()), h0);
    assert_eq!(CpuSnapshot::from_cpu(&cpu).hash(), hash_v2_iss_state(cpu.state()));
}

/// Sends 5 to the right, then reads what the left sent, for ever.
fn sender(value: u32) -> Vec<u32> {
    vec![imm(LDI, 0, value), imm(STB, 0, 61), imm(LDB, 1, 60), imm(JMP, 0, 2)]
}

#[test]
fn sends_arrive_in_the_next_epoch_and_are_cleared() {
    let programs = vec![sender(5), sender(6)];
    let mut f = V2FastFabric::new(&programs, V2FastFabricTopology::Linear);
    assert_eq!(f.num_cpus(), 2);
    f.run_epochs(4, 4);
    assert_eq!(f.cpu(1).read_reg(1), 0, "not within the same epoch");
    assert_eq!(f.cpu(0).mailbox_out_send(), 5);
    f.run_epochs(2, 2);
    assert_eq!(f.cpu(1).read_reg(1), 5);
    assert_eq!(f.cpu(0).read_reg(1), 0, "the first CPU has no left neighbour");
    assert_eq!(f.cpu(0).mailbox_out_send(), 0, "delivered and cleared");
    assert_eq!(f.cpu(0).mailbox_in_send(), 0);
    f.run_epochs(2, 2);
    assert_eq!(f.cpu(1).read_reg(1), 0, "nothing was sent in the epoch before");
    assert!(!f.all_halted());
    let mut alone = V2FastFabric::new(&vec![sender(5)], V2FastFabricTopology::Ring);
    alone.run_epochs(4, 4);
    assert_eq!(alone.cpu(0).mailbox_out_send(), 5);
    alone.run_epochs(4, 4);
    assert_eq!(alone.cpu(0).mailbox_out_send(), 0);
}

#[test]
fn a_ring_closes() {
    let programs = vec![sender(5), sender(6), sender(7)];
    let mut f = V2FastFabric::new(&programs, V2FastFabricTopology::Ring);
    f.run_epochs(8, 4);
    assert_eq!(f.cpu(0).read_reg(1), 7);
    assert_eq!(f.cpu(1).read_reg(1), 5);
    assert_eq!(f.cpu(2).read_reg(1), 6);
}

#[test]
fn an_empty_epoch_does_nothing() {
    let mut f = V2FastFabric::new(&vec![sender(5)], V2FastFabricTopology::Ring);
    f.run_epochs(100, 0);
    assert_eq!(f.cpu(0).cycle_count(), 0);
    assert_eq!(next_epoch(0, 10, 0), None);
    assert_eq!(next_epoch(8, 10, 4), Some(2));
    assert_eq!(next_epoch(10, 10, 4), None);
}

#[test]
fn workers_do_what_the_sequential_fabric_does() {
    for topology in [V2FastFabricTopology::Linear, V2FastFabricTopology::Ring] {
        let programs = vec![sender(5), sender(6), sum_program()];
        let mut f = V2FastFabric::new(&programs, topology);
        let mut cpus: Vec<V2FastCpu> =
            programs.iter().map(V2FastCpu::from_program_with_mmio).collect();
        let mut sends = vec![(0u64, 0u64); 3];
        let mut recvs = vec![(0u64, 0u64); 3];
        for _ in 0..5 {
            f.run_epochs(3, 3);
            deliver(topology, &sends, &mut recvs);
            for (i, cpu) in cpus.iter_mut().enumerate() {
                let r = run_worker_epoch(cpu, recvs[i], 3);
                sends[i] = (r.in_send, r.out_send);
                assert_eq!(r.halted, f.cpu(i).is_halted());
                assert_eq!(r.cycle_count, f.cpu(i).cycle_count());
            }
        }
        for (i, cpu) in cpus.iter().enumerate() {
            assert_eq!(hash_v2_iss_state(cpu.state()), hash_v2_iss_state(f.cpu(i).state()));
        }
    }
}

#[test]
fn mailboxes_of_one_cpu() {
    let mut cpu = V2FastCpu::from_program_with_mmio(&sender(5));
    cpu.set_mailbox_in_recv(42);
    cpu.set_mailbox_out_recv(43);
    cpu.run_batch(10);
    assert_eq!(cpu.mailbox_out_send(), 5);
    assert_eq!(cpu.mailbox_in_send(), 0);
    assert_eq!(cpu.read_reg(1), 42);
    cpu.clear_mailbox_sends();
    assert_eq!(cpu.mailbox_out_send(), 0);
}

#[test]
fn cpu_mut_reaches_the_fabric() {
    let mut f = V2FastFabric::new(&vec![sum_program()], V2FastFabricTopology::Linear);
    f.cpu_mut(0).run_batch(1000);
    assert!(f.all_halted());
}

#[test]
fn one_changed_word_changes_the_hash() {
    let mut cpu = V2FastCpu::from_program(&sum_program());
    cpu.run_batch(7);
    let h = hash_v2_iss_state(cpu.state());
    for r in 0..16 {
        cpu.state_mut().regs[r] ^= 1 << 63;
        assert_ne!(hash_v2_iss_state(cpu.state()), h);
        cpu.state_mut().regs[r] ^= 1 << 63;
    }
    for a in 0..128 {
        cpu.state_mut().mem.ram[a] += 1;
        assert_ne!(hash_v2_iss_state(cpu.state()), h);
        cpu.state_mut().mem.ram[a] -= 1;
    }
    cpu.state_mut().lr ^= 1;
    assert_ne!(hash_v2_iss_state(cpu.state()), h);
    cpu.state_mut().lr ^= 1;
    cpu.state_mut().flag_z ^= true;
    assert_ne!(hash_v2_iss_state(cpu.state()), h);
    cpu.state_mut().flag_z ^= true;
    assert_eq!(hash_v2_iss_state(cpu.state()), h);
}

#[test]
fn epochs_run_to_the_limit_or_a_halt() {
    let programs = vec![sender(5), sum_program(), sender(6)];
    let mut f = V2FastFabric::new(&programs, V2FastFabricTopology::Ring);
    f.run_epochs(50, 7);
    assert_eq!(f.num_cpus(), 3);
    assert_eq!(f.cpu(0).cycle_count(), 50);
    assert!(f.cpu(1).is_halted() && f.cpu(1).cycle_count() < 50);
    assert_eq!(f.cpu(2).cycle_count(), 50);
    let halted_at = f.cpu(1).cycle_count();
    f.run_epochs(10, 100);
    assert_eq!(f.cpu(0).cycle_count(), 60);
    assert_eq!(f.cpu(1).cycle_count(), halted_at);
}

#[test]
fn worker_runs_follow_any_sequence_of_calls() {
    let programs = vec![sender(5), sum_program(), sender(6)];
    let topology = V2FastFabricTopology::Linear;
    let mut f = V2FastFabric::new(&programs, topology);
    let mut cpus: Vec<V2FastCpu> =
        programs.iter().map(V2FastCpu::from_program_with_mmio).collect();
    let mut sends = vec![(0u64, 0u64); 3];
    let mut recvs = vec![(0u64, 0u64); 3];
    let mut halted = vec![false; 3];
    for (max, size) in [(5u64, 2u64), (0, 3), (4, 0), (9, 9), (7, 1)] {
        f.run_epochs(max, size);
        let mut used = 0;
        while let Some(ticks) = next_epoch(used, max, size) {
            if halted.iter().all(|&h| h) {
                break;
            }
            deliver(topology, &sends, &mut recvs);
            for (i, cpu) in cpus.iter_mut().enumerate() {
                let r = run_worker_epoch(cpu, recvs[i], ticks);
                sends[i] = (r.in_send, r.out_send);
                halted[i] = r.halted;
            }
            used += ticks;
        }
        for (i, cpu) in cpus.iter().enumerate() {
            assert_eq!(cpu.cycle_count(), f.cpu(i).cycle_count());
            assert_eq!(hash_v2_iss_state(cpu.state()), hash_v2_iss_state(f.cpu(i).state()));
        }
    }
}

#[test]
fn cycles_and_instructions_differ_by_one() {
    let mut cpu = V2FastCpu::from_program(&sum_program());
    assert_eq!((cpu.cycle_count(), cpu.retired_count()), (0, 0));
    for n in [0u64, 1, 3, 0, 2, 100, 4] {
        let before = cpu.retired_count();
        let r = cpu.tick();
        assert_eq!(cpu.retired_count() - before, r.retired as u64);
        let used = cpu.run_batch(n);
        assert!(used == n || cpu.is_halted());
        assert_eq!(cpu.cycle_count() - cpu.retired_count(), 1);
    }
}

#[test]
fn fresh_states_have_clear_math_words() {
    for cpu in [
        V2FastCpu::from_program(&sum_program()),
        V2FastCpu::from_program_with_mmio(&sum_program()),
    ] {
        let s = cpu.state();
        assert_eq!(
            (s.iss_math_a, s.iss_math_b, s.iss_math_status, s.iss_math_result),
            (0, 0, 0, 0)
        );
        assert_eq!(cpu.program_words(), &sum_program());
    }
}
