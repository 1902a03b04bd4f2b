use rustos::error::KernelError;
use rustos::process::{
    create_process, get_current_pid, round_up_to_power_of_two, schedule, sys_exec, sys_exit,
    sys_fork, terminate_current_process, ContextSwitch, MemoryPermissions, ProcessManager,
    ProcessState, PERM_EXECUTE, PERM_READ, PERM_WRITE,
};

#[test]
fn process_creation_returns_distinct_pids() {
    let mut pm = rustos::process::init();
    let pid_a = create_process(&mut pm, 0x4000_0000, 4096).expect("create first process");
    let pid_b = create_process(&mut pm, 0x4001_0000, 4096).expect("create second process");
    assert!(pid_b > pid_a, "process IDs should monotonically increase");
    assert_eq!(pid_a, 1);
    assert_eq!(pid_b, 2);
}

#[test]
fn process_ids_are_never_reused() {
    let mut pm = ProcessManager::new();
    let mut last = 0;
    for i in 0..20u64 {
        let pid = pm.create_process(0x1000 * i, 4096).unwrap();
        assert!(pid > last);
        last = pid;
        if i % 3 == 0 {
            assert_eq!(pm.terminate_process(pid), Ok(()));
        }
        if i % 4 == 0 {
            pm.schedule();
        }
    }
    assert_eq!(last, 20);
    assert_eq!(pm.process_count(), 20);
}

#[test]
fn new_process_is_ready_with_zeroed_registers() {
    let mut pm = ProcessManager::new();
    let pid = pm.create_process(0x4000_0000, 4096).unwrap();
    let p = pm.get_process(pid).unwrap();
    assert_eq!(p.pid, 1);
    assert_eq!(p.state, ProcessState::Ready);
    assert_eq!(p.priority, 128);
    assert_eq!(p.entry_point, 0x4000_0000);
    assert_eq!(p.registers, [0u64; 31]);
    assert!(p.memory_regions.is_empty());
    assert_eq!(p.stack_pointer, 0x5000_0000 + 4096);
    assert_eq!(p.page_table, 0x5000_0000 + 4096);
}

#[test]
fn stack_is_reserved_in_powers_of_two() {
    let mut pm = ProcessManager::new();
    pm.create_process(1, 4096).unwrap();
    let second = pm.create_process(2, 5000).unwrap();
    let p = pm.get_process(second).unwrap();
    assert_eq!(p.stack_pointer, 0x5000_2000 + 5000);
    assert_eq!(p.page_table, 0x5000_2000 + 8192);
    let third = pm.create_process(3, 1).unwrap();
    let q = pm.get_process(third).unwrap();
    assert_eq!(q.stack_pointer, 0x5000_5000 + 1);
    assert_eq!(q.page_table, 0x5000_5000 + 1);
}

#[test]
fn zero_sized_stack_is_invalid() {
    let mut pm = ProcessManager::new();
    assert_eq!(pm.create_process(0x1000, 0), Err(KernelError::InvalidArgument));
    assert_eq!(pm.process_count(), 0);
    assert_eq!(pm.create_process(0x1000, 16), Ok(1));
}

#[test]
fn oversized_stack_exhausts_the_allocator() {
    let mut pm = ProcessManager::new();
    assert_eq!(pm.create_process(0x1000, u64::MAX), Err(KernelError::ResourceExhausted));
    assert_eq!(
        pm.create_process(0x1000, (1u64 << 63) + 1),
        Err(KernelError::ResourceExhausted)
    );
    assert_eq!(pm.process_count(), 0);
    assert_eq!(pm.create_process(0x1000, 4096), Ok(1));
}

#[test]
fn rounding_up_to_a_power_of_two() {
    assert_eq!(round_up_to_power_of_two(0), Some(1));
    assert_eq!(round_up_to_power_of_two(1), Some(1));
    assert_eq!(round_up_to_power_of_two(2), Some(2));
    assert_eq!(round_up_to_power_of_two(3), Some(4));
    assert_eq!(round_up_to_power_of_two(4096), Some(4096));
    assert_eq!(round_up_to_power_of_two(4097), Some(8192));
    assert_eq!(round_up_to_power_of_two(65536), Some(65536));
    assert_eq!(round_up_to_power_of_two(1u64 << 63), Some(1u64 << 63));
    assert_eq!(round_up_to_power_of_two((1u64 << 63) + 1), None);
    assert_eq!(round_up_to_power_of_two(u64::MAX), None);
}

#[test]
fn schedule_on_an_empty_table_answers_nothing() {
    let mut pm = ProcessManager::new();
    assert_eq!(pm.schedule(), None);
    assert_eq!(pm.current_pid(), None);
}

#[test]
fn schedule_is_round_robin() {
    let mut pm = ProcessManager::new();
    for i in 0..3 {
        pm.create_process(0x1000 * i, 4096).unwrap();
    }
    let order: Vec<Option<u32>> = (0..7).map(|_| pm.schedule()).collect();
    assert_eq!(
        order,
        vec![Some(1), Some(2), Some(3), Some(1), Some(2), Some(3), Some(1)]
    );
    assert_eq!(pm.current_pid(), Some(1));
    assert_eq!(pm.get_process(1).unwrap().state, ProcessState::Running);
    assert_eq!(pm.get_process(2).unwrap().state, ProcessState::Ready);
    assert_eq!(pm.get_process(3).unwrap().state, ProcessState::Ready);
}

#[test]
fn every_process_gets_one_turn_before_any_gets_a_second() {
    let n = 7;
    let mut pm = ProcessManager::new();
    for i in 0..n {
        pm.create_process(0x1000 * i as u64, 4096).unwrap();
    }
    pm.schedule();
    let mut seen = vec![false; n + 1];
    for _ in 0..n {
        let pid = pm.schedule().unwrap() as usize;
        assert!(!seen[pid], "process {} came up twice in one round", pid);
        seen[pid] = true;
    }
    assert!(seen[1..].iter().all(|s| *s));
}

#[test]
fn at_most_one_process_runs() {
    let mut pm = ProcessManager::new();
    for i in 0..4 {
        pm.create_process(i, 64).unwrap();
    }
    for _ in 0..10 {
        pm.schedule();
        let running = (1..=4)
            .filter(|pid| pm.get_process(*pid).unwrap().state == ProcessState::Running)
            .count();
        assert_eq!(running, 1);
    }
}

#[test]
fn a_single_process_keeps_running() {
    let mut pm = ProcessManager::new();
    pm.create_process(0, 64).unwrap();
    assert_eq!(pm.schedule(), Some(1));
    assert_eq!(pm.schedule(), Some(1));
    assert_eq!(pm.get_process(1).unwrap().state, ProcessState::Running);
}

#[test]
fn a_newcomer_waits_behind_those_already_waiting() {
    let mut pm = ProcessManager::new();
    pm.create_process(0, 64).unwrap();
    pm.create_process(0, 64).unwrap();
    assert_eq!(pm.schedule(), Some(1));
    pm.create_process(0, 64).unwrap();
    assert_eq!(pm.schedule(), Some(2));
    assert_eq!(pm.schedule(), Some(3));
    assert_eq!(pm.schedule(), Some(1));
}

#[test]
fn terminate_removes_from_the_queue_and_keeps_the_entry() {
    let mut pm = ProcessManager::new();
    for _ in 0..3 {
        pm.create_process(0, 64).unwrap();
    }
    assert_eq!(pm.terminate_process(2), Ok(()));
    assert_eq!(pm.get_process(2).unwrap().state, ProcessState::Terminated);
    assert_eq!(pm.process_count(), 3);
    assert_eq!(pm.schedule(), Some(1));
    assert_eq!(pm.schedule(), Some(3));
    assert_eq!(pm.schedule(), Some(1));
    assert_eq!(pm.terminate_process(2), Ok(()));
    assert_eq!(pm.get_process(2).unwrap().state, ProcessState::Terminated);
}

#[test]
fn terminate_of_an_unknown_process_is_reported() {
    let mut pm = ProcessManager::new();
    assert_eq!(pm.terminate_process(1), Err(KernelError::NotFound));
    pm.create_process(0, 64).unwrap();
    assert_eq!(pm.terminate_process(0), Err(KernelError::NotFound));
    assert_eq!(pm.terminate_process(2), Err(KernelError::NotFound));
    assert_eq!(pm.terminate_process(u32::MAX), Err(KernelError::NotFound));
}

#[test]
fn terminating_the_current_process_clears_it() {
    let mut pm = ProcessManager::new();
    pm.create_process(0, 64).unwrap();
    pm.create_process(0, 64).unwrap();
    pm.schedule();
    assert_eq!(get_current_pid(&pm), Some(1));
    assert_eq!(terminate_current_process(&mut pm), Ok(()));
    assert_eq!(get_current_pid(&pm), None);
    assert_eq!(terminate_current_process(&mut pm), Err(KernelError::NotFound));
    assert_eq!(pm.schedule(), Some(2));
    assert_eq!(pm.schedule(), Some(2));
    assert_eq!(pm.get_process(1).unwrap().state, ProcessState::Terminated);
}

#[test]
fn a_blocked_process_is_not_queued_again() {
    let mut pm = ProcessManager::new();
    pm.create_process(0, 64).unwrap();
    pm.create_process(0, 64).unwrap();
    pm.schedule();
    pm.get_process_mut(1).unwrap().state = ProcessState::Blocked;
    assert_eq!(pm.schedule(), Some(2));
    assert_eq!(pm.schedule(), Some(2));
    assert_eq!(pm.get_process(1).unwrap().state, ProcessState::Blocked);
    assert!(pm.get_process_mut(3).is_none());
    assert!(pm.get_process(0).is_none());
}

#[test]
fn schedule_reports_the_address_space_to_install() {
    let mut pm = ProcessManager::new();
    assert_eq!(schedule(&mut pm), None);
    pm.create_process(0, 4096).unwrap();
    assert_eq!(
        schedule(&mut pm),
        Some(ContextSwitch { pid: 1, page_table: 0x5000_1000 })
    );
}

#[test]
fn exec_restarts_the_current_process() {
    let mut pm = ProcessManager::new();
    assert_eq!(sys_exec(&mut pm, 0x9000), Err(KernelError::NotFound));
    pm.create_process(0x1000, 4096).unwrap();
    pm.schedule();
    pm.get_process_mut(1).unwrap().registers[5] = 77;
    assert_eq!(sys_exec(&mut pm, 0x9000), Ok(()));
    let p = pm.get_process(1).unwrap();
    assert_eq!(p.entry_point, 0x9000);
    assert_eq!(p.registers, [0u64; 31]);
    assert_eq!(p.state, ProcessState::Running);
}

#[test]
fn exit_terminates_and_reschedules() {
    let mut pm = ProcessManager::new();
    assert_eq!(sys_exit(&mut pm, 0), None);
    pm.create_process(0, 4096).unwrap();
    pm.create_process(0, 4096).unwrap();
    pm.schedule();
    let switch = sys_exit(&mut pm, 3).unwrap();
    assert_eq!(switch.pid, 2);
    assert_eq!(pm.get_process(1).unwrap().state, ProcessState::Terminated);
    assert_eq!(pm.get_process(2).unwrap().state, ProcessState::Running);
    assert_eq!(sys_exit(&mut pm, 0), None);
    assert_eq!(pm.current_pid(), None);
    assert_eq!(pm.get_process(2).unwrap().state, ProcessState::Terminated);
}

#[test]
fn fork_is_a_stub() {
    assert_eq!(sys_fork(), 0);
}

#[test]
fn memory_permissions_are_bit_sets() {
    let rw = MemoryPermissions::from_bits(PERM_READ | PERM_WRITE).unwrap();
    let x = MemoryPermissions::from_bits(PERM_EXECUTE).unwrap();
    assert_eq!(rw.bits(), 3);
    assert!(rw.contains(MemoryPermissions::from_bits(PERM_READ).unwrap()));
    assert!(!rw.contains(x));
    assert_eq!(rw.union(x).bits(), 7);
    assert_eq!(MemoryPermissions::empty().bits(), 0);
    assert!(MemoryPermissions::from_bits(8).is_none());
}

#[test]
fn a_terminated_process_stays_terminated() {
    let mut pm = ProcessManager::new();
    for _ in 0..3 {
        pm.create_process(0, 64).unwrap();
    }
    pm.schedule();
    pm.terminate_process(1).unwrap();
    pm.terminate_process(3).unwrap();
    for step in 0..12 {
        match step % 4 {
            0 => {
                pm.schedule();
            }
            1 => {
                let _ = sys_exec(&mut pm, 0x1234);
            }
            2 => {
                pm.create_process(0, 64).unwrap();
            }
            _ => {
                let _ = pm.terminate_process(1);
            }
        }
        assert_eq!(pm.get_process(1).unwrap().state, ProcessState::Terminated);
        assert_eq!(pm.get_process(3).unwrap().state, ProcessState::Terminated);
        assert_eq!(pm.get_process(3).unwrap().pid, 3);
    }
}
