//! The process table and its cooperative round-robin scheduler.

use crate::error::KernelError;
use std::collections::VecDeque;
use vstd::prelude::*;

verus! {

/// The priority that a new process gets.
pub const DEFAULT_PRIORITY: u8 = 128;

/// Where the stack allocator of the process table starts.
pub const PROCESS_MEMORY_BASE: u64 = 0x50000000;

/// The size of the address-space handle of a process.
pub const PAGE_TABLE_SIZE: u64 = 4096;

/// How many general-purpose registers a snapshot holds.
pub const REGISTER_COUNT: usize = 31;

/// The life cycle of a process.
#[derive(Debug, Clone, Copy, PartialEq, Eq, Structural)]
pub enum ProcessState {
    Ready,
    Running,
    Blocked,
    Terminated,
}

/// May be read.
pub const PERM_READ: u8 = 1;

/// May be written.
pub const PERM_WRITE: u8 = 2;

/// May be executed.
pub const PERM_EXECUTE: u8 = 4;

/// Every permission bit.
pub const PERM_ALL: u8 = 7;

/// What may be done with a memory region: a set of permission bits.
#[derive(Debug, Clone, Copy, PartialEq, Eq)]
pub struct MemoryPermissions {
    bits: u8,
}

impl View for MemoryPermissions {
    type V = u8;

    /// The permission bits.
    closed spec fn view(&self) -> u8 {
        self.bits
    }
}

impl MemoryPermissions {
    /// The permissions with exactly the bits of `bits`, if all are known.
    pub fn from_bits(bits: u8) -> (perms: Option<MemoryPermissions>)
        ensures
            perms is Some <==> bits & !PERM_ALL == 0,
            perms is Some ==> perms->Some_0@ == bits,
    {
        if bits & !PERM_ALL == 0 {
            Some(MemoryPermissions { bits })
        } else {
            None
        }
    }

    /// No permission at all.
    pub fn empty() -> (perms: MemoryPermissions)
        ensures
            perms@ == 0,
    {
        MemoryPermissions { bits: 0 }
    }

    /// The permission bits.
    pub fn bits(&self) -> (bits: u8)
        ensures
            bits == self@,
    {
        self.bits
    }

    /// Whether every bit of `other` is granted.
    pub fn contains(&self, other: MemoryPermissions) -> (present: bool)
        ensures
            present == (self@ & other@ == other@),
    {
        self.bits & other.bits == other.bits
    }

    /// The permissions of `self` and of `other` together.
    pub fn union(&self, other: MemoryPermissions) -> (perms: MemoryPermissions)
        ensures
            perms@ == self@ | other@,
    {
        MemoryPermissions { bits: self.bits | other.bits }
    }
}

/// A stretch of memory that belongs to a process.
#[derive(Debug, Clone, Copy)]
pub struct MemoryRegion {
    pub start: u64,
    pub size: u64,
    pub permissions: MemoryPermissions,
}

/// A schedulable unit of execution.
#[derive(Debug)]
pub struct Process {
    pub pid: u32,
    pub state: ProcessState,
    pub priority: u8,
    pub stack_pointer: u64,
    /// The address-space handle.
    pub page_table: u64,
    /// The saved general-purpose registers.
    pub registers: [u64; 31],
    pub entry_point: u64,
    pub memory_regions: Vec<MemoryRegion>,
}

/// The abstract state of a process.
pub struct ProcessView {
    pub pid: u32,
    pub state: ProcessState,
    pub priority: u8,
    pub stack_pointer: u64,
    pub page_table: u64,
    pub registers: Seq<u64>,
    pub entry_point: u64,
    pub memory_regions: Seq<MemoryRegion>,
}

impl View for Process {
    type V = ProcessView;

    open spec fn view(&self) -> ProcessView {
        ProcessView {
            pid: self.pid,
            state: self.state,
            priority: self.priority,
            stack_pointer: self.stack_pointer,
            page_table: self.page_table,
            registers: self.registers@,
            entry_point: self.entry_point,
            memory_regions: self.memory_regions@,
        }
    }
}

/// The smallest power of two that is not below `n`.
pub open spec fn next_power_of_two(n: nat) -> nat
    decreases n,
{
    if n <= 1 {
        1
    } else {
        2 * next_power_of_two((n / 2 + n % 2) as nat)
    }
}

/// Whether `n` is a power of two.
pub open spec fn is_power_of_two(n: nat) -> bool
    decreases n,
{
    if n <= 1 {
        n == 1
    } else {
        n % 2 == 0 && is_power_of_two(n / 2)
    }
}

/// `next_power_of_two(n)` is a power of two, is at least `n`, and is below
/// `2 * n` for every positive `n`: no smaller power of two reaches `n`.
pub proof fn lemma_next_power_of_two(n: nat)
    ensures
        is_power_of_two(next_power_of_two(n)),
        n <= next_power_of_two(n),
        n >= 1 ==> next_power_of_two(n) < 2 * n,
    decreases n,
{
    if n > 1 {
        let half = (n / 2 + n % 2) as nat;
        lemma_next_power_of_two(half);
        let p = next_power_of_two(half);
        assert((2 * p) / 2 == p);
        assert((2 * p) % 2 == 0);
    }
}

/// The smallest power of two that is not below `n`, if 64 bits hold it.
pub fn round_up_to_power_of_two(n: u64) -> (r: Option<u64>)
    ensures
        match r {
            Some(p) => p == next_power_of_two(n as nat),
            None => next_power_of_two(n as nat) > u64::MAX,
        },
    decreases n,
{
    if n <= 1 {
        Some(1)
    } else {
        let half = n / 2 + n % 2;
        match round_up_to_power_of_two(half) {
            Some(p) => if p <= u64::MAX / 2 {
                Some(2 * p)
            } else {
                None
            },
            None => None,
        }
    }
}

/// Where the stack and the address-space handle of a new process go.
pub struct StackLayout {
    /// The lowest address of the stack.
    pub stack_start: u64,
    /// The initial stack pointer: the end of the requested stack.
    pub stack_pointer: u64,
    /// The address-space handle, right behind the reserved stack.
    pub page_table: u64,
    /// The first address that is still free afterwards.
    pub next_addr: u64,
}

/// The layout of a stack of `stack_size` bytes allocated at `next_addr`. The
/// stack reserves the next power of two of bytes; the handle takes one page
/// behind it. There is none where the addresses would leave 64 bits.
pub open spec fn stack_layout(next_addr: u64, stack_size: u64) -> Option<StackLayout> {
    let reserved = next_power_of_two(stack_size as nat);
    if next_addr + reserved + PAGE_TABLE_SIZE <= u64::MAX {
        Some(
            StackLayout {
                stack_start: next_addr,
                stack_pointer: (next_addr + stack_size) as u64,
                page_table: (next_addr + reserved) as u64,
                next_addr: (next_addr + reserved + PAGE_TABLE_SIZE) as u64,
            },
        )
    } else {
        None
    }
}

/// The abstract state of the process table.
pub struct ProcessTable {
    /// Every process ever created, in the order of creation.
    pub processes: Seq<ProcessView>,
    /// The ids of the processes that wait for their turn, first in line first.
    pub ready: Seq<u32>,
    /// The id of the process that has the processor, if any.
    pub current: Option<u32>,
    /// The id that the next process gets.
    pub next_pid: u32,
    /// The first address that the stack allocator has not given out.
    pub next_addr: u64,
}

impl ProcessTable {
    /// Whether `pid` names a process of the table.
    pub open spec fn contains(self, pid: u32) -> bool {
        1 <= pid <= self.processes.len()
    }

    /// The process with the id `pid`.
    pub open spec fn process(self, pid: u32) -> ProcessView {
        self.processes[pid - 1]
    }

    /// The table with the state of process `pid` set to `state`.
    pub open spec fn with_state(self, pid: u32, state: ProcessState) -> ProcessTable {
        ProcessTable {
            processes: self.processes.update(
                pid - 1,
                ProcessView { state, ..self.processes[pid - 1] },
            ),
            ..self
        }
    }

    /// The invariant of the table. Ids are handed out in order, starting at
    /// 1, and a process keeps its place for good. The ready queue names
    /// each of its processes once, and all of them are ready. At most one
    /// process is running, and it is the current one.
    pub open spec fn wf(self) -> bool {
        &&& self.next_pid == self.processes.len() + 1
        &&& forall|i: int|
            0 <= i < self.processes.len() ==> (#[trigger] self.processes[i]).pid == i + 1
        &&& forall|i: int|
            0 <= i < self.processes.len() ==> (#[trigger] self.processes[i]).registers.len()
                == REGISTER_COUNT
        &&& self.ready.no_duplicates()
        &&& forall|k: int|
            0 <= k < self.ready.len() ==> self.contains(#[trigger] self.ready[k])
                && self.process(self.ready[k]).state == ProcessState::Ready
        &&& forall|i: int|
            0 <= i < self.processes.len() && (#[trigger] self.processes[i]).state
                == ProcessState::Running ==> self.current == Some((i + 1) as u32)
        &&& self.current is Some ==> self.contains(self.current->Some_0)
    }

    /// The table at start-up.
    pub open spec fn empty() -> ProcessTable {
        ProcessTable {
            processes: Seq::empty(),
            ready: Seq::empty(),
            current: None,
            next_pid: 1,
            next_addr: PROCESS_MEMORY_BASE,
        }
    }

    /// What `create_process` answers. A stack of no bytes is refused; a
    /// used-up id counter or address space is reported as exhaustion.
    pub open spec fn create_result(self, stack_size: u64) -> Result<u32, KernelError> {
        if stack_size == 0 {
            Err(KernelError::InvalidArgument)
        } else if self.next_pid == u32::MAX || stack_layout(self.next_addr, stack_size) is None {
            Err(KernelError::ResourceExhausted)
        } else {
            Ok(self.next_pid)
        }
    }

    /// The process that `create_process` makes.
    pub open spec fn new_process(self, entry_point: u64, stack_size: u64) -> ProcessView {
        let layout = stack_layout(self.next_addr, stack_size)->Some_0;
        ProcessView {
            pid: self.next_pid,
            state: ProcessState::Ready,
            priority: DEFAULT_PRIORITY,
            stack_pointer: layout.stack_pointer,
            page_table: layout.page_table,
            registers: Seq::new(REGISTER_COUNT as nat, |i: int| 0u64),
            entry_point,
            memory_regions: Seq::empty(),
        }
    }

    /// The table after `create_process`: the new process is last in the
    /// table and last in the ready queue. A refused call changes nothing.
    pub open spec fn after_create(self, entry_point: u64, stack_size: u64) -> ProcessTable {
        if self.create_result(stack_size) is Ok {
            ProcessTable {
                processes: self.processes.push(self.new_process(entry_point, stack_size)),
                ready: self.ready.push(self.next_pid),
                current: self.current,
                next_pid: (self.next_pid + 1) as u32,
                next_addr: stack_layout(self.next_addr, stack_size)->Some_0.next_addr,
            }
        } else {
            self
        }
    }

    /// Whether the current process is still running, so that the scheduler
    /// sends it to the back of the queue.
    pub open spec fn current_is_running(self) -> bool {
        self.current is Some && self.process(self.current->Some_0).state == ProcessState::Running
    }

    /// What `schedule` answers: the first process in line, or, where nobody
    /// waits, the current process as it was.
    pub open spec fn scheduled(self) -> Option<u32> {
        if self.ready.len() > 0 {
            Some(self.ready[0])
        } else {
            self.current
        }
    }

    /// The table after `schedule`. The first process in line becomes the
    /// running, current one; the process that was running goes to the back
    /// of the queue as ready. Where nobody waits, nothing changes.
    pub open spec fn after_schedule(self) -> ProcessTable {
        if self.ready.len() == 0 {
            self
        } else {
            let next = self.ready[0];
            let demoted = if self.current_is_running() {
                ProcessTable {
                    ready: self.ready.skip(1).push(self.current->Some_0),
                    ..self.with_state(self.current->Some_0, ProcessState::Ready)
                }
            } else {
                ProcessTable { ready: self.ready.skip(1), ..self }
            };
            ProcessTable { current: Some(next), ..demoted.with_state(next, ProcessState::Running) }
        }
    }

    /// What `terminate_process` answers.
    pub open spec fn terminate_result(self, pid: u32) -> Result<(), KernelError> {
        if self.contains(pid) {
            Ok(())
        } else {
            Err(KernelError::NotFound)
        }
    }

    /// The table after `terminate_process`: the process is terminated and
    /// stays in the table, it leaves the ready queue, and it is no longer
    /// the current one.
    pub open spec fn after_terminate(self, pid: u32) -> ProcessTable {
        if self.contains(pid) {
            ProcessTable {
                ready: self.ready.remove_value(pid),
                current: if self.current == Some(pid) {
                    None
                } else {
                    self.current
                },
                ..self.with_state(pid, ProcessState::Terminated)
            }
        } else {
            self
        }
    }

    /// What `sys_exec` answers.
    pub open spec fn exec_result(self) -> Result<(), KernelError> {
        if self.current is Some {
            Ok(())
        } else {
            Err(KernelError::NotFound)
        }
    }

    /// The table after `sys_exec`: the current process starts over at
    /// `entry_point` with cleared registers.
    pub open spec fn after_exec(self, entry_point: u64) -> ProcessTable {
        if self.current is Some {
            let pid = self.current->Some_0;
            ProcessTable {
                processes: self.processes.update(
                    pid - 1,
                    ProcessView {
                        entry_point,
                        registers: Seq::new(REGISTER_COUNT as nat, |i: int| 0u64),
                        ..self.process(pid)
                    },
                ),
                ..self
            }
        } else {
            self
        }
    }

    /// The table after the current process has exited: it is terminated,
    /// and the scheduler has picked a successor.
    pub open spec fn after_exit(self) -> ProcessTable {
        if self.current is Some {
            self.after_terminate(self.current->Some_0).after_schedule()
        } else {
            self
        }
    }
}

/// What the caller of the scheduler has to install: the process that runs
/// next and its address-space handle.
#[derive(Debug, Clone, Copy, PartialEq, Eq, Structural)]
pub struct ContextSwitch {
    pub pid: u32,
    pub page_table: u64,
}

/// The process table.
pub struct ProcessManager {
    processes: Vec<Process>,
    ready_queue: VecDeque<u32>,
    current_pid: Option<u32>,
    next_pid: u32,
    next_addr: u64,
}

impl View for ProcessManager {
    type V = ProcessTable;

    closed spec fn view(&self) -> ProcessTable {
        ProcessTable {
            processes: Seq::new(self.processes@.len(), |i: int| self.processes@[i]@),
            ready: self.ready_queue@,
            current: self.current_pid,
            next_pid: self.next_pid,
            next_addr: self.next_addr,
        }
    }
}

impl ProcessManager {
    /// An empty table.
    pub fn new() -> (pm: ProcessManager)
        ensures
            pm@ == ProcessTable::empty(),
            pm@.wf(),
    {
        let pm = ProcessManager {
            processes: Vec::new(),
            ready_queue: VecDeque::new(),
            current_pid: None,
            next_pid: 1,
            next_addr: PROCESS_MEMORY_BASE,
        };
        assert(pm@.processes =~= Seq::empty());
        pm
    }

    /// Reserves the stack and the address-space handle of a new process.
    fn allocate_memory(&mut self, stack_size: u64) -> (r: Result<StackLayout, KernelError>)
        ensures
            match r {
                Ok(layout) => stack_layout(old(self).next_addr, stack_size) == Some(layout)
                    && final(self).next_addr == layout.next_addr,
                Err(e) => stack_layout(old(self).next_addr, stack_size) is None && e
                    == KernelError::ResourceExhausted && final(self).next_addr == old(
                    self,
                ).next_addr,
            },
            final(self).processes == old(self).processes,
            final(self).ready_queue == old(self).ready_queue,
            final(self).current_pid == old(self).current_pid,
            final(self).next_pid == old(self).next_pid,
    {
        proof {
            lemma_next_power_of_two(stack_size as nat);
        }
        let reserved = match round_up_to_power_of_two(stack_size) {
            Some(p) => p,
            None => {
                return Err(KernelError::ResourceExhausted);
            },
        };
        let stack_start = self.next_addr;
        if reserved > u64::MAX - PAGE_TABLE_SIZE || stack_start > u64::MAX - PAGE_TABLE_SIZE
            - reserved {
            return Err(KernelError::ResourceExhausted);
        }
        let page_table = stack_start + reserved;
        let next_addr = page_table + PAGE_TABLE_SIZE;
        self.next_addr = next_addr;
        Ok(
            StackLayout {
                stack_start,
                stack_pointer: stack_start + stack_size,
                page_table,
                next_addr,
            },
        )
    }

    /// Creates a process that starts at `entry_point` with a stack of
    /// `stack_size` bytes, and puts it at the back of the ready queue.
    pub fn create_process(&mut self, entry_point: u64, stack_size: u64) -> (r: Result<
        u32,
        KernelError,
    >)
        requires
            old(self)@.wf(),
        ensures
            final(self)@.wf(),
            r == old(self)@.create_result(stack_size),
            final(self)@ == old(self)@.after_create(entry_point, stack_size),
            r is Ok ==> r->Ok_0 == old(self)@.next_pid && final(self)@.next_pid == r->Ok_0 + 1,
            final(self)@.next_pid >= old(self)@.next_pid,
    {
        let ghost pre = self@;
        if stack_size == 0 {
            return Err(KernelError::InvalidArgument);
        }
        if self.next_pid == u32::MAX {
            return Err(KernelError::ResourceExhausted);
        }
        let layout = match self.allocate_memory(stack_size) {
            Ok(layout) => layout,
            Err(e) => {
                assert(self@.processes =~= pre.processes);
                return Err(e);
            },
        };
        let pid = self.next_pid;
        self.next_pid += 1;
        let process = Process {
            pid,
            state: ProcessState::Ready,
            priority: DEFAULT_PRIORITY,
            stack_pointer: layout.stack_pointer,
            page_table: layout.page_table,
            registers: [0u64;31],
            entry_point,
            memory_regions: Vec::new(),
        };
        assert(process@.registers =~= Seq::new(REGISTER_COUNT as nat, |i: int| 0u64));
        self.processes.push(process);
        self.ready_queue.push_back(pid);
        proof {
            let post = pre.after_create(entry_point, stack_size);
            assert(self@.processes =~= post.processes);
            Self::lemma_create_wf(pre, entry_point, stack_size);
        }
        Ok(pid)
    }

    proof fn lemma_create_wf(pre: ProcessTable, entry_point: u64, stack_size: u64)
        requires
            pre.wf(),
            pre.create_result(stack_size) is Ok,
        ensures
            pre.after_create(entry_point, stack_size).wf(),
    {
        let post = pre.after_create(entry_point, stack_size);
        let pid = pre.next_pid;
        assert forall|k: int| 0 <= k < post.ready.len() implies post.contains(
            #[trigger] post.ready[k],
        ) && post.process(post.ready[k]).state == ProcessState::Ready by {
            if k < pre.ready.len() {
                assert(pre.contains(pre.ready[k]));
            }
        }
        assert forall|a: int, b: int|
            0 <= a < post.ready.len() && 0 <= b < post.ready.len() && a != b implies post.ready[a]
            != post.ready[b] by {
            if a < pre.ready.len() {
                assert(pre.contains(pre.ready[a]));
            }
            if b < pre.ready.len() {
                assert(pre.contains(pre.ready[b]));
            }
        }
    }

    /// Picks the process that runs next. The first process in the ready
    /// queue becomes the running, current one; the one that was running
    /// before goes to the back of the queue. Where the queue is empty, the
    /// current process, if any, is answered and nothing changes.
    pub fn schedule(&mut self) -> (next: Option<u32>)
        requires
            old(self)@.wf(),
        ensures
            final(self)@.wf(),
            next == old(self)@.scheduled(),
            final(self)@ == old(self)@.after_schedule(),
    {
        let ghost pre = self@;
        proof {
            Self::lemma_schedule_wf(pre);
        }
        match self.ready_queue.pop_front() {
            Some(next_pid) => {
                assert(pre.contains(pre.ready[0]));
                if let Some(current_pid) = self.current_pid {
                    let index = (current_pid - 1) as usize;
                    if self.processes[index].state == ProcessState::Running {
                        self.processes[index].state = ProcessState::Ready;
                        self.ready_queue.push_back(current_pid);
                    }
                }
                let index = (next_pid - 1) as usize;
                self.processes[index].state = ProcessState::Running;
                self.current_pid = Some(next_pid);
                assert(self@.processes =~= pre.after_schedule().processes);
                assert(self@.ready =~= pre.after_schedule().ready);
                Some(next_pid)
            },
            None => {
                assert(self@.processes =~= pre.processes);
                self.current_pid
            },
        }
    }

    proof fn lemma_schedule_wf(pre: ProcessTable)
        requires
            pre.wf(),
        ensures
            pre.after_schedule().wf(),
    {
        if pre.ready.len() > 0 {
            let post = pre.after_schedule();
            let next = pre.ready[0];
            assert(pre.contains(next));
            assert(pre.process(next).state == ProcessState::Ready);
            assert forall|k: int| 0 <= k < post.ready.len() implies post.contains(
                #[trigger] post.ready[k],
            ) && post.process(post.ready[k]).state == ProcessState::Ready by {
                if k < pre.ready.len() - 1 {
                    assert(post.ready[k] == pre.ready[k + 1]);
                    assert(pre.contains(pre.ready[k + 1]));
                    assert(pre.ready[k + 1] != pre.ready[0]);
                }
            }
            assert forall|a: int, b: int|
                0 <= a < post.ready.len() && 0 <= b < post.ready.len() && a != b implies
                post.ready[a] != post.ready[b] by {
                if a < pre.ready.len() - 1 {
                    assert(post.ready[a] == pre.ready[a + 1]);
                    assert(pre.contains(pre.ready[a + 1]));
                }
                if b < pre.ready.len() - 1 {
                    assert(post.ready[b] == pre.ready[b + 1]);
                    assert(pre.contains(pre.ready[b + 1]));
                }
            }
            assert forall|i: int|
                0 <= i < post.processes.len() && (#[trigger] post.processes[i]).state
                    == ProcessState::Running implies post.current == Some((i + 1) as u32) by {
                if i != next - 1 {
                    assert(pre.processes[i].state == ProcessState::Running || (
                    pre.current_is_running() && i == pre.current->Some_0 - 1));
                }
            }
        }
    }

    /// The process with the id `pid`.
    pub fn get_process(&self, pid: u32) -> (found: Option<&Process>)
        requires
            self@.wf(),
        ensures
            found is Some <==> self@.contains(pid),
            found is Some ==> found->Some_0@ == self@.process(pid),
    {
        if pid >= 1 && (pid as usize) <= self.processes.len() {
            Some(&self.processes[(pid - 1) as usize])
        } else {
            None
        }
    }

    /// The process with the id `pid`, to be changed in place. Whoever
    /// changes it answers for the invariant of the table.
    pub fn get_process_mut(&mut self, pid: u32) -> (found: Option<&mut Process>)
        requires
            old(self)@.wf(),
        ensures
            found is Some <==> old(self)@.contains(pid),
            match found {
                Some(process) => process@ == old(self)@.process(pid) && final(self)@ == (
                ProcessTable {
                    processes: old(self)@.processes.update(pid - 1, final(process)@),
                    ..old(self)@
                }),
                None => final(self)@ == old(self)@,
            },
    {
        if pid >= 1 && (pid as usize) <= self.processes.len() {
            let ghost pre = self@;
            let ghost before = self.processes@;
            let found = &mut self.processes[(pid - 1) as usize];
            proof {
                let after = before.update(pid - 1, *final(found));
                assert(Seq::new(after.len(), |i: int| after[i]@) =~= pre.processes.update(
                    pid - 1,
                    final(found)@,
                ));
            }
            Some(found)
        } else {
            None
        }
    }

    /// Terminates the process `pid`. It stays in the table for good.
    pub fn terminate_process(&mut self, pid: u32) -> (r: Result<(), KernelError>)
        requires
            old(self)@.wf(),
        ensures
            final(self)@.wf(),
            r == old(self)@.terminate_result(pid),
            final(self)@ == old(self)@.after_terminate(pid),
    {
        let ghost pre = self@;
        if pid < 1 || (pid as usize) > self.processes.len() {
            return Err(KernelError::NotFound);
        }
        self.processes[(pid - 1) as usize].state = ProcessState::Terminated;
        let mut k: usize = 0;
        let mut found: Option<usize> = None;
        while k < self.ready_queue.len()
            invariant_except_break
                k <= self.ready_queue@.len(),
                found is None,
                forall|j: int| 0 <= j < k ==> pre.ready[j] != pid,
            invariant
                self.ready_queue@ == pre.ready,
            ensures
                self.ready_queue@ == pre.ready,
                match found {
                    Some(i) => i < pre.ready.len() && pre.ready[i as int] == pid && forall|j: int|
                        0 <= j < i ==> pre.ready[j] != pid,
                    None => forall|j: int| 0 <= j < pre.ready.len() ==> pre.ready[j] != pid,
                },
            decreases self.ready_queue@.len() - k,
        {
            if self.ready_queue[k] == pid {
                found = Some(k);
                break ;
            }
            k += 1;
        }
        proof {
            pre.ready.index_of_first_ensures(pid);
        }
        if let Some(i) = found {
            self.ready_queue.remove(i);
        }
        if self.current_pid == Some(pid) {
            self.current_pid = None;
        }
        proof {
            let post = pre.after_terminate(pid);
            assert(self@.processes =~= post.processes);
            assert(self@.ready =~= post.ready);
            Self::lemma_terminate_wf(pre, pid);
        }
        Ok(())
    }

    proof fn lemma_terminate_wf(pre: ProcessTable, pid: u32)
        requires
            pre.wf(),
            pre.contains(pid),
        ensures
            pre.after_terminate(pid).wf(),
    {
        let post = pre.after_terminate(pid);
        pre.ready.index_of_first_ensures(pid);
        match pre.ready.index_of_first(pid) {
            Some(i) => {
                assert(post.ready =~= pre.ready.remove(i));
                assert forall|k: int| 0 <= k < post.ready.len() implies post.contains(
                    #[trigger] post.ready[k],
                ) && post.process(post.ready[k]).state == ProcessState::Ready by {
                    let k0 = if k < i {
                        k
                    } else {
                        k + 1
                    };
                    assert(post.ready[k] == pre.ready[k0]);
                    assert(pre.contains(pre.ready[k0]));
                    assert(pre.ready[k0] != pre.ready[i]);
                }
                assert forall|a: int, b: int|
                    0 <= a < post.ready.len() && 0 <= b < post.ready.len() && a != b implies
                    post.ready[a] != post.ready[b] by {
                    let a0 = if a < i {
                        a
                    } else {
                        a + 1
                    };
                    let b0 = if b < i {
                        b
                    } else {
                        b + 1
                    };
                    assert(post.ready[a] == pre.ready[a0]);
                    assert(post.ready[b] == pre.ready[b0]);
                }
            },
            None => {
                assert(post.ready =~= pre.ready);
                assert forall|k: int| 0 <= k < post.ready.len() implies post.contains(
                    #[trigger] post.ready[k],
                ) && post.process(post.ready[k]).state == ProcessState::Ready by {
                    assert(pre.contains(pre.ready[k]));
                    assert(pre.ready.contains(pre.ready[k]));
                }
            },
        }
    }

    /// The id of the process that has the processor, if any.
    pub fn current_pid(&self) -> (pid: Option<u32>)
        ensures
            pid == self@.current,
    {
        self.current_pid
    }

    /// How many processes were ever created.
    pub fn process_count(&self) -> (count: usize)
        ensures
            count == self@.processes.len(),
    {
        self.processes.len()
    }
}

/// Creates the process table.
pub fn init() -> (pm: ProcessManager)
    ensures
        pm@ == ProcessTable::empty(),
        pm@.wf(),
{
    ProcessManager::new()
}

/// Creates a process in the table `pm`.
pub fn create_process(pm: &mut ProcessManager, entry_point: u64, stack_size: u64) -> (r: Result<
    u32,
    KernelError,
>)
    requires
        old(pm)@.wf(),
    ensures
        final(pm)@.wf(),
        r == old(pm)@.create_result(stack_size),
        final(pm)@ == old(pm)@.after_create(entry_point, stack_size),
{
    pm.create_process(entry_point, stack_size)
}

/// What has to be installed after the scheduler of `table` answered `next`.
pub open spec fn switch_to(table: ProcessTable, next: Option<u32>) -> Option<ContextSwitch> {
    match next {
        Some(pid) => if table.contains(pid) {
            Some(ContextSwitch { pid, page_table: table.process(pid).page_table })
        } else {
            None
        },
        None => None,
    }
}

/// Runs the scheduler of `pm` and answers the process to switch to with
/// its address-space handle, which the caller installs.
pub fn schedule(pm: &mut ProcessManager) -> (switch: Option<ContextSwitch>)
    requires
        old(pm)@.wf(),
    ensures
        final(pm)@.wf(),
        final(pm)@ == old(pm)@.after_schedule(),
        switch == switch_to(final(pm)@, old(pm)@.scheduled()),
{
    match pm.schedule() {
        Some(pid) => match pm.get_process(pid) {
            Some(process) => Some(ContextSwitch { pid, page_table: process.page_table }),
            None => None,
        },
        None => None,
    }
}

/// Terminates the current process of `pm`.
pub fn terminate_current_process(pm: &mut ProcessManager) -> (r: Result<(), KernelError>)
    requires
        old(pm)@.wf(),
    ensures
        final(pm)@.wf(),
        r == old(pm)@.exec_result(),
        final(pm)@ == if old(pm)@.current is Some {
            old(pm)@.after_terminate(old(pm)@.current->Some_0)
        } else {
            old(pm)@
        },
{
    match pm.current_pid() {
        Some(pid) => pm.terminate_process(pid),
        None => Err(KernelError::NotFound),
    }
}

/// The id of the current process of `pm`, if any.
pub fn get_current_pid(pm: &ProcessManager) -> (pid: Option<u32>)
    ensures
        pid == pm@.current,
{
    pm.current_pid()
}

/// Forking is not offered: the answer is always 0.
pub fn sys_fork() -> (pid: u32)
    ensures
        pid == 0,
{
    0
}

/// Replaces the program of the current process of `pm`: it starts over at
/// `entry_point` with cleared registers.
pub fn sys_exec(pm: &mut ProcessManager, entry_point: u64) -> (r: Result<(), KernelError>)
    requires
        old(pm)@.wf(),
    ensures
        final(pm)@.wf(),
        r == old(pm)@.exec_result(),
        final(pm)@ == old(pm)@.after_exec(entry_point),
{
    let ghost pre = pm@;
    match pm.current_pid {
        Some(pid) => {
            let index = (pid - 1) as usize;
            pm.processes[index].entry_point = entry_point;
            pm.processes[index].registers = [0u64;31];
            assert(pm.processes@[index as int]@.registers =~= Seq::new(
                REGISTER_COUNT as nat,
                |i: int| 0u64,
            ));
            assert(pm@.processes =~= pre.after_exec(entry_point).processes);
            Ok(())
        },
        None => Err(KernelError::NotFound),
    }
}

/// Ends the current process of `pm` and runs the scheduler. The answer is
/// the process to switch to; the exited process must not be resumed.
pub fn sys_exit(pm: &mut ProcessManager, _exit_code: i32) -> (switch: Option<ContextSwitch>)
    requires
        old(pm)@.wf(),
    ensures
        final(pm)@.wf(),
        final(pm)@ == old(pm)@.after_exit(),
        switch == if old(pm)@.current is Some {
            switch_to(
                final(pm)@,
                old(pm)@.after_terminate(old(pm)@.current->Some_0).scheduled(),
            )
        } else {
            None
        },
{
    match terminate_current_process(pm) {
        Ok(()) => self::schedule(pm),
        Err(_) => None,
    }
}

/// One step in the life of the process table.
pub enum ProcessOp {
    Create { entry_point: u64, stack_size: u64 },
    Schedule,
    Terminate { pid: u32 },
    Exec { entry_point: u64 },
    Exit,
}

impl ProcessTable {
    /// The table after the step `op`.
    pub open spec fn apply(self, op: ProcessOp) -> ProcessTable {
        match op {
            ProcessOp::Create { entry_point, stack_size } => self.after_create(
                entry_point,
                stack_size,
            ),
            ProcessOp::Schedule => self.after_schedule(),
            ProcessOp::Terminate { pid } => self.after_terminate(pid),
            ProcessOp::Exec { entry_point } => self.after_exec(entry_point),
            ProcessOp::Exit => self.after_exit(),
        }
    }

    /// The table after the steps `ops`, in order.
    pub open spec fn apply_all(self, ops: Seq<ProcessOp>) -> ProcessTable
        decreases ops.len(),
    {
        if ops.len() == 0 {
            self
        } else {
            self.apply_all(ops.drop_last()).apply(ops.last())
        }
    }

    /// The ids that the successful creations among the steps `ops` hand
    /// out, in order.
    pub open spec fn issued(self, ops: Seq<ProcessOp>) -> Seq<u32>
        decreases ops.len(),
    {
        if ops.len() == 0 {
            Seq::empty()
        } else {
            let before = self.issued(ops.drop_last());
            let table = self.apply_all(ops.drop_last());
            match ops.last() {
                ProcessOp::Create { entry_point, stack_size } => match table.create_result(
                    stack_size,
                ) {
                    Ok(pid) => before.push(pid),
                    Err(_) => before,
                },
                _ => before,
            }
        }
    }

    /// The table after `n` calls of the scheduler.
    pub open spec fn after_schedules(self, n: nat) -> ProcessTable
        decreases n,
    {
        if n == 0 {
            self
        } else {
            self.after_schedules((n - 1) as nat).after_schedule()
        }
    }

    /// Nobody is blocked or terminated, every ready process waits in the
    /// queue, and the current process is running.
    pub open spec fn all_take_turns(self) -> bool {
        &&& self.current_is_running()
        &&& forall|i: int|
            0 <= i < self.processes.len() ==> {
                let p = #[trigger] self.processes[i];
                &&& p.state == ProcessState::Ready || p.state == ProcessState::Running
                &&& p.state == ProcessState::Ready ==> self.ready.contains(p.pid)
            }
    }

    /// The queue with the current process behind it: the order of the
    /// turns to come.
    pub open spec fn turn_order(self) -> Seq<u32> {
        self.ready.push(self.current->Some_0)
    }
}

/// `order` turned by `k` places: what was at place `k` comes first.
pub open spec fn rotated(order: Seq<u32>, k: int) -> Seq<u32> {
    order.skip(k) + order.take(k)
}

/// Every step keeps the invariant of the table, and no step takes the id
/// counter back.
pub proof fn lemma_step_keeps_invariant(table: ProcessTable, op: ProcessOp)
    requires
        table.wf(),
    ensures
        table.apply(op).wf(),
        table.apply(op).next_pid >= table.next_pid,
{
    match op {
        ProcessOp::Create { entry_point, stack_size } => {
            if table.create_result(stack_size) is Ok {
                ProcessManager::lemma_create_wf(table, entry_point, stack_size);
            }
        },
        ProcessOp::Schedule => {
            ProcessManager::lemma_schedule_wf(table);
        },
        ProcessOp::Terminate { pid } => {
            if table.contains(pid) {
                ProcessManager::lemma_terminate_wf(table, pid);
            }
        },
        ProcessOp::Exec { entry_point } => {
            lemma_exec_wf(table, entry_point);
        },
        ProcessOp::Exit => {
            if table.current is Some {
                ProcessManager::lemma_terminate_wf(table, table.current->Some_0);
                ProcessManager::lemma_schedule_wf(table.after_terminate(table.current->Some_0));
            }
        },
    }
}

/// Terminated is final: whatever is done with the table, a process that
/// is terminated stays terminated, and it keeps its id.
pub proof fn lemma_terminated_stays_terminated(table: ProcessTable, op: ProcessOp, pid: u32)
    requires
        table.wf(),
        table.contains(pid),
        table.process(pid).state == ProcessState::Terminated,
    ensures
        table.apply(op).contains(pid),
        table.apply(op).process(pid).state == ProcessState::Terminated,
        table.apply(op).process(pid).pid == pid,
{
    lemma_step_keeps_invariant(table, op);
    assert forall|k: int| 0 <= k < table.ready.len() implies table.ready[k] != pid by {
        assert(table.contains(table.ready[k]));
    }
    match op {
        ProcessOp::Terminate { pid: other } => {
            table.ready.index_of_first_ensures(other);
        },
        ProcessOp::Exit => {
            if table.current is Some {
                let other = table.current->Some_0;
                table.ready.index_of_first_ensures(other);
                let mid = table.after_terminate(other);
                ProcessManager::lemma_terminate_wf(table, other);
                assert(mid.process(pid).state == ProcessState::Terminated);
                assert forall|k: int| 0 <= k < mid.ready.len() implies mid.ready[k] != pid by {
                    assert(mid.contains(mid.ready[k]));
                }
            }
        },
        _ => {},
    }
}

proof fn lemma_exec_wf(table: ProcessTable, entry_point: u64)
    requires
        table.wf(),
    ensures
        table.after_exec(entry_point).wf(),
{
    let post = table.after_exec(entry_point);
    if table.current is Some {
        assert forall|k: int| 0 <= k < post.ready.len() implies post.contains(
            #[trigger] post.ready[k],
        ) && post.process(post.ready[k]).state == ProcessState::Ready by {
            assert(table.contains(table.ready[k]));
        }
    }
}

/// Whatever is done with the table, the ids that `create_process` hands
/// out grow strictly from one creation to the next, so that no id is
/// ever handed out twice; and all of them lie between the id counter
/// before the steps and the id counter after them.
pub proof fn lemma_pids_strictly_increase(table: ProcessTable, ops: Seq<ProcessOp>)
    requires
        table.wf(),
    ensures
        table.apply_all(ops).wf(),
        table.apply_all(ops).next_pid >= table.next_pid,
        forall|i: int, j: int|
            0 <= i < j < table.issued(ops).len() ==> table.issued(ops)[i] < table.issued(ops)[j],
        forall|i: int|
            0 <= i < table.issued(ops).len() ==> table.next_pid <= #[trigger] table.issued(ops)[i]
                < table.apply_all(ops).next_pid,
        table.issued(ops).no_duplicates(),
    decreases ops.len(),
{
    if ops.len() > 0 {
        let before = ops.drop_last();
        lemma_pids_strictly_increase(table, before);
        let mid = table.apply_all(before);
        lemma_step_keeps_invariant(mid, ops.last());
    }
}

proof fn lemma_one_turn(table: ProcessTable)
    requires
        table.wf(),
        table.current_is_running(),
    ensures
        table.after_schedule().wf(),
        table.after_schedule().current_is_running(),
        table.scheduled() == Some(table.turn_order()[0]),
        table.after_schedule().turn_order() == rotated(table.turn_order(), 1),
        table.after_schedule().processes.len() == table.processes.len(),
{
    ProcessManager::lemma_schedule_wf(table);
    let order = table.turn_order();
    if table.ready.len() == 0 {
        assert(rotated(order, 1) =~= order);
    } else {
        assert(table.contains(table.ready[0]));
        assert(table.after_schedule().turn_order() =~= rotated(order, 1));
    }
}

proof fn lemma_turns(table: ProcessTable, k: nat)
    requires
        table.wf(),
        table.current_is_running(),
        k <= table.turn_order().len(),
    ensures
        table.after_schedules(k).wf(),
        table.after_schedules(k).current_is_running(),
        table.after_schedules(k).turn_order() == rotated(table.turn_order(), k as int),
    decreases k,
{
    let order = table.turn_order();
    if k == 0 {
        assert(rotated(order, 0) =~= order);
    } else {
        lemma_turns(table, (k - 1) as nat);
        let mid = table.after_schedules((k - 1) as nat);
        lemma_one_turn(mid);
        assert(rotated(rotated(order, k - 1), 1) =~= rotated(order, k as int));
    }
}

/// The ids from 1 to `n`.
pub open spec fn pid_range(n: nat) -> Set<u32> {
    Set::new(|pid: u32| 1 <= pid <= n)
}

proof fn lemma_pid_range_len(n: nat)
    requires
        n <= u32::MAX,
    ensures
        pid_range(n).finite(),
        pid_range(n).len() == n,
    decreases n,
{
    if n == 0 {
        assert(pid_range(n) =~= Set::<u32>::empty());
    } else {
        lemma_pid_range_len((n - 1) as nat);
        assert(pid_range(n) =~= pid_range((n - 1) as nat).insert(n as u32));
    }
}

/// Fair round robin. Where nobody is blocked or terminated, the calls of
/// the scheduler that follow answer the waiting processes in the order of
/// the queue and then the process that was running; these are as many
/// calls as there are processes, they name every process of the table
/// exactly once before any is named again, and after that round the
/// queue and the current process are as before.
pub proof fn lemma_round_robin(table: ProcessTable)
    requires
        table.wf(),
        table.all_take_turns(),
    ensures
        table.turn_order().len() == table.processes.len(),
        table.turn_order().no_duplicates(),
        forall|pid: u32| table.contains(pid) <==> table.turn_order().contains(pid),
        forall|k: nat|
            k < table.turn_order().len() ==> (#[trigger] table.after_schedules(k)).scheduled()
                == Some(table.turn_order()[k as int]),
        table.after_schedules(table.turn_order().len()).ready == table.ready,
        table.after_schedules(table.turn_order().len()).current == table.current,
{
    let order = table.turn_order();
    let current = table.current->Some_0;
    assert forall|a: int, b: int| 0 <= a < order.len() && 0 <= b < order.len() && a != b implies
        order[a] != order[b] by {
        if a < table.ready.len() {
            assert(table.contains(table.ready[a]));
        }
        if b < table.ready.len() {
            assert(table.contains(table.ready[b]));
        }
    }
    assert forall|pid: u32| table.contains(pid) <==> order.contains(pid) by {
        if table.contains(pid) {
            let p = table.processes[pid - 1];
            if p.state == ProcessState::Ready {
                let i = choose|i: int| 0 <= i < table.ready.len() && table.ready[i] == pid;
                assert(order[i] == pid);
            } else {
                assert(order[table.ready.len() as int] == pid);
            }
        }
        if order.contains(pid) {
            let i = choose|i: int| 0 <= i < order.len() && order[i] == pid;
            if i < table.ready.len() {
                assert(table.contains(table.ready[i]));
            }
        }
    }
    assert forall|k: nat| k < order.len() implies (#[trigger] table.after_schedules(
        k,
    )).scheduled() == Some(order[k as int]) by {
        lemma_turns(table, k);
        lemma_one_turn(table.after_schedules(k));
    }
    assert(order.len() == table.processes.len()) by {
        lemma_pid_range_len(table.processes.len());
        assert(order.to_set() =~= pid_range(table.processes.len()));
        order.unique_seq_to_set();
    }
    lemma_turns(table, order.len());
    let last = table.after_schedules(order.len());
    assert(rotated(order, order.len() as int) =~= order);
    assert(last.ready =~= last.turn_order().drop_last());
    assert(table.ready =~= order.drop_last());
    assert(last.turn_order().last() == order.last());
}

} // verus!
