//! The system-call dispatcher: the one entry point through which requests
//! reach the process table, the file table, the pipe registry and the page
//! allocator. Every failure leaves as the same all-ones word.
//!
//! The dispatcher never follows an address. Whoever takes the trap hands
//! over the memory that a pointer argument refers to: `memory` for the
//! buffer of `read` and `write` and for the path of `open`, `pipefd` for
//! the two words of `pipe`.

use crate::error::KernelError;
use crate::fs::{FileSystem, FsState};
use crate::ipc::{IPCManager, IpcState};
use crate::memory::{after_allocation, allocation_result, PageAllocator};
use crate::process::{ProcessManager, ProcessTable};
use crate::uart::Uart;
use vstd::prelude::*;
use vstd::string::StringSliceAdditionalSpecFns;

verus! {

pub const SYS_READ: u64 = 0;

pub const SYS_WRITE: u64 = 1;

pub const SYS_OPEN: u64 = 2;

pub const SYS_CLOSE: u64 = 3;

pub const SYS_MMAP: u64 = 9;

pub const SYS_MUNMAP: u64 = 11;

pub const SYS_PIPE: u64 = 22;

pub const SYS_DUP: u64 = 32;

pub const SYS_DUP2: u64 = 33;

pub const SYS_GETPID: u64 = 39;

pub const SYS_FORK: u64 = 57;

pub const SYS_EXECVE: u64 = 59;

pub const SYS_EXIT: u64 = 60;

/// The word that every failed call returns: all ones, which reads as -1.
pub const SYSCALL_ERROR: u64 = 0xffffffffffffffff;

/// Whether `num` is the number of a system call.
pub open spec fn is_known_syscall(num: u64) -> bool {
    num == SYS_READ || num == SYS_WRITE || num == SYS_OPEN || num == SYS_CLOSE || num == SYS_MMAP
        || num == SYS_MUNMAP || num == SYS_PIPE || num == SYS_DUP || num == SYS_DUP2 || num
        == SYS_GETPID || num == SYS_FORK || num == SYS_EXECVE || num == SYS_EXIT
}

/// The return word for a byte count.
pub open spec fn count_word(r: Result<usize, KernelError>) -> u64 {
    match r {
        Ok(n) => n as u64,
        Err(_) => SYSCALL_ERROR,
    }
}

/// The return word for a descriptor.
pub open spec fn fd_word(r: Result<i32, KernelError>) -> u64 {
    match r {
        Ok(fd) => fd as u64,
        Err(_) => SYSCALL_ERROR,
    }
}

/// The return word for a call that has nothing to hand back.
pub open spec fn unit_word(r: Result<(), KernelError>) -> u64 {
    match r {
        Ok(_) => 0,
        Err(_) => SYSCALL_ERROR,
    }
}

/// The return word for an address.
pub open spec fn address_word(r: Result<u64, KernelError>) -> u64 {
    match r {
        Ok(addr) => addr,
        Err(_) => SYSCALL_ERROR,
    }
}

/// A length argument as a length of this machine: what does not fit is
/// the largest length there is.
pub open spec fn clip_length(word: u64) -> usize {
    if word > usize::MAX {
        usize::MAX
    } else {
        word as usize
    }
}

/// How much of the memory handed over a call may use: what it asks for,
/// and never more than there is.
pub open spec fn window(count: u64, available: nat) -> nat {
    if count <= available {
        count as nat
    } else {
        available
    }
}

/// The decimal digits of `n` as ASCII, most significant first.
pub open spec fn decimal_digits(n: nat) -> Seq<u8>
    decreases n,
{
    if n < 10 {
        seq![(48 + n) as u8]
    } else {
        decimal_digits(n / 10).push((48 + n % 10) as u8)
    }
}

/// What the console is told about a call with the unknown number `num`.
pub open spec fn unknown_syscall_message(num: u64) -> Seq<u8> {
    "Unknown system call: ".spec_bytes() + decimal_digits(num as nat) + seq![10u8]
}

/// The bytes of `memory` before its first zero byte, if it has one.
pub open spec fn c_string(memory: Seq<u8>) -> Option<Seq<u8>>
    decreases memory.len(),
{
    if memory.len() == 0 {
        None
    } else if memory[0] == 0 {
        Some(Seq::empty())
    } else {
        match c_string(memory.skip(1)) {
            Some(rest) => Some(seq![memory[0]] + rest),
            None => None,
        }
    }
}

/// The path that `memory` holds: the text of its bytes up to the first
/// zero byte, if there is one and the bytes before it are UTF-8.
pub open spec fn c_path(memory: Seq<u8>) -> Option<Seq<char>> {
    match c_string(memory) {
        Some(bytes) => if vstd::utf8::valid_utf8(bytes) {
            Some(vstd::utf8::decode_utf8(bytes))
        } else {
            None
        },
        None => None,
    }
}

/// The abstract state of the kernel.
pub struct KernelState {
    pub processes: ProcessTable,
    pub files: FsState,
    pub pipes: IpcState,
    /// The next free address of the page allocator.
    pub pages: u64,
    /// Everything sent to the console and not yet drained.
    pub console: Seq<u8>,
}

impl KernelState {
    /// Every table satisfies its invariant.
    pub open spec fn wf(self) -> bool {
        &&& self.processes.wf()
        &&& self.files.wf()
        &&& self.pipes.wf()
        &&& self.pages % crate::memory::PAGE_SIZE == 0
    }

    /// The word that `read` returns.
    pub open spec fn read_word(self, fd: i32, want: nat) -> u64 {
        count_word(self.files.read_result(self.pipes, fd, want))
    }

    /// The kernel after `read`.
    pub open spec fn after_read(self, fd: i32, want: nat) -> KernelState {
        KernelState {
            files: self.files.after_read(fd, want),
            pipes: self.files.ipc_after_read(self.pipes, fd, want),
            ..self
        }
    }

    /// The word that `write` returns.
    pub open spec fn write_word(self, fd: i32, data: Seq<u8>) -> u64 {
        count_word(self.files.write_result(self.pipes, fd, data))
    }

    /// The kernel after `write`.
    pub open spec fn after_write(self, fd: i32, data: Seq<u8>) -> KernelState {
        KernelState {
            files: self.files.after_write(fd, data),
            pipes: self.files.ipc_after_write(self.pipes, fd, data),
            console: self.console + self.files.console_output(fd, data),
            ..self
        }
    }

    /// The word that `open` returns.
    pub open spec fn open_word(self, memory: Seq<u8>, flags: i32) -> u64 {
        match c_path(memory) {
            Some(path) => fd_word(self.files.open_result(path, flags)),
            None => SYSCALL_ERROR,
        }
    }

    /// The kernel after `open`.
    pub open spec fn after_open(self, memory: Seq<u8>, flags: i32) -> KernelState {
        match c_path(memory) {
            Some(path) => KernelState { files: self.files.after_open(path, flags), ..self },
            None => self,
        }
    }

    /// The kernel after `pipe`.
    pub open spec fn after_pipe(self) -> KernelState {
        if self.pipes.can_create(self.files) {
            KernelState {
                pipes: self.pipes.after_create(),
                files: self.files.after_pipe_fds(self.pipes.next_pipe_id),
                ..self
            }
        } else {
            self
        }
    }

    /// The two words that `pipe` stores for its caller.
    pub open spec fn pipe_words(self, pipefd: Seq<i32>) -> Seq<i32> {
        match self.pipes.create_result(self.files) {
            Ok((read_fd, write_fd)) => seq![read_fd, write_fd],
            Err(_) => pipefd,
        }
    }

    /// The word that `getpid` returns.
    pub open spec fn pid_word(self) -> u64 {
        match self.processes.current {
            Some(pid) => pid as u64,
            None => 0,
        }
    }

    /// The word that the call `num` returns.
    pub open spec fn syscall_return(
        self,
        num: u64,
        arg1: u64,
        arg2: u64,
        arg3: u64,
        memory: Seq<u8>,
    ) -> u64 {
        if num == SYS_READ {
            self.read_word(arg1 as i32, window(arg3, memory.len()))
        } else if num == SYS_WRITE {
            self.write_word(arg1 as i32, memory.take(window(arg3, memory.len()) as int))
        } else if num == SYS_OPEN {
            self.open_word(memory, arg2 as i32)
        } else if num == SYS_CLOSE {
            unit_word(self.files.close_result(arg1 as i32))
        } else if num == SYS_EXIT {
            0
        } else if num == SYS_FORK {
            0
        } else if num == SYS_EXECVE {
            unit_word(self.processes.exec_result())
        } else if num == SYS_GETPID {
            self.pid_word()
        } else if num == SYS_PIPE {
            unit_word(
                match self.pipes.create_result(self.files) {
                    Ok(_) => Ok(()),
                    Err(e) => Err(e),
                },
            )
        } else if num == SYS_DUP {
            fd_word(self.files.duplicate_result(arg1 as i32))
        } else if num == SYS_DUP2 {
            fd_word(self.files.duplicate_to_result(arg1 as i32, arg2 as i32))
        } else if num == SYS_MMAP {
            address_word(allocation_result(self.pages, clip_length(arg2)))
        } else if num == SYS_MUNMAP {
            0
        } else {
            SYSCALL_ERROR
        }
    }

    /// The kernel after the call `num`. A call with an unknown number
    /// leaves every table as it is and tells the console.
    pub open spec fn after_syscall(
        self,
        num: u64,
        arg1: u64,
        arg2: u64,
        arg3: u64,
        memory: Seq<u8>,
    ) -> KernelState {
        if num == SYS_READ {
            self.after_read(arg1 as i32, window(arg3, memory.len()))
        } else if num == SYS_WRITE {
            self.after_write(arg1 as i32, memory.take(window(arg3, memory.len()) as int))
        } else if num == SYS_OPEN {
            self.after_open(memory, arg2 as i32)
        } else if num == SYS_CLOSE {
            KernelState { files: self.files.after_close(arg1 as i32), ..self }
        } else if num == SYS_EXIT {
            KernelState { processes: self.processes.after_exit(), ..self }
        } else if num == SYS_EXECVE {
            KernelState { processes: self.processes.after_exec(arg1), ..self }
        } else if num == SYS_PIPE {
            self.after_pipe()
        } else if num == SYS_DUP {
            KernelState { files: self.files.after_duplicate(arg1 as i32), ..self }
        } else if num == SYS_DUP2 {
            KernelState {
                files: self.files.after_duplicate_to(arg1 as i32, arg2 as i32),
                ..self
            }
        } else if num == SYS_MMAP {
            KernelState { pages: after_allocation(self.pages, clip_length(arg2)), ..self }
        } else if is_known_syscall(num) {
            self
        } else {
            KernelState { console: self.console + unknown_syscall_message(num), ..self }
        }
    }

    /// The memory handed over, after the call `num`: `read` has put what
    /// it read at the front, and no other call writes to it.
    pub open spec fn memory_after_syscall(
        self,
        num: u64,
        arg1: u64,
        arg3: u64,
        memory: Seq<u8>,
    ) -> Seq<u8> {
        if num == SYS_READ {
            let bytes = self.files.read_bytes(
                self.pipes,
                arg1 as i32,
                window(arg3, memory.len()),
            );
            bytes + memory.skip(bytes.len() as int)
        } else {
            memory
        }
    }
}

/// Everything the kernel core owns.
pub struct Kernel {
    pub processes: ProcessManager,
    pub files: FileSystem,
    pub pipes: IPCManager,
    pub pages: PageAllocator,
    pub console: Uart,
}

impl View for Kernel {
    type V = KernelState;

    open spec fn view(&self) -> KernelState {
        KernelState {
            processes: self.processes@,
            files: self.files@,
            pipes: self.pipes@,
            pages: self.pages@,
            console: self.console@,
        }
    }
}

impl Kernel {
    /// A kernel with empty tables and the standard descriptors.
    pub fn new() -> (kernel: Kernel)
        ensures
            kernel@.wf(),
            kernel@.processes == ProcessTable::empty(),
            kernel@.files == FsState::initial(),
            kernel@.pipes == IpcState::empty(),
            kernel@.pages == crate::memory::PAGE_POOL_BASE,
            kernel@.console == Seq::<u8>::empty(),
    {
        Kernel {
            processes: crate::process::init(),
            files: crate::fs::init(),
            pipes: crate::ipc::init(),
            pages: crate::memory::init(),
            console: crate::uart::init(),
        }
    }
}

/// Creates the kernel.
pub fn init() -> (kernel: Kernel)
    ensures
        kernel@.wf(),
        kernel@.processes == ProcessTable::empty(),
        kernel@.files == FsState::initial(),
        kernel@.pipes == IpcState::empty(),
        kernel@.pages == crate::memory::PAGE_POOL_BASE,
        kernel@.console == Seq::<u8>::empty(),
{
    Kernel::new()
}

/// Decodes `bytes` with `core::str::from_utf8` of the standard library:
/// the text is handed out exactly where the bytes are well-formed UTF-8,
/// and then it is the text that these bytes encode.
#[verifier::external_body]
fn str_from_utf8(bytes: &[u8]) -> (text: Option<&str>)
    ensures
        text is Some <==> vstd::utf8::valid_utf8(bytes@),
        text is Some ==> text->Some_0@ == vstd::utf8::decode_utf8(bytes@),
{
    match core::str::from_utf8(bytes) {
        Ok(text) => Some(text),
        Err(_) => None,
    }
}

/// How many bytes of `memory` stand before its first zero byte.
pub fn c_string_length(memory: &[u8]) -> (len: Option<usize>)
    ensures
        match len {
            Some(n) => n < memory@.len() && c_string(memory@) == Some(memory@.take(n as int)),
            None => c_string(memory@) is None,
        },
{
    let mut i: usize = 0;
    assert(memory@.skip(0) =~= memory@);
    while i < memory.len()
        invariant
            i <= memory@.len(),
            forall|k: int| 0 <= k < i ==> memory@[k] != 0,
        decreases memory@.len() - i,
    {
        if memory[i] == 0 {
            proof {
                lemma_c_string_found(memory@, i as int);
            }
            return Some(i);
        }
        i += 1;
    }
    proof {
        lemma_c_string_missing(memory@);
    }
    None
}

proof fn lemma_c_string_found(memory: Seq<u8>, n: int)
    requires
        0 <= n < memory.len(),
        memory[n] == 0,
        forall|k: int| 0 <= k < n ==> memory[k] != 0,
    ensures
        c_string(memory) == Some(memory.take(n)),
    decreases n,
{
    if n == 0 {
        assert(memory.take(0) =~= Seq::<u8>::empty());
    } else {
        let rest = memory.skip(1);
        assert forall|k: int| 0 <= k < n - 1 implies rest[k] != 0 by {
            assert(rest[k] == memory[k + 1]);
        }
        lemma_c_string_found(rest, n - 1);
        assert(seq![memory[0]] + rest.take(n - 1) =~= memory.take(n));
    }
}

proof fn lemma_c_string_missing(memory: Seq<u8>)
    requires
        forall|k: int| 0 <= k < memory.len() ==> memory[k] != 0,
    ensures
        c_string(memory) is None,
    decreases memory.len(),
{
    if memory.len() > 0 {
        let rest = memory.skip(1);
        assert forall|k: int| 0 <= k < rest.len() implies rest[k] != 0 by {
            assert(rest[k] == memory[k + 1]);
        }
        lemma_c_string_missing(rest);
    }
}

/// A length argument as a length of this machine.
pub fn length_of(word: u64) -> (len: usize)
    ensures
        len == clip_length(word),
{
    if word > usize::MAX as u64 {
        usize::MAX
    } else {
        word as usize
    }
}

/// Sends the decimal digits of `n` to the console.
pub fn write_decimal(console: &mut Uart, n: u64)
    ensures
        final(console)@ == old(console)@ + decimal_digits(n as nat),
        final(console).spec_base_address() == old(console).spec_base_address(),
    decreases n,
{
    if n < 10 {
        console.write_byte(48 + n as u8);
        assert(console@ =~= old(console)@ + decimal_digits(n as nat));
    } else {
        write_decimal(console, n / 10);
        console.write_byte(48 + (n % 10) as u8);
        assert(console@ =~= old(console)@ + decimal_digits(n as nat));
    }
}

/// `read`: reads from `fd` into the front of `buf`.
pub fn sys_read(kernel: &mut Kernel, fd: i32, buf: &mut [u8]) -> (ret: u64)
    requires
        old(kernel)@.wf(),
    ensures
        final(kernel)@.wf(),
        ret == old(kernel)@.read_word(fd, old(buf)@.len()),
        final(kernel)@ == old(kernel)@.after_read(fd, old(buf)@.len()),
        final(buf)@ == old(kernel)@.files.read_bytes(old(kernel)@.pipes, fd, old(buf)@.len())
            + old(buf)@.skip(
            old(kernel)@.files.read_bytes(old(kernel)@.pipes, fd, old(buf)@.len()).len() as int,
        ),
        final(kernel).console == old(kernel).console,
{
    match crate::fs::read(&mut kernel.files, &mut kernel.pipes, fd, buf) {
        Ok(bytes_read) => bytes_read as u64,
        Err(_) => SYSCALL_ERROR,
    }
}

/// `write`: writes `buf` through `fd`.
pub fn sys_write(kernel: &mut Kernel, fd: i32, buf: &[u8]) -> (ret: u64)
    requires
        old(kernel)@.wf(),
    ensures
        final(kernel)@.wf(),
        ret == old(kernel)@.write_word(fd, buf@),
        final(kernel)@ == old(kernel)@.after_write(fd, buf@),
        final(kernel).console.spec_base_address() == old(kernel).console.spec_base_address(),
{
    match crate::fs::write(&mut kernel.files, &mut kernel.pipes, &mut kernel.console, fd, buf) {
        Ok(bytes_written) => bytes_written as u64,
        Err(_) => SYSCALL_ERROR,
    }
}

/// `open`: opens the path that stands in `memory` before its first zero
/// byte. Memory without a zero byte, or with a path that is not UTF-8,
/// is refused.
pub fn sys_open(kernel: &mut Kernel, memory: &[u8], flags: i32, mode: u32) -> (ret: u64)
    requires
        old(kernel)@.wf(),
    ensures
        final(kernel)@.wf(),
        ret == old(kernel)@.open_word(memory@, flags),
        final(kernel)@ == old(kernel)@.after_open(memory@, flags),
        final(kernel).console == old(kernel).console,
{
    let len = match c_string_length(memory) {
        Some(len) => len,
        None => {
            return SYSCALL_ERROR;
        },
    };
    let bytes = vstd::slice::slice_subrange(memory, 0, len);
    assert(bytes@ =~= memory@.take(len as int));
    let path = match str_from_utf8(bytes) {
        Some(path) => path,
        None => {
            return SYSCALL_ERROR;
        },
    };
    match crate::fs::open(&mut kernel.files, path, flags, mode) {
        Ok(fd) => #[verifier::truncate]
        (fd as u64),
        Err(_) => SYSCALL_ERROR,
    }
}

/// `close`: closes `fd`.
pub fn sys_close(kernel: &mut Kernel, fd: i32) -> (ret: u64)
    requires
        old(kernel)@.wf(),
    ensures
        final(kernel)@.wf(),
        ret == unit_word(old(kernel)@.files.close_result(fd)),
        final(kernel)@ == (KernelState { files: old(kernel)@.files.after_close(fd), ..old(kernel)@ }),
        final(kernel).console == old(kernel).console,
{
    match crate::fs::close(&mut kernel.files, fd) {
        Ok(_) => 0,
        Err(_) => SYSCALL_ERROR,
    }
}

/// `pipe`: creates a pipe and stores the descriptor of its read end and
/// that of its write end in `pipefd`.
pub fn sys_pipe(kernel: &mut Kernel, pipefd: &mut [i32; 2]) -> (ret: u64)
    requires
        old(kernel)@.wf(),
    ensures
        final(kernel)@.wf(),
        ret == if old(kernel)@.pipes.can_create(old(kernel)@.files) {
            0
        } else {
            SYSCALL_ERROR
        },
        final(kernel)@ == old(kernel)@.after_pipe(),
        final(pipefd)@ == old(kernel)@.pipe_words(old(pipefd)@),
        final(kernel).console == old(kernel).console,
{
    match crate::ipc::create_pipe(&mut kernel.pipes, &mut kernel.files) {
        Ok((read_fd, write_fd)) => {
            pipefd[0] = read_fd;
            pipefd[1] = write_fd;
            assert(pipefd@ =~= seq![read_fd, write_fd]);
            0
        },
        Err(_) => SYSCALL_ERROR,
    }
}

/// `dup`: binds the next free descriptor to what `fd` is bound to.
pub fn sys_dup(kernel: &mut Kernel, fd: i32) -> (ret: u64)
    requires
        old(kernel)@.wf(),
    ensures
        final(kernel)@.wf(),
        ret == fd_word(old(kernel)@.files.duplicate_result(fd)),
        final(kernel)@ == (KernelState {
            files: old(kernel)@.files.after_duplicate(fd),
            ..old(kernel)@
        }),
        final(kernel).console == old(kernel).console,
{
    match crate::fs::duplicate_fd(&mut kernel.files, fd) {
        Ok(new_fd) => #[verifier::truncate]
        (new_fd as u64),
        Err(_) => SYSCALL_ERROR,
    }
}

/// `dup2`: binds `newfd` to what `oldfd` is bound to.
pub fn sys_dup2(kernel: &mut Kernel, oldfd: i32, newfd: i32) -> (ret: u64)
    requires
        old(kernel)@.wf(),
    ensures
        final(kernel)@.wf(),
        ret == fd_word(old(kernel)@.files.duplicate_to_result(oldfd, newfd)),
        final(kernel)@ == (KernelState {
            files: old(kernel)@.files.after_duplicate_to(oldfd, newfd),
            ..old(kernel)@
        }),
        final(kernel).console == old(kernel).console,
{
    match crate::fs::duplicate_fd_to(&mut kernel.files, oldfd, newfd) {
        Ok(fd) => #[verifier::truncate]
        (fd as u64),
        Err(_) => SYSCALL_ERROR,
    }
}

/// `mmap`: hands out fresh pages for `length` bytes. The address hint, the
/// protection, the flags, the descriptor and the offset play no part.
pub fn sys_mmap(
    kernel: &mut Kernel,
    _addr: u64,
    length: usize,
    _prot: i32,
    _flags: i32,
    _fd: i32,
    _offset: i64,
) -> (ret: u64)
    requires
        old(kernel)@.wf(),
    ensures
        final(kernel)@.wf(),
        ret == address_word(allocation_result(old(kernel)@.pages, length)),
        final(kernel)@ == (KernelState {
            pages: after_allocation(old(kernel)@.pages, length),
            ..old(kernel)@
        }),
        final(kernel).console == old(kernel).console,
{
    match crate::memory::allocate_pages(&mut kernel.pages, length) {
        Ok(allocated_addr) => allocated_addr,
        Err(_) => SYSCALL_ERROR,
    }
}

/// `munmap`: accepts the pages back; memory is never reused.
pub fn sys_munmap(addr: u64, length: usize) -> (ret: u64)
    ensures
        ret == 0,
{
    match crate::memory::deallocate_pages(addr, length) {
        Ok(_) => 0,
        Err(_) => SYSCALL_ERROR,
    }
}

/// Tells the console about a call with the unknown number `num`.
fn report_unknown(console: &mut Uart, num: u64)
    ensures
        final(console)@ == old(console)@ + unknown_syscall_message(num),
        final(console).spec_base_address() == old(console).spec_base_address(),
{
    console.write_str("Unknown system call: ");
    write_decimal(console, num);
    console.write_byte(10);
    assert(console@ =~= old(console)@ + unknown_syscall_message(num));
}

/// The entry point of every system call: `syscall_num` picks the call,
/// the six words are its arguments, and one word comes back. `memory` is
/// what the pointer argument of `read`, `write` and `open` refers to, and
/// `pipefd` is where `pipe` stores its two descriptors. After `exit` the
/// caller must not resume the process that made the call.
pub fn syscall_handler(
    kernel: &mut Kernel,
    syscall_num: u64,
    arg1: u64,
    arg2: u64,
    arg3: u64,
    arg4: u64,
    arg5: u64,
    arg6: u64,
    memory: &mut [u8],
    pipefd: &mut [i32; 2],
) -> (ret: u64)
    requires
        old(kernel)@.wf(),
    ensures
        final(kernel)@.wf(),
        ret == old(kernel)@.syscall_return(syscall_num, arg1, arg2, arg3, old(memory)@),
        final(kernel)@ == old(kernel)@.after_syscall(
            syscall_num,
            arg1,
            arg2,
            arg3,
            old(memory)@,
        ),
        final(memory)@ == old(kernel)@.memory_after_syscall(
            syscall_num,
            arg1,
            arg3,
            old(memory)@,
        ),
        final(pipefd)@ == if syscall_num == SYS_PIPE {
            old(kernel)@.pipe_words(old(pipefd)@)
        } else {
            old(pipefd)@
        },
        final(kernel).console.spec_base_address() == old(kernel).console.spec_base_address(),
        !is_known_syscall(syscall_num) ==> ret == SYSCALL_ERROR,
{
    let ghost pre = kernel@;
    let ghost pre_memory = memory@;
    assert(kernel.console@ =~= kernel.console@ + Seq::<u8>::empty());
    if syscall_num == SYS_READ {
        let count = length_of(arg3);
        let take = if count <= memory.len() {
            count
        } else {
            memory.len()
        };
        let (buf, rest) = memory.split_at_mut(take);
        let ghost rest_before = rest@;
        let ret = sys_read(kernel, #[verifier::truncate] (arg1 as i32), buf);
        proof {
            let bytes = pre.files.read_bytes(pre.pipes, arg1 as i32, take as nat);
            assert(bytes.len() <= take) by {
                lemma_read_bytes_len(pre, arg1 as i32, take as nat);
            }
            assert(buf@ + rest_before =~= bytes + pre_memory.skip(bytes.len() as int));
        }
        ret
    } else if syscall_num == SYS_WRITE {
        let count = length_of(arg3);
        let take = if count <= memory.len() {
            count
        } else {
            memory.len()
        };
        let data = vstd::slice::slice_subrange(memory, 0, take);
        assert(data@ =~= pre_memory.take(take as int));
        sys_write(kernel, #[verifier::truncate] (arg1 as i32), data)
    } else if syscall_num == SYS_OPEN {
        sys_open(
            kernel,
            memory,
            #[verifier::truncate]
            (arg2 as i32),
            #[verifier::truncate]
            (arg3 as u32),
        )
    } else if syscall_num == SYS_CLOSE {
        sys_close(kernel, #[verifier::truncate] (arg1 as i32))
    } else if syscall_num == SYS_EXIT {
        crate::process::sys_exit(&mut kernel.processes, #[verifier::truncate] (arg1 as i32));
        0
    } else if syscall_num == SYS_FORK {
        crate::process::sys_fork() as u64
    } else if syscall_num == SYS_EXECVE {
        match crate::process::sys_exec(&mut kernel.processes, arg1) {
            Ok(_) => 0,
            Err(_) => SYSCALL_ERROR,
        }
    } else if syscall_num == SYS_GETPID {
        match crate::process::get_current_pid(&kernel.processes) {
            Some(pid) => pid as u64,
            None => 0,
        }
    } else if syscall_num == SYS_PIPE {
        sys_pipe(kernel, pipefd)
    } else if syscall_num == SYS_DUP {
        sys_dup(kernel, #[verifier::truncate] (arg1 as i32))
    } else if syscall_num == SYS_DUP2 {
        sys_dup2(
            kernel,
            #[verifier::truncate]
            (arg1 as i32),
            #[verifier::truncate]
            (arg2 as i32),
        )
    } else if syscall_num == SYS_MMAP {
        sys_mmap(
            kernel,
            arg1,
            length_of(arg2),
            #[verifier::truncate]
            (arg3 as i32),
            #[verifier::truncate]
            (arg4 as i32),
            #[verifier::truncate]
            (arg5 as i32),
            #[verifier::truncate]
            (arg6 as i64),
        )
    } else if syscall_num == SYS_MUNMAP {
        sys_munmap(arg1, length_of(arg2))
    } else {
        report_unknown(&mut kernel.console, syscall_num);
        SYSCALL_ERROR
    }
}

/// A read never delivers more bytes than the buffer holds.
pub proof fn lemma_read_bytes_len(s: KernelState, fd: i32, want: nat)
    requires
        s.wf(),
    ensures
        s.files.read_bytes(s.pipes, fd, want).len() <= want,
{
    if s.files.open_files.contains_key(fd) {
        match s.files.open_files[fd].target {
            crate::fs::FileTarget::Pipe(crate::fs::PipeEnd::Read(id)) => {
                if s.pipes.pipes.contains_key(id) {
                    assert(s.pipes.pipes[id].wf());
                }
            },
            _ => {},
        }
    }
}

/// A call with a number that names no system call returns the all-ones
/// word and leaves the process table, the file table, the pipe registry
/// and the page allocator exactly as they were.
pub proof fn lemma_unknown_syscall_changes_no_table(
    s: KernelState,
    num: u64,
    arg1: u64,
    arg2: u64,
    arg3: u64,
    memory: Seq<u8>,
)
    requires
        !is_known_syscall(num),
    ensures
        s.syscall_return(num, arg1, arg2, arg3, memory) == SYSCALL_ERROR,
        s.after_syscall(num, arg1, arg2, arg3, memory).processes == s.processes,
        s.after_syscall(num, arg1, arg2, arg3, memory).files == s.files,
        s.after_syscall(num, arg1, arg2, arg3, memory).pipes == s.pipes,
        s.after_syscall(num, arg1, arg2, arg3, memory).pages == s.pages,
        s.memory_after_syscall(num, arg1, arg3, memory) == memory,
{
}

} // verus!
