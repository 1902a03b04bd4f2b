use rustos::fs::{read_file, remove_file, O_CREAT, O_RDONLY, O_TRUNC, O_WRONLY};
use rustos::process::ProcessState;
use rustos::syscall::{
    c_string_length, length_of, syscall_handler, write_decimal, Kernel, SYSCALL_ERROR, SYS_CLOSE,
    SYS_DUP, SYS_DUP2, SYS_EXECVE, SYS_EXIT, SYS_FORK, SYS_GETPID, SYS_MMAP, SYS_MUNMAP,
    SYS_OPEN, SYS_PIPE, SYS_READ, SYS_WRITE,
};
use rustos::uart::Uart;

fn call(kernel: &mut Kernel, num: u64, a1: u64, a2: u64, a3: u64, memory: &mut [u8]) -> u64 {
    let mut pipefd = [0i32; 2];
    syscall_handler(kernel, num, a1, a2, a3, 0, 0, 0, memory, &mut pipefd)
}

#[test]
fn unknown_syscall_returns_error() {
    let mut kernel = rustos::syscall::init();
    let mut memory = [0u8; 4];
    let result = call(&mut kernel, 9_999, 0, 0, 0, &mut memory);
    assert_eq!(result, u64::MAX);
    assert_eq!(result, SYSCALL_ERROR);
}

#[test]
fn unknown_syscall_alters_no_table() {
    let mut kernel = Kernel::new();
    kernel.processes.create_process(0x1000, 4096).unwrap();
    kernel.processes.schedule();
    let fd = kernel.files.open("/f", O_CREAT | O_WRONLY, 0).unwrap();
    kernel.pipes.create_pipe(&mut kernel.files).unwrap();
    let mut memory = [7u8; 8];
    let mut pipefd = [41i32, 42];
    for num in [4u64, 5, 10, 12, 23, 61, 9_999, u64::MAX] {
        let result = syscall_handler(&mut kernel, num, 1, 2, 3, 4, 5, 6, &mut memory, &mut pipefd);
        assert_eq!(result, u64::MAX);
    }
    assert_eq!(memory, [7u8; 8]);
    assert_eq!(pipefd, [41, 42]);
    assert_eq!(kernel.processes.process_count(), 1);
    assert_eq!(kernel.processes.current_pid(), Some(1));
    assert_eq!(kernel.processes.get_process(1).unwrap().state, ProcessState::Running);
    assert!(kernel.files.descriptor(fd).is_some());
    assert_eq!(kernel.files.open("/g", O_CREAT, 0), Ok(6));
    assert_eq!(kernel.pipes.pipe_count(), 1);
    assert_eq!(call(&mut kernel, SYS_MMAP, 0, 1, 0, &mut memory), 0x6000_0000);
    let console = String::from_utf8(kernel.console.take_pending()).unwrap();
    assert_eq!(
        console,
        "Unknown system call: 4\nUnknown system call: 5\nUnknown system call: 10\n\
         Unknown system call: 12\nUnknown system call: 23\nUnknown system call: 61\n\
         Unknown system call: 9999\nUnknown system call: 18446744073709551615\n"
    );
}

#[test]
fn sys_open_write_read_file_via_handler() {
    let mut kernel = Kernel::new();
    let mut path = *b"/tmp/syscall.txt\0";
    let _ = remove_file(&mut kernel.files, "/tmp/syscall.txt");

    let write_flags = (O_CREAT | O_WRONLY | O_TRUNC) as u64;
    let fd = call(&mut kernel, SYS_OPEN, 0, write_flags, 0, &mut path) as i32;
    assert!(fd >= 0);
    assert_eq!(fd, 3);

    let mut payload = *b"syscall-data";
    let len = payload.len() as u64;
    let written = call(&mut kernel, SYS_WRITE, fd as u64, 0, len, &mut payload);
    assert_eq!(written, 12);

    let mut none = [0u8; 0];
    assert_eq!(call(&mut kernel, SYS_CLOSE, fd as u64, 0, 0, &mut none), 0);

    let read_fd = call(&mut kernel, SYS_OPEN, 0, O_RDONLY as u64, 0, &mut path) as i32;
    assert!(read_fd >= 0);

    let mut buffer = [0u8; 32];
    let read = call(&mut kernel, SYS_READ, read_fd as u64, 0, 32, &mut buffer);
    call(&mut kernel, SYS_CLOSE, read_fd as u64, 0, 0, &mut none);

    assert_eq!(read, 12);
    assert_eq!(&buffer[..12], b"syscall-data");
    assert_eq!(read_file(&kernel.files, "/tmp/syscall.txt").unwrap(), "syscall-data");
}

#[test]
fn sys_pipe_roundtrip_via_handler() {
    let mut kernel = Kernel::new();
    let mut pipe_fd = [0i32; 2];
    let mut none = [0u8; 0];
    let result = syscall_handler(&mut kernel, SYS_PIPE, 0, 0, 0, 0, 0, 0, &mut none, &mut pipe_fd);
    assert_eq!(result, 0);
    assert_eq!(pipe_fd, [3, 4]);

    let mut payload = *b"ipc-roundtrip";
    let written = call(&mut kernel, SYS_WRITE, pipe_fd[1] as u64, 0, 13, &mut payload);
    assert_eq!(written, 13);

    let mut buffer = [0u8; 32];
    let read = call(&mut kernel, SYS_READ, pipe_fd[0] as u64, 0, 32, &mut buffer);
    assert_eq!(read, 13);
    assert_eq!(&buffer[..13], b"ipc-roundtrip");

    assert_eq!(call(&mut kernel, SYS_CLOSE, pipe_fd[0] as u64, 0, 0, &mut none), 0);
    assert_eq!(call(&mut kernel, SYS_CLOSE, pipe_fd[1] as u64, 0, 0, &mut none), 0);
    assert_eq!(call(&mut kernel, SYS_CLOSE, pipe_fd[1] as u64, 0, 0, &mut none), u64::MAX);
}

#[test]
fn the_count_is_clipped_to_the_memory_handed_over() {
    let mut kernel = Kernel::new();
    let mut path = *b"/f\0";
    let fd = call(&mut kernel, SYS_OPEN, 0, (O_CREAT | O_WRONLY) as u64, 0, &mut path);
    let mut data = *b"abcdef";
    assert_eq!(call(&mut kernel, SYS_WRITE, fd, 0, 4, &mut data), 4);
    assert_eq!(call(&mut kernel, SYS_WRITE, fd, 0, 100, &mut data), 6);
    assert_eq!(call(&mut kernel, SYS_WRITE, fd, 0, u64::MAX, &mut data), 6);
    assert_eq!(call(&mut kernel, SYS_WRITE, fd, 0, 0, &mut data), 0);
    assert_eq!(read_file(&kernel.files, "/f").unwrap(), "abcdabcdefabcdef");
    let rd = call(&mut kernel, SYS_OPEN, 0, O_RDONLY as u64, 0, &mut path);
    let mut buffer = [b'.'; 8];
    assert_eq!(call(&mut kernel, SYS_READ, rd, 0, 3, &mut buffer), 3);
    assert_eq!(&buffer, b"abc.....");
    assert_eq!(call(&mut kernel, SYS_READ, rd, 0, 1000, &mut buffer), 8);
    assert_eq!(&buffer, b"dabcdefa");
}

#[test]
fn writes_to_the_standard_output_reach_the_console() {
    let mut kernel = Kernel::new();
    let mut data = *b"hello\n";
    assert_eq!(call(&mut kernel, SYS_WRITE, 1, 0, 6, &mut data), 6);
    assert_eq!(call(&mut kernel, SYS_WRITE, 2, 0, 2, &mut data), 2);
    assert_eq!(call(&mut kernel, SYS_WRITE, 0, 0, 2, &mut data), u64::MAX);
    assert_eq!(kernel.console.take_pending(), b"hello\nhe");
}

#[test]
fn a_path_needs_its_terminator_and_must_be_text() {
    let mut kernel = Kernel::new();
    let flags = (O_CREAT | O_WRONLY) as u64;
    let mut unterminated = *b"/tmp/x";
    assert_eq!(call(&mut kernel, SYS_OPEN, 0, flags, 0, &mut unterminated), u64::MAX);
    let mut not_text = [b'/', 0xff, 0xfe, 0];
    assert_eq!(call(&mut kernel, SYS_OPEN, 0, flags, 0, &mut not_text), u64::MAX);
    let mut none = [0u8; 0];
    assert_eq!(call(&mut kernel, SYS_OPEN, 0, flags, 0, &mut none), u64::MAX);
    let mut with_rest = *b"/a\0/b\0";
    assert_eq!(call(&mut kernel, SYS_OPEN, 0, flags, 0, &mut with_rest), 3);
    assert!(read_file(&kernel.files, "/a").is_ok());
    assert!(read_file(&kernel.files, "/b").is_err());
    let mut accented = "/caf\u{e9}\0".as_bytes().to_vec();
    assert_eq!(call(&mut kernel, SYS_OPEN, 0, flags, 0, &mut accented), 4);
    assert!(read_file(&kernel.files, "/caf\u{e9}").is_ok());
    let mut bad_flags = *b"/a\0";
    assert_eq!(call(&mut kernel, SYS_OPEN, 0, 4, 0, &mut bad_flags), u64::MAX);
    let mut missing = *b"/zzz\0";
    assert_eq!(call(&mut kernel, SYS_OPEN, 0, 0, 0, &mut missing), u64::MAX);
}

#[test]
fn finding_the_end_of_a_c_string() {
    assert_eq!(c_string_length(b"abc\0def\0"), Some(3));
    assert_eq!(c_string_length(b"\0"), Some(0));
    assert_eq!(c_string_length(b"abc"), None);
    assert_eq!(c_string_length(b""), None);
}

#[test]
fn getpid_answers_the_current_process_or_zero() {
    let mut kernel = Kernel::new();
    let mut none = [0u8; 0];
    assert_eq!(call(&mut kernel, SYS_GETPID, 0, 0, 0, &mut none), 0);
    kernel.processes.create_process(0x1000, 4096).unwrap();
    kernel.processes.create_process(0x2000, 4096).unwrap();
    assert_eq!(call(&mut kernel, SYS_GETPID, 0, 0, 0, &mut none), 0);
    kernel.processes.schedule();
    assert_eq!(call(&mut kernel, SYS_GETPID, 0, 0, 0, &mut none), 1);
    kernel.processes.schedule();
    assert_eq!(call(&mut kernel, SYS_GETPID, 0, 0, 0, &mut none), 2);
}

#[test]
fn fork_exec_and_exit() {
    let mut kernel = Kernel::new();
    let mut none = [0u8; 0];
    assert_eq!(call(&mut kernel, SYS_FORK, 0, 0, 0, &mut none), 0);
    assert_eq!(call(&mut kernel, SYS_EXECVE, 0x7000, 0, 0, &mut none), u64::MAX);
    kernel.processes.create_process(0x1000, 4096).unwrap();
    kernel.processes.create_process(0x2000, 4096).unwrap();
    kernel.processes.schedule();
    assert_eq!(call(&mut kernel, SYS_EXECVE, 0x7000, 0, 0, &mut none), 0);
    assert_eq!(kernel.processes.get_process(1).unwrap().entry_point, 0x7000);
    assert_eq!(call(&mut kernel, SYS_EXIT, 5, 0, 0, &mut none), 0);
    assert_eq!(kernel.processes.get_process(1).unwrap().state, ProcessState::Terminated);
    assert_eq!(kernel.processes.current_pid(), Some(2));
    assert_eq!(call(&mut kernel, SYS_EXIT, 0, 0, 0, &mut none), 0);
    assert_eq!(kernel.processes.current_pid(), None);
    assert_eq!(call(&mut kernel, SYS_EXIT, 0, 0, 0, &mut none), 0);
}

#[test]
fn dup_and_dup2_via_handler() {
    let mut kernel = Kernel::new();
    let mut none = [0u8; 0];
    assert_eq!(call(&mut kernel, SYS_DUP, 1, 0, 0, &mut none), 3);
    assert_eq!(call(&mut kernel, SYS_DUP, 50, 0, 0, &mut none), u64::MAX);
    assert_eq!(call(&mut kernel, SYS_DUP2, 1, 10, 0, &mut none), 10);
    assert_eq!(call(&mut kernel, SYS_DUP2, 60, 10, 0, &mut none), u64::MAX);
    assert_eq!(call(&mut kernel, SYS_DUP2, 1, 0x7fff_ffff, 0, &mut none), u64::MAX);
    assert_eq!(call(&mut kernel, SYS_DUP, 1, 0, 0, &mut none), 11);
    let mut path = *b"/dev/null\0";
    assert_eq!(call(&mut kernel, SYS_OPEN, 0, 0, 0, &mut path), 12);
    let mut data = *b"x";
    assert_eq!(call(&mut kernel, SYS_WRITE, 10, 0, 1, &mut data), 1);
    assert_eq!(call(&mut kernel, SYS_WRITE, 3, 0, 1, &mut data), 1);
    assert_eq!(kernel.console.take_pending(), b"xx");
}

#[test]
fn mmap_hands_out_fresh_pages() {
    let mut kernel = Kernel::new();
    let mut none = [0u8; 0];
    assert_eq!(call(&mut kernel, SYS_MMAP, 0, 4096, 0, &mut none), 0x6000_0000);
    assert_eq!(call(&mut kernel, SYS_MMAP, 0, 1, 0, &mut none), 0x6000_1000);
    assert_eq!(call(&mut kernel, SYS_MMAP, 0, 4097, 0, &mut none), 0x6000_2000);
    assert_eq!(call(&mut kernel, SYS_MMAP, 0, 0, 0, &mut none), u64::MAX);
    assert_eq!(call(&mut kernel, SYS_MMAP, 0, u64::MAX, 0, &mut none), u64::MAX);
    assert_eq!(call(&mut kernel, SYS_MMAP, 0, 8192, 0, &mut none), 0x6000_4000);
    assert_eq!(call(&mut kernel, SYS_MUNMAP, 0x6000_0000, 4096, 0, &mut none), 0);
    assert_eq!(call(&mut kernel, SYS_MMAP, 0, 1, 0, &mut none), 0x6000_6000);
}

#[test]
fn numbers_are_written_in_decimal() {
    let mut uart = Uart::new(0);
    write_decimal(&mut uart, 0);
    uart.write_byte(b' ');
    write_decimal(&mut uart, 7);
    uart.write_byte(b' ');
    write_decimal(&mut uart, 10);
    uart.write_byte(b' ');
    write_decimal(&mut uart, 12345);
    uart.write_byte(b' ');
    write_decimal(&mut uart, u64::MAX);
    assert_eq!(uart.take_pending(), b"0 7 10 12345 18446744073709551615");
}

#[test]
fn lengths_are_clipped_to_the_machine() {
    assert_eq!(length_of(0), 0);
    assert_eq!(length_of(4096), 4096);
    assert_eq!(length_of(u64::MAX), usize::MAX);
}
