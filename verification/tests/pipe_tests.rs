use rustos::error::KernelError;
use rustos::fs::FileSystem;
use rustos::ipc::{
    sys_shmat, sys_shmctl_delete, sys_shmdt, sys_shmget, IPCManager, Pipe, SharedMemoryManager,
    SharedMemoryPermissions, SharedMemorySegment, PIPE_BUFFER_SIZE,
};
use rustos::uart::Uart;

fn open_pipe() -> Pipe {
    let mut pipe = Pipe::new(1);
    pipe.add_reader();
    pipe.add_writer();
    pipe
}

#[test]
fn pipe_transports_data_between_ends() {
    let mut fs = rustos::fs::init();
    let mut ipc = rustos::ipc::init();
    let mut console = Uart::new(0);
    let (read_fd, write_fd) = rustos::ipc::create_pipe(&mut ipc, &mut fs).expect("create pipe");
    assert_eq!((read_fd, write_fd), (3, 4));
    let payload = b"hello-ipc";
    let written =
        rustos::fs::write(&mut fs, &mut ipc, &mut console, write_fd, payload).expect("write");
    assert_eq!(written, payload.len());

    let mut buffer = [0u8; 16];
    let read = rustos::fs::read(&mut fs, &mut ipc, read_fd, &mut buffer).expect("read");
    assert_eq!(read, 9);
    assert_eq!(&buffer[..read], payload);
    assert_eq!(&buffer[read..], &[0u8; 7]);

    rustos::fs::close(&mut fs, read_fd).expect("close read fd");
    rustos::fs::close(&mut fs, write_fd).expect("close write fd");
}

#[test]
fn sustained_pipe_throughput_succeeds() {
    let mut fs = FileSystem::new();
    let mut ipc = IPCManager::new();
    let mut console = Uart::new(0);
    let (read_fd, write_fd) = ipc.create_pipe(&mut fs).expect("create stress pipe");
    let mut buffer = [0u8; 64];
    for i in 0..32usize {
        let payload = [i as u8; 48];
        let written = fs.write(&mut ipc, &mut console, write_fd, &payload).expect("write");
        assert_eq!(written, payload.len());
        let read = fs.read(&mut ipc, read_fd, &mut buffer).expect("read");
        assert_eq!(read, payload.len());
        assert_eq!(&buffer[..read], &payload);
    }
    fs.close(read_fd).expect("close pipe read fd");
    fs.close(write_fd).expect("close pipe write fd");
}

#[test]
fn bytes_come_out_in_the_order_they_went_in() {
    let mut pipe = open_pipe();
    assert_eq!(pipe.write(b"abc"), Ok(3));
    assert_eq!(pipe.write(b""), Ok(0));
    assert_eq!(pipe.write(b"defgh"), Ok(5));
    let mut out = Vec::new();
    let mut buf = [0u8; 3];
    loop {
        match pipe.read(&mut buf) {
            Ok(n) => out.extend_from_slice(&buf[..n]),
            Err(e) => {
                assert_eq!(e, KernelError::WouldBlock);
                break;
            }
        }
    }
    assert_eq!(out, b"abcdefgh");
}

#[test]
fn a_read_takes_no_more_than_there_is() {
    let mut pipe = open_pipe();
    pipe.write(b"xy").unwrap();
    let mut buf = [9u8; 5];
    assert_eq!(pipe.read(&mut buf), Ok(2));
    assert_eq!(buf, [b'x', b'y', 9, 9, 9]);
}

#[test]
fn an_empty_pipe_with_a_writer_would_block() {
    let mut pipe = open_pipe();
    let mut buf = [0u8; 4];
    assert_eq!(pipe.read(&mut buf), Err(KernelError::WouldBlock));
    let mut none: [u8; 0] = [];
    assert_eq!(pipe.read(&mut none), Err(KernelError::WouldBlock));
    pipe.write(b"a").unwrap();
    assert_eq!(pipe.read(&mut buf), Ok(1));
    assert_eq!(pipe.read(&mut buf), Err(KernelError::WouldBlock));
}

#[test]
fn a_read_into_no_buffer_takes_nothing() {
    let mut pipe = open_pipe();
    assert_eq!(pipe.write(b"abc"), Ok(3));
    let mut none: [u8; 0] = [];
    assert_eq!(pipe.read(&mut none), Ok(0));
    assert_eq!(pipe.read(&mut none), Ok(0));
    let mut buf = [0u8; 8];
    assert_eq!(pipe.read(&mut buf), Ok(3));
    assert_eq!(&buf[..3], b"abc");
    pipe.close_write();
    assert_eq!(pipe.read(&mut none), Ok(0));
    pipe.close_read();
    assert_eq!(pipe.read(&mut none), Err(KernelError::ClosedEndpoint));
}

#[test]
fn read_after_the_last_writer_closed_is_end_of_stream() {
    let mut pipe = open_pipe();
    pipe.close_write();
    let mut buf = [0u8; 8];
    assert_eq!(pipe.read(&mut buf), Ok(0));
    assert_eq!(pipe.read(&mut buf), Ok(0));
}

#[test]
fn what_was_written_before_the_close_can_still_be_read() {
    let mut pipe = open_pipe();
    pipe.write(b"tail").unwrap();
    pipe.close_write();
    assert_eq!(pipe.write(b"more"), Err(KernelError::ClosedEndpoint));
    let mut buf = [0u8; 8];
    assert_eq!(pipe.read(&mut buf), Ok(4));
    assert_eq!(&buf[..4], b"tail");
    assert_eq!(pipe.read(&mut buf), Ok(0));
}

#[test]
fn a_closed_read_end_refuses_reads_and_breaks_writes() {
    let mut pipe = open_pipe();
    pipe.write(b"x").unwrap();
    pipe.close_read();
    let mut buf = [0u8; 1];
    assert_eq!(pipe.read(&mut buf), Err(KernelError::ClosedEndpoint));
    assert_eq!(pipe.write(b"y"), Err(KernelError::BrokenPipe));
    assert!(!pipe.is_fully_closed());
    pipe.close_write();
    assert!(pipe.is_fully_closed());
    assert_eq!(pipe.write(b"y"), Err(KernelError::ClosedEndpoint));
}

#[test]
fn a_pipe_without_readers_is_broken() {
    let mut pipe = Pipe::new(3);
    pipe.add_writer();
    assert_eq!(pipe.write(b"x"), Err(KernelError::BrokenPipe));
    let mut buf = [0u8; 1];
    assert_eq!(pipe.read(&mut buf), Err(KernelError::WouldBlock));
}

#[test]
fn a_full_pipe_would_block_and_a_nearly_full_one_writes_short() {
    let mut pipe = open_pipe();
    let big = vec![7u8; 4000];
    assert_eq!(pipe.write(&big), Ok(4000));
    let more = vec![8u8; 200];
    assert_eq!(pipe.write(&more), Ok(96));
    assert_eq!(pipe.write(&more), Err(KernelError::WouldBlock));
    assert_eq!(pipe.write(b""), Err(KernelError::WouldBlock));
    let mut out = vec![0u8; 5000];
    assert_eq!(pipe.read(&mut out), Ok(PIPE_BUFFER_SIZE));
    assert_eq!(&out[..4000], &big[..]);
    assert_eq!(&out[4000..4096], &more[..96]);
    assert_eq!(pipe.write(&more), Ok(200));
}

#[test]
fn closing_both_ends_removes_the_pipe() {
    let mut fs = FileSystem::new();
    let mut ipc = IPCManager::new();
    let mut console = Uart::new(0);
    let (read_fd, write_fd) = ipc.create_pipe(&mut fs).unwrap();
    assert!(ipc.contains_pipe(1));
    assert_eq!(ipc.pipe_count(), 1);
    assert_eq!(ipc.close_pipe_read(1), Ok(()));
    assert!(ipc.contains_pipe(1));
    let mut buf = [0u8; 4];
    assert_eq!(ipc.read_pipe(1, &mut buf), Err(KernelError::ClosedEndpoint));
    assert_eq!(fs.read(&mut ipc, read_fd, &mut buf), Err(KernelError::ClosedEndpoint));
    assert_eq!(ipc.close_pipe_write(1), Ok(()));
    assert!(!ipc.contains_pipe(1));
    assert_eq!(ipc.pipe_count(), 0);
    assert_eq!(ipc.read_pipe(1, &mut buf), Err(KernelError::NotFound));
    assert_eq!(ipc.write_pipe(1, b"x"), Err(KernelError::NotFound));
    assert_eq!(fs.read(&mut ipc, read_fd, &mut buf), Err(KernelError::NotFound));
    assert_eq!(
        fs.write(&mut ipc, &mut console, write_fd, b"x"),
        Err(KernelError::NotFound)
    );
    assert_eq!(ipc.close_pipe_read(1), Err(KernelError::NotFound));
    assert_eq!(ipc.close_pipe_write(1), Err(KernelError::NotFound));
}

#[test]
fn closing_in_the_other_order_removes_the_pipe_too() {
    let mut fs = FileSystem::new();
    let mut ipc = IPCManager::new();
    ipc.create_pipe(&mut fs).unwrap();
    assert_eq!(rustos::ipc::close_pipe_write(&mut ipc, 1), Ok(()));
    assert!(ipc.contains_pipe(1));
    assert_eq!(rustos::ipc::write_pipe(&mut ipc, 1, b"x"), Err(KernelError::ClosedEndpoint));
    let mut buf = [0u8; 4];
    assert_eq!(rustos::ipc::read_pipe(&mut ipc, 1, &mut buf), Ok(0));
    assert_eq!(rustos::ipc::close_pipe_read(&mut ipc, 1), Ok(()));
    assert!(!ipc.contains_pipe(1));
}

#[test]
fn pipe_ids_and_descriptors_count_up() {
    let mut fs = FileSystem::new();
    let mut ipc = IPCManager::new();
    assert_eq!(ipc.create_pipe(&mut fs), Ok((3, 4)));
    assert_eq!(ipc.create_pipe(&mut fs), Ok((5, 6)));
    assert!(ipc.contains_pipe(1));
    assert!(ipc.contains_pipe(2));
    ipc.close_pipe_read(1).unwrap();
    ipc.close_pipe_write(1).unwrap();
    assert_eq!(ipc.create_pipe(&mut fs), Ok((7, 8)));
    assert!(ipc.contains_pipe(3));
    assert!(!ipc.contains_pipe(1));
}

#[test]
fn pipes_do_not_mix() {
    let mut fs = FileSystem::new();
    let mut ipc = IPCManager::new();
    ipc.create_pipe(&mut fs).unwrap();
    ipc.create_pipe(&mut fs).unwrap();
    assert_eq!(ipc.write_pipe(1, b"one"), Ok(3));
    assert_eq!(ipc.write_pipe(2, b"two!"), Ok(4));
    let mut buf = [0u8; 8];
    assert_eq!(ipc.read_pipe(2, &mut buf), Ok(4));
    assert_eq!(&buf[..4], b"two!");
    assert_eq!(ipc.read_pipe(1, &mut buf), Ok(3));
    assert_eq!(&buf[..3], b"one");
    assert_eq!(ipc.read_pipe(9, &mut buf), Err(KernelError::NotFound));
}

#[test]
fn shared_memory_segments() {
    let mut shm = SharedMemoryManager::new();
    let rw = SharedMemoryPermissions::read_write();
    assert_eq!(rw.bits(), 3);
    assert_eq!(shm.create_segment(128, rw), Ok(1));
    assert_eq!(sys_shmget(&mut shm, 64, 0), Ok(2));
    assert_eq!(shm.attach_segment(1, 10), Ok(128));
    assert_eq!(shm.attach_segment(1, 10), Ok(128));
    assert_eq!(sys_shmat(&mut shm, 2, 11), Ok(64));
    assert_eq!(shm.attach_segment(3, 10), Err(KernelError::NotFound));
    assert_eq!(shm.detach_segment(1, 10), Ok(()));
    assert_eq!(shm.detach_segment(1, 99), Ok(()));
    assert_eq!(sys_shmdt(&mut shm, 7, 10), Err(KernelError::NotFound));
    assert_eq!(shm.delete_segment(1), Ok(()));
    assert_eq!(shm.delete_segment(1), Err(KernelError::NotFound));
    assert_eq!(sys_shmctl_delete(&mut shm, 2), Ok(()));
    assert_eq!(shm.attach_segment(2, 11), Err(KernelError::NotFound));
    assert_eq!(shm.create_segment(0, rw), Ok(3));
}

#[test]
fn shared_memory_permissions_are_bit_sets() {
    let r = SharedMemoryPermissions::from_bits(1).unwrap();
    let rw = SharedMemoryPermissions::read_write();
    assert!(rw.contains(r));
    assert!(!r.contains(rw));
    assert_eq!(r.union(SharedMemoryPermissions::from_bits(4).unwrap()).bits(), 5);
    assert!(SharedMemoryPermissions::from_bits(16).is_none());
    let _segment = SharedMemorySegment::new(1, 16, rw);
}
