//! Pipes: bounded first-in first-out byte channels with separately closable
//! read and write ends, and the registry that owns them.

use crate::error::KernelError;
use crate::fs::{FileSystem, FsState};
use std::collections::BTreeMap;
use std::collections::VecDeque;
use vstd::prelude::*;

verus! {

/// How many bytes a pipe can hold.
pub const PIPE_BUFFER_SIZE: usize = 4096;

/// The abstract state of a pipe.
pub struct PipeState {
    pub id: u32,
    /// The bytes written and not yet read, oldest first.
    pub buffer: Seq<u8>,
    pub read_closed: bool,
    pub write_closed: bool,
    pub readers: nat,
    pub writers: nat,
}

impl PipeState {
    /// A pipe never holds more than its capacity.
    pub open spec fn wf(self) -> bool {
        self.buffer.len() <= PIPE_BUFFER_SIZE
    }

    /// A fresh pipe: empty, both ends open, nobody attached yet.
    pub open spec fn fresh(id: u32) -> PipeState {
        PipeState {
            id,
            buffer: Seq::empty(),
            read_closed: false,
            write_closed: false,
            readers: 0,
            writers: 0,
        }
    }

    /// The room left in the buffer.
    pub open spec fn space(self) -> nat {
        (PIPE_BUFFER_SIZE - self.buffer.len()) as nat
    }

    /// What a read into a buffer of `want` bytes answers: as many bytes as
    /// the buffer and the pipe both allow, which is none for a buffer of
    /// no bytes. Only a pipe that holds nothing answers the end of the
    /// stream, once no writer is left, or `WouldBlock`, while one is.
    pub open spec fn read_result(self, want: nat) -> Result<usize, KernelError> {
        if self.read_closed {
            Err(KernelError::ClosedEndpoint)
        } else if self.buffer.len() == 0 {
            if self.writers == 0 {
                Ok(0usize)
            } else {
                Err(KernelError::WouldBlock)
            }
        } else if want <= self.buffer.len() {
            Ok(want as usize)
        } else {
            Ok(self.buffer.len() as usize)
        }
    }

    /// The bytes that a read into a buffer of `want` bytes delivers.
    pub open spec fn read_bytes(self, want: nat) -> Seq<u8> {
        match self.read_result(want) {
            Ok(n) => self.buffer.take(n as int),
            Err(_) => Seq::empty(),
        }
    }

    /// The pipe after a read into a buffer of `want` bytes.
    pub open spec fn after_read(self, want: nat) -> PipeState {
        match self.read_result(want) {
            Ok(n) => PipeState { buffer: self.buffer.skip(n as int), ..self },
            Err(_) => self,
        }
    }

    /// What a write of `data` answers.
    pub open spec fn write_result(self, data: Seq<u8>) -> Result<usize, KernelError> {
        if self.write_closed {
            Err(KernelError::ClosedEndpoint)
        } else if self.readers == 0 {
            Err(KernelError::BrokenPipe)
        } else if self.space() == 0 {
            Err(KernelError::WouldBlock)
        } else if data.len() <= self.space() {
            Ok(data.len() as usize)
        } else {
            Ok(self.space() as usize)
        }
    }

    /// The pipe after a write of `data`.
    pub open spec fn after_write(self, data: Seq<u8>) -> PipeState {
        match self.write_result(data) {
            Ok(n) => PipeState { buffer: self.buffer + data.take(n as int), ..self },
            Err(_) => self,
        }
    }

    /// The pipe after its read end was closed.
    pub open spec fn after_close_read(self) -> PipeState {
        PipeState {
            read_closed: true,
            readers: if self.readers > 0 {
                (self.readers - 1) as nat
            } else {
                0
            },
            ..self
        }
    }

    /// The pipe after its write end was closed.
    pub open spec fn after_close_write(self) -> PipeState {
        PipeState {
            write_closed: true,
            writers: if self.writers > 0 {
                (self.writers - 1) as nat
            } else {
                0
            },
            ..self
        }
    }

    /// Both ends are closed: the pipe can be dropped.
    pub open spec fn fully_closed(self) -> bool {
        self.read_closed && self.write_closed
    }
}

/// A bounded byte channel.
#[derive(Debug)]
pub struct Pipe {
    id: u32,
    buffer: VecDeque<u8>,
    read_closed: bool,
    write_closed: bool,
    readers: u32,
    writers: u32,
}

impl View for Pipe {
    type V = PipeState;

    closed spec fn view(&self) -> PipeState {
        PipeState {
            id: self.id,
            buffer: self.buffer@,
            read_closed: self.read_closed,
            write_closed: self.write_closed,
            readers: self.readers as nat,
            writers: self.writers as nat,
        }
    }
}

impl Pipe {
    /// A fresh pipe with the given id.
    pub fn new(id: u32) -> (pipe: Pipe)
        ensures
            pipe@ == PipeState::fresh(id),
    {
        Pipe {
            id,
            buffer: VecDeque::new(),
            read_closed: false,
            write_closed: false,
            readers: 0,
            writers: 0,
        }
    }

    /// Moves bytes from the front of the pipe into the front of `buf`, as many
    /// as both allow. A pipe that holds nothing answers 0 once no writer is
    /// left, and `WouldBlock` while one is.
    pub fn read(&mut self, buf: &mut [u8]) -> (r: Result<usize, KernelError>)
        requires
            old(self)@.wf(),
        ensures
            final(self)@.wf(),
            r == old(self)@.read_result(old(buf)@.len()),
            final(self)@ == old(self)@.after_read(old(buf)@.len()),
            final(buf)@ == old(self)@.read_bytes(old(buf)@.len()) + old(buf)@.skip(
                old(self)@.read_bytes(old(buf)@.len()).len() as int,
            ),
    {
        let ghost pre = self@;
        let ghost pre_buf = buf@;
        if self.read_closed {
            assert(buf@ =~= Seq::<u8>::empty() + pre_buf.skip(0));
            return Err(KernelError::ClosedEndpoint);
        }
        let available = self.buffer.len();
        assert(buf@ =~= Seq::<u8>::empty() + pre_buf.skip(0));
        assert(pre.buffer.skip(0) =~= pre.buffer);
        assert(pre.buffer.take(0) =~= Seq::<u8>::empty());
        if available == 0 {
            if self.writers == 0 {
                return Ok(0);
            } else {
                return Err(KernelError::WouldBlock);
            }
        }
        let bytes_to_read = if buf.len() < available {
            buf.len()
        } else {
            available
        };
        let mut i: usize = 0;
        while i < bytes_to_read
            invariant
                i <= bytes_to_read,
                bytes_to_read <= pre.buffer.len(),
                bytes_to_read <= pre_buf.len(),
                buf@.len() == pre_buf.len(),
                self.buffer@ =~= pre.buffer.skip(i as int),
                buf@ =~= pre.buffer.take(i as int) + pre_buf.skip(i as int),
                self.id == pre.id,
                self.read_closed == pre.read_closed,
                self.write_closed == pre.write_closed,
                self.readers == pre.readers,
                self.writers == pre.writers,
                pre.buffer.len() <= PIPE_BUFFER_SIZE,
            decreases bytes_to_read - i,
        {
            let byte = self.buffer.pop_front().unwrap();
            buf[i] = byte;
            i += 1;
        }
        Ok(bytes_to_read)
    }

    /// Appends a prefix of `buf` to the pipe: all of it where it fits, else
    /// as much as the room left allows.
    pub fn write(&mut self, buf: &[u8]) -> (r: Result<usize, KernelError>)
        requires
            old(self)@.wf(),
        ensures
            final(self)@.wf(),
            r == old(self)@.write_result(buf@),
            final(self)@ == old(self)@.after_write(buf@),
    {
        let ghost pre = self@;
        if self.write_closed {
            return Err(KernelError::ClosedEndpoint);
        }
        if self.readers == 0 {
            return Err(KernelError::BrokenPipe);
        }
        let available_space = PIPE_BUFFER_SIZE - self.buffer.len();
        if available_space == 0 {
            return Err(KernelError::WouldBlock);
        }
        let bytes_to_write = if buf.len() < available_space {
            buf.len()
        } else {
            available_space
        };
        let mut i: usize = 0;
        while i < bytes_to_write
            invariant
                i <= bytes_to_write,
                bytes_to_write <= buf@.len(),
                pre.buffer.len() + bytes_to_write <= PIPE_BUFFER_SIZE,
                self.buffer@ =~= pre.buffer + buf@.take(i as int),
                self.id == pre.id,
                self.read_closed == pre.read_closed,
                self.write_closed == pre.write_closed,
                self.readers == pre.readers,
                self.writers == pre.writers,
            decreases bytes_to_write - i,
        {
            self.buffer.push_back(buf[i]);
            i += 1;
        }
        Ok(bytes_to_write)
    }

    /// Closes the read end and gives up one reader, if one is left.
    pub fn close_read(&mut self)
        ensures
            final(self)@ == old(self)@.after_close_read(),
    {
        self.read_closed = true;
        if self.readers > 0 {
            self.readers -= 1;
        }
    }

    /// Closes the write end and gives up one writer, if one is left.
    pub fn close_write(&mut self)
        ensures
            final(self)@ == old(self)@.after_close_write(),
    {
        self.write_closed = true;
        if self.writers > 0 {
            self.writers -= 1;
        }
    }

    /// Counts one more reader. The count saturates at the largest 32-bit value.
    pub fn add_reader(&mut self)
        ensures
            final(self)@ == (PipeState {
                readers: if old(self)@.readers < u32::MAX {
                    old(self)@.readers + 1
                } else {
                    old(self)@.readers
                },
                ..old(self)@
            }),
    {
        if self.readers < u32::MAX {
            self.readers += 1;
        }
    }

    /// Counts one more writer. The count saturates at the largest 32-bit value.
    pub fn add_writer(&mut self)
        ensures
            final(self)@ == (PipeState {
                writers: if old(self)@.writers < u32::MAX {
                    old(self)@.writers + 1
                } else {
                    old(self)@.writers
                },
                ..old(self)@
            }),
    {
        if self.writers < u32::MAX {
            self.writers += 1;
        }
    }

    /// Whether both ends have been closed.
    pub fn is_fully_closed(&self) -> (closed: bool)
        ensures
            closed == self@.fully_closed(),
    {
        self.read_closed && self.write_closed
    }
}

/// The abstract state of the pipe registry.
pub struct IpcState {
    /// The live pipes, by id.
    pub pipes: Map<u32, PipeState>,
    /// The id that the next pipe gets.
    pub next_pipe_id: u32,
}

impl IpcState {
    /// Every live pipe is within capacity, is stored under its own id, and
    /// got its id from the counter.
    pub open spec fn wf(self) -> bool {
        forall|id: u32| #[trigger]
            self.pipes.contains_key(id) ==> {
                &&& self.pipes[id].wf()
                &&& self.pipes[id].id == id
                &&& id < self.next_pipe_id
            }
    }

    /// The registry at start-up: no pipe, ids start at 1.
    pub open spec fn empty() -> IpcState {
        IpcState { pipes: Map::empty(), next_pipe_id: 1 }
    }

    /// The pipe that `create_pipe` registers: one reader, one writer.
    pub open spec fn new_pipe(id: u32) -> PipeState {
        PipeState { readers: 1, writers: 1, ..PipeState::fresh(id) }
    }

    /// The registry after one more pipe was created.
    pub open spec fn after_create(self) -> IpcState {
        IpcState {
            pipes: self.pipes.insert(self.next_pipe_id, Self::new_pipe(self.next_pipe_id)),
            next_pipe_id: (self.next_pipe_id + 1) as u32,
        }
    }

    /// Whether a pipe with its two descriptors can be created.
    pub open spec fn can_create(self, fs: FsState) -> bool {
        self.next_pipe_id < u32::MAX && fs.can_mint_pair()
    }

    /// What `create_pipe` answers: the descriptor of the read end, then
    /// that of the write end.
    pub open spec fn create_result(self, fs: FsState) -> Result<(i32, i32), KernelError> {
        if self.can_create(fs) {
            Ok((fs.next_fd, (fs.next_fd + 1) as i32))
        } else {
            Err(KernelError::ResourceExhausted)
        }
    }

    /// What a read from pipe `id` into a buffer of `want` bytes answers.
    pub open spec fn read_result(self, id: u32, want: nat) -> Result<usize, KernelError> {
        if self.pipes.contains_key(id) {
            self.pipes[id].read_result(want)
        } else {
            Err(KernelError::NotFound)
        }
    }

    /// The bytes that a read from pipe `id` into a buffer of `want` bytes delivers.
    pub open spec fn read_bytes(self, id: u32, want: nat) -> Seq<u8> {
        if self.pipes.contains_key(id) {
            self.pipes[id].read_bytes(want)
        } else {
            Seq::empty()
        }
    }

    /// The registry after a read from pipe `id` into a buffer of `want` bytes.
    pub open spec fn after_read(self, id: u32, want: nat) -> IpcState {
        if self.pipes.contains_key(id) {
            IpcState { pipes: self.pipes.insert(id, self.pipes[id].after_read(want)), ..self }
        } else {
            self
        }
    }

    /// What a write of `data` to pipe `id` answers.
    pub open spec fn write_result(self, id: u32, data: Seq<u8>) -> Result<usize, KernelError> {
        if self.pipes.contains_key(id) {
            self.pipes[id].write_result(data)
        } else {
            Err(KernelError::NotFound)
        }
    }

    /// The registry after a write of `data` to pipe `id`.
    pub open spec fn after_write(self, id: u32, data: Seq<u8>) -> IpcState {
        if self.pipes.contains_key(id) {
            IpcState { pipes: self.pipes.insert(id, self.pipes[id].after_write(data)), ..self }
        } else {
            self
        }
    }

    /// What closing either end of pipe `id` answers.
    pub open spec fn close_result(self, id: u32) -> Result<(), KernelError> {
        if self.pipes.contains_key(id) {
            Ok(())
        } else {
            Err(KernelError::NotFound)
        }
    }

    /// The registry with pipe `id` replaced by `pipe`, or dropped if `pipe`
    /// has both ends closed.
    pub open spec fn settle(self, id: u32, pipe: PipeState) -> IpcState {
        if pipe.fully_closed() {
            IpcState { pipes: self.pipes.remove(id), ..self }
        } else {
            IpcState { pipes: self.pipes.insert(id, pipe), ..self }
        }
    }

    /// The registry after the read end of pipe `id` was closed.
    pub open spec fn after_close_read(self, id: u32) -> IpcState {
        if self.pipes.contains_key(id) {
            self.settle(id, self.pipes[id].after_close_read())
        } else {
            self
        }
    }

    /// The registry after the write end of pipe `id` was closed.
    pub open spec fn after_close_write(self, id: u32) -> IpcState {
        if self.pipes.contains_key(id) {
            self.settle(id, self.pipes[id].after_close_write())
        } else {
            self
        }
    }
}

/// The registry that owns every pipe.
pub struct IPCManager {
    pipes: BTreeMap<u32, Pipe>,
    next_pipe_id: u32,
}

impl View for IPCManager {
    type V = IpcState;

    closed spec fn view(&self) -> IpcState {
        IpcState {
            pipes: self.pipes@.map_values(|p: Pipe| p@),
            next_pipe_id: self.next_pipe_id,
        }
    }
}

impl IPCManager {
    /// An empty registry.
    pub fn new() -> (ipc: IPCManager)
        ensures
            ipc@ == IpcState::empty(),
            ipc@.wf(),
    {
        let ipc = IPCManager { pipes: BTreeMap::new(), next_pipe_id: 1 };
        assert(ipc@.pipes =~= Map::empty());
        ipc
    }

    /// Whether one more pipe id can be handed out.
    pub fn has_free_id(&self) -> (ok: bool)
        ensures
            ok == (self@.next_pipe_id < u32::MAX),
    {
        self.next_pipe_id < u32::MAX
    }

    /// Registers a new pipe with one reader and one writer and returns its id.
    pub fn register_pipe(&mut self) -> (id: u32)
        requires
            old(self)@.wf(),
            old(self)@.next_pipe_id < u32::MAX,
        ensures
            final(self)@.wf(),
            id == old(self)@.next_pipe_id,
            final(self)@ == old(self)@.after_create(),
    {
        let pipe_id = self.next_pipe_id;
        self.next_pipe_id += 1;
        let mut pipe = Pipe::new(pipe_id);
        pipe.add_reader();
        pipe.add_writer();
        self.pipes.insert(pipe_id, pipe);
        assert(self@.pipes =~= old(self)@.after_create().pipes);
        pipe_id
    }

    /// Creates a pipe with one reader and one writer, and has `fs` mint a
    /// descriptor for each of its ends. Where either counter is used up,
    /// nothing changes.
    pub fn create_pipe(&mut self, fs: &mut FileSystem) -> (r: Result<(i32, i32), KernelError>)
        requires
            old(self)@.wf(),
            old(fs)@.wf(),
        ensures
            final(self)@.wf(),
            final(fs)@.wf(),
            r == old(self)@.create_result(old(fs)@),
            final(self)@ == if old(self)@.can_create(old(fs)@) {
                old(self)@.after_create()
            } else {
                old(self)@
            },
            final(fs)@ == if old(self)@.can_create(old(fs)@) {
                old(fs)@.after_pipe_fds(old(self)@.next_pipe_id)
            } else {
                old(fs)@
            },
            r is Ok ==> old(fs)@.is_unused(r->Ok_0.0) && old(fs)@.is_unused(r->Ok_0.1)
                && r->Ok_0.0 != r->Ok_0.1 && !old(self)@.pipes.contains_key(
                old(self)@.next_pipe_id,
            ),
    {
        if !self.has_free_id() || !fs.can_mint_pair() {
            return Err(KernelError::ResourceExhausted);
        }
        let pipe_id = self.register_pipe();
        fs.create_pipe_fds(pipe_id)
    }

    /// Reads from the pipe `pipe_id` into the front of `buf`.
    pub fn read_pipe(&mut self, pipe_id: u32, buf: &mut [u8]) -> (r: Result<usize, KernelError>)
        requires
            old(self)@.wf(),
        ensures
            final(self)@.wf(),
            r == old(self)@.read_result(pipe_id, old(buf)@.len()),
            final(self)@ == old(self)@.after_read(pipe_id, old(buf)@.len()),
            final(buf)@ == old(self)@.read_bytes(pipe_id, old(buf)@.len()) + old(buf)@.skip(
                old(self)@.read_bytes(pipe_id, old(buf)@.len()).len() as int,
            ),
    {
        let ghost pre = self@;
        assert(pre.pipes.contains_key(pipe_id) == self.pipes@.contains_key(pipe_id));
        match self.pipes.remove(&pipe_id) {
            None => {
                assert(self@.pipes =~= pre.pipes);
                assert(buf@ =~= Seq::<u8>::empty() + buf@.skip(0));
                Err(KernelError::NotFound)
            },
            Some(mut pipe) => {
                let r = pipe.read(buf);
                self.pipes.insert(pipe_id, pipe);
                assert(self@.pipes =~= pre.after_read(pipe_id, old(buf)@.len()).pipes);
                r
            },
        }
    }

    /// Writes a prefix of `buf` to the pipe `pipe_id`.
    pub fn write_pipe(&mut self, pipe_id: u32, buf: &[u8]) -> (r: Result<usize, KernelError>)
        requires
            old(self)@.wf(),
        ensures
            final(self)@.wf(),
            r == old(self)@.write_result(pipe_id, buf@),
            final(self)@ == old(self)@.after_write(pipe_id, buf@),
    {
        let ghost pre = self@;
        assert(pre.pipes.contains_key(pipe_id) == self.pipes@.contains_key(pipe_id));
        match self.pipes.remove(&pipe_id) {
            None => {
                assert(self@.pipes =~= pre.pipes);
                Err(KernelError::NotFound)
            },
            Some(mut pipe) => {
                let r = pipe.write(buf);
                self.pipes.insert(pipe_id, pipe);
                assert(self@.pipes =~= pre.after_write(pipe_id, buf@).pipes);
                r
            },
        }
    }

    /// Closes the read end of the pipe `pipe_id`, and drops the pipe once
    /// both of its ends are closed.
    pub fn close_pipe_read(&mut self, pipe_id: u32) -> (r: Result<(), KernelError>)
        requires
            old(self)@.wf(),
        ensures
            final(self)@.wf(),
            r == old(self)@.close_result(pipe_id),
            final(self)@ == old(self)@.after_close_read(pipe_id),
    {
        let ghost pre = self@;
        assert(pre.pipes.contains_key(pipe_id) == self.pipes@.contains_key(pipe_id));
        match self.pipes.remove(&pipe_id) {
            None => {
                assert(self@.pipes =~= pre.pipes);
                Err(KernelError::NotFound)
            },
            Some(mut pipe) => {
                pipe.close_read();
                if !pipe.is_fully_closed() {
                    self.pipes.insert(pipe_id, pipe);
                }
                assert(self@.pipes =~= pre.after_close_read(pipe_id).pipes);
                Ok(())
            },
        }
    }

    /// Closes the write end of the pipe `pipe_id`, and drops the pipe once
    /// both of its ends are closed.
    pub fn close_pipe_write(&mut self, pipe_id: u32) -> (r: Result<(), KernelError>)
        requires
            old(self)@.wf(),
        ensures
            final(self)@.wf(),
            r == old(self)@.close_result(pipe_id),
            final(self)@ == old(self)@.after_close_write(pipe_id),
    {
        let ghost pre = self@;
        assert(pre.pipes.contains_key(pipe_id) == self.pipes@.contains_key(pipe_id));
        match self.pipes.remove(&pipe_id) {
            None => {
                assert(self@.pipes =~= pre.pipes);
                Err(KernelError::NotFound)
            },
            Some(mut pipe) => {
                pipe.close_write();
                if !pipe.is_fully_closed() {
                    self.pipes.insert(pipe_id, pipe);
                }
                assert(self@.pipes =~= pre.after_close_write(pipe_id).pipes);
                Ok(())
            },
        }
    }

    /// Whether the pipe `pipe_id` is still registered.
    pub fn contains_pipe(&self, pipe_id: u32) -> (present: bool)
        ensures
            present == self@.pipes.contains_key(pipe_id),
    {
        self.pipes.contains_key(&pipe_id)
    }

    /// How many pipes are registered.
    pub fn pipe_count(&self) -> (count: usize)
        ensures
            count == self@.pipes.len(),
    {
        assert(self@.pipes.dom() =~= self.pipes@.dom());
        self.pipes.len()
    }
}

/// Creates the pipe registry.
pub fn init() -> (ipc: IPCManager)
    ensures
        ipc@ == IpcState::empty(),
        ipc@.wf(),
{
    IPCManager::new()
}

/// Creates a pipe in `ipc` with its two descriptors in `fs`.
pub fn create_pipe(ipc: &mut IPCManager, fs: &mut FileSystem) -> (r: Result<
    (i32, i32),
    KernelError,
>)
    requires
        old(ipc)@.wf(),
        old(fs)@.wf(),
    ensures
        final(ipc)@.wf(),
        final(fs)@.wf(),
        r == old(ipc)@.create_result(old(fs)@),
        final(ipc)@ == if old(ipc)@.can_create(old(fs)@) {
            old(ipc)@.after_create()
        } else {
            old(ipc)@
        },
        final(fs)@ == if old(ipc)@.can_create(old(fs)@) {
            old(fs)@.after_pipe_fds(old(ipc)@.next_pipe_id)
        } else {
            old(fs)@
        },
        r is Ok ==> old(fs)@.is_unused(r->Ok_0.0) && old(fs)@.is_unused(r->Ok_0.1) && r->Ok_0.0
            != r->Ok_0.1 && !old(ipc)@.pipes.contains_key(old(ipc)@.next_pipe_id),
{
    ipc.create_pipe(fs)
}

/// Reads from the pipe `pipe_id` of `ipc` into the front of `buf`.
pub fn read_pipe(ipc: &mut IPCManager, pipe_id: u32, buf: &mut [u8]) -> (r: Result<
    usize,
    KernelError,
>)
    requires
        old(ipc)@.wf(),
    ensures
        final(ipc)@.wf(),
        r == old(ipc)@.read_result(pipe_id, old(buf)@.len()),
        final(ipc)@ == old(ipc)@.after_read(pipe_id, old(buf)@.len()),
        final(buf)@ == old(ipc)@.read_bytes(pipe_id, old(buf)@.len()) + old(buf)@.skip(
            old(ipc)@.read_bytes(pipe_id, old(buf)@.len()).len() as int,
        ),
{
    ipc.read_pipe(pipe_id, buf)
}

/// Writes a prefix of `buf` to the pipe `pipe_id` of `ipc`.
pub fn write_pipe(ipc: &mut IPCManager, pipe_id: u32, buf: &[u8]) -> (r: Result<
    usize,
    KernelError,
>)
    requires
        old(ipc)@.wf(),
    ensures
        final(ipc)@.wf(),
        r == old(ipc)@.write_result(pipe_id, buf@),
        final(ipc)@ == old(ipc)@.after_write(pipe_id, buf@),
{
    ipc.write_pipe(pipe_id, buf)
}

/// Closes the read end of the pipe `pipe_id` of `ipc`.
pub fn close_pipe_read(ipc: &mut IPCManager, pipe_id: u32) -> (r: Result<(), KernelError>)
    requires
        old(ipc)@.wf(),
    ensures
        final(ipc)@.wf(),
        r == old(ipc)@.close_result(pipe_id),
        final(ipc)@ == old(ipc)@.after_close_read(pipe_id),
{
    ipc.close_pipe_read(pipe_id)
}

/// Closes the write end of the pipe `pipe_id` of `ipc`.
pub fn close_pipe_write(ipc: &mut IPCManager, pipe_id: u32) -> (r: Result<(), KernelError>)
    requires
        old(ipc)@.wf(),
    ensures
        final(ipc)@.wf(),
        r == old(ipc)@.close_result(pipe_id),
        final(ipc)@ == old(ipc)@.after_close_write(pipe_id),
{
    ipc.close_pipe_write(pipe_id)
}

/// The bytes of `parts`, one part after the other.
pub open spec fn concat(parts: Seq<Seq<u8>>) -> Seq<u8>
    decreases parts.len(),
{
    if parts.len() == 0 {
        Seq::empty()
    } else {
        concat(parts.drop_last()) + parts.last()
    }
}

impl PipeState {
    /// The pipe after each of `writes` was written to it in turn.
    pub open spec fn after_writes(self, writes: Seq<Seq<u8>>) -> PipeState
        decreases writes.len(),
    {
        if writes.len() == 0 {
            self
        } else {
            self.after_writes(writes.drop_last()).after_write(writes.last())
        }
    }

    /// Each of `writes`, at its turn, is no longer than the room that is
    /// left in the pipe.
    pub open spec fn writes_fit(self, writes: Seq<Seq<u8>>) -> bool
        decreases writes.len(),
    {
        if writes.len() == 0 {
            true
        } else {
            self.writes_fit(writes.drop_last()) && writes.last().len() <= self.after_writes(
                writes.drop_last(),
            ).space()
        }
    }

    /// The pipe after one read for each of the buffer sizes `wants`.
    pub open spec fn after_reads(self, wants: Seq<nat>) -> PipeState
        decreases wants.len(),
    {
        if wants.len() == 0 {
            self
        } else {
            self.after_reads(wants.drop_last()).after_read(wants.last())
        }
    }

    /// What one read for each of the buffer sizes `wants` delivers, the
    /// reads one after the other.
    pub open spec fn bytes_of_reads(self, wants: Seq<nat>) -> Seq<u8>
        decreases wants.len(),
    {
        if wants.len() == 0 {
            Seq::empty()
        } else {
            self.bytes_of_reads(wants.drop_last()) + self.after_reads(
                wants.drop_last(),
            ).read_bytes(wants.last())
        }
    }
}

/// Writes that fit are taken whole and in order: after them the pipe holds
/// what it held before, followed by the written bytes one write after the
/// other, and the last of them reports its full length.
pub proof fn lemma_writes_append(pipe: PipeState, writes: Seq<Seq<u8>>)
    requires
        pipe.wf(),
        !pipe.write_closed,
        pipe.readers > 0,
        pipe.writes_fit(writes),
    ensures
        pipe.after_writes(writes).wf(),
        pipe.after_writes(writes) == (PipeState {
            buffer: pipe.buffer + concat(writes),
            ..pipe
        }),
        writes.len() > 0 && writes.last().len() > 0 ==> pipe.after_writes(
            writes.drop_last(),
        ).write_result(writes.last()) == Ok::<usize, KernelError>(writes.last().len() as usize),
    decreases writes.len(),
{
    if writes.len() == 0 {
        assert(pipe.buffer + concat(writes) =~= pipe.buffer);
    } else {
        let before = writes.drop_last();
        let last = writes.last();
        lemma_writes_append(pipe, before);
        let mid = pipe.after_writes(before);
        assert(last.take(last.len() as int) =~= last);
        if mid.space() == 0 {
            assert(last.len() == 0);
            assert(mid.buffer + last =~= mid.buffer);
        }
        assert(pipe.buffer + concat(before) + last =~= pipe.buffer + concat(writes));
    }
}

/// Reads deliver the content of the pipe in order, and each byte once:
/// what the reads delivered, followed by what is still in the pipe, is
/// what the pipe held before the reads.
pub proof fn lemma_reads_deliver_prefix(pipe: PipeState, wants: Seq<nat>)
    requires
        pipe.wf(),
    ensures
        pipe.after_reads(wants).wf(),
        pipe.bytes_of_reads(wants) + pipe.after_reads(wants).buffer == pipe.buffer,
        pipe.after_reads(wants) == (PipeState {
            buffer: pipe.after_reads(wants).buffer,
            ..pipe
        }),
    decreases wants.len(),
{
    if wants.len() == 0 {
        assert(pipe.bytes_of_reads(wants) + pipe.buffer =~= pipe.buffer);
    } else {
        let before = wants.drop_last();
        lemma_reads_deliver_prefix(pipe, before);
        let mid = pipe.after_reads(before);
        let got = mid.read_bytes(wants.last());
        assert(got + mid.after_read(wants.last()).buffer =~= mid.buffer);
        assert(pipe.bytes_of_reads(before) + got + mid.after_read(wants.last()).buffer
            =~= pipe.bytes_of_reads(before) + (got + mid.after_read(wants.last()).buffer));
    }
}

/// First in, first out: on a pipe that starts empty, after writes that
/// each fit and any reads behind them, the bytes that the reads returned,
/// in the order of the reads, are the beginning of the written bytes, in
/// the order of the writes; and they are all of them once the pipe has
/// run empty.
pub proof fn lemma_pipe_fifo(pipe: PipeState, writes: Seq<Seq<u8>>, wants: Seq<nat>)
    requires
        pipe.wf(),
        pipe.buffer.len() == 0,
        !pipe.write_closed,
        pipe.readers > 0,
        pipe.writes_fit(writes),
    ensures
        ({
            let written = pipe.after_writes(writes);
            let read = written.bytes_of_reads(wants);
            let left = written.after_reads(wants).buffer;
            &&& read + left == concat(writes)
            &&& left.len() == 0 ==> read == concat(writes)
        }),
{
    lemma_writes_append(pipe, writes);
    let written = pipe.after_writes(writes);
    lemma_reads_deliver_prefix(written, wants);
    assert(pipe.buffer + concat(writes) =~= concat(writes));
    let read = written.bytes_of_reads(wants);
    let left = written.after_reads(wants).buffer;
    if left.len() == 0 {
        assert(read + left =~= read);
    }
}

/// Once the last writer has closed an empty pipe, a read answers 0, the
/// end of the stream, and not an error.
pub proof fn lemma_read_after_last_writer(pipe: PipeState, want: nat)
    requires
        pipe.buffer.len() == 0,
        pipe.writers <= 1,
        !pipe.read_closed,
    ensures
        pipe.after_close_write().read_result(want) == Ok::<usize, KernelError>(0),
        pipe.after_close_write().read_bytes(want) == Seq::<u8>::empty(),
{
    assert(pipe.after_close_write().buffer.take(0) =~= Seq::<u8>::empty());
}

/// Closing both ends of a pipe, in either order, removes it from the
/// registry: from then on a read or a write under its id finds nothing.
/// While only the read end is closed, a read is refused as closed.
pub proof fn lemma_closed_pipe_is_removed(ipc: IpcState, id: u32, want: nat, data: Seq<u8>)
    requires
        ipc.wf(),
        ipc.pipes.contains_key(id),
    ensures
        !ipc.after_close_read(id).after_close_write(id).pipes.contains_key(id),
        !ipc.after_close_write(id).after_close_read(id).pipes.contains_key(id),
        ipc.after_close_read(id).after_close_write(id).read_result(id, want) == Err::<
            usize,
            KernelError,
        >(KernelError::NotFound),
        ipc.after_close_read(id).after_close_write(id).write_result(id, data) == Err::<
            usize,
            KernelError,
        >(KernelError::NotFound),
        ipc.after_close_write(id).after_close_read(id).read_result(id, want) == Err::<
            usize,
            KernelError,
        >(KernelError::NotFound),
        ipc.after_close_write(id).after_close_read(id).write_result(id, data) == Err::<
            usize,
            KernelError,
        >(KernelError::NotFound),
        ipc.after_close_read(id).pipes.contains_key(id) ==> ipc.after_close_read(id).read_result(
            id,
            want,
        ) == Err::<usize, KernelError>(KernelError::ClosedEndpoint),
        ipc.after_close_write(id).pipes.contains_key(id) ==> ipc.after_close_write(
            id,
        ).write_result(id, data) == Err::<usize, KernelError>(KernelError::ClosedEndpoint),
        ipc.after_close_read(id).after_close_write(id).wf(),
        ipc.after_close_write(id).after_close_read(id).wf(),
{
}

/// The segment may be read.
pub const SHM_READ: u8 = 1;

/// The segment may be written.
pub const SHM_WRITE: u8 = 2;

/// The segment may be executed.
pub const SHM_EXECUTE: u8 = 4;

/// Every permission bit of a segment.
pub const SHM_ALL: u8 = 7;

/// What may be done with a shared memory segment: a set of permission bits.
#[derive(Debug, Clone, Copy, PartialEq, Eq)]
pub struct SharedMemoryPermissions {
    bits: u8,
}

impl View for SharedMemoryPermissions {
    type V = u8;

    /// The permission bits.
    closed spec fn view(&self) -> u8 {
        self.bits
    }
}

impl SharedMemoryPermissions {
    /// The permissions with exactly the bits of `bits`, if all are known.
    pub fn from_bits(bits: u8) -> (perms: Option<SharedMemoryPermissions>)
        ensures
            perms is Some <==> bits & !SHM_ALL == 0,
            perms is Some ==> perms->Some_0@ == bits,
    {
        if bits & !SHM_ALL == 0 {
            Some(SharedMemoryPermissions { bits })
        } else {
            None
        }
    }

    /// Reading and writing, which is what every new segment allows.
    pub fn read_write() -> (perms: SharedMemoryPermissions)
        ensures
            perms@ == SHM_READ | SHM_WRITE,
    {
        SharedMemoryPermissions { bits: SHM_READ | SHM_WRITE }
    }

    /// The permission bits.
    pub fn bits(&self) -> (bits: u8)
        ensures
            bits == self@,
    {
        self.bits
    }

    /// Whether every bit of `other` is granted.
    pub fn contains(&self, other: SharedMemoryPermissions) -> (present: bool)
        ensures
            present == (self@ & other@ == other@),
    {
        self.bits & other.bits == other.bits
    }

    /// The permissions of `self` and of `other` together.
    pub fn union(&self, other: SharedMemoryPermissions) -> (perms: SharedMemoryPermissions)
        ensures
            perms@ == self@ | other@,
    {
        SharedMemoryPermissions { bits: self.bits | other.bits }
    }
}

/// The abstract state of a shared memory segment.
pub struct SegmentState {
    pub id: u32,
    pub size: usize,
    pub data: Seq<u8>,
    pub permissions: u8,
    /// The processes that have the segment attached, in the order in which
    /// they attached it.
    pub attached: Seq<u32>,
}

impl SegmentState {
    /// A fresh segment: `size` zero bytes, nobody attached.
    pub open spec fn fresh(id: u32, size: usize, permissions: u8) -> SegmentState {
        SegmentState {
            id,
            size,
            data: Seq::new(size as nat, |i: int| 0u8),
            permissions,
            attached: Seq::empty(),
        }
    }

    /// The segment with the process `pid` attached, once.
    pub open spec fn attach(self, pid: u32) -> SegmentState {
        if self.attached.contains(pid) {
            self
        } else {
            SegmentState { attached: self.attached.push(pid), ..self }
        }
    }

    /// The segment with the process `pid` no longer attached.
    pub open spec fn detach(self, pid: u32) -> SegmentState {
        SegmentState { attached: self.attached.filter(other_than(pid)), ..self }
    }
}

/// The test that lets every process id but `pid` pass.
pub open spec fn other_than(pid: u32) -> spec_fn(u32) -> bool {
    |other: u32| other != pid
}

/// A segment of memory that several processes can attach.
#[derive(Debug)]
pub struct SharedMemorySegment {
    id: u32,
    size: usize,
    data: Vec<u8>,
    permissions: SharedMemoryPermissions,
    attached_processes: Vec<u32>,
}

impl View for SharedMemorySegment {
    type V = SegmentState;

    closed spec fn view(&self) -> SegmentState {
        SegmentState {
            id: self.id,
            size: self.size,
            data: self.data@,
            permissions: self.permissions@,
            attached: self.attached_processes@,
        }
    }
}

impl SharedMemorySegment {
    /// A fresh segment of `size` zero bytes.
    pub fn new(id: u32, size: usize, permissions: SharedMemoryPermissions) -> (segment:
        SharedMemorySegment)
        ensures
            segment@ == SegmentState::fresh(id, size, permissions@),
    {
        let mut data: Vec<u8> = Vec::new();
        let mut i: usize = 0;
        while i < size
            invariant
                i <= size,
                data@ =~= Seq::new(i as nat, |k: int| 0u8),
            decreases size - i,
        {
            data.push(0);
            i += 1;
        }
        SharedMemorySegment { id, size, data, permissions, attached_processes: Vec::new() }
    }

    /// Attaches the process `pid`, if it is not attached yet.
    fn attach(&mut self, pid: u32)
        ensures
            final(self)@ == old(self)@.attach(pid),
    {
        let mut i: usize = 0;
        while i < self.attached_processes.len()
            invariant
                i <= self.attached_processes@.len(),
                *self == *old(self),
                forall|k: int| 0 <= k < i ==> self.attached_processes@[k] != pid,
            decreases self.attached_processes@.len() - i,
        {
            if self.attached_processes[i] == pid {
                return ;
            }
            i += 1;
        }
        self.attached_processes.push(pid);
    }

    /// Detaches the process `pid`.
    fn detach(&mut self, pid: u32)
        ensures
            final(self)@ == old(self)@.detach(pid),
    {
        let mut kept: Vec<u32> = Vec::new();
        let mut i: usize = 0;
        let ghost all = self.attached_processes@;
        assert(all.take(0) =~= Seq::<u32>::empty());
        while i < self.attached_processes.len()
            invariant
                i <= all.len(),
                *self == *old(self),
                all == self.attached_processes@,
                kept@ == all.take(i as int).filter(other_than(pid)),
            decreases all.len() - i,
        {
            let p = self.attached_processes[i];
            proof {
                assert(all.take(i + 1) =~= all.take(i as int).push(p));
                all.take(i as int).lemma_filter_push(p, other_than(pid));
            }
            if p != pid {
                kept.push(p);
            }
            i += 1;
        }
        assert(all.take(i as int) =~= all);
        self.attached_processes = kept;
    }
}

/// The abstract state of the shared memory registry.
pub struct ShmState {
    pub segments: Map<u32, SegmentState>,
    /// The id that the next segment gets.
    pub next_segment_id: u32,
}

impl ShmState {
    /// The registry at start-up.
    pub open spec fn empty() -> ShmState {
        ShmState { segments: Map::empty(), next_segment_id: 1 }
    }

    /// What `create_segment` answers.
    pub open spec fn create_result(self) -> Result<u32, KernelError> {
        if self.next_segment_id < u32::MAX {
            Ok(self.next_segment_id)
        } else {
            Err(KernelError::ResourceExhausted)
        }
    }

    /// The registry after `create_segment`.
    pub open spec fn after_create(self, size: usize, permissions: u8) -> ShmState {
        if self.next_segment_id < u32::MAX {
            ShmState {
                segments: self.segments.insert(
                    self.next_segment_id,
                    SegmentState::fresh(self.next_segment_id, size, permissions),
                ),
                next_segment_id: (self.next_segment_id + 1) as u32,
            }
        } else {
            self
        }
    }

    /// What an operation on the segment `id` answers that has nothing to
    /// hand back.
    pub open spec fn segment_result(self, id: u32) -> Result<(), KernelError> {
        if self.segments.contains_key(id) {
            Ok(())
        } else {
            Err(KernelError::NotFound)
        }
    }

    /// What `attach_segment` answers: the size of the segment.
    pub open spec fn attach_result(self, id: u32) -> Result<usize, KernelError> {
        if self.segments.contains_key(id) {
            Ok(self.segments[id].size)
        } else {
            Err(KernelError::NotFound)
        }
    }

    /// The registry after `attach_segment`.
    pub open spec fn after_attach(self, id: u32, pid: u32) -> ShmState {
        if self.segments.contains_key(id) {
            ShmState { segments: self.segments.insert(id, self.segments[id].attach(pid)), ..self }
        } else {
            self
        }
    }

    /// The registry after `detach_segment`.
    pub open spec fn after_detach(self, id: u32, pid: u32) -> ShmState {
        if self.segments.contains_key(id) {
            ShmState { segments: self.segments.insert(id, self.segments[id].detach(pid)), ..self }
        } else {
            self
        }
    }

    /// The registry after `delete_segment`.
    pub open spec fn after_delete(self, id: u32) -> ShmState {
        ShmState { segments: self.segments.remove(id), ..self }
    }
}

/// The registry of the shared memory segments.
pub struct SharedMemoryManager {
    segments: BTreeMap<u32, SharedMemorySegment>,
    next_segment_id: u32,
}

impl View for SharedMemoryManager {
    type V = ShmState;

    closed spec fn view(&self) -> ShmState {
        ShmState {
            segments: self.segments@.map_values(|s: SharedMemorySegment| s@),
            next_segment_id: self.next_segment_id,
        }
    }
}

impl SharedMemoryManager {
    /// An empty registry.
    pub fn new() -> (shm: SharedMemoryManager)
        ensures
            shm@ == ShmState::empty(),
    {
        let shm = SharedMemoryManager { segments: BTreeMap::new(), next_segment_id: 1 };
        assert(shm@.segments =~= Map::empty());
        shm
    }

    /// Creates a segment of `size` zero bytes and answers its id.
    pub fn create_segment(&mut self, size: usize, permissions: SharedMemoryPermissions) -> (r:
        Result<u32, KernelError>)
        ensures
            r == old(self)@.create_result(),
            final(self)@ == old(self)@.after_create(size, permissions@),
    {
        if self.next_segment_id == u32::MAX {
            return Err(KernelError::ResourceExhausted);
        }
        let id = self.next_segment_id;
        self.next_segment_id += 1;
        let segment = SharedMemorySegment::new(id, size, permissions);
        self.segments.insert(id, segment);
        assert(self@.segments =~= old(self)@.after_create(size, permissions@).segments);
        Ok(id)
    }

    /// Attaches the segment `segment_id` to the process `process_id` and
    /// answers the size of the segment.
    pub fn attach_segment(&mut self, segment_id: u32, process_id: u32) -> (r: Result<
        usize,
        KernelError,
    >)
        ensures
            r == old(self)@.attach_result(segment_id),
            final(self)@ == old(self)@.after_attach(segment_id, process_id),
    {
        let ghost pre = self@;
        assert(pre.segments.contains_key(segment_id) == self.segments@.contains_key(segment_id));
        match self.segments.remove(&segment_id) {
            Some(mut segment) => {
                segment.attach(process_id);
                let size = segment.size;
                self.segments.insert(segment_id, segment);
                assert(self@.segments =~= pre.after_attach(segment_id, process_id).segments);
                Ok(size)
            },
            None => {
                assert(self@.segments =~= pre.segments);
                Err(KernelError::NotFound)
            },
        }
    }

    /// Detaches the segment `segment_id` from the process `process_id`.
    /// The segment stays, also when nobody has it attached any more.
    pub fn detach_segment(&mut self, segment_id: u32, process_id: u32) -> (r: Result<
        (),
        KernelError,
    >)
        ensures
            r == old(self)@.segment_result(segment_id),
            final(self)@ == old(self)@.after_detach(segment_id, process_id),
    {
        let ghost pre = self@;
        assert(pre.segments.contains_key(segment_id) == self.segments@.contains_key(segment_id));
        match self.segments.remove(&segment_id) {
            Some(mut segment) => {
                segment.detach(process_id);
                self.segments.insert(segment_id, segment);
                assert(self@.segments =~= pre.after_detach(segment_id, process_id).segments);
                Ok(())
            },
            None => {
                assert(self@.segments =~= pre.segments);
                Err(KernelError::NotFound)
            },
        }
    }

    /// Deletes the segment `segment_id`.
    pub fn delete_segment(&mut self, segment_id: u32) -> (r: Result<(), KernelError>)
        ensures
            r == old(self)@.segment_result(segment_id),
            final(self)@ == old(self)@.after_delete(segment_id),
    {
        let ghost pre = self@;
        assert(pre.segments.contains_key(segment_id) == self.segments@.contains_key(segment_id));
        let removed = self.segments.remove(&segment_id);
        assert(self@.segments =~= pre.after_delete(segment_id).segments);
        match removed {
            Some(_) => Ok(()),
            None => Err(KernelError::NotFound),
        }
    }
}

/// Creates a segment of `size` bytes that may be read and written. The
/// flags play no part.
pub fn sys_shmget(shm: &mut SharedMemoryManager, size: usize, _flags: i32) -> (r: Result<
    u32,
    KernelError,
>)
    ensures
        r == old(shm)@.create_result(),
        final(shm)@ == old(shm)@.after_create(size, SHM_READ | SHM_WRITE),
{
    shm.create_segment(size, SharedMemoryPermissions::read_write())
}

/// Attaches the segment `segment_id` to the process `process_id`.
pub fn sys_shmat(shm: &mut SharedMemoryManager, segment_id: u32, process_id: u32) -> (r: Result<
    usize,
    KernelError,
>)
    ensures
        r == old(shm)@.attach_result(segment_id),
        final(shm)@ == old(shm)@.after_attach(segment_id, process_id),
{
    shm.attach_segment(segment_id, process_id)
}

/// Detaches the segment `segment_id` from the process `process_id`.
pub fn sys_shmdt(shm: &mut SharedMemoryManager, segment_id: u32, process_id: u32) -> (r: Result<
    (),
    KernelError,
>)
    ensures
        r == old(shm)@.segment_result(segment_id),
        final(shm)@ == old(shm)@.after_detach(segment_id, process_id),
{
    shm.detach_segment(segment_id, process_id)
}

/// Deletes the segment `segment_id`.
pub fn sys_shmctl_delete(shm: &mut SharedMemoryManager, segment_id: u32) -> (r: Result<
    (),
    KernelError,
>)
    ensures
        r == old(shm)@.segment_result(segment_id),
        final(shm)@ == old(shm)@.after_delete(segment_id),
{
    shm.delete_segment(segment_id)
}

} // verus!
