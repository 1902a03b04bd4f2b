//! The in-memory file abstraction: integer descriptors bound to regular
//! files, pipe ends or devices, and the table of file contents behind them.

use crate::error::KernelError;
use crate::ipc::{IPCManager, IpcState};
use crate::uart::Uart;
use std::collections::BTreeMap;
use vstd::prelude::*;
use vstd::string::StrSliceExecFns;
use vstd::string::StringSliceAdditionalSpecFns;

verus! {

/// Open for reading only.
pub const O_RDONLY: i32 = 0;

/// Open for writing only.
pub const O_WRONLY: i32 = 1;

/// Open for reading and writing.
pub const O_RDWR: i32 = 2;

/// Create the file if it does not exist.
pub const O_CREAT: i32 = 64;

/// Fail if the file exists (accepted, not enforced).
pub const O_EXCL: i32 = 128;

/// Truncate the file (accepted, not enforced).
pub const O_TRUNC: i32 = 512;

/// Every write goes to the end of the file.
pub const O_APPEND: i32 = 1024;

/// Do not block (accepted, not enforced).
pub const O_NONBLOCK: i32 = 2048;

/// Every bit that an open-flags word may carry.
pub const OPEN_FLAGS_ALL: i32 = 3779;

/// The descriptor that the first `open` returns; 0, 1 and 2 are the
/// standard descriptors.
pub const FIRST_FREE_FD: i32 = 3;

/// Whether `bits` carries no bit outside the known open flags.
pub open spec fn flags_valid(bits: i32) -> bool {
    bits & !OPEN_FLAGS_ALL == 0
}

/// Whether every bit of `flag` is set in `bits`.
pub open spec fn flag_set(bits: i32, flag: i32) -> bool {
    bits & flag == flag
}

/// The path that names the null device.
pub open spec fn dev_null_path() -> Seq<char> {
    "/dev/null"@
}

/// A checked set of open flags.
#[derive(Debug, Clone, Copy, PartialEq, Eq)]
pub struct OpenFlags {
    bits: i32,
}

impl View for OpenFlags {
    type V = i32;

    /// The flag word.
    closed spec fn view(&self) -> i32 {
        self.bits
    }
}

impl OpenFlags {
    /// The flags with exactly the bits of `bits`, if all of them are known.
    pub fn from_bits(bits: i32) -> (flags: Option<OpenFlags>)
        ensures
            flags is Some <==> flags_valid(bits),
            flags is Some ==> flags->Some_0@ == bits,
    {
        if bits & !OPEN_FLAGS_ALL == 0 {
            Some(OpenFlags { bits })
        } else {
            None
        }
    }

    /// The flags with the known bits of `bits`; unknown bits are dropped.
    pub fn from_bits_truncate(bits: i32) -> (flags: OpenFlags)
        ensures
            flags@ == bits & OPEN_FLAGS_ALL,
    {
        OpenFlags { bits: bits & OPEN_FLAGS_ALL }
    }

    /// No flag at all, which is also read-only.
    pub fn empty() -> (flags: OpenFlags)
        ensures
            flags@ == 0,
    {
        OpenFlags { bits: 0 }
    }

    /// The flag word.
    pub fn bits(&self) -> (bits: i32)
        ensures
            bits == self@,
    {
        self.bits
    }

    /// Whether every bit of `flag` is set.
    pub fn contains(&self, flag: i32) -> (present: bool)
        ensures
            present == flag_set(self@, flag),
    {
        self.bits & flag == flag
    }
}

/// The devices that a descriptor can be bound to.
#[derive(Debug, Clone, Copy, PartialEq, Eq, Structural)]
pub enum DeviceType {
    Stdin,
    Stdout,
    Stderr,
    Null,
}

/// One end of a pipe, with the id of the pipe.
#[derive(Debug, Clone, Copy, PartialEq, Eq, Structural)]
pub enum PipeEnd {
    Read(u32),
    Write(u32),
}

/// What a descriptor is bound to.
#[derive(Debug, Clone)]
pub enum FileType {
    /// A regular file, by path.
    Regular(String),
    /// A pipe end.
    Pipe(PipeEnd),
    /// A device.
    Device(DeviceType),
}

/// What a descriptor is bound to, with the path as a sequence of characters.
pub enum FileTarget {
    Regular(Seq<char>),
    Pipe(PipeEnd),
    Device(DeviceType),
}

impl View for FileType {
    type V = FileTarget;

    open spec fn view(&self) -> FileTarget {
        match *self {
            FileType::Regular(path) => FileTarget::Regular(path@),
            FileType::Pipe(end) => FileTarget::Pipe(end),
            FileType::Device(device) => FileTarget::Device(device),
        }
    }
}

impl FileType {
    /// A copy bound to the same target.
    pub fn duplicate(&self) -> (copy: FileType)
        ensures
            copy@ == self@,
    {
        match self {
            FileType::Regular(path) => FileType::Regular(path.clone()),
            FileType::Pipe(end) => FileType::Pipe(*end),
            FileType::Device(device) => FileType::Device(*device),
        }
    }
}

/// An open descriptor.
#[derive(Debug, Clone)]
pub struct FileDescriptor {
    pub fd: i32,
    pub file_type: FileType,
    /// The cursor: where the next read or plain write of a regular file starts.
    pub offset: usize,
    pub flags: OpenFlags,
}

/// The abstract state of an open descriptor.
pub struct DescriptorState {
    pub fd: i32,
    pub target: FileTarget,
    pub offset: usize,
    pub flags: i32,
}

impl View for FileDescriptor {
    type V = DescriptorState;

    open spec fn view(&self) -> DescriptorState {
        DescriptorState {
            fd: self.fd,
            target: self.file_type@,
            offset: self.offset,
            flags: self.flags@,
        }
    }
}

impl FileDescriptor {
    /// A copy bound to the same target, with the same cursor and flags,
    /// under the number `fd`.
    pub fn duplicate_as(&self, fd: i32) -> (copy: FileDescriptor)
        ensures
            copy@ == (DescriptorState { fd, ..self@ }),
    {
        FileDescriptor {
            fd,
            file_type: self.file_type.duplicate(),
            offset: self.offset,
            flags: self.flags,
        }
    }
}

/// The bytes of `data` after `buf` was written at `offset`: the file grows
/// where it has to, and a gap before `offset` is filled with zeros.
pub open spec fn write_at(data: Seq<u8>, offset: nat, buf: Seq<u8>) -> Seq<u8> {
    let end = offset + buf.len();
    let padded = if data.len() < end {
        data + Seq::new((end - data.len()) as nat, |i: int| 0u8)
    } else {
        data
    };
    padded.take(offset as int) + buf + padded.skip(end as int)
}

/// How many bytes a read of `want` bytes at `offset` gets from a file of
/// `len` bytes.
pub open spec fn read_count(len: nat, offset: nat, want: nat) -> nat {
    if offset >= len {
        0
    } else if want <= len - offset {
        want
    } else {
        (len - offset) as nat
    }
}

/// Whether the byte string `a` comes before `b` in the order of a
/// dictionary: at the first place where they differ `a` has the smaller
/// byte, or `a` ends there and `b` goes on.
pub open spec fn bytes_less(a: Seq<u8>, b: Seq<u8>) -> bool
    decreases a.len(),
{
    if b.len() == 0 {
        false
    } else if a.len() == 0 {
        true
    } else if a[0] != b[0] {
        a[0] < b[0]
    } else {
        bytes_less(a.skip(1), b.skip(1))
    }
}

/// Whether the path `a` comes before the path `b`: paths are ordered as
/// their UTF-8 bytes are.
pub open spec fn path_less(a: Seq<char>, b: Seq<char>) -> bool {
    bytes_less(vstd::utf8::encode_utf8(a), vstd::utf8::encode_utf8(b))
}

/// Whether each path of `listing` comes before the ones behind it.
pub open spec fn listing_sorted(listing: Seq<Seq<char>>) -> bool {
    forall|i: int, j: int|
        0 <= i < j < listing.len() ==> path_less(#[trigger] listing[i], #[trigger] listing[j])
}

/// The listing `listing` with `path` put before the first path that it
/// comes before.
pub open spec fn sorted_insert(listing: Seq<Seq<char>>, path: Seq<char>) -> Seq<Seq<char>>
    decreases listing.len(),
{
    if listing.len() == 0 {
        seq![path]
    } else if path_less(path, listing[0]) {
        seq![path] + listing
    } else {
        seq![listing[0]] + sorted_insert(listing.skip(1), path)
    }
}

/// What comes before something that comes before a third comes before
/// the third.
pub proof fn lemma_bytes_less_transitive(a: Seq<u8>, b: Seq<u8>, c: Seq<u8>)
    requires
        bytes_less(a, b),
        bytes_less(b, c),
    ensures
        bytes_less(a, c),
    decreases a.len(),
{
    if a.len() > 0 && a[0] == b[0] && b[0] == c[0] {
        lemma_bytes_less_transitive(a.skip(1), b.skip(1), c.skip(1));
    }
}

/// Of two different byte strings one comes before the other.
pub proof fn lemma_bytes_less_total(a: Seq<u8>, b: Seq<u8>)
    requires
        a != b,
    ensures
        bytes_less(a, b) || bytes_less(b, a),
    decreases a.len(),
{
    if a.len() > 0 && b.len() > 0 && a[0] == b[0] {
        if a.skip(1) == b.skip(1) {
            assert(a =~= seq![a[0]] + a.skip(1));
            assert(b =~= seq![b[0]] + b.skip(1));
        }
        lemma_bytes_less_total(a.skip(1), b.skip(1));
    } else if a.len() == 0 && b.len() == 0 {
        assert(a =~= b);
    }
}

/// Of two different paths one comes before the other.
pub proof fn lemma_path_less_total(a: Seq<char>, b: Seq<char>)
    requires
        a != b,
    ensures
        path_less(a, b) || path_less(b, a),
{
    vstd::utf8::encode_utf8_decode_utf8(a);
    vstd::utf8::encode_utf8_decode_utf8(b);
    lemma_bytes_less_total(vstd::utf8::encode_utf8(a), vstd::utf8::encode_utf8(b));
}

proof fn lemma_sorted_insert_at(listing: Seq<Seq<char>>, path: Seq<char>, at: int)
    requires
        0 <= at <= listing.len(),
        forall|i: int| 0 <= i < at ==> !path_less(path, #[trigger] listing[i]),
        at < listing.len() ==> path_less(path, listing[at]),
    ensures
        sorted_insert(listing, path) == listing.insert(at, path),
    decreases at,
{
    if listing.len() == 0 {
        assert(listing.insert(at, path) =~= seq![path]);
    } else if at == 0 {
        assert(listing.insert(0, path) =~= seq![path] + listing);
    } else {
        let rest = listing.skip(1);
        assert(!path_less(path, listing[0]));
        assert forall|i: int| 0 <= i < at - 1 implies !path_less(path, #[trigger] rest[i]) by {
            assert(rest[i] == listing[i + 1]);
        }
        if at < listing.len() {
            assert(rest[at - 1] == listing[at]);
        }
        lemma_sorted_insert_at(rest, path, at - 1);
        assert(seq![listing[0]] + rest.insert(at - 1, path) =~= listing.insert(at, path));
    }
}

proof fn lemma_insert_keeps_sorted(listing: Seq<Seq<char>>, path: Seq<char>, at: int)
    requires
        listing_sorted(listing),
        0 <= at <= listing.len(),
        forall|i: int| 0 <= i < listing.len() ==> #[trigger] listing[i] != path,
        forall|i: int| 0 <= i < at ==> !path_less(path, #[trigger] listing[i]),
        at < listing.len() ==> path_less(path, listing[at]),
    ensures
        listing_sorted(listing.insert(at, path)),
{
    let after = listing.insert(at, path);
    assert forall|i: int, j: int| 0 <= i < j < after.len() implies path_less(
        #[trigger] after[i],
        #[trigger] after[j],
    ) by {
        if j == at {
            assert(after[i] == listing[i]);
            lemma_path_less_total(listing[i], path);
        } else if i == at {
            assert(after[j] == listing[j - 1]);
            if j - 1 > at {
                assert(path_less(listing[at], listing[j - 1]));
                lemma_bytes_less_transitive(
                    vstd::utf8::encode_utf8(path),
                    vstd::utf8::encode_utf8(listing[at]),
                    vstd::utf8::encode_utf8(listing[j - 1]),
                );
            }
        } else {
            let i0 = if i < at {
                i
            } else {
                i - 1
            };
            let j0 = if j < at {
                j
            } else {
                j - 1
            };
            assert(after[i] == listing[i0]);
            assert(after[j] == listing[j0]);
            assert(path_less(listing[i0], listing[j0]));
        }
    }
}

proof fn lemma_remove_keeps_sorted(listing: Seq<Seq<char>>, at: int)
    requires
        listing_sorted(listing),
        0 <= at < listing.len(),
    ensures
        listing_sorted(listing.remove(at)),
{
    let after = listing.remove(at);
    assert forall|i: int, j: int| 0 <= i < j < after.len() implies path_less(
        #[trigger] after[i],
        #[trigger] after[j],
    ) by {
        let i0 = if i < at {
            i
        } else {
            i + 1
        };
        let j0 = if j < at {
            j
        } else {
            j + 1
        };
        assert(after[i] == listing[i0]);
        assert(after[j] == listing[j0]);
        assert(path_less(listing[i0], listing[j0]));
    }
}

/// Whether the bytes `a` come before the bytes `b`.
fn bytes_before(a: &[u8], b: &[u8]) -> (before: bool)
    ensures
        before == bytes_less(a@, b@),
{
    let mut i: usize = 0;
    assert(a@.skip(0) =~= a@);
    assert(b@.skip(0) =~= b@);
    while i < a.len() && i < b.len()
        invariant
            i <= a@.len(),
            i <= b@.len(),
            bytes_less(a@, b@) == bytes_less(a@.skip(i as int), b@.skip(i as int)),
        decreases a@.len() - i,
    {
        if a[i] != b[i] {
            return a[i] < b[i];
        }
        assert(a@.skip(i as int).skip(1) =~= a@.skip(i + 1));
        assert(b@.skip(i as int).skip(1) =~= b@.skip(i + 1));
        i += 1;
    }
    i < b.len()
}

/// The abstract state of the file table.
pub struct FsState {
    /// The open descriptors, by number.
    pub open_files: Map<i32, DescriptorState>,
    /// The number that the next new descriptor gets.
    pub next_fd: i32,
    /// The content of every regular file, by path.
    pub files: Map<Seq<char>, Seq<u8>>,
    /// The paths of the regular files, in the order in which a directory
    /// listing walks them.
    pub listing: Seq<Seq<char>>,
}

impl FsState {
    /// Every descriptor is stored under its own number, which lies below
    /// the number that the next new descriptor gets; that number is never
    /// one of the three standard ones. The listing names each regular file
    /// exactly once, in the order of the paths.
    pub open spec fn wf(self) -> bool {
        &&& FIRST_FREE_FD <= self.next_fd
        &&& forall|fd: i32| #[trigger]
            self.open_files.contains_key(fd) ==> self.open_files[fd].fd == fd && fd
                < self.next_fd
        &&& self.listing.no_duplicates()
        &&& listing_sorted(self.listing)
        &&& forall|path: Seq<char>| #[trigger]
            self.files.contains_key(path) <==> self.listing.contains(path)
    }

    /// A descriptor for a device.
    pub open spec fn device(fd: i32, device: DeviceType, flags: i32) -> DescriptorState {
        DescriptorState { fd, target: FileTarget::Device(device), offset: 0, flags }
    }

    /// The table at start-up: the three standard descriptors, no file.
    pub open spec fn initial() -> FsState {
        FsState {
            open_files: Map::empty().insert(0, Self::device(0, DeviceType::Stdin, O_RDONLY)).insert(
                1,
                Self::device(1, DeviceType::Stdout, O_WRONLY),
            ).insert(2, Self::device(2, DeviceType::Stderr, O_WRONLY)),
            next_fd: FIRST_FREE_FD,
            files: Map::empty(),
            listing: Seq::empty(),
        }
    }

    /// The table with the regular file `path` holding `data`: its content is
    /// replaced if it exists, else the file is added at its place in the
    /// listing.
    pub open spec fn with_file(self, path: Seq<char>, data: Seq<u8>) -> FsState {
        FsState {
            files: self.files.insert(path, data),
            listing: if self.files.contains_key(path) {
                self.listing
            } else {
                sorted_insert(self.listing, path)
            },
            ..self
        }
    }

    /// The table without the regular file `path`.
    pub open spec fn without_file(self, path: Seq<char>) -> FsState {
        FsState {
            files: self.files.remove(path),
            listing: self.listing.remove_value(path),
            ..self
        }
    }

    /// The table with descriptor `desc` stored under its number.
    pub open spec fn with_descriptor(self, desc: DescriptorState) -> FsState {
        FsState { open_files: self.open_files.insert(desc.fd, desc), ..self }
    }

    /// What `open` resolves `path` to, where it resolves.
    pub open spec fn open_target(self, path: Seq<char>, flags: i32) -> Option<FileTarget> {
        if path == dev_null_path() {
            Some(FileTarget::Device(DeviceType::Null))
        } else if flag_set(flags, O_CREAT) || self.files.contains_key(path) {
            Some(FileTarget::Regular(path))
        } else {
            None
        }
    }

    /// What `open` answers.
    pub open spec fn open_result(self, path: Seq<char>, flags: i32) -> Result<i32, KernelError> {
        if !flags_valid(flags) {
            Err(KernelError::InvalidArgument)
        } else if self.next_fd == i32::MAX {
            Err(KernelError::ResourceExhausted)
        } else if self.open_target(path, flags) is Some {
            Ok(self.next_fd)
        } else {
            Err(KernelError::NotFound)
        }
    }

    /// The table after `open`. A descriptor number is used up as soon as the
    /// flags are accepted, also where the file is then not found.
    pub open spec fn after_open(self, path: Seq<char>, flags: i32) -> FsState {
        if !flags_valid(flags) || self.next_fd == i32::MAX {
            self
        } else {
            let bumped = FsState { next_fd: (self.next_fd + 1) as i32, ..self };
            match self.open_target(path, flags) {
                Some(target) => {
                    let created = if target is Regular && !self.files.contains_key(path) {
                        bumped.with_file(path, Seq::empty())
                    } else {
                        bumped
                    };
                    created.with_descriptor(
                        DescriptorState { fd: self.next_fd, target, offset: 0, flags },
                    )
                },
                None => bumped,
            }
        }
    }

    /// What `close` answers.
    pub open spec fn close_result(self, fd: i32) -> Result<(), KernelError> {
        if self.open_files.contains_key(fd) {
            Ok(())
        } else {
            Err(KernelError::NotFound)
        }
    }

    /// The table after `close`.
    pub open spec fn after_close(self, fd: i32) -> FsState {
        FsState { open_files: self.open_files.remove(fd), ..self }
    }

    /// What `read` on `fd` into a buffer of `want` bytes answers.
    pub open spec fn read_result(self, ipc: IpcState, fd: i32, want: nat) -> Result<
        usize,
        KernelError,
    > {
        if !self.open_files.contains_key(fd) {
            Err(KernelError::NotFound)
        } else {
            let desc = self.open_files[fd];
            match desc.target {
                FileTarget::Regular(path) => if self.files.contains_key(path) {
                    Ok(read_count(self.files[path].len(), desc.offset as nat, want) as usize)
                } else {
                    Err(KernelError::NotFound)
                },
                FileTarget::Device(DeviceType::Stdin) => Ok(0usize),
                FileTarget::Device(DeviceType::Null) => Ok(0usize),
                FileTarget::Pipe(PipeEnd::Read(id)) => ipc.read_result(id, want),
                _ => Err(KernelError::Unsupported),
            }
        }
    }

    /// The bytes that `read` on `fd` into a buffer of `want` bytes delivers.
    pub open spec fn read_bytes(self, ipc: IpcState, fd: i32, want: nat) -> Seq<u8> {
        if !self.open_files.contains_key(fd) {
            Seq::empty()
        } else {
            let desc = self.open_files[fd];
            match desc.target {
                FileTarget::Regular(path) => if self.files.contains_key(path) {
                    let n = read_count(self.files[path].len(), desc.offset as nat, want);
                    if n == 0 {
                        Seq::empty()
                    } else {
                        self.files[path].subrange(desc.offset as int, desc.offset + n)
                    }
                } else {
                    Seq::empty()
                },
                FileTarget::Pipe(PipeEnd::Read(id)) => ipc.read_bytes(id, want),
                _ => Seq::empty(),
            }
        }
    }

    /// The table after `read`: the cursor of a regular file has moved past
    /// what was read.
    pub open spec fn after_read(self, fd: i32, want: nat) -> FsState {
        if !self.open_files.contains_key(fd) {
            self
        } else {
            let desc = self.open_files[fd];
            match desc.target {
                FileTarget::Regular(path) => if self.files.contains_key(path) {
                    let n = read_count(self.files[path].len(), desc.offset as nat, want);
                    self.with_descriptor(
                        DescriptorState { offset: (desc.offset + n) as usize, ..desc },
                    )
                } else {
                    self
                },
                _ => self,
            }
        }
    }

    /// The pipe registry after `read` on `fd`.
    pub open spec fn ipc_after_read(self, ipc: IpcState, fd: i32, want: nat) -> IpcState {
        if !self.open_files.contains_key(fd) {
            ipc
        } else {
            match self.open_files[fd].target {
                FileTarget::Pipe(PipeEnd::Read(id)) => ipc.after_read(id, want),
                _ => ipc,
            }
        }
    }

    /// Whether a write of `len` bytes through `desc` to a file of `file_len`
    /// bytes stays within what the machine can address.
    pub open spec fn write_fits(desc: DescriptorState, file_len: nat, len: nat) -> bool {
        if flag_set(desc.flags, O_APPEND) {
            file_len + len <= usize::MAX
        } else {
            desc.offset + len <= usize::MAX
        }
    }

    /// What `write` of `data` on `fd` answers.
    pub open spec fn write_result(self, ipc: IpcState, fd: i32, data: Seq<u8>) -> Result<
        usize,
        KernelError,
    > {
        if !self.open_files.contains_key(fd) {
            Err(KernelError::NotFound)
        } else {
            let desc = self.open_files[fd];
            match desc.target {
                FileTarget::Regular(path) => if !self.files.contains_key(path) {
                    Err(KernelError::NotFound)
                } else if Self::write_fits(desc, self.files[path].len(), data.len()) {
                    Ok(data.len() as usize)
                } else {
                    Err(KernelError::ResourceExhausted)
                },
                FileTarget::Device(DeviceType::Stdout) => Ok(data.len() as usize),
                FileTarget::Device(DeviceType::Stderr) => Ok(data.len() as usize),
                FileTarget::Device(DeviceType::Null) => Ok(data.len() as usize),
                FileTarget::Pipe(PipeEnd::Write(id)) => ipc.write_result(id, data),
                _ => Err(KernelError::Unsupported),
            }
        }
    }

    /// The table after `write`: an appending descriptor adds `data` at the
    /// end of the file and keeps its cursor; any other writes at its cursor
    /// and moves the cursor past what was written.
    pub open spec fn after_write(self, fd: i32, data: Seq<u8>) -> FsState {
        if !self.open_files.contains_key(fd) {
            self
        } else {
            let desc = self.open_files[fd];
            match desc.target {
                FileTarget::Regular(path) => if !self.files.contains_key(path)
                    || !Self::write_fits(desc, self.files[path].len(), data.len()) {
                    self
                } else if flag_set(desc.flags, O_APPEND) {
                    FsState { files: self.files.insert(path, self.files[path] + data), ..self }
                } else {
                    FsState {
                        files: self.files.insert(
                            path,
                            write_at(self.files[path], desc.offset as nat, data),
                        ),
                        ..self
                    }.with_descriptor(
                        DescriptorState { offset: (desc.offset + data.len()) as usize, ..desc },
                    )
                },
                _ => self,
            }
        }
    }

    /// The pipe registry after `write` of `data` on `fd`.
    pub open spec fn ipc_after_write(self, ipc: IpcState, fd: i32, data: Seq<u8>) -> IpcState {
        if !self.open_files.contains_key(fd) {
            ipc
        } else {
            match self.open_files[fd].target {
                FileTarget::Pipe(PipeEnd::Write(id)) => ipc.after_write(id, data),
                _ => ipc,
            }
        }
    }

    /// The bytes that `write` of `data` on `fd` sends to the console.
    pub open spec fn console_output(self, fd: i32, data: Seq<u8>) -> Seq<u8> {
        if !self.open_files.contains_key(fd) {
            Seq::empty()
        } else {
            match self.open_files[fd].target {
                FileTarget::Device(DeviceType::Stdout) => data,
                FileTarget::Device(DeviceType::Stderr) => data,
                _ => Seq::empty(),
            }
        }
    }

    /// What `duplicate_fd` answers.
    pub open spec fn duplicate_result(self, fd: i32) -> Result<i32, KernelError> {
        if !self.open_files.contains_key(fd) {
            Err(KernelError::NotFound)
        } else if self.next_fd == i32::MAX {
            Err(KernelError::ResourceExhausted)
        } else {
            Ok(self.next_fd)
        }
    }

    /// The table after `duplicate_fd`.
    pub open spec fn after_duplicate(self, fd: i32) -> FsState {
        if self.duplicate_result(fd) is Ok {
            FsState { next_fd: (self.next_fd + 1) as i32, ..self }.with_descriptor(
                DescriptorState { fd: self.next_fd, ..self.open_files[fd] },
            )
        } else {
            self
        }
    }

    /// What `duplicate_fd_to` answers. The last number there is cannot be
    /// bound: no number would be left for the descriptor after it.
    pub open spec fn duplicate_to_result(self, oldfd: i32, newfd: i32) -> Result<
        i32,
        KernelError,
    > {
        if !self.open_files.contains_key(oldfd) {
            Err(KernelError::NotFound)
        } else if newfd == i32::MAX {
            Err(KernelError::ResourceExhausted)
        } else {
            Ok(newfd)
        }
    }

    /// The table after `duplicate_fd_to`: whatever `newfd` was bound to
    /// before is gone, and the numbers of new descriptors go on behind
    /// `newfd` where it lies at or above them, so that it is not handed
    /// out again.
    pub open spec fn after_duplicate_to(self, oldfd: i32, newfd: i32) -> FsState {
        if self.duplicate_to_result(oldfd, newfd) is Ok {
            FsState {
                next_fd: if newfd >= self.next_fd {
                    (newfd + 1) as i32
                } else {
                    self.next_fd
                },
                ..self
            }.with_descriptor(DescriptorState { fd: newfd, ..self.open_files[oldfd] })
        } else {
            self
        }
    }

    /// Whether the number `fd` can be handed out: it is none of the three
    /// standard ones, and no descriptor is open under it.
    pub open spec fn is_unused(self, fd: i32) -> bool {
        fd >= FIRST_FREE_FD && !self.open_files.contains_key(fd)
    }

    /// A descriptor for one end of a pipe.
    pub open spec fn pipe_descriptor(fd: i32, end: PipeEnd, flags: i32) -> DescriptorState {
        DescriptorState { fd, target: FileTarget::Pipe(end), offset: 0, flags }
    }

    /// Whether two more descriptor numbers can be handed out.
    pub open spec fn can_mint_pair(self) -> bool {
        self.next_fd < i32::MAX - 1
    }

    /// The table after the two descriptors of pipe `pipe_id` were minted:
    /// the read end first, the write end right after it.
    pub open spec fn after_pipe_fds(self, pipe_id: u32) -> FsState {
        if self.can_mint_pair() {
            FsState { next_fd: (self.next_fd + 2) as i32, ..self }.with_descriptor(
                Self::pipe_descriptor(self.next_fd, PipeEnd::Read(pipe_id), O_RDONLY),
            ).with_descriptor(
                Self::pipe_descriptor(
                    (self.next_fd + 1) as i32,
                    PipeEnd::Write(pipe_id),
                    O_WRONLY,
                ),
            )
        } else {
            self
        }
    }
}

/// A regular file: its path and its bytes.
struct FileEntry {
    path: String,
    data: Vec<u8>,
}

/// Whether some entry has the path `path`.
spec fn has_entry(entries: Seq<FileEntry>, path: Seq<char>) -> bool {
    exists|i: int| 0 <= i < entries.len() && (#[trigger] entries[i]).path@ == path
}

/// The index of an entry with the path `path`.
spec fn entry_index(entries: Seq<FileEntry>, path: Seq<char>) -> int {
    choose|i: int| 0 <= i < entries.len() && (#[trigger] entries[i]).path@ == path
}

/// No two entries share a path.
spec fn entries_distinct(entries: Seq<FileEntry>) -> bool {
    forall|i: int, j: int|
        0 <= i < j < entries.len() ==> (#[trigger] entries[i]).path@ != (
        #[trigger] entries[j]).path@
}

/// The contents of the entries, by path.
spec fn files_map(entries: Seq<FileEntry>) -> Map<Seq<char>, Seq<u8>> {
    Map::new(
        |path: Seq<char>| has_entry(entries, path),
        |path: Seq<char>| entries[entry_index(entries, path)].data@,
    )
}

/// The paths of the entries, in order.
spec fn files_listing(entries: Seq<FileEntry>) -> Seq<Seq<char>> {
    Seq::new(entries.len(), |i: int| entries[i].path@)
}

proof fn lemma_listing_distinct(entries: Seq<FileEntry>)
    ensures
        entries_distinct(entries) <==> files_listing(entries).no_duplicates(),
        forall|path: Seq<char>|
            has_entry(entries, path) <==> files_listing(entries).contains(path),
{
    let listing = files_listing(entries);
    if entries_distinct(entries) {
        assert forall|i: int, j: int|
            0 <= i < listing.len() && 0 <= j < listing.len() && i != j implies listing[i]
            != listing[j] by {
            if i < j {
                assert(entries[i].path@ != entries[j].path@);
            } else {
                assert(entries[j].path@ != entries[i].path@);
            }
        }
    }
    if listing.no_duplicates() {
        assert forall|i: int, j: int| 0 <= i < j < entries.len() implies (
        #[trigger] entries[i]).path@ != (#[trigger] entries[j]).path@ by {
            assert(listing[i] != listing[j]);
        }
    }
    assert forall|path: Seq<char>| has_entry(entries, path) <==> listing.contains(path) by {
        if has_entry(entries, path) {
            let i = entry_index(entries, path);
            assert(listing[i] == path);
        }
        if listing.contains(path) {
            let i = choose|i: int| 0 <= i < listing.len() && listing[i] == path;
            assert(entries[i].path@ == path);
        }
    }
}

proof fn lemma_entry_lookup(entries: Seq<FileEntry>, i: int)
    requires
        entries_distinct(entries),
        0 <= i < entries.len(),
    ensures
        has_entry(entries, entries[i].path@),
        entry_index(entries, entries[i].path@) == i,
        files_map(entries).contains_key(entries[i].path@),
        files_map(entries)[entries[i].path@] == entries[i].data@,
{
    let path = entries[i].path@;
    assert(has_entry(entries, path));
    let j = entry_index(entries, path);
    if j < i {
        assert(entries[j].path@ != entries[i].path@);
    } else if i < j {
        assert(entries[i].path@ != entries[j].path@);
    }
}

proof fn lemma_entries_insert(entries: Seq<FileEntry>, at: int, entry: FileEntry)
    requires
        entries_distinct(entries),
        !has_entry(entries, entry.path@),
        0 <= at <= entries.len(),
    ensures
        entries_distinct(entries.insert(at, entry)),
        files_map(entries.insert(at, entry)) == files_map(entries).insert(
            entry.path@,
            entry.data@,
        ),
        files_listing(entries.insert(at, entry)) == files_listing(entries).insert(
            at,
            entry.path@,
        ),
{
    let after = entries.insert(at, entry);
    assert forall|i: int| 0 <= i < entries.len() implies (#[trigger] entries[i]).path@
        != entry.path@ by {
        if entries[i].path@ == entry.path@ {
            assert(has_entry(entries, entry.path@));
        }
    }
    assert forall|i: int, j: int| 0 <= i < j < after.len() implies (#[trigger] after[i]).path@ != (
    #[trigger] after[j]).path@ by {
        let i0 = if i < at {
            i
        } else {
            i - 1
        };
        let j0 = if j < at {
            j
        } else {
            j - 1
        };
        if i == at {
            assert(entries[j0].path@ != entry.path@);
        } else if j == at {
            assert(entries[i0].path@ != entry.path@);
        } else {
            assert(entries[i0].path@ != entries[j0].path@);
        }
    }
    assert(files_listing(after) =~= files_listing(entries).insert(at, entry.path@));
    assert forall|path: Seq<char>| has_entry(after, path) <==> (has_entry(entries, path) || path
        == entry.path@) by {
        if has_entry(after, path) {
            let i = entry_index(after, path);
            if i < at {
                assert(entries[i].path@ == path);
            } else if i > at {
                assert(entries[i - 1].path@ == path);
            }
        }
        if has_entry(entries, path) {
            let i = entry_index(entries, path);
            let i1 = if i < at {
                i
            } else {
                i + 1
            };
            assert(after[i1].path@ == path);
        }
        if path == entry.path@ {
            assert(after[at].path@ == path);
        }
    }
    assert forall|path: Seq<char>| has_entry(after, path) implies #[trigger] files_map(after)[path]
        == files_map(entries).insert(entry.path@, entry.data@)[path] by {
        let i = entry_index(after, path);
        lemma_entry_lookup(after, i);
        if i < at {
            lemma_entry_lookup(entries, i);
        } else if i > at {
            lemma_entry_lookup(entries, i - 1);
        }
    }
    assert(files_map(after) =~= files_map(entries).insert(entry.path@, entry.data@));
}

proof fn lemma_entries_update(entries: Seq<FileEntry>, i: int, entry: FileEntry)
    requires
        entries_distinct(entries),
        0 <= i < entries.len(),
        entry.path@ == entries[i].path@,
    ensures
        entries_distinct(entries.update(i, entry)),
        files_map(entries.update(i, entry)) == files_map(entries).insert(
            entry.path@,
            entry.data@,
        ),
        files_listing(entries.update(i, entry)) == files_listing(entries),
{
    let after = entries.update(i, entry);
    assert forall|a: int, b: int| 0 <= a < b < after.len() implies (#[trigger] after[a]).path@ != (
    #[trigger] after[b]).path@ by {
        assert(entries[a].path@ != entries[b].path@);
    }
    assert(files_listing(after) =~= files_listing(entries));
    assert forall|path: Seq<char>| has_entry(after, path) <==> has_entry(entries, path) by {
        if has_entry(after, path) {
            let k = entry_index(after, path);
            assert(entries[k].path@ == path);
        }
        if has_entry(entries, path) {
            let k = entry_index(entries, path);
            assert(after[k].path@ == path);
        }
    }
    lemma_entry_lookup(entries, i);
    assert forall|path: Seq<char>| has_entry(after, path) implies #[trigger] files_map(after)[path]
        == files_map(entries).insert(entry.path@, entry.data@)[path] by {
        let k = entry_index(after, path);
        lemma_entry_lookup(after, k);
        lemma_entry_lookup(entries, k);
    }
    assert(files_map(after) =~= files_map(entries).insert(entry.path@, entry.data@));
}

proof fn lemma_entries_remove(entries: Seq<FileEntry>, i: int)
    requires
        entries_distinct(entries),
        0 <= i < entries.len(),
    ensures
        entries_distinct(entries.remove(i)),
        files_map(entries.remove(i)) == files_map(entries).remove(entries[i].path@),
        files_listing(entries.remove(i)) == files_listing(entries).remove(i),
        !has_entry(entries.remove(i), entries[i].path@),
{
    let after = entries.remove(i);
    let gone = entries[i].path@;
    assert forall|a: int| 0 <= a < after.len() implies (#[trigger] after[a]) == entries[if a < i {
        a
    } else {
        a + 1
    }] by {}
    assert forall|a: int, b: int| 0 <= a < b < after.len() implies (#[trigger] after[a]).path@ != (
    #[trigger] after[b]).path@ by {
        let a0 = if a < i {
            a
        } else {
            a + 1
        };
        let b0 = if b < i {
            b
        } else {
            b + 1
        };
        assert(entries[a0].path@ != entries[b0].path@);
    }
    assert(files_listing(after) =~= files_listing(entries).remove(i));
    assert forall|path: Seq<char>| has_entry(after, path) <==> (has_entry(entries, path) && path
        != gone) by {
        if has_entry(after, path) {
            let k = entry_index(after, path);
            let k0 = if k < i {
                k
            } else {
                k + 1
            };
            assert(entries[k0].path@ == path);
            if k0 < i {
                assert(entries[k0].path@ != entries[i].path@);
            } else {
                assert(entries[i].path@ != entries[k0].path@);
            }
        }
        if has_entry(entries, path) && path != gone {
            let k = entry_index(entries, path);
            let k1 = if k < i {
                k
            } else {
                k - 1
            };
            assert(after[k1].path@ == path);
        }
    }
    assert forall|path: Seq<char>| has_entry(after, path) implies #[trigger] files_map(after)[path]
        == files_map(entries).remove(gone)[path] by {
        let k = entry_index(after, path);
        let k0 = if k < i {
            k
        } else {
            k + 1
        };
        lemma_entry_lookup(after, k);
        lemma_entry_lookup(entries, k0);
    }
    assert(files_map(after) =~= files_map(entries).remove(gone));
}

/// The file table: the open descriptors and the regular files behind them.
pub struct FileSystem {
    open_files: BTreeMap<i32, FileDescriptor>,
    next_fd: i32,
    files: Vec<FileEntry>,
}

impl View for FileSystem {
    type V = FsState;

    closed spec fn view(&self) -> FsState {
        FsState {
            open_files: self.open_files@.map_values(|d: FileDescriptor| d@),
            next_fd: self.next_fd,
            files: files_map(self.files@),
            listing: files_listing(self.files@),
        }
    }
}

impl FileSystem {
    proof fn lemma_view_wf(&self)
        requires
            self@.wf(),
        ensures
            entries_distinct(self.files@),
            listing_sorted(files_listing(self.files@)),
            forall|path: Seq<char>|
                has_entry(self.files@, path) <==> self@.files.contains_key(path),
    {
        lemma_listing_distinct(self.files@);
    }

    /// Puts the new file `entry` at its place among the files.
    fn insert_entry(&mut self, entry: FileEntry)
        requires
            entries_distinct(old(self).files@),
            listing_sorted(files_listing(old(self).files@)),
            !has_entry(old(self).files@, entry.path@),
        ensures
            final(self).open_files == old(self).open_files,
            final(self).next_fd == old(self).next_fd,
            entries_distinct(final(self).files@),
            listing_sorted(files_listing(final(self).files@)),
            files_map(final(self).files@) == files_map(old(self).files@).insert(
                entry.path@,
                entry.data@,
            ),
            files_listing(final(self).files@) == sorted_insert(
                files_listing(old(self).files@),
                entry.path@,
            ),
    {
        let ghost entries = self.files@;
        let ghost listing = files_listing(entries);
        let mut at: usize = 0;
        while at < self.files.len() && !bytes_before(
            entry.path.as_str().as_bytes(),
            self.files[at].path.as_str().as_bytes(),
        )
            invariant
                at <= self.files@.len(),
                self.files@ == entries,
                listing == files_listing(entries),
                forall|i: int| 0 <= i < at ==> !path_less(entry.path@, #[trigger] listing[i]),
            decreases self.files@.len() - at,
        {
            at += 1;
        }
        proof {
            assert(at < entries.len() ==> path_less(entry.path@, listing[at as int]));
            assert forall|i: int| 0 <= i < listing.len() implies #[trigger] listing[i]
                != entry.path@ by {
                if listing[i] == entry.path@ {
                    assert(entries[i].path@ == entry.path@);
                    assert(has_entry(entries, entry.path@));
                }
            }
            lemma_entries_insert(entries, at as int, entry);
            lemma_sorted_insert_at(listing, entry.path@, at as int);
            lemma_insert_keeps_sorted(listing, entry.path@, at as int);
        }
        self.files.insert(at, entry);
    }

    /// The index of the regular file `path`, if there is one.
    fn find_file(&self, path: &String) -> (found: Option<usize>)
        requires
            self@.wf(),
        ensures
            match found {
                Some(i) => i < self.files@.len() && self.files@[i as int].path@ == path@
                    && self@.files.contains_key(path@) && self@.files[path@]
                    == self.files@[i as int].data@,
                None => !self@.files.contains_key(path@),
            },
    {
        proof {
            self.lemma_view_wf();
        }
        let mut i: usize = 0;
        while i < self.files.len()
            invariant
                i <= self.files@.len(),
                entries_distinct(self.files@),
                forall|k: int| 0 <= k < i ==> (#[trigger] self.files@[k]).path@ != path@,
            decreases self.files@.len() - i,
        {
            if self.files[i].path == *path {
                proof {
                    lemma_entry_lookup(self.files@, i as int);
                }
                return Some(i);
            }
            i += 1;
        }
        None
    }

    /// The table at start-up: descriptors 0, 1 and 2 are bound to the
    /// standard input, output and error devices, and there is no file.
    pub fn new() -> (fs: FileSystem)
        ensures
            fs@ == FsState::initial(),
            fs@.wf(),
    {
        let mut fs = FileSystem {
            open_files: BTreeMap::new(),
            next_fd: FIRST_FREE_FD,
            files: Vec::new(),
        };
        fs.open_files.insert(
            0,
            FileDescriptor {
                fd: 0,
                file_type: FileType::Device(DeviceType::Stdin),
                offset: 0,
                flags: OpenFlags::from_bits_truncate(O_RDONLY),
            },
        );
        fs.open_files.insert(
            1,
            FileDescriptor {
                fd: 1,
                file_type: FileType::Device(DeviceType::Stdout),
                offset: 0,
                flags: OpenFlags::from_bits_truncate(O_WRONLY),
            },
        );
        fs.open_files.insert(
            2,
            FileDescriptor {
                fd: 2,
                file_type: FileType::Device(DeviceType::Stderr),
                offset: 0,
                flags: OpenFlags::from_bits_truncate(O_WRONLY),
            },
        );
        proof {
            assert(0i32 & 3779i32 == 0i32) by (bit_vector);
            assert(1i32 & 3779i32 == 1i32) by (bit_vector);
            assert(fs@.open_files =~= FsState::initial().open_files);
            assert(fs@.files =~= FsState::initial().files);
            assert(fs@.listing =~= FsState::initial().listing);
        }
        fs
    }

    /// Opens `path` and returns the new descriptor. The null device is bound
    /// by its path; any other path names a regular file, which is created
    /// empty if it is missing and creation was asked for.
    pub fn open(&mut self, path: &str, flags: i32, _mode: u32) -> (r: Result<i32, KernelError>)
        requires
            old(self)@.wf(),
        ensures
            final(self)@.wf(),
            r == old(self)@.open_result(path@, flags),
            final(self)@ == old(self)@.after_open(path@, flags),
            r is Ok ==> old(self)@.is_unused(r->Ok_0),
    {
        let ghost pre = self@;
        let open_flags = match OpenFlags::from_bits(flags) {
            Some(f) => f,
            None => {
                return Err(KernelError::InvalidArgument);
            },
        };
        if self.next_fd == i32::MAX {
            return Err(KernelError::ResourceExhausted);
        }
        proof {
            self.lemma_view_wf();
        }
        let fd = self.next_fd;
        self.next_fd += 1;
        let owned: String = path.to_owned();
        let null_path: String = "/dev/null".to_owned();
        let file_type = if owned == null_path {
            FileType::Device(DeviceType::Null)
        } else {
            let existing = self.find_file(&owned);
            if existing.is_none() {
                if open_flags.contains(O_CREAT) {
                    let entry = FileEntry { path: owned.clone(), data: Vec::new() };
                    self.insert_entry(entry);
                } else {
                    assert(self@.open_files =~= pre.open_files);
                    return Err(KernelError::NotFound);
                }
            }
            FileType::Regular(owned)
        };
        let descriptor = FileDescriptor { fd, file_type, offset: 0, flags: open_flags };
        self.open_files.insert(fd, descriptor);
        proof {
            let post = pre.after_open(path@, flags);
            assert(self@.open_files =~= post.open_files);
            assert(self@.files =~= post.files);
            assert(self@.listing =~= post.listing);
            lemma_listing_distinct(self.files@);
        }
        Ok(fd)
    }

    /// Closes the descriptor `fd`.
    pub fn close(&mut self, fd: i32) -> (r: Result<(), KernelError>)
        requires
            old(self)@.wf(),
        ensures
            final(self)@.wf(),
            r == old(self)@.close_result(fd),
            final(self)@ == old(self)@.after_close(fd),
    {
        let ghost pre = self@;
        assert(pre.open_files.contains_key(fd) == self.open_files@.contains_key(fd));
        let removed = self.open_files.remove(&fd);
        assert(self@.open_files =~= pre.after_close(fd).open_files);
        match removed {
            Some(_) => Ok(()),
            None => Err(KernelError::NotFound),
        }
    }
}

/// What a descriptor leads to, as far as a read or a write has to know.
enum Resolved {
    /// A regular file, with its index in the table if it still exists.
    File(Option<usize>),
    PipeRead(u32),
    PipeWrite(u32),
    Device(DeviceType),
}

/// Copies `count` bytes of `data`, from `offset` on, into the front of `buf`.
fn copy_out(data: &Vec<u8>, offset: usize, count: usize, buf: &mut [u8])
    requires
        offset + count <= data@.len(),
        count <= old(buf)@.len(),
    ensures
        final(buf)@ == data@.subrange(offset as int, offset + count) + old(buf)@.skip(
            count as int,
        ),
{
    let ghost pre_buf = buf@;
    let len = data.len();
    let mut k: usize = 0;
    while k < count
        invariant
            k <= count,
            offset + count <= data@.len(),
            data@.len() == len,
            count <= pre_buf.len(),
            buf@.len() == pre_buf.len(),
            buf@ =~= data@.subrange(offset as int, offset + k) + pre_buf.skip(k as int),
        decreases count - k,
    {
        buf[k] = data[offset + k];
        k += 1;
    }
}

/// Appends `buf` to `data`.
fn append_bytes(data: &mut Vec<u8>, buf: &[u8])
    ensures
        final(data)@ == old(data)@ + buf@,
{
    let mut k: usize = 0;
    while k < buf.len()
        invariant
            k <= buf@.len(),
            data@ =~= old(data)@ + buf@.take(k as int),
        decreases buf@.len() - k,
    {
        data.push(buf[k]);
        k += 1;
    }
    assert(buf@.take(k as int) =~= buf@);
}

/// Writes `buf` into `data` at `offset`, growing `data` with zeros where
/// it is too short.
fn store_at(data: &mut Vec<u8>, offset: usize, buf: &[u8])
    requires
        offset + buf@.len() <= usize::MAX,
    ensures
        final(data)@ == write_at(old(data)@, offset as nat, buf@),
{
    let end = offset + buf.len();
    let ghost before = data@;
    assert(data@ =~= before + Seq::new(0nat, |i: int| 0u8));
    while data.len() < end
        invariant
            before.len() <= data@.len(),
            before.len() < end ==> data@.len() <= end,
            before.len() >= end ==> data@.len() == before.len(),
            data@ =~= before + Seq::new((data@.len() - before.len()) as nat, |i: int| 0u8),
        decreases end - data@.len(),
    {
        data.push(0);
    }
    let ghost padded = data@;
    proof {
        if before.len() < end {
            assert(padded =~= before + Seq::new((end - before.len()) as nat, |i: int| 0u8));
        } else {
            assert(padded =~= before);
        }
    }
    let mut k: usize = 0;
    while k < buf.len()
        invariant
            k <= buf@.len(),
            end == offset + buf@.len(),
            end <= padded.len(),
            data@.len() == padded.len(),
            data@ =~= padded.take(offset as int) + buf@.take(k as int) + padded.skip(offset + k),
        decreases buf@.len() - k,
    {
        data[offset + k] = buf[k];
        k += 1;
    }
    assert(buf@.take(k as int) =~= buf@);
}

/// The text that lossy UTF-8 decoding makes of a byte string: the text
/// itself where the bytes are well-formed UTF-8, and otherwise the text
/// with a replacement character for each ill-formed part.
pub uninterp spec fn utf8_lossy(bytes: Seq<u8>) -> Seq<char>;

/// Decodes `bytes` with `String::from_utf8_lossy` of the standard library.
/// The result is a function of the bytes alone; on well-formed UTF-8 it is
/// the text that the bytes encode.
#[verifier::external_body]
fn decode_lossy(bytes: &[u8]) -> (text: String)
    ensures
        text@ == utf8_lossy(bytes@),
        vstd::utf8::valid_utf8(bytes@) ==> text@ == vstd::utf8::decode_utf8(bytes@),
{
    String::from_utf8_lossy(bytes).into_owned()
}

impl FileSystem {
    /// Looks up what `fd` leads to, with its cursor and whether it appends.
    fn resolve(&self, fd: i32) -> (found: Option<(Resolved, usize, bool)>)
        requires
            self@.wf(),
        ensures
            found is Some <==> self@.open_files.contains_key(fd),
            match found {
                Some((resolved, offset, append)) => {
                    let desc = self@.open_files[fd];
                    &&& offset == desc.offset
                    &&& append == flag_set(desc.flags, O_APPEND)
                    &&& match resolved {
                        Resolved::File(Some(i)) => desc.target is Regular && i < self.files@.len()
                            && self.files@[i as int].path@ == desc.target->Regular_0
                            && self@.files.contains_key(desc.target->Regular_0)
                            && self@.files[desc.target->Regular_0] == self.files@[i as int].data@,
                        Resolved::File(None) => desc.target is Regular
                            && !self@.files.contains_key(desc.target->Regular_0),
                        Resolved::PipeRead(id) => desc.target == FileTarget::Pipe(
                            PipeEnd::Read(id),
                        ),
                        Resolved::PipeWrite(id) => desc.target == FileTarget::Pipe(
                            PipeEnd::Write(id),
                        ),
                        Resolved::Device(device) => desc.target == FileTarget::Device(device),
                    }
                },
                None => true,
            },
    {
        assert(self@.open_files.contains_key(fd) == self.open_files@.contains_key(fd));
        match self.open_files.get(&fd) {
            None => None,
            Some(descriptor) => {
                let resolved = match &descriptor.file_type {
                    FileType::Regular(path) => Resolved::File(self.find_file(path)),
                    FileType::Pipe(PipeEnd::Read(id)) => Resolved::PipeRead(*id),
                    FileType::Pipe(PipeEnd::Write(id)) => Resolved::PipeWrite(*id),
                    FileType::Device(device) => Resolved::Device(*device),
                };
                Some((resolved, descriptor.offset, descriptor.flags.contains(O_APPEND)))
            },
        }
    }

    /// Moves the cursor of the open descriptor `fd` to `offset`.
    fn set_offset(&mut self, fd: i32, offset: usize)
        requires
            old(self)@.wf(),
            old(self)@.open_files.contains_key(fd),
        ensures
            final(self)@ == old(self)@.with_descriptor(
                DescriptorState { offset, ..old(self)@.open_files[fd] },
            ),
            final(self).files == old(self).files,
    {
        let ghost pre = self@;
        assert(pre.open_files.contains_key(fd) == self.open_files@.contains_key(fd));
        match self.open_files.remove(&fd) {
            Some(mut descriptor) => {
                descriptor.offset = offset;
                self.open_files.insert(fd, descriptor);
            },
            None => {},
        }
        assert(self@.open_files =~= pre.with_descriptor(
            DescriptorState { offset, ..pre.open_files[fd] },
        ).open_files);
    }

    /// Reads from `fd` into the front of `buf`. A regular file is read from
    /// the cursor, which moves on; at its end the answer is 0. The standard
    /// input and the null device always answer 0. The read end of a pipe is
    /// read through the pipe registry.
    pub fn read(&mut self, ipc: &mut IPCManager, fd: i32, buf: &mut [u8]) -> (r: Result<
        usize,
        KernelError,
    >)
        requires
            old(self)@.wf(),
            old(ipc)@.wf(),
        ensures
            final(self)@.wf(),
            final(ipc)@.wf(),
            r == old(self)@.read_result(old(ipc)@, fd, old(buf)@.len()),
            final(self)@ == old(self)@.after_read(fd, old(buf)@.len()),
            final(ipc)@ == old(self)@.ipc_after_read(old(ipc)@, fd, old(buf)@.len()),
            final(buf)@ == old(self)@.read_bytes(old(ipc)@, fd, old(buf)@.len()) + old(
                buf,
            )@.skip(old(self)@.read_bytes(old(ipc)@, fd, old(buf)@.len()).len() as int),
    {
        let ghost pre = self@;
        let ghost pre_buf = buf@;
        assert(pre_buf =~= Seq::<u8>::empty() + pre_buf.skip(0));
        let (resolved, offset, _append) = match self.resolve(fd) {
            Some(found) => found,
            None => {
                return Err(KernelError::NotFound);
            },
        };
        match resolved {
            Resolved::File(None) => Err(KernelError::NotFound),
            Resolved::File(Some(i)) => {
                let len = self.files[i].data.len();
                let available = if offset >= len {
                    0
                } else {
                    len - offset
                };
                let count = if buf.len() <= available {
                    buf.len()
                } else {
                    available
                };
                if count > 0 {
                    copy_out(&self.files[i].data, offset, count, buf);
                    self.set_offset(fd, offset + count);
                } else {
                    assert(self@.open_files =~= pre.after_read(fd, pre_buf.len()).open_files);
                }
                Ok(count)
            },
            Resolved::PipeRead(id) => ipc.read_pipe(id, buf),
            Resolved::Device(DeviceType::Stdin) => Ok(0),
            Resolved::Device(DeviceType::Null) => Ok(0),
            _ => Err(KernelError::Unsupported),
        }
    }

    /// Writes `buf` through `fd`. A regular file is written at the cursor,
    /// which moves on, or at its end if the descriptor appends; it grows as
    /// needed. The standard output and error devices pass the bytes to the
    /// console; the null device swallows them. The write end of a pipe is
    /// written through the pipe registry.
    pub fn write(&mut self, ipc: &mut IPCManager, console: &mut Uart, fd: i32, buf: &[u8]) -> (r:
        Result<usize, KernelError>)
        requires
            old(self)@.wf(),
            old(ipc)@.wf(),
        ensures
            final(self)@.wf(),
            final(ipc)@.wf(),
            r == old(self)@.write_result(old(ipc)@, fd, buf@),
            final(self)@ == old(self)@.after_write(fd, buf@),
            final(ipc)@ == old(self)@.ipc_after_write(old(ipc)@, fd, buf@),
            final(console)@ == old(console)@ + old(self)@.console_output(fd, buf@),
            final(console).spec_base_address() == old(console).spec_base_address(),
    {
        let ghost pre = self@;
        assert(console@ =~= console@ + Seq::<u8>::empty());
        let (resolved, offset, append) = match self.resolve(fd) {
            Some(found) => found,
            None => {
                return Err(KernelError::NotFound);
            },
        };
        match resolved {
            Resolved::File(None) => Err(KernelError::NotFound),
            Resolved::File(Some(i)) => {
                proof {
                    self.lemma_view_wf();
                }
                let ghost entries = self.files@;
                if append {
                    let len = self.files[i].data.len();
                    if buf.len() > usize::MAX - len {
                        return Err(KernelError::ResourceExhausted);
                    }
                    append_bytes(&mut self.files[i].data, buf);
                    proof {
                        assert(self.files@ =~= entries.update(i as int, self.files@[i as int]));
                        lemma_entries_update(entries, i as int, self.files@[i as int]);
                        lemma_listing_distinct(self.files@);
                        assert(self@.open_files =~= pre.after_write(fd, buf@).open_files);
                    }
                } else {
                    if buf.len() > usize::MAX - offset {
                        return Err(KernelError::ResourceExhausted);
                    }
                    store_at(&mut self.files[i].data, offset, buf);
                    proof {
                        assert(self.files@ =~= entries.update(i as int, self.files@[i as int]));
                        lemma_entries_update(entries, i as int, self.files@[i as int]);
                        lemma_listing_distinct(self.files@);
                    }
                    self.set_offset(fd, offset + buf.len());
                }
                Ok(buf.len())
            },
            Resolved::PipeWrite(id) => ipc.write_pipe(id, buf),
            Resolved::Device(DeviceType::Stdout) => {
                console.write_bytes(buf);
                Ok(buf.len())
            },
            Resolved::Device(DeviceType::Stderr) => {
                console.write_bytes(buf);
                Ok(buf.len())
            },
            Resolved::Device(DeviceType::Null) => Ok(buf.len()),
            _ => Err(KernelError::Unsupported),
        }
    }

    /// Binds the next free descriptor to what `fd` is bound to.
    pub fn duplicate_fd(&mut self, fd: i32) -> (r: Result<i32, KernelError>)
        requires
            old(self)@.wf(),
        ensures
            final(self)@.wf(),
            r == old(self)@.duplicate_result(fd),
            final(self)@ == old(self)@.after_duplicate(fd),
            r is Ok ==> old(self)@.is_unused(r->Ok_0),
    {
        let ghost pre = self@;
        assert(pre.open_files.contains_key(fd) == self.open_files@.contains_key(fd));
        let copy = match self.open_files.get(&fd) {
            Some(descriptor) => {
                if self.next_fd == i32::MAX {
                    return Err(KernelError::ResourceExhausted);
                }
                descriptor.duplicate_as(self.next_fd)
            },
            None => {
                return Err(KernelError::NotFound);
            },
        };
        let new_fd = self.next_fd;
        self.next_fd += 1;
        self.open_files.insert(new_fd, copy);
        assert(self@.open_files =~= pre.after_duplicate(fd).open_files);
        Ok(new_fd)
    }

    /// Binds `newfd` to what `oldfd` is bound to. Whatever `newfd` was bound
    /// to before is closed without a word. A number that was not handed out
    /// yet is used up with all the numbers below it.
    pub fn duplicate_fd_to(&mut self, oldfd: i32, newfd: i32) -> (r: Result<i32, KernelError>)
        requires
            old(self)@.wf(),
        ensures
            final(self)@.wf(),
            r == old(self)@.duplicate_to_result(oldfd, newfd),
            final(self)@ == old(self)@.after_duplicate_to(oldfd, newfd),
    {
        let ghost pre = self@;
        assert(pre.open_files.contains_key(oldfd) == self.open_files@.contains_key(oldfd));
        let copy = match self.open_files.get(&oldfd) {
            Some(descriptor) => {
                if newfd == i32::MAX {
                    return Err(KernelError::ResourceExhausted);
                }
                descriptor.duplicate_as(newfd)
            },
            None => {
                return Err(KernelError::NotFound);
            },
        };
        if newfd >= self.next_fd {
            self.next_fd = newfd + 1;
        }
        self.open_files.remove(&newfd);
        self.open_files.insert(newfd, copy);
        assert(self@.open_files =~= pre.after_duplicate_to(oldfd, newfd).open_files);
        Ok(newfd)
    }

    /// Whether two more descriptors can be minted.
    pub fn can_mint_pair(&self) -> (ok: bool)
        ensures
            ok == self@.can_mint_pair(),
    {
        self.next_fd < i32::MAX - 1
    }

    /// Mints the two descriptors of the pipe `pipe_id`: its read end, and
    /// then its write end.
    pub fn create_pipe_fds(&mut self, pipe_id: u32) -> (r: Result<(i32, i32), KernelError>)
        requires
            old(self)@.wf(),
        ensures
            final(self)@.wf(),
            r == if old(self)@.can_mint_pair() {
                Ok::<(i32, i32), KernelError>(
                    (old(self)@.next_fd, (old(self)@.next_fd + 1) as i32),
                )
            } else {
                Err::<(i32, i32), KernelError>(KernelError::ResourceExhausted)
            },
            final(self)@ == old(self)@.after_pipe_fds(pipe_id),
            r is Ok ==> old(self)@.is_unused(r->Ok_0.0) && old(self)@.is_unused(r->Ok_0.1)
                && r->Ok_0.0 != r->Ok_0.1,
    {
        let ghost pre = self@;
        if !self.can_mint_pair() {
            return Err(KernelError::ResourceExhausted);
        }
        let read_fd = self.next_fd;
        self.next_fd += 1;
        let write_fd = self.next_fd;
        self.next_fd += 1;
        let read_descriptor = FileDescriptor {
            fd: read_fd,
            file_type: FileType::Pipe(PipeEnd::Read(pipe_id)),
            offset: 0,
            flags: OpenFlags::from_bits_truncate(O_RDONLY),
        };
        let write_descriptor = FileDescriptor {
            fd: write_fd,
            file_type: FileType::Pipe(PipeEnd::Write(pipe_id)),
            offset: 0,
            flags: OpenFlags::from_bits_truncate(O_WRONLY),
        };
        self.open_files.insert(read_fd, read_descriptor);
        self.open_files.insert(write_fd, write_descriptor);
        proof {
            assert(0i32 & 3779i32 == 0i32) by (bit_vector);
            assert(1i32 & 3779i32 == 1i32) by (bit_vector);
            assert(self@.open_files =~= pre.after_pipe_fds(pipe_id).open_files);
        }
        Ok((read_fd, write_fd))
    }

    /// The descriptor state of `fd`, if it is open.
    pub fn descriptor(&self, fd: i32) -> (found: Option<FileDescriptor>)
        ensures
            found is Some <==> self@.open_files.contains_key(fd),
            found is Some ==> found->Some_0@ == self@.open_files[fd],
    {
        assert(self@.open_files.contains_key(fd) == self.open_files@.contains_key(fd));
        match self.open_files.get(&fd) {
            Some(descriptor) => Some(descriptor.duplicate_as(descriptor.fd)),
            None => None,
        }
    }
}

impl FsState {
    /// What the regular file `file` is called in a listing of `dir`: the
    /// rest of its path behind `dir`, without one leading slash. A file
    /// that is not below `dir` has no entry.
    pub open spec fn directory_entry(file: Seq<char>, dir: Seq<char>) -> Option<Seq<char>> {
        if file.len() > dir.len() && file.take(dir.len() as int) == dir {
            let rest = file.skip(dir.len() as int);
            if rest[0] != '/' {
                Some(rest)
            } else if rest.len() > 1 {
                Some(rest.skip(1))
            } else {
                None
            }
        } else {
            None
        }
    }

    /// The entries that the files of `listing` have in a listing of `dir`,
    /// in the order of `listing`.
    pub open spec fn directory_entries(listing: Seq<Seq<char>>, dir: Seq<char>) -> Seq<Seq<char>>
        decreases listing.len(),
    {
        if listing.len() == 0 {
            Seq::empty()
        } else {
            let before = Self::directory_entries(listing.drop_last(), dir);
            match Self::directory_entry(listing.last(), dir) {
                Some(entry) => before.push(entry),
                None => before,
            }
        }
    }

    /// The listing of the directory `dir`: the two dot entries, then the
    /// fixed names of the root or of `/home`, or else the files below
    /// `dir`, or two sample names where there is none.
    pub open spec fn directory_listing(self, dir: Seq<char>) -> Seq<Seq<char>> {
        let dots = seq!["."@, ".."@];
        if dir == "/"@ {
            dots + seq!["bin"@, "etc"@, "home"@, "tmp"@, "usr"@, "var"@]
        } else if dir == "/home"@ {
            dots + seq!["user"@, "guest"@]
        } else {
            let found = Self::directory_entries(self.listing, dir);
            if found.len() == 0 {
                dots + seq!["example.txt"@, "readme.md"@]
            } else {
                dots + found
            }
        }
    }

    /// The table after the regular file `source` was moved to `dest`.
    pub open spec fn after_move(self, source: Seq<char>, dest: Seq<char>) -> FsState {
        if self.files.contains_key(source) {
            self.without_file(source).with_file(dest, self.files[source])
        } else {
            self
        }
    }

    /// The table after the regular file `source` was copied to `dest`.
    pub open spec fn after_copy(self, source: Seq<char>, dest: Seq<char>) -> FsState {
        if self.files.contains_key(source) {
            self.with_file(dest, self.files[source])
        } else {
            self
        }
    }

    /// What an operation on the regular file `path` answers that needs it
    /// to exist.
    pub open spec fn file_result(self, path: Seq<char>) -> Result<(), KernelError> {
        if self.files.contains_key(path) {
            Ok(())
        } else {
            Err(KernelError::NotFound)
        }
    }
}

/// The texts of a vector of strings.
pub open spec fn texts(names: Seq<String>) -> Seq<Seq<char>> {
    Seq::new(names.len(), |i: int| names[i]@)
}

/// The entry of the file `file` in a listing of `dir`, if it has one.
fn relative_entry(file: &str, dir: &str) -> (entry: Option<String>)
    ensures
        match entry {
            Some(name) => FsState::directory_entry(file@, dir@) == Some(name@),
            None => FsState::directory_entry(file@, dir@) is None,
        },
{
    let file_len = file.unicode_len();
    let dir_len = dir.unicode_len();
    if file_len <= dir_len {
        return None;
    }
    let mut i: usize = 0;
    while i < dir_len
        invariant
            i <= dir_len,
            dir_len == dir@.len(),
            file_len == file@.len(),
            dir_len < file_len,
            forall|k: int| 0 <= k < i ==> file@[k] == dir@[k],
        decreases dir_len - i,
    {
        if file.get_char(i) != dir.get_char(i) {
            assert(file@.take(dir@.len() as int)[i as int] != dir@[i as int]);
            return None;
        }
        i += 1;
    }
    assert(file@.take(dir@.len() as int) =~= dir@);
    let first = file.get_char(dir_len);
    if first != '/' {
        Some(file.substring_char(dir_len, file_len).to_owned())
    } else if file_len - dir_len > 1 {
        let rest = file.substring_char(dir_len + 1, file_len);
        assert(rest@ =~= file@.skip(dir_len as int).skip(1));
        Some(rest.to_owned())
    } else {
        None
    }
}

impl FileSystem {
    /// Stores `data` as the content of the regular file `path`, which is
    /// created if it does not exist.
    fn put_file(&mut self, path: String, data: Vec<u8>)
        requires
            old(self)@.wf(),
        ensures
            final(self)@.wf(),
            final(self)@ == old(self)@.with_file(path@, data@),
    {
        let ghost pre = self@;
        let ghost entries = self.files@;
        proof {
            self.lemma_view_wf();
        }
        match self.find_file(&path) {
            Some(i) => {
                let entry = FileEntry { path, data };
                proof {
                    lemma_entries_update(entries, i as int, entry);
                }
                self.files[i] = entry;
            },
            None => {
                let entry = FileEntry { path, data };
                self.insert_entry(entry);
            },
        }
        proof {
            lemma_listing_distinct(self.files@);
            assert(self@.open_files =~= pre.open_files);
        }
    }

    /// Removes the regular file `path` and hands out its content.
    fn take_file(&mut self, path: &String) -> (taken: Option<Vec<u8>>)
        requires
            old(self)@.wf(),
        ensures
            final(self)@.wf(),
            taken is Some <==> old(self)@.files.contains_key(path@),
            taken is Some ==> taken->Some_0@ == old(self)@.files[path@],
            final(self)@ == if taken is Some {
                old(self)@.without_file(path@)
            } else {
                old(self)@
            },
    {
        let ghost pre = self@;
        let ghost entries = self.files@;
        proof {
            self.lemma_view_wf();
        }
        match self.find_file(path) {
            Some(i) => {
                proof {
                    lemma_entries_remove(entries, i as int);
                    lemma_listing_distinct(entries);
                    lemma_remove_keeps_sorted(files_listing(entries), i as int);
                    let listing = files_listing(entries);
                    listing.index_of_first_ensures(path@);
                    assert(listing[i as int] == path@);
                    assert(listing.index_of_first(path@) == Some(i as int));
                }
                let entry = self.files.remove(i);
                proof {
                    lemma_listing_distinct(self.files@);
                    assert(self@.open_files =~= pre.open_files);
                }
                Some(entry.data)
            },
            None => None,
        }
    }
}

/// Creates the file table.
pub fn init() -> (fs: FileSystem)
    ensures
        fs@ == FsState::initial(),
        fs@.wf(),
{
    FileSystem::new()
}

/// Opens `path` on the table `fs`.
pub fn open(fs: &mut FileSystem, path: &str, flags: i32, mode: u32) -> (r: Result<
    i32,
    KernelError,
>)
    requires
        old(fs)@.wf(),
    ensures
        final(fs)@.wf(),
        r == old(fs)@.open_result(path@, flags),
        final(fs)@ == old(fs)@.after_open(path@, flags),
        r is Ok ==> old(fs)@.is_unused(r->Ok_0),
{
    fs.open(path, flags, mode)
}

/// Closes the descriptor `fd` of the table `fs`.
pub fn close(fs: &mut FileSystem, fd: i32) -> (r: Result<(), KernelError>)
    requires
        old(fs)@.wf(),
    ensures
        final(fs)@.wf(),
        r == old(fs)@.close_result(fd),
        final(fs)@ == old(fs)@.after_close(fd),
{
    fs.close(fd)
}

/// Reads from the descriptor `fd` of the table `fs` into the front of `buf`.
pub fn read(fs: &mut FileSystem, ipc: &mut IPCManager, fd: i32, buf: &mut [u8]) -> (r: Result<
    usize,
    KernelError,
>)
    requires
        old(fs)@.wf(),
        old(ipc)@.wf(),
    ensures
        final(fs)@.wf(),
        final(ipc)@.wf(),
        r == old(fs)@.read_result(old(ipc)@, fd, old(buf)@.len()),
        final(fs)@ == old(fs)@.after_read(fd, old(buf)@.len()),
        final(ipc)@ == old(fs)@.ipc_after_read(old(ipc)@, fd, old(buf)@.len()),
        final(buf)@ == old(fs)@.read_bytes(old(ipc)@, fd, old(buf)@.len()) + old(buf)@.skip(
            old(fs)@.read_bytes(old(ipc)@, fd, old(buf)@.len()).len() as int,
        ),
{
    fs.read(ipc, fd, buf)
}

/// Writes `buf` through the descriptor `fd` of the table `fs`.
pub fn write(
    fs: &mut FileSystem,
    ipc: &mut IPCManager,
    console: &mut Uart,
    fd: i32,
    buf: &[u8],
) -> (r: Result<usize, KernelError>)
    requires
        old(fs)@.wf(),
        old(ipc)@.wf(),
    ensures
        final(fs)@.wf(),
        final(ipc)@.wf(),
        r == old(fs)@.write_result(old(ipc)@, fd, buf@),
        final(fs)@ == old(fs)@.after_write(fd, buf@),
        final(ipc)@ == old(fs)@.ipc_after_write(old(ipc)@, fd, buf@),
        final(console)@ == old(console)@ + old(fs)@.console_output(fd, buf@),
        final(console).spec_base_address() == old(console).spec_base_address(),
{
    fs.write(ipc, console, fd, buf)
}

/// Binds the next free descriptor of `fs` to what `fd` is bound to.
pub fn duplicate_fd(fs: &mut FileSystem, fd: i32) -> (r: Result<i32, KernelError>)
    requires
        old(fs)@.wf(),
    ensures
        final(fs)@.wf(),
        r == old(fs)@.duplicate_result(fd),
        final(fs)@ == old(fs)@.after_duplicate(fd),
        r is Ok ==> old(fs)@.is_unused(r->Ok_0),
{
    fs.duplicate_fd(fd)
}

/// Binds the descriptor `newfd` of `fs` to what `oldfd` is bound to.
pub fn duplicate_fd_to(fs: &mut FileSystem, oldfd: i32, newfd: i32) -> (r: Result<
    i32,
    KernelError,
>)
    requires
        old(fs)@.wf(),
    ensures
        final(fs)@.wf(),
        r == old(fs)@.duplicate_to_result(oldfd, newfd),
        final(fs)@ == old(fs)@.after_duplicate_to(oldfd, newfd),
{
    fs.duplicate_fd_to(oldfd, newfd)
}

/// Mints the two descriptors of the pipe `pipe_id` on the table `fs`.
pub fn create_pipe_fds(fs: &mut FileSystem, pipe_id: u32) -> (r: Result<(i32, i32), KernelError>)
    requires
        old(fs)@.wf(),
    ensures
        final(fs)@.wf(),
        r == if old(fs)@.can_mint_pair() {
            Ok::<(i32, i32), KernelError>((old(fs)@.next_fd, (old(fs)@.next_fd + 1) as i32))
        } else {
            Err::<(i32, i32), KernelError>(KernelError::ResourceExhausted)
        },
        final(fs)@ == old(fs)@.after_pipe_fds(pipe_id),
        r is Ok ==> old(fs)@.is_unused(r->Ok_0.0) && old(fs)@.is_unused(r->Ok_0.1) && r->Ok_0.0
            != r->Ok_0.1,
{
    fs.create_pipe_fds(pipe_id)
}

/// The content of the regular file `path` as text, decoded leniently.
pub fn read_file(fs: &FileSystem, path: &str) -> (r: Result<String, KernelError>)
    requires
        fs@.wf(),
    ensures
        match r {
            Ok(text) => fs@.files.contains_key(path@) && text@ == utf8_lossy(fs@.files[path@]),
            Err(e) => !fs@.files.contains_key(path@) && e == KernelError::NotFound,
        },
{
    let owned: String = path.to_owned();
    match fs.find_file(&owned) {
        Some(i) => Ok(decode_lossy(fs.files[i].data.as_slice())),
        None => Err(KernelError::NotFound),
    }
}

/// Lists the directory `path`.
pub fn list_directory(fs: &FileSystem, path: &str) -> (r: Result<Vec<String>, KernelError>)
    requires
        fs@.wf(),
    ensures
        r is Ok,
        texts(r->Ok_0@) == fs@.directory_listing(path@),
{
    let mut entries: Vec<String> = Vec::new();
    entries.push(".".to_owned());
    entries.push("..".to_owned());
    let owned: String = path.to_owned();
    let root: String = "/".to_owned();
    let home: String = "/home".to_owned();
    if owned == root {
        entries.push("bin".to_owned());
        entries.push("etc".to_owned());
        entries.push("home".to_owned());
        entries.push("tmp".to_owned());
        entries.push("usr".to_owned());
        entries.push("var".to_owned());
        assert(texts(entries@) =~= fs@.directory_listing(path@));
    } else if owned == home {
        entries.push("user".to_owned());
        entries.push("guest".to_owned());
        assert(texts(entries@) =~= fs@.directory_listing(path@));
    } else {
        let ghost dots = seq!["."@, ".."@];
        assert(texts(entries@) =~= dots);
        let mut i: usize = 0;
        while i < fs.files.len()
            invariant
                i <= fs.files@.len(),
                texts(entries@) =~= dots + FsState::directory_entries(
                    files_listing(fs.files@).take(i as int),
                    path@,
                ),
            decreases fs.files@.len() - i,
        {
            let ghost listing = files_listing(fs.files@);
            let ghost before = texts(entries@);
            proof {
                assert(listing.take(i + 1).drop_last() =~= listing.take(i as int));
                assert(listing.take(i + 1).last() == fs.files@[i as int].path@);
            }
            match relative_entry(fs.files[i].path.as_str(), path) {
                Some(name) => {
                    entries.push(name);
                    assert(texts(entries@) =~= before.push(name@));
                },
                None => {},
            }
            i += 1;
        }
        assert(files_listing(fs.files@).take(i as int) =~= files_listing(fs.files@));
        if entries.len() == 2 {
            entries.push("example.txt".to_owned());
            entries.push("readme.md".to_owned());
            assert(texts(entries@) =~= fs@.directory_listing(path@));
        } else {
            assert(texts(entries@) =~= fs@.directory_listing(path@));
        }
    }
    Ok(entries)
}

/// The current directory, which is always the root.
pub fn get_current_directory() -> (r: Result<String, KernelError>)
    ensures
        r is Ok,
        r->Ok_0@ == "/"@,
{
    Ok("/".to_owned())
}

/// Accepts a request to create the directory `path`. Directories carry no
/// state of their own, so the table stays as it is.
pub fn create_directory(fs: &FileSystem, path: &str) -> (r: Result<(), KernelError>)
    ensures
        r == Ok::<(), KernelError>(()),
{
    Ok(())
}

/// Makes `path` an empty regular file, whether or not it existed.
pub fn create_file(fs: &mut FileSystem, path: &str) -> (r: Result<(), KernelError>)
    requires
        old(fs)@.wf(),
    ensures
        final(fs)@.wf(),
        r == Ok::<(), KernelError>(()),
        final(fs)@ == old(fs)@.with_file(path@, Seq::empty()),
{
    fs.put_file(path.to_owned(), Vec::new());
    Ok(())
}

/// Removes the regular file `path`.
pub fn remove_file(fs: &mut FileSystem, path: &str) -> (r: Result<(), KernelError>)
    requires
        old(fs)@.wf(),
    ensures
        final(fs)@.wf(),
        r == old(fs)@.file_result(path@),
        final(fs)@ == if r is Ok {
            old(fs)@.without_file(path@)
        } else {
            old(fs)@
        },
{
    let owned: String = path.to_owned();
    match fs.take_file(&owned) {
        Some(_) => Ok(()),
        None => Err(KernelError::NotFound),
    }
}

/// Copies the content of the regular file `source` to `dest`, which is
/// created or overwritten.
pub fn copy_file(fs: &mut FileSystem, source: &str, dest: &str) -> (r: Result<(), KernelError>)
    requires
        old(fs)@.wf(),
    ensures
        final(fs)@.wf(),
        r == old(fs)@.file_result(source@),
        final(fs)@ == old(fs)@.after_copy(source@, dest@),
{
    let owned: String = source.to_owned();
    match fs.find_file(&owned) {
        Some(i) => {
            let mut data: Vec<u8> = Vec::new();
            append_bytes(&mut data, fs.files[i].data.as_slice());
            assert(data@ =~= fs@.files[source@]);
            fs.put_file(dest.to_owned(), data);
            Ok(())
        },
        None => Err(KernelError::NotFound),
    }
}

/// Moves the regular file `source` to `dest`, which is created or
/// overwritten.
pub fn move_file(fs: &mut FileSystem, source: &str, dest: &str) -> (r: Result<(), KernelError>)
    requires
        old(fs)@.wf(),
    ensures
        final(fs)@.wf(),
        r == old(fs)@.file_result(source@),
        final(fs)@ == old(fs)@.after_move(source@, dest@),
{
    let owned: String = source.to_owned();
    match fs.take_file(&owned) {
        Some(data) => {
            fs.put_file(dest.to_owned(), data);
            Ok(())
        },
        None => Err(KernelError::NotFound),
    }
}

/// Round trip through a regular file. Bytes that are written through a
/// fresh descriptor, which is then closed, come back unchanged and in the
/// same number from the first read through a descriptor opened afterwards,
/// given a buffer that holds them. This is so where the file, if it
/// existed, did not hold more bytes than are written; an appending
/// descriptor needs the file to be new or empty.
pub proof fn lemma_file_round_trip(
    fs: FsState,
    ipc: IpcState,
    path: Seq<char>,
    write_flags: i32,
    read_flags: i32,
    data: Seq<u8>,
    want: nat,
)
    requires
        fs.wf(),
        path != dev_null_path(),
        flags_valid(write_flags),
        flag_set(write_flags, O_CREAT) || fs.files.contains_key(path),
        flags_valid(read_flags),
        fs.next_fd < i32::MAX - 1,
        data.len() <= usize::MAX,
        want >= data.len(),
        fs.files.contains_key(path) ==> if flag_set(write_flags, O_APPEND) {
            fs.files[path].len() == 0
        } else {
            fs.files[path].len() <= data.len()
        },
    ensures
        ({
            let fd = fs.next_fd;
            let opened = fs.after_open(path, write_flags);
            let written = opened.after_write(fd, data);
            let closed = written.after_close(fd);
            let reopened = closed.after_open(path, read_flags);
            &&& fs.open_result(path, write_flags) == Ok::<i32, KernelError>(fd)
            &&& opened.write_result(ipc, fd, data) == Ok::<usize, KernelError>(
                data.len() as usize,
            )
            &&& written.close_result(fd) == Ok::<(), KernelError>(())
            &&& closed.open_result(path, read_flags) == Ok::<i32, KernelError>(closed.next_fd)
            &&& reopened.read_result(ipc, closed.next_fd, want) == Ok::<usize, KernelError>(
                data.len() as usize,
            )
            &&& reopened.read_bytes(ipc, closed.next_fd, want) == data
            &&& reopened.files[path] == data
        }),
{
    let fd = fs.next_fd;
    let opened = fs.after_open(path, write_flags);
    let before = opened.files[path];
    assert(opened.open_files[fd].offset == 0);
    let written = opened.after_write(fd, data);
    if flag_set(write_flags, O_APPEND) {
        assert(before + data =~= data);
    } else {
        assert(write_at(before, 0, data) =~= data);
    }
    assert(written.files[path] == data);
    let closed = written.after_close(fd);
    let reopened = closed.after_open(path, read_flags);
    assert(reopened.files[path] == data);
    assert(reopened.open_files[closed.next_fd].offset == 0);
    if data.len() > 0 {
        assert(data.subrange(0, data.len() as int) =~= data);
    }
}

/// The descriptors of a pipe outlive the pipe, and then they lead
/// nowhere: once the registry no longer holds the pipe, a read through
/// the descriptor of its read end and a write through that of its write
/// end find nothing.
pub proof fn lemma_descriptor_of_removed_pipe(
    fs: FsState,
    ipc: IpcState,
    fd: i32,
    id: u32,
    want: nat,
    data: Seq<u8>,
)
    requires
        fs.open_files.contains_key(fd),
        !ipc.pipes.contains_key(id),
    ensures
        fs.open_files[fd].target == FileTarget::Pipe(PipeEnd::Read(id)) ==> fs.read_result(
            ipc,
            fd,
            want,
        ) == Err::<usize, KernelError>(KernelError::NotFound),
        fs.open_files[fd].target == FileTarget::Pipe(PipeEnd::Write(id)) ==> fs.write_result(
            ipc,
            fd,
            data,
        ) == Err::<usize, KernelError>(KernelError::NotFound),
{
}

/// A descriptor that is open is never handed out: in a table that
/// satisfies its invariant, the number that the next new descriptor gets,
/// and every number behind it, is none of the three standard ones and is
/// not open.
pub proof fn lemma_new_descriptor_is_unused(fs: FsState, fd: i32)
    requires
        fs.wf(),
        fd >= fs.next_fd,
    ensures
        fs.is_unused(fd),
{
}

} // verus!
