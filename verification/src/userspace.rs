//! Loading user programs and starting the core utilities as processes.

use crate::error::KernelError;
use crate::fs::{texts, FileSystem, FsState};
use crate::ipc::{IPCManager, IpcState};
use crate::process::{ProcessManager, ProcessTable};
use vstd::bytes::{
    spec_u16_from_le_bytes, spec_u32_from_le_bytes, spec_u64_from_le_bytes, u16_from_le_bytes,
    u32_from_le_bytes, u64_from_le_bytes,
};
use vstd::prelude::*;
use vstd::slice::slice_subrange;
use vstd::string::StrSliceExecFns;

verus! {

/// The size of the header of a 64-bit program image.
pub const ELF_HEADER_SIZE: usize = 64;

/// The size of a program header of a 64-bit program image.
pub const PROGRAM_HEADER_SIZE: usize = 56;

/// The machine number of the 64-bit ARM architecture.
pub const EM_AARCH64: u16 = 183;

/// The type of a program header that describes a segment to load.
pub const PT_LOAD: u32 = 1;

/// The segment may be executed.
pub const PF_X: u32 = 1;

/// The segment may be written.
pub const PF_W: u32 = 2;

/// The segment may be read.
pub const PF_R: u32 = 4;

/// Why a program image was not accepted.
#[derive(Debug, Clone, Copy, PartialEq, Eq, Structural)]
pub enum ElfError {
    /// The image is shorter than a header.
    TooShort,
    /// The image does not start with the magic number.
    BadMagic,
    /// The image is for another machine.
    WrongMachine,
    /// A program header lies outside the image.
    BadProgramHeader,
}

/// The header of a program image.
#[derive(Debug)]
pub struct ElfHeader {
    pub e_ident: [u8; 16],
    pub e_type: u16,
    pub e_machine: u16,
    pub e_version: u32,
    pub e_entry: u64,
    pub e_phoff: u64,
    pub e_shoff: u64,
    pub e_flags: u32,
    pub e_ehsize: u16,
    pub e_phentsize: u16,
    pub e_phnum: u16,
    pub e_shentsize: u16,
    pub e_shnum: u16,
    pub e_shstrndx: u16,
}

/// A program header of a program image.
#[derive(Debug, Clone, Copy, PartialEq, Eq, Structural)]
pub struct ProgramHeader {
    pub p_type: u32,
    pub p_flags: u32,
    pub p_offset: u64,
    pub p_vaddr: u64,
    pub p_paddr: u64,
    pub p_filesz: u64,
    pub p_memsz: u64,
    pub p_align: u64,
}

/// The 16-bit little-endian number at `at`.
pub open spec fn le16(bytes: Seq<u8>, at: int) -> u16 {
    spec_u16_from_le_bytes(bytes.subrange(at, at + 2))
}

/// The 32-bit little-endian number at `at`.
pub open spec fn le32(bytes: Seq<u8>, at: int) -> u32 {
    spec_u32_from_le_bytes(bytes.subrange(at, at + 4))
}

/// The 64-bit little-endian number at `at`.
pub open spec fn le64(bytes: Seq<u8>, at: int) -> u64 {
    spec_u64_from_le_bytes(bytes.subrange(at, at + 8))
}

/// Whether `header` is what the first 64 bytes of `bytes` say.
pub open spec fn is_header_of(header: ElfHeader, bytes: Seq<u8>) -> bool {
    &&& header.e_ident@ == bytes.subrange(0, 16)
    &&& header.e_type == le16(bytes, 16)
    &&& header.e_machine == le16(bytes, 18)
    &&& header.e_version == le32(bytes, 20)
    &&& header.e_entry == le64(bytes, 24)
    &&& header.e_phoff == le64(bytes, 32)
    &&& header.e_shoff == le64(bytes, 40)
    &&& header.e_flags == le32(bytes, 48)
    &&& header.e_ehsize == le16(bytes, 52)
    &&& header.e_phentsize == le16(bytes, 54)
    &&& header.e_phnum == le16(bytes, 56)
    &&& header.e_shentsize == le16(bytes, 58)
    &&& header.e_shnum == le16(bytes, 60)
    &&& header.e_shstrndx == le16(bytes, 62)
}

/// The program header that the 56 bytes of `bytes` from `at` on say.
pub open spec fn program_header_at(bytes: Seq<u8>, at: int) -> ProgramHeader {
    ProgramHeader {
        p_type: le32(bytes, at),
        p_flags: le32(bytes, at + 4),
        p_offset: le64(bytes, at + 8),
        p_vaddr: le64(bytes, at + 16),
        p_paddr: le64(bytes, at + 24),
        p_filesz: le64(bytes, at + 32),
        p_memsz: le64(bytes, at + 40),
        p_align: le64(bytes, at + 48),
    }
}

/// Whether the image starts with the magic number.
pub open spec fn has_magic(bytes: Seq<u8>) -> bool {
    bytes[0] == 0x7f && bytes[1] == 0x45 && bytes[2] == 0x4c && bytes[3] == 0x46
}

/// Where the program header number `index` starts.
pub open spec fn program_header_offset(bytes: Seq<u8>, index: int) -> int {
    le64(bytes, 32) + index * le16(bytes, 54)
}

/// Whether the program header number `index` lies within the image.
pub open spec fn program_header_fits(bytes: Seq<u8>, index: int) -> bool {
    program_header_offset(bytes, index) + PROGRAM_HEADER_SIZE <= bytes.len()
}

/// The memory regions that the first `count` program headers ask for: for
/// each header of a segment to load its address, its size in memory and
/// its flags, in the order of the headers.
pub open spec fn loaded_regions(bytes: Seq<u8>, count: nat) -> Seq<(u64, u64, u32)>
    decreases count,
{
    if count == 0 {
        Seq::empty()
    } else {
        let before = loaded_regions(bytes, (count - 1) as nat);
        let header = program_header_at(bytes, program_header_offset(bytes, count - 1));
        if header.p_type == PT_LOAD {
            before.push((header.p_vaddr, header.p_memsz, header.p_flags))
        } else {
            before
        }
    }
}

/// What loading the image `bytes` answers.
pub open spec fn load_result(bytes: Seq<u8>) -> Result<(), ElfError> {
    if bytes.len() < ELF_HEADER_SIZE {
        Err(ElfError::TooShort)
    } else if !has_magic(bytes) {
        Err(ElfError::BadMagic)
    } else if le16(bytes, 18) != EM_AARCH64 {
        Err(ElfError::WrongMachine)
    } else if exists|i: int| 0 <= i < le16(bytes, 56) && !program_header_fits(bytes, i) {
        Err(ElfError::BadProgramHeader)
    } else {
        Ok(())
    }
}

/// A program that is ready to run.
pub struct UserProgram {
    pub entry_point: u64,
    /// The regions to map: address, size, flags.
    pub memory_regions: Vec<(u64, u64, u32)>,
    /// The image.
    pub data: Vec<u8>,
}

fn read16(data: &[u8], at: usize) -> (value: u16)
    requires
        at + 2 <= data@.len(),
    ensures
        value == le16(data@, at as int),
{
    let total = data.len();
    assert(at + 2 <= total);
    u16_from_le_bytes(slice_subrange(data, at, at + 2))
}

fn read32(data: &[u8], at: usize) -> (value: u32)
    requires
        at + 4 <= data@.len(),
    ensures
        value == le32(data@, at as int),
{
    let total = data.len();
    assert(at + 4 <= total);
    u32_from_le_bytes(slice_subrange(data, at, at + 4))
}

fn read64(data: &[u8], at: usize) -> (value: u64)
    requires
        at + 8 <= data@.len(),
    ensures
        value == le64(data@, at as int),
{
    let total = data.len();
    assert(at + 8 <= total);
    u64_from_le_bytes(slice_subrange(data, at, at + 8))
}

impl ElfHeader {
    /// Reads the header from the first 64 bytes of `data`.
    pub fn parse(data: &[u8]) -> (header: Option<ElfHeader>)
        ensures
            header is Some <==> data@.len() >= ELF_HEADER_SIZE,
            header is Some ==> is_header_of(header->Some_0, data@),
    {
        if data.len() < ELF_HEADER_SIZE {
            return None;
        }
        let mut e_ident: [u8; 16] = [0u8;16];
        let mut i: usize = 0;
        while i < 16
            invariant
                i <= 16,
                data@.len() >= ELF_HEADER_SIZE,
                forall|k: int| 0 <= k < i ==> e_ident@[k] == data@[k],
            decreases 16 - i,
        {
            e_ident[i] = data[i];
            i += 1;
        }
        assert(e_ident@ =~= data@.subrange(0, 16));
        Some(
            ElfHeader {
                e_ident,
                e_type: read16(data, 16),
                e_machine: read16(data, 18),
                e_version: read32(data, 20),
                e_entry: read64(data, 24),
                e_phoff: read64(data, 32),
                e_shoff: read64(data, 40),
                e_flags: read32(data, 48),
                e_ehsize: read16(data, 52),
                e_phentsize: read16(data, 54),
                e_phnum: read16(data, 56),
                e_shentsize: read16(data, 58),
                e_shnum: read16(data, 60),
                e_shstrndx: read16(data, 62),
            },
        )
    }
}

impl ProgramHeader {
    /// Reads the program header from the 56 bytes of `data` from `at` on.
    pub fn parse(data: &[u8], at: usize) -> (header: ProgramHeader)
        requires
            at + PROGRAM_HEADER_SIZE <= data@.len(),
        ensures
            header == program_header_at(data@, at as int),
    {
        let total = data.len();
        assert(at + PROGRAM_HEADER_SIZE <= total);
        ProgramHeader {
            p_type: read32(data, at),
            p_flags: read32(data, at + 4),
            p_offset: read64(data, at + 8),
            p_vaddr: read64(data, at + 16),
            p_paddr: read64(data, at + 24),
            p_filesz: read64(data, at + 32),
            p_memsz: read64(data, at + 40),
            p_align: read64(data, at + 48),
        }
    }
}

impl UserProgram {
    /// Reads a program image for the 64-bit ARM architecture: checks the
    /// header and collects the memory regions of the segments to load.
    pub fn load_elf(data: &[u8]) -> (r: Result<UserProgram, ElfError>)
        ensures
            match r {
                Ok(program) => load_result(data@) is Ok && program.entry_point == le64(data@, 24)
                    && program.memory_regions@ == loaded_regions(
                    data@,
                    le16(data@, 56) as nat,
                ) && program.data@ == data@,
                Err(e) => load_result(data@) == Err::<(), ElfError>(e),
            },
    {
        let header = match ElfHeader::parse(data) {
            Some(header) => header,
            None => {
                return Err(ElfError::TooShort);
            },
        };
        if header.e_ident[0] != 0x7f || header.e_ident[1] != 0x45 || header.e_ident[2] != 0x4c
            || header.e_ident[3] != 0x46 {
            assert(header.e_ident@[0] == data@[0] && header.e_ident@[1] == data@[1]
                && header.e_ident@[2] == data@[2] && header.e_ident@[3] == data@[3]);
            return Err(ElfError::BadMagic);
        }
        assert(header.e_ident@[0] == data@[0] && header.e_ident@[1] == data@[1]
            && header.e_ident@[2] == data@[2] && header.e_ident@[3] == data@[3]);
        if header.e_machine != EM_AARCH64 {
            return Err(ElfError::WrongMachine);
        }
        let mut memory_regions: Vec<(u64, u64, u32)> = Vec::new();
        let total = data.len();
        let mut i: u16 = 0;
        while i < header.e_phnum
            invariant
                i <= header.e_phnum,
                total == data@.len(),
                is_header_of(header, data@),
                data@.len() >= ELF_HEADER_SIZE,
                has_magic(data@),
                header.e_machine == EM_AARCH64,
                forall|k: int| 0 <= k < i ==> program_header_fits(data@, k),
                memory_regions@ == loaded_regions(data@, i as nat),
            decreases header.e_phnum - i,
        {
            assert(i * header.e_phentsize <= 0xffff * 0xffff) by (nonlinear_arith)
                requires
                    i <= 0xffff,
                    header.e_phentsize <= 0xffff,
            ;
            let step: u64 = (i as u64) * (header.e_phentsize as u64);
            if header.e_phoff > u64::MAX - step {
                assert(!program_header_fits(data@, i as int));
                return Err(ElfError::BadProgramHeader);
            }
            let ph_offset: u64 = header.e_phoff + step;
            if ph_offset > (data.len() - PROGRAM_HEADER_SIZE) as u64 {
                assert(!program_header_fits(data@, i as int));
                return Err(ElfError::BadProgramHeader);
            }
            let program_header = ProgramHeader::parse(data, ph_offset as usize);
            if program_header.p_type == PT_LOAD {
                memory_regions.push(
                    (program_header.p_vaddr, program_header.p_memsz, program_header.p_flags),
                );
            }
            i += 1;
        }
        Ok(
            UserProgram {
                entry_point: header.e_entry,
                memory_regions,
                data: vstd::slice::slice_to_vec(data),
            },
        )
    }
}

/// Whether two texts are the same.
fn same_text(a: &str, b: &str) -> (same: bool)
    ensures
        same == (a@ == b@),
{
    let left: String = a.to_owned();
    let right: String = b.to_owned();
    left == right
}

/// Where the core utility `name` starts, if there is one of that name.
pub open spec fn coreutil_entry(name: Seq<char>) -> Option<u64> {
    if name == "ls"@ {
        Some(0x400000u64)
    } else if name == "cat"@ {
        Some(0x500000u64)
    } else if name == "echo"@ {
        Some(0x600000u64)
    } else if name == "mkdir"@ {
        Some(0x700000u64)
    } else if name == "rm"@ {
        Some(0x800000u64)
    } else if name == "cp"@ {
        Some(0x900000u64)
    } else if name == "mv"@ {
        Some(0xa00000u64)
    } else if name == "grep"@ {
        Some(0xb00000u64)
    } else if name == "wc"@ {
        Some(0xc00000u64)
    } else if name == "sort"@ {
        Some(0xd00000u64)
    } else if name == "head"@ {
        Some(0xe00000u64)
    } else if name == "tail"@ {
        Some(0xf00000u64)
    } else if name == "cut"@ {
        Some(0x1000000u64)
    } else if name == "tr"@ {
        Some(0x1100000u64)
    } else if name == "sed"@ {
        Some(0x1200000u64)
    } else if name == "awk"@ {
        Some(0x1300000u64)
    } else {
        None
    }
}

/// The stack that the core utility `name` gets: 128 KiB for the tools
/// that match patterns or sort, 64 KiB for those that walk files, and
/// 32 KiB for the rest.
pub open spec fn coreutil_stack(name: Seq<char>) -> u64 {
    if name == "grep"@ || name == "sort"@ || name == "sed"@ || name == "awk"@ {
        131072
    } else if name == "ls"@ || name == "cat"@ || name == "cp"@ {
        65536
    } else {
        32768
    }
}

/// What starting the core utility `name` answers.
pub open spec fn spawn_result(table: ProcessTable, name: Seq<char>) -> Result<u32, KernelError> {
    match coreutil_entry(name) {
        Some(_) => table.create_result(coreutil_stack(name)),
        None => Err(KernelError::NotFound),
    }
}

/// The process table after the core utility `name` was started.
pub open spec fn after_spawn(table: ProcessTable, name: Seq<char>) -> ProcessTable {
    match coreutil_entry(name) {
        Some(entry) => table.after_create(entry, coreutil_stack(name)),
        None => table,
    }
}

/// Starts the core utilities as processes.
pub struct CoreUtilsIntegration;

impl CoreUtilsIntegration {
    /// Prepares the environment of the core utilities. There is nothing
    /// to prepare.
    pub fn init() {
    }

    /// Where the binary of the core utility `name` starts.
    fn load_coreutil_binary(name: &str) -> (entry: Option<u64>)
        ensures
            entry == coreutil_entry(name@),
    {
        if same_text(name, "ls") {
            Some(0x400000)
        } else if same_text(name, "cat") {
            Some(0x500000)
        } else if same_text(name, "echo") {
            Some(0x600000)
        } else if same_text(name, "mkdir") {
            Some(0x700000)
        } else if same_text(name, "rm") {
            Some(0x800000)
        } else if same_text(name, "cp") {
            Some(0x900000)
        } else if same_text(name, "mv") {
            Some(0xa00000)
        } else if same_text(name, "grep") {
            Some(0xb00000)
        } else if same_text(name, "wc") {
            Some(0xc00000)
        } else if same_text(name, "sort") {
            Some(0xd00000)
        } else if same_text(name, "head") {
            Some(0xe00000)
        } else if same_text(name, "tail") {
            Some(0xf00000)
        } else if same_text(name, "cut") {
            Some(0x1000000)
        } else if same_text(name, "tr") {
            Some(0x1100000)
        } else if same_text(name, "sed") {
            Some(0x1200000)
        } else if same_text(name, "awk") {
            Some(0x1300000)
        } else {
            None
        }
    }

    /// How much stack the core utility `name` gets.
    fn stack_size(name: &str) -> (size: u64)
        ensures
            size == coreutil_stack(name@),
    {
        if same_text(name, "grep") || same_text(name, "sort") || same_text(name, "sed")
            || same_text(name, "awk") {
            131072
        } else if same_text(name, "ls") || same_text(name, "cat") || same_text(name, "cp") {
            65536
        } else {
            32768
        }
    }

    /// Starts the core utility `name` as a process of `pm` and answers its
    /// id. The arguments play no part.
    pub fn spawn_coreutil(pm: &mut ProcessManager, name: &str, _args: &[&str]) -> (r: Result<
        u32,
        KernelError,
    >)
        requires
            old(pm)@.wf(),
        ensures
            final(pm)@.wf(),
            r == spawn_result(old(pm)@, name@),
            final(pm)@ == after_spawn(old(pm)@, name@),
    {
        match Self::load_coreutil_binary(name) {
            Some(entry_point) => crate::process::create_process(
                pm,
                entry_point,
                Self::stack_size(name),
            ),
            None => Err(KernelError::NotFound),
        }
    }
}

/// The words of a line: its runs of characters that are not white space,
/// in order.
pub uninterp spec fn whitespace_words(line: Seq<char>) -> Seq<Seq<char>>;

/// Splits `line` with `str::split_whitespace` of the standard library and
/// collects the words. The result is a function of the text alone.
#[verifier::external_body]
pub(crate) fn split_words(line: &str) -> (words: Vec<String>)
    ensures
        texts(words@) == whitespace_words(line@),
{
    let mut words: Vec<String> = Vec::new();
    for word in line.split_whitespace() {
        words.push(String::from(word));
    }
    words
}

/// What running the words `words` of a command line answers: the first
/// word names the program.
pub open spec fn command_result(table: ProcessTable, words: Seq<Seq<char>>) -> Result<
    u32,
    KernelError,
> {
    if words.len() == 0 {
        Err(KernelError::InvalidArgument)
    } else {
        spawn_result(table, words[0])
    }
}

/// The process table after the words `words` of a command line were run.
pub open spec fn after_command(table: ProcessTable, words: Seq<Seq<char>>) -> ProcessTable {
    if words.len() == 0 {
        table
    } else {
        after_spawn(table, words[0])
    }
}

/// The tables that a pipeline of commands works on.
pub struct ShellWorld {
    pub processes: ProcessTable,
    pub pipes: IpcState,
    pub files: FsState,
}

/// How far a pipeline got.
pub struct PipelineOutcome {
    pub world: ShellWorld,
    pub result: Result<(), KernelError>,
}

/// The outcome of starting the first `count` commands of a pipeline, each
/// given by its words: each command is started in turn, and each but the
/// first gets a pipe from its predecessor. The first step that fails
/// ends the pipeline, and what was done before stays done.
pub open spec fn pipeline(world: ShellWorld, commands: Seq<Seq<Seq<char>>>, count: nat) -> PipelineOutcome
    decreases count,
{
    if count == 0 {
        PipelineOutcome { world, result: Ok(()) }
    } else {
        let before = pipeline(world, commands, (count - 1) as nat);
        if before.result is Err {
            before
        } else {
            let words = commands[count - 1];
            let started = ShellWorld {
                processes: after_command(before.world.processes, words),
                ..before.world
            };
            match command_result(before.world.processes, words) {
                Err(e) => PipelineOutcome { world: started, result: Err(e) },
                Ok(_) => if count == 1 {
                    PipelineOutcome { world: started, result: Ok(()) }
                } else {
                    match started.pipes.create_result(started.files) {
                        Err(e) => PipelineOutcome { world: started, result: Err(e) },
                        Ok(_) => PipelineOutcome {
                            world: ShellWorld {
                                pipes: started.pipes.after_create(),
                                files: started.files.after_pipe_fds(started.pipes.next_pipe_id),
                                ..started
                            },
                            result: Ok(()),
                        },
                    }
                },
            }
        }
    }
}

/// The words of each of the command lines `lines`.
pub open spec fn words_of(lines: Seq<&str>) -> Seq<Seq<Seq<char>>> {
    Seq::new(lines.len(), |i: int| whitespace_words(lines[i]@))
}

/// A shell that knows how to start the core utilities.
pub struct SimpleShell;

impl SimpleShell {
    /// Starts the program that the words `words` name.
    pub fn run_words(pm: &mut ProcessManager, words: &Vec<String>) -> (r: Result<u32, KernelError>)
        requires
            old(pm)@.wf(),
        ensures
            final(pm)@.wf(),
            r == command_result(old(pm)@, texts(words@)),
            final(pm)@ == after_command(old(pm)@, texts(words@)),
    {
        if words.len() == 0 {
            return Err(KernelError::InvalidArgument);
        }
        let args: Vec<&str> = Vec::new();
        CoreUtilsIntegration::spawn_coreutil(pm, words[0].as_str(), args.as_slice())
    }

    /// Runs a command line: its first word names the program to start.
    pub fn execute_command(pm: &mut ProcessManager, command_line: &str) -> (r: Result<
        u32,
        KernelError,
    >)
        requires
            old(pm)@.wf(),
        ensures
            final(pm)@.wf(),
            r == command_result(old(pm)@, whitespace_words(command_line@)),
            final(pm)@ == after_command(old(pm)@, whitespace_words(command_line@)),
    {
        let words = split_words(command_line);
        Self::run_words(pm, &words)
    }

    /// Connects two processes with a pipe.
    fn connect_processes(
        ipc: &mut IPCManager,
        fs: &mut FileSystem,
        _producer: u32,
        _consumer: u32,
    ) -> (r: Result<(), KernelError>)
        requires
            old(ipc)@.wf(),
            old(fs)@.wf(),
        ensures
            final(ipc)@.wf(),
            final(fs)@.wf(),
            r is Ok <==> old(ipc)@.create_result(old(fs)@) is Ok,
            r is Err ==> old(ipc)@.create_result(old(fs)@) == Err::<(i32, i32), KernelError>(
                r->Err_0,
            ),
            final(ipc)@ == if r is Ok {
                old(ipc)@.after_create()
            } else {
                old(ipc)@
            },
            final(fs)@ == if r is Ok {
                old(fs)@.after_pipe_fds(old(ipc)@.next_pipe_id)
            } else {
                old(fs)@
            },
    {
        match crate::ipc::create_pipe(ipc, fs) {
            Ok(_) => Ok(()),
            Err(e) => Err(e),
        }
    }

    /// Starts the commands of a pipeline, of which there must be two at
    /// least, and connects each to its successor with a pipe.
    pub fn pipe_commands(
        pm: &mut ProcessManager,
        ipc: &mut IPCManager,
        fs: &mut FileSystem,
        commands: &[&str],
    ) -> (r: Result<(), KernelError>)
        requires
            old(pm)@.wf(),
            old(ipc)@.wf(),
            old(fs)@.wf(),
        ensures
            final(pm)@.wf(),
            final(ipc)@.wf(),
            final(fs)@.wf(),
            ({
                let world = ShellWorld {
                    processes: old(pm)@,
                    pipes: old(ipc)@,
                    files: old(fs)@,
                };
                let outcome = if commands@.len() < 2 {
                    PipelineOutcome {
                        world,
                        result: Err::<(), KernelError>(KernelError::InvalidArgument),
                    }
                } else {
                    pipeline(world, words_of(commands@), commands@.len())
                };
                &&& r == outcome.result
                &&& final(pm)@ == outcome.world.processes
                &&& final(ipc)@ == outcome.world.pipes
                &&& final(fs)@ == outcome.world.files
            }),
    {
        if commands.len() < 2 {
            return Err(KernelError::InvalidArgument);
        }
        let ghost world = ShellWorld { processes: pm@, pipes: ipc@, files: fs@ };
        let ghost lines = words_of(commands@);
        let mut previous_pid: Option<u32> = None;
        let mut i: usize = 0;
        while i < commands.len()
            invariant
                i <= commands@.len(),
                commands@.len() >= 2,
                world == (ShellWorld { processes: old(pm)@, pipes: old(ipc)@, files: old(fs)@ }),
                lines == words_of(commands@),
                pm@.wf(),
                ipc@.wf(),
                fs@.wf(),
                previous_pid is Some <==> i > 0,
                pipeline(world, lines, i as nat) == (PipelineOutcome {
                    world: ShellWorld { processes: pm@, pipes: ipc@, files: fs@ },
                    result: Ok::<(), KernelError>(()),
                }),
            ensures
                i == commands@.len(),
                pm@.wf(),
                ipc@.wf(),
                fs@.wf(),
                pipeline(world, lines, i as nat) == (PipelineOutcome {
                    world: ShellWorld { processes: pm@, pipes: ipc@, files: fs@ },
                    result: Ok::<(), KernelError>(()),
                }),
            decreases commands@.len() - i,
        {
            assert(lines[i as int] == whitespace_words(commands@[i as int]@));
            let pid = match Self::execute_command(pm, commands[i]) {
                Ok(pid) => pid,
                Err(e) => {
                    proof {
                        lemma_pipeline_stays_failed(world, lines, (i + 1) as nat, commands@.len());
                    }
                    return Err(e);
                },
            };
            if let Some(prev_pid) = previous_pid {
                match Self::connect_processes(ipc, fs, prev_pid, pid) {
                    Ok(_) => {},
                    Err(e) => {
                        proof {
                            lemma_pipeline_stays_failed(
                                world,
                                lines,
                                (i + 1) as nat,
                                commands@.len(),
                            );
                        }
                        return Err(e);
                    },
                }
            }
            previous_pid = Some(pid);
            i += 1;
        }
        Ok(())
    }
}

/// Once a step of a pipeline has failed, the steps behind it change
/// nothing.
proof fn lemma_pipeline_stays_failed(
    world: ShellWorld,
    commands: Seq<Seq<Seq<char>>>,
    failed: nat,
    count: nat,
)
    requires
        failed <= count,
        pipeline(world, commands, failed).result is Err,
    ensures
        pipeline(world, commands, count) == pipeline(world, commands, failed),
    decreases count,
{
    if failed < count {
        lemma_pipeline_stays_failed(world, commands, failed, (count - 1) as nat);
    }
}

/// Prepares the start of user programs.
pub fn init() {
    CoreUtilsIntegration::init();
}

/// The part of a path behind its last slash; the whole path where it has
/// no slash.
pub open spec fn base_name(path: Seq<char>) -> Seq<char>
    decreases path.len(),
{
    if path.len() == 0 {
        path
    } else if path.last() == '/' {
        Seq::empty()
    } else {
        base_name(path.drop_last()).push(path.last())
    }
}

proof fn lemma_base_name(path: Seq<char>, from: int)
    requires
        0 <= from <= path.len(),
        forall|k: int| from <= k < path.len() ==> path[k] != '/',
        from > 0 ==> path[from - 1] == '/',
    ensures
        base_name(path) == path.skip(from),
    decreases path.len(),
{
    if path.len() == 0 {
        assert(path.skip(from) =~= path);
    } else if from == path.len() {
        assert(path.skip(from) =~= Seq::<char>::empty());
    } else {
        let shorter = path.drop_last();
        assert forall|k: int| from <= k < shorter.len() implies shorter[k] != '/' by {
            assert(shorter[k] == path[k]);
        }
        lemma_base_name(shorter, from);
        assert(shorter.skip(from).push(path.last()) =~= path.skip(from));
    }
}

/// The program name of a path: the part behind its last slash.
fn program_name(path: &str) -> (name: &str)
    ensures
        name@ == base_name(path@),
{
    let len = path.unicode_len();
    let mut from: usize = len;
    while from > 0 && path.get_char(from - 1) != '/'
        invariant
            from <= len,
            len == path@.len(),
            forall|k: int| from <= k < len ==> path@[k] != '/',
        decreases from,
    {
        from -= 1;
    }
    proof {
        lemma_base_name(path@, from as int);
    }
    path.substring_char(from, len)
}

/// Runs the program at `path`: the name behind the last slash of the path
/// is started as a core utility. The arguments play no part.
pub fn sys_execve(pm: &mut ProcessManager, path: &str, args: &[&str]) -> (r: Result<
    (),
    KernelError,
>)
    requires
        old(pm)@.wf(),
    ensures
        final(pm)@.wf(),
        r == match spawn_result(old(pm)@, base_name(path@)) {
            Ok(_) => Ok::<(), KernelError>(()),
            Err(e) => Err::<(), KernelError>(e),
        },
        final(pm)@ == after_spawn(old(pm)@, base_name(path@)),
{
    let name = program_name(path);
    match CoreUtilsIntegration::spawn_coreutil(pm, name, args) {
        Ok(_pid) => Ok(()),
        Err(e) => Err(e),
    }
}

} // verus!
