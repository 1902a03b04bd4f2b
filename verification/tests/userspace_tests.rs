use rustos::error::KernelError;
use rustos::fs::FileSystem;
use rustos::ipc::IPCManager;
use rustos::process::ProcessManager;
use rustos::userspace::{
    sys_execve, CoreUtilsIntegration, ElfError, ElfHeader, ProgramHeader, SimpleShell,
    UserProgram, PF_R, PF_W, PF_X, PT_LOAD,
};

fn put16(image: &mut [u8], at: usize, value: u16) {
    image[at..at + 2].copy_from_slice(&value.to_le_bytes());
}

fn put32(image: &mut [u8], at: usize, value: u32) {
    image[at..at + 4].copy_from_slice(&value.to_le_bytes());
}

fn put64(image: &mut [u8], at: usize, value: u64) {
    image[at..at + 8].copy_from_slice(&value.to_le_bytes());
}

fn image(headers: &[(u32, u32, u64, u64)]) -> Vec<u8> {
    let mut image = vec![0u8; 64 + 56 * headers.len()];
    image[..4].copy_from_slice(b"\x7fELF");
    image[4] = 2;
    put16(&mut image, 16, 2);
    put16(&mut image, 18, 183);
    put32(&mut image, 20, 1);
    put64(&mut image, 24, 0x40_1000);
    put64(&mut image, 32, 64);
    put16(&mut image, 52, 64);
    put16(&mut image, 54, 56);
    put16(&mut image, 56, headers.len() as u16);
    for (i, (p_type, flags, vaddr, memsz)) in headers.iter().enumerate() {
        let at = 64 + 56 * i;
        put32(&mut image, at, *p_type);
        put32(&mut image, at + 4, *flags);
        put64(&mut image, at + 8, 0x1000 * i as u64);
        put64(&mut image, at + 16, *vaddr);
        put64(&mut image, at + 24, *vaddr);
        put64(&mut image, at + 32, *memsz / 2);
        put64(&mut image, at + 40, *memsz);
        put64(&mut image, at + 48, 0x1000);
    }
    image
}

#[test]
fn loading_a_program_image() {
    let data = image(&[
        (PT_LOAD, PF_R | PF_X, 0x40_0000, 0x2000),
        (2, PF_R, 0x50_0000, 0x100),
        (PT_LOAD, PF_R | PF_W, 0x60_0000, 0x3000),
    ]);
    let program = UserProgram::load_elf(&data).ok().unwrap();
    assert_eq!(program.entry_point, 0x40_1000);
    assert_eq!(
        program.memory_regions,
        vec![(0x40_0000, 0x2000, 5), (0x60_0000, 0x3000, 6)]
    );
    assert_eq!(program.data, data);
    let bare = image(&[]);
    let program = UserProgram::load_elf(&bare).ok().unwrap();
    assert!(program.memory_regions.is_empty());
}

#[test]
fn program_images_are_checked() {
    assert_eq!(UserProgram::load_elf(&[]).err(), Some(ElfError::TooShort));
    assert_eq!(UserProgram::load_elf(&[0x7f; 63]).err(), Some(ElfError::TooShort));
    let mut data = image(&[(PT_LOAD, PF_R, 0x1000, 0x1000)]);
    data[1] = b'e';
    assert_eq!(UserProgram::load_elf(&data).err(), Some(ElfError::BadMagic));
    data[1] = b'E';
    put16(&mut data, 18, 62);
    assert_eq!(UserProgram::load_elf(&data).err(), Some(ElfError::WrongMachine));
    put16(&mut data, 18, 183);
    assert!(UserProgram::load_elf(&data).is_ok());
    put16(&mut data, 56, 2);
    assert_eq!(UserProgram::load_elf(&data).err(), Some(ElfError::BadProgramHeader));
    put16(&mut data, 56, 1);
    put64(&mut data, 32, 65);
    assert_eq!(UserProgram::load_elf(&data).err(), Some(ElfError::BadProgramHeader));
    put64(&mut data, 32, u64::MAX);
    assert_eq!(UserProgram::load_elf(&data).err(), Some(ElfError::BadProgramHeader));
    put64(&mut data, 32, u64::MAX);
    put16(&mut data, 56, 0);
    assert!(UserProgram::load_elf(&data).is_ok());
    put64(&mut data, 32, 64);
    put16(&mut data, 56, 2);
    put16(&mut data, 54, 0);
    let program = UserProgram::load_elf(&data).ok().unwrap();
    assert_eq!(program.memory_regions, vec![(0x1000, 0x1000, 4), (0x1000, 0x1000, 4)]);
}

#[test]
fn headers_are_read_field_by_field() {
    let data = image(&[(PT_LOAD, PF_X, 0xaaaa_0000, 0xbbbb)]);
    let header = ElfHeader::parse(&data).unwrap();
    assert_eq!(&header.e_ident[..5], b"\x7fELF\x02");
    assert_eq!((header.e_type, header.e_machine, header.e_version), (2, 183, 1));
    assert_eq!((header.e_entry, header.e_phoff, header.e_shoff), (0x40_1000, 64, 0));
    assert_eq!((header.e_ehsize, header.e_phentsize, header.e_phnum), (64, 56, 1));
    assert!(ElfHeader::parse(&data[..63]).is_none());
    let ph = ProgramHeader::parse(&data, 64);
    assert_eq!(
        ph,
        ProgramHeader {
            p_type: 1,
            p_flags: 1,
            p_offset: 0,
            p_vaddr: 0xaaaa_0000,
            p_paddr: 0xaaaa_0000,
            p_filesz: 0x5ddd,
            p_memsz: 0xbbbb,
            p_align: 0x1000
        }
    );
}

#[test]
fn core_utilities_start_as_processes() {
    let mut pm = ProcessManager::new();
    rustos::userspace::init();
    CoreUtilsIntegration::init();
    let expected: [(&str, u64, u64); 16] = [
        ("ls", 0x400000, 65536),
        ("cat", 0x500000, 65536),
        ("echo", 0x600000, 32768),
        ("mkdir", 0x700000, 32768),
        ("rm", 0x800000, 32768),
        ("cp", 0x900000, 65536),
        ("mv", 0xa00000, 32768),
        ("grep", 0xb00000, 131072),
        ("wc", 0xc00000, 32768),
        ("sort", 0xd00000, 131072),
        ("head", 0xe00000, 32768),
        ("tail", 0xf00000, 32768),
        ("cut", 0x1000000, 32768),
        ("tr", 0x1100000, 32768),
        ("sed", 0x1200000, 131072),
        ("awk", 0x1300000, 131072),
    ];
    let mut next = 0x5000_0000u64;
    for (i, (name, entry, stack)) in expected.iter().enumerate() {
        let pid = CoreUtilsIntegration::spawn_coreutil(&mut pm, name, &["-x"]).unwrap();
        assert_eq!(pid, i as u32 + 1);
        let process = pm.get_process(pid).unwrap();
        assert_eq!(process.entry_point, *entry, "entry of {}", name);
        assert_eq!(process.stack_pointer, next + stack, "stack of {}", name);
        next += stack + 4096;
    }
    assert_eq!(
        CoreUtilsIntegration::spawn_coreutil(&mut pm, "vim", &[]),
        Err(KernelError::NotFound)
    );
    assert_eq!(
        CoreUtilsIntegration::spawn_coreutil(&mut pm, "", &[]),
        Err(KernelError::NotFound)
    );
    assert_eq!(
        CoreUtilsIntegration::spawn_coreutil(&mut pm, "LS", &[]),
        Err(KernelError::NotFound)
    );
    assert_eq!(pm.process_count(), 16);
}

#[test]
fn the_first_word_of_a_command_line_names_the_program() {
    let mut pm = ProcessManager::new();
    assert_eq!(SimpleShell::execute_command(&mut pm, "ls -l /tmp"), Ok(1));
    assert_eq!(SimpleShell::execute_command(&mut pm, "  \t cat\n"), Ok(2));
    assert_eq!(pm.get_process(2).unwrap().entry_point, 0x500000);
    assert_eq!(SimpleShell::execute_command(&mut pm, ""), Err(KernelError::InvalidArgument));
    assert_eq!(SimpleShell::execute_command(&mut pm, " \n "), Err(KernelError::InvalidArgument));
    assert_eq!(SimpleShell::execute_command(&mut pm, "nano x"), Err(KernelError::NotFound));
    assert_eq!(SimpleShell::execute_command(&mut pm, "ls\u{200b}x"), Err(KernelError::NotFound));
    assert_eq!(SimpleShell::execute_command(&mut pm, "ls\u{2003}x"), Ok(3));
    let words = vec!["wc".to_string(), "ls".to_string()];
    assert_eq!(SimpleShell::run_words(&mut pm, &words), Ok(4));
    assert_eq!(pm.get_process(4).unwrap().entry_point, 0xc00000);
    assert_eq!(SimpleShell::run_words(&mut pm, &Vec::new()), Err(KernelError::InvalidArgument));
}

#[test]
fn a_pipeline_starts_its_commands_and_connects_them() {
    let mut pm = ProcessManager::new();
    let mut ipc = IPCManager::new();
    let mut fs = FileSystem::new();
    assert_eq!(
        SimpleShell::pipe_commands(&mut pm, &mut ipc, &mut fs, &["ls"]),
        Err(KernelError::InvalidArgument)
    );
    assert_eq!(
        SimpleShell::pipe_commands(&mut pm, &mut ipc, &mut fs, &[]),
        Err(KernelError::InvalidArgument)
    );
    assert_eq!(pm.process_count(), 0);
    assert_eq!(
        SimpleShell::pipe_commands(&mut pm, &mut ipc, &mut fs, &["ls /", "grep x", "wc -l"]),
        Ok(())
    );
    assert_eq!(pm.process_count(), 3);
    assert_eq!(ipc.pipe_count(), 2);
    assert!(fs.descriptor(6).is_some());
    assert!(fs.descriptor(7).is_none());
    assert_eq!(
        SimpleShell::pipe_commands(&mut pm, &mut ipc, &mut fs, &["cat", "nope", "wc"]),
        Err(KernelError::NotFound)
    );
    assert_eq!(pm.process_count(), 4);
    assert_eq!(ipc.pipe_count(), 2);
    assert_eq!(
        SimpleShell::pipe_commands(&mut pm, &mut ipc, &mut fs, &["", "wc"]),
        Err(KernelError::InvalidArgument)
    );
    assert_eq!(pm.process_count(), 4);
}

#[test]
fn execve_runs_the_program_behind_the_last_slash() {
    let mut pm = ProcessManager::new();
    assert_eq!(sys_execve(&mut pm, "/bin/cat", &[]), Ok(()));
    assert_eq!(pm.get_process(1).unwrap().entry_point, 0x500000);
    assert_eq!(sys_execve(&mut pm, "echo", &["hi"]), Ok(()));
    assert_eq!(pm.get_process(2).unwrap().entry_point, 0x600000);
    assert_eq!(sys_execve(&mut pm, "/usr/local/bin//sort", &[]), Ok(()));
    assert_eq!(sys_execve(&mut pm, "/bin/", &[]), Err(KernelError::NotFound));
    assert_eq!(sys_execve(&mut pm, "", &[]), Err(KernelError::NotFound));
    assert_eq!(sys_execve(&mut pm, "/", &[]), Err(KernelError::NotFound));
    assert_eq!(sys_execve(&mut pm, "ls/x", &[]), Err(KernelError::NotFound));
    assert_eq!(sys_execve(&mut pm, "/caf\u{e9}/ls", &[]), Ok(()));
    assert_eq!(pm.process_count(), 4);
}
