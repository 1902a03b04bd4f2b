use rustos::coreutils::{
    cat_main, count_words, cp_main, echo_main, execute_command, head_main, ls_main, mkdir_main,
    mv_main, parse_command, pwd_main, rm_main, say_all_lines, say_counts, say_first_lines,
    say_last_lines, say_lines, show_help, tail_main, touch_main, wc_main, Command,
};
use rustos::error::KernelError;
use rustos::fs::{read_file, FileSystem, O_CREAT, O_WRONLY};
use rustos::ipc::IPCManager;
use rustos::uart::Uart;

fn fs_with(files: &[(&str, &str)]) -> FileSystem {
    let mut fs = FileSystem::new();
    let mut ipc = IPCManager::new();
    let mut console = Uart::new(0);
    for (path, content) in files {
        let fd = fs.open(path, O_CREAT | O_WRONLY, 0).unwrap();
        fs.write(&mut ipc, &mut console, fd, content.as_bytes()).unwrap();
        fs.close(fd).unwrap();
    }
    fs
}

fn said(console: &mut Uart) -> String {
    String::from_utf8(console.take_pending()).unwrap()
}

#[test]
fn echo_joins_its_arguments() {
    let mut console = Uart::new(0);
    assert_eq!(echo_main(&mut console, &["Hello", "from", "RustOS!"]), Ok(()));
    assert_eq!(said(&mut console), "Hello from RustOS!\n");
    assert_eq!(echo_main(&mut console, &[]), Ok(()));
    assert_eq!(said(&mut console), "\n");
    assert_eq!(echo_main(&mut console, &["one"]), Ok(()));
    assert_eq!(said(&mut console), "one\n");
    assert_eq!(echo_main(&mut console, &["", "a b", ""]), Ok(()));
    assert_eq!(said(&mut console), " a b \n");
}

#[test]
fn pwd_says_root() {
    let mut console = Uart::new(0);
    assert_eq!(pwd_main(&mut console, &["ignored"]), Ok(()));
    assert_eq!(said(&mut console), "/\n");
}

#[test]
fn cat_writes_the_lines_of_its_files() {
    let fs = fs_with(&[("/a", "one\ntwo\r\nthree"), ("/b", "\n\nlast\n"), ("/empty", "")]);
    let mut console = Uart::new(0);
    assert_eq!(cat_main(&fs, &mut console, &["/a", "/empty", "/b"]), Ok(()));
    assert_eq!(said(&mut console), "one\ntwo\nthree\n\n\nlast\n");
    assert_eq!(cat_main(&fs, &mut console, &["/nope"]), Ok(()));
    assert_eq!(
        said(&mut console),
        "# Simulated content for: /nope\n\
         # This would be the actual file content in a real filesystem\n"
    );
    assert_eq!(cat_main(&fs, &mut console, &[]), Err(KernelError::InvalidArgument));
    assert_eq!(said(&mut console), "Usage: cat <file1> [file2] ...\n");
}

#[test]
fn ls_lists_a_directory() {
    let fs = fs_with(&[("/tmp/b", ""), ("/tmp/a", "x")]);
    let mut console = Uart::new(0);
    assert_eq!(ls_main(&fs, &mut console, &["/"]), Ok(()));
    assert_eq!(said(&mut console), ".\n..\nbin\netc\nhome\ntmp\nusr\nvar\n");
    assert_eq!(ls_main(&fs, &mut console, &["/tmp", "/ignored"]), Ok(()));
    assert_eq!(said(&mut console), ".\n..\na\nb\n");
    assert_eq!(ls_main(&fs, &mut console, &[]), Ok(()));
    assert_eq!(said(&mut console), ".\n..\nexample.txt\nreadme.md\n");
}

#[test]
fn head_and_tail_show_ten_lines() {
    let text: String = (1..=12).map(|i| format!("l{}\n", i)).collect();
    let fs = fs_with(&[("/long", &text), ("/short", "a\nb")]);
    let mut console = Uart::new(0);
    assert_eq!(head_main(&fs, &mut console, &["/long", "/short"]), Ok(()));
    assert_eq!(said(&mut console), "l1\nl2\nl3\nl4\nl5\nl6\nl7\nl8\nl9\nl10\na\nb\n");
    assert_eq!(tail_main(&fs, &mut console, &["/long", "/short"]), Ok(()));
    assert_eq!(said(&mut console), "l3\nl4\nl5\nl6\nl7\nl8\nl9\nl10\nl11\nl12\na\nb\n");
    assert_eq!(head_main(&fs, &mut console, &["/nope"]), Ok(()));
    assert_eq!(
        said(&mut console),
        "# First 10 lines of: /nope\nLine 1 of the file\nLine 2 of the file\n\
         Line 3 of the file\nLine 4 of the file\nLine 5 of the file\nLine 6 of the file\n\
         Line 7 of the file\nLine 8 of the file\nLine 9 of the file\nLine 10 of the file\n"
    );
    assert_eq!(tail_main(&fs, &mut console, &["/nope"]), Ok(()));
    assert_eq!(
        said(&mut console),
        "# Last 10 lines of: /nope\nLine 10 (from end) of the file\n\
         Line 9 (from end) of the file\nLine 8 (from end) of the file\n\
         Line 7 (from end) of the file\nLine 6 (from end) of the file\n\
         Line 5 (from end) of the file\nLine 4 (from end) of the file\n\
         Line 3 (from end) of the file\nLine 2 (from end) of the file\n\
         Line 1 (from end) of the file\n"
    );
    assert_eq!(head_main(&fs, &mut console, &[]), Err(KernelError::InvalidArgument));
    assert_eq!(said(&mut console), "Usage: head <file1> [file2] ...\n");
    assert_eq!(tail_main(&fs, &mut console, &[]), Err(KernelError::InvalidArgument));
    assert_eq!(said(&mut console), "Usage: tail <file1> [file2] ...\n");
}

#[test]
fn wc_counts_lines_words_and_bytes() {
    let fs = fs_with(&[("/t", "one two\n three\tfour \nfive"), ("/u", "h\u{e9}")]);
    assert_eq!(count_words(&fs, "/t"), Ok((3, 5, 25)));
    assert_eq!(count_words(&fs, "/u"), Ok((1, 1, 3)));
    assert_eq!(count_words(&fs, "/nope"), Ok((10, 50, 300)));
    let mut console = Uart::new(0);
    assert_eq!(wc_main(&fs, &mut console, &["/t", "/nope"]), Ok(()));
    assert_eq!(
        said(&mut console),
        "       3        5       25 /t\n      10       50      300 /nope\n"
    );
    assert_eq!(wc_main(&fs, &mut console, &[]), Err(KernelError::InvalidArgument));
    assert_eq!(said(&mut console), "Usage: wc <file1> [file2] ...\n");
    let big = "x".repeat(123_456_789);
    let fs = fs_with(&[("/big", &big)]);
    assert_eq!(wc_main(&fs, &mut console, &["/big"]), Ok(()));
    assert_eq!(said(&mut console), "       1        1 123456789 /big\n");
}

#[test]
fn mkdir_accepts_everything() {
    let fs = FileSystem::new();
    let mut console = Uart::new(0);
    assert_eq!(mkdir_main(&fs, &mut console, &["/a", "b"]), Ok(()));
    assert_eq!(said(&mut console), "Created directory: /a\nCreated directory: b\n");
    assert_eq!(mkdir_main(&fs, &mut console, &[]), Err(KernelError::InvalidArgument));
    assert_eq!(said(&mut console), "Usage: mkdir <directory1> [directory2] ...\n");
}

#[test]
fn touch_creates_empty_files() {
    let mut fs = fs_with(&[("/old", "content")]);
    let mut console = Uart::new(0);
    assert_eq!(touch_main(&mut fs, &mut console, &["/new", "/old"]), Ok(()));
    assert_eq!(said(&mut console), "Created file: /new\nCreated file: /old\n");
    assert_eq!(read_file(&fs, "/new").unwrap(), "");
    assert_eq!(read_file(&fs, "/old").unwrap(), "");
    assert_eq!(touch_main(&mut fs, &mut console, &[]), Err(KernelError::InvalidArgument));
    assert_eq!(said(&mut console), "Usage: touch <file1> [file2] ...\n");
}

#[test]
fn rm_stops_at_the_first_missing_file() {
    let mut fs = fs_with(&[("/a", "1"), ("/b", "2"), ("/c", "3")]);
    let mut console = Uart::new(0);
    assert_eq!(
        rm_main(&mut fs, &mut console, &["/a", "/x", "/c"]),
        Err(KernelError::NotFound)
    );
    assert_eq!(said(&mut console), "Removed: /a\nrm: cannot remove '/x': File not found\n");
    assert!(read_file(&fs, "/a").is_err());
    assert!(read_file(&fs, "/c").is_ok());
    assert_eq!(rm_main(&mut fs, &mut console, &["/b", "/c"]), Ok(()));
    assert_eq!(said(&mut console), "Removed: /b\nRemoved: /c\n");
    assert_eq!(rm_main(&mut fs, &mut console, &[]), Err(KernelError::InvalidArgument));
    assert_eq!(said(&mut console), "Usage: rm <file1> [file2] ...\n");
}

#[test]
fn cp_and_mv() {
    let mut fs = fs_with(&[("/a", "payload")]);
    let mut console = Uart::new(0);
    assert_eq!(cp_main(&mut fs, &mut console, &["/a", "/b", "/ignored"]), Ok(()));
    assert_eq!(said(&mut console), "'/a' -> '/b'\n");
    assert_eq!(read_file(&fs, "/b").unwrap(), "payload");
    assert_eq!(mv_main(&mut fs, &mut console, &["/a", "/c"]), Ok(()));
    assert_eq!(said(&mut console), "'/a' -> '/c'\n");
    assert!(read_file(&fs, "/a").is_err());
    assert_eq!(read_file(&fs, "/c").unwrap(), "payload");
    assert_eq!(cp_main(&mut fs, &mut console, &["/a", "/d"]), Err(KernelError::NotFound));
    assert_eq!(said(&mut console), "cp: cannot copy '/a' to '/d': Source file not found\n");
    assert_eq!(mv_main(&mut fs, &mut console, &["/a", "/d"]), Err(KernelError::NotFound));
    assert_eq!(said(&mut console), "mv: cannot move '/a' to '/d': Source file not found\n");
    assert_eq!(cp_main(&mut fs, &mut console, &["/a"]), Err(KernelError::InvalidArgument));
    assert_eq!(said(&mut console), "Usage: cp <source> <destination>\n");
    assert_eq!(mv_main(&mut fs, &mut console, &[]), Err(KernelError::InvalidArgument));
    assert_eq!(said(&mut console), "Usage: mv <source> <destination>\n");
}

#[test]
fn help_lists_the_commands() {
    let mut console = Uart::new(0);
    show_help(&mut console);
    let text = said(&mut console);
    assert_eq!(text.lines().count(), 14);
    assert!(text.starts_with("RustOS Coreutils - Available commands:\n  cat     - Display"));
    assert!(text.ends_with("  help    - Show this help\n"));
    rustos::coreutils::init(&mut console);
    assert_eq!(said(&mut console), "Coreutils initialized - 12 commands available\n");
}

#[test]
fn commands_are_found_by_name() {
    assert_eq!(parse_command("cat"), Some(Command::Cat));
    assert_eq!(parse_command("tail"), Some(Command::Tail));
    assert_eq!(parse_command("help"), Some(Command::Help));
    assert_eq!(parse_command("--help"), Some(Command::Help));
    assert_eq!(parse_command("grep"), None);
    assert_eq!(parse_command("Cat"), None);
    assert_eq!(parse_command(""), None);
    let mut fs = FileSystem::new();
    let mut console = Uart::new(0);
    assert_eq!(execute_command(&mut fs, &mut console, "echo", &["Hello", "from", "RustOS!"]), Ok(()));
    assert_eq!(execute_command(&mut fs, &mut console, "pwd", &[]), Ok(()));
    assert_eq!(execute_command(&mut fs, &mut console, "touch", &["/tmp/f"]), Ok(()));
    assert_eq!(execute_command(&mut fs, &mut console, "ls", &["/tmp"]), Ok(()));
    assert_eq!(execute_command(&mut fs, &mut console, "cp", &["/tmp/f", "/tmp/g"]), Ok(()));
    assert_eq!(execute_command(&mut fs, &mut console, "mv", &["/tmp/f", "/tmp/h"]), Ok(()));
    assert_eq!(execute_command(&mut fs, &mut console, "rm", &["/tmp/h"]), Ok(()));
    assert_eq!(execute_command(&mut fs, &mut console, "cat", &["/tmp/g"]), Ok(()));
    assert_eq!(execute_command(&mut fs, &mut console, "wc", &["/tmp/g"]), Ok(()));
    assert_eq!(execute_command(&mut fs, &mut console, "head", &["/tmp/g"]), Ok(()));
    assert_eq!(execute_command(&mut fs, &mut console, "tail", &["/tmp/g"]), Ok(()));
    assert_eq!(execute_command(&mut fs, &mut console, "mkdir", &["/d"]), Ok(()));
    assert_eq!(
        said(&mut console),
        "Hello from RustOS!\n/\nCreated file: /tmp/f\n.\n..\nf\n'/tmp/f' -> '/tmp/g'\n\
         '/tmp/f' -> '/tmp/h'\nRemoved: /tmp/h\n       0        0        0 /tmp/g\n\
         Created directory: /d\n"
    );
    assert_eq!(
        execute_command(&mut fs, &mut console, "vim", &["x"]),
        Err(KernelError::NotFound)
    );
    assert_eq!(
        said(&mut console),
        "rustos: command not found: vim\nType 'help' for available commands\n"
    );
    assert_eq!(execute_command(&mut fs, &mut console, "--help", &[]), Ok(()));
    assert_eq!(said(&mut console).lines().count(), 14);
}

#[test]
fn choosing_the_lines_to_write() {
    let lines: Vec<String> = ["a", "b", "c", "d"].iter().map(|s| s.to_string()).collect();
    let mut console = Uart::new(0);
    say_all_lines(&mut console, &lines);
    assert_eq!(said(&mut console), "a\nb\nc\nd\n");
    say_first_lines(&mut console, &lines, 3);
    assert_eq!(said(&mut console), "a\nb\nc\n");
    say_first_lines(&mut console, &lines, 9);
    assert_eq!(said(&mut console), "a\nb\nc\nd\n");
    say_first_lines(&mut console, &lines, 0);
    assert_eq!(said(&mut console), "");
    say_last_lines(&mut console, &lines, 3);
    assert_eq!(said(&mut console), "b\nc\nd\n");
    say_last_lines(&mut console, &lines, 4);
    assert_eq!(said(&mut console), "a\nb\nc\nd\n");
    say_last_lines(&mut console, &lines, 0);
    assert_eq!(said(&mut console), "");
    say_lines(&mut console, &lines, 1, 3);
    assert_eq!(said(&mut console), "b\nc\n");
    say_lines(&mut console, &lines, 2, 2);
    assert_eq!(said(&mut console), "");
    say_all_lines(&mut console, &Vec::new());
    assert_eq!(said(&mut console), "");
}

#[test]
fn counts_stand_in_columns() {
    let mut console = Uart::new(0);
    say_counts(&mut console, 0, 12, 12_345_678, "/f");
    assert_eq!(said(&mut console), "       0       12 12345678 /f\n");
    say_counts(&mut console, 123_456_789, 1, 7, "");
    assert_eq!(said(&mut console), "123456789        1        7 \n");
}
