//! The core utilities: small commands over the file table that write what
//! they have to say to the console.

use crate::error::KernelError;
use crate::fs::{texts, utf8_lossy, FileSystem, FsState};
use crate::syscall::{decimal_digits, write_decimal};
use crate::uart::Uart;
use crate::userspace::{split_words, whitespace_words};
use vstd::prelude::*;
use vstd::string::StringSliceAdditionalSpecFns;
use vstd::utf8::encode_utf8;

verus! {

/// How many lines `head` and `tail` show.
pub const SHOWN_LINES: usize = 10;

/// The width of a number in the output of `wc`.
pub const COUNT_WIDTH: usize = 8;

/// The byte that ends a line.
pub const NEWLINE: u8 = 10;

/// The byte between two words.
pub const SPACE: u8 = 32;

/// The lines of a text: what stands between its line ends, without them
/// and without the carriage return before them.
pub uninterp spec fn text_lines(text: Seq<char>) -> Seq<Seq<char>>;

/// Splits `text` with `str::lines` of the standard library and collects
/// the lines. The result is a function of the text alone.
#[verifier::external_body]
fn split_lines(text: &str) -> (lines: Vec<String>)
    ensures
        texts(lines@) == text_lines(text@),
{
    let mut lines: Vec<String> = Vec::new();
    for line in text.lines() {
        lines.push(String::from(line));
    }
    lines
}

/// The texts of a slice of arguments.
pub open spec fn arg_texts(args: Seq<&str>) -> Seq<Seq<char>> {
    Seq::new(args.len(), |i: int| args[i]@)
}

/// A text as a line of output.
pub open spec fn line(text: Seq<char>) -> Seq<u8> {
    encode_utf8(text) + seq![NEWLINE]
}

/// Texts as lines of output, one after the other.
pub open spec fn lines_output(lines: Seq<Seq<char>>) -> Seq<u8>
    decreases lines.len(),
{
    if lines.len() == 0 {
        Seq::empty()
    } else {
        lines_output(lines.drop_last()) + line(lines.last())
    }
}

/// A number right-aligned in `width` columns.
pub open spec fn padded_decimal(n: nat, width: nat) -> Seq<u8> {
    let digits = decimal_digits(n);
    if digits.len() < width {
        Seq::new((width - digits.len()) as nat, |i: int| SPACE) + digits
    } else {
        digits
    }
}

/// What a command did: what it answered, and what it wrote to the console.
pub struct Said {
    pub result: Result<(), KernelError>,
    pub output: Seq<u8>,
}

/// What a command did that may change files.
pub struct Done {
    pub files: FsState,
    pub result: Result<(), KernelError>,
    pub output: Seq<u8>,
}

/// A command that was called without the arguments it needs says how it
/// is used and fails.
pub open spec fn usage(text: Seq<char>) -> Said {
    Said { result: Err(KernelError::InvalidArgument), output: line(text) }
}

/// Writes `text` and ends the line.
fn say(console: &mut Uart, text: &str)
    ensures
        final(console)@ == old(console)@ + line(text@),
        final(console).spec_base_address() == old(console).spec_base_address(),
{
    console.write_str(text);
    console.write_byte(NEWLINE);
    assert(console@ =~= old(console)@ + line(text@));
}

/// Writes the lines `from..to` of `lines`, each as a line.
pub fn say_lines(console: &mut Uart, lines: &Vec<String>, from: usize, to: usize)
    requires
        from <= to <= lines@.len(),
    ensures
        final(console)@ == old(console)@ + lines_output(texts(lines@).subrange(from as int, to as int)),
        final(console).spec_base_address() == old(console).spec_base_address(),
{
    let ghost all = texts(lines@);
    let mut i: usize = from;
    assert(all.subrange(from as int, from as int) =~= Seq::<Seq<char>>::empty());
    assert(console@ =~= console@ + Seq::<u8>::empty());
    while i < to
        invariant
            from <= i <= to,
            to <= lines@.len(),
            all == texts(lines@),
            console@ == old(console)@ + lines_output(all.subrange(from as int, i as int)),
            console.spec_base_address() == old(console).spec_base_address(),
        decreases to - i,
    {
        let ghost before = all.subrange(from as int, i as int);
        let ghost after = all.subrange(from as int, i + 1);
        proof {
            assert(after.drop_last() =~= before);
            assert(after.last() == lines@[i as int]@);
        }
        say(console, lines[i].as_str());
        assert(console@ =~= old(console)@ + lines_output(after));
        i += 1;
    }
}

/// How many digits the number `n` has.
fn decimal_width(n: u64) -> (width: usize)
    ensures
        width == decimal_digits(n as nat).len(),
        1 <= width <= 20,
    decreases n,
{
    if n < 10 {
        1
    } else {
        let rest = decimal_width(n / 10);
        assert(rest <= 19) by {
            lemma_digits_bound(n as nat);
        }
        rest + 1
    }
}

/// A number below ten to the power of twenty has at most twenty digits;
/// every 64-bit number is such a number.
proof fn lemma_digits_bound(n: nat)
    requires
        n <= u64::MAX,
    ensures
        decimal_digits(n).len() <= 20,
        n >= 10 ==> decimal_digits(n / 10).len() <= 19,
{
    lemma_u64_below_pow10_20();
    lemma_digits_len(n, 20);
    if n >= 10 {
        lemma_digits_len(n / 10, 19);
    }
}

/// Ten to the power of `k`.
spec fn pow10(k: nat) -> nat
    decreases k,
{
    if k == 0 {
        1
    } else {
        10 * pow10((k - 1) as nat)
    }
}

proof fn lemma_digits_len(n: nat, k: nat)
    requires
        k >= 1,
        n < pow10(k),
    ensures
        decimal_digits(n).len() <= k,
    decreases k,
{
    if n >= 10 {
        assert(k >= 2) by {
            if k == 1 {
                assert(pow10(1) == 10 * pow10(0));
            }
        }
        assert(n / 10 < pow10((k - 1) as nat));
        lemma_digits_len(n / 10, (k - 1) as nat);
    }
}

proof fn lemma_u64_below_pow10_20()
    ensures
        u64::MAX < pow10(20),
        u64::MAX / 10 < pow10(19),
{
    assert(pow10(20) == 100000000000000000000nat) by {
        reveal_with_fuel(pow10, 21);
    }
    assert(pow10(19) == 10000000000000000000nat) by {
        reveal_with_fuel(pow10, 20);
    }
}

/// Writes `n` right-aligned in the columns of a count.
fn say_count(console: &mut Uart, n: usize)
    ensures
        final(console)@ == old(console)@ + padded_decimal(n as nat, COUNT_WIDTH as nat),
        final(console).spec_base_address() == old(console).spec_base_address(),
{
    let width = decimal_width(n as u64);
    let ghost digits = decimal_digits(n as nat);
    let mut i: usize = width;
    assert(console@ =~= console@ + Seq::new(0nat, |k: int| SPACE));
    while i < COUNT_WIDTH
        invariant
            width <= i,
            width < COUNT_WIDTH ==> i <= COUNT_WIDTH,
            width >= COUNT_WIDTH ==> i == width,
            console@ == old(console)@ + Seq::new((i - width) as nat, |k: int| SPACE),
            console.spec_base_address() == old(console).spec_base_address(),
        decreases COUNT_WIDTH - i,
    {
        console.write_byte(SPACE);
        i += 1;
        assert(console@ =~= old(console)@ + Seq::new((i - width) as nat, |k: int| SPACE));
    }
    let ghost padded = console@;
    write_decimal(console, n as u64);
    proof {
        assert(digits.len() == width);
        if width < COUNT_WIDTH {
            assert(i == COUNT_WIDTH);
            assert(padded == old(console)@ + Seq::new((COUNT_WIDTH - width) as nat, |k: int| SPACE));
        } else {
            assert(i == width);
            assert(padded =~= old(console)@);
        }
        assert(console@ =~= old(console)@ + padded_decimal(n as nat, COUNT_WIDTH as nat));
    }
}

/// What `echo` writes: its arguments with a space between each two.
pub open spec fn joined(args: Seq<Seq<char>>) -> Seq<u8>
    decreases args.len(),
{
    if args.len() == 0 {
        Seq::empty()
    } else if args.len() == 1 {
        encode_utf8(args[0])
    } else {
        joined(args.drop_last()) + seq![SPACE] + encode_utf8(args.last())
    }
}

/// `echo`: writes its arguments, with a space between each two, as a line.
pub fn echo_main(console: &mut Uart, args: &[&str]) -> (r: Result<(), KernelError>)
    ensures
        r == Ok::<(), KernelError>(()),
        final(console)@ == old(console)@ + joined(arg_texts(args@)) + seq![NEWLINE],
        final(console).spec_base_address() == old(console).spec_base_address(),
{
    let ghost words = arg_texts(args@);
    let mut i: usize = 0;
    assert(words.take(0) =~= Seq::<Seq<char>>::empty());
    assert(console@ =~= console@ + Seq::<u8>::empty());
    while i < args.len()
        invariant
            i <= args@.len(),
            words == arg_texts(args@),
            console@ == old(console)@ + joined(words.take(i as int)),
            console.spec_base_address() == old(console).spec_base_address(),
        decreases args@.len() - i,
    {
        let ghost before = words.take(i as int);
        let ghost after = words.take(i + 1);
        proof {
            assert(after.drop_last() =~= before);
            assert(after.last() == args@[i as int]@);
            if i == 0 {
                assert(after[0] == args@[0]@);
            }
        }
        if i > 0 {
            console.write_byte(SPACE);
        }
        console.write_str(args[i]);
        assert(console@ =~= old(console)@ + joined(after));
        i += 1;
    }
    assert(words.take(i as int) =~= words);
    console.write_byte(NEWLINE);
    Ok(())
}

/// `pwd`: writes the current directory, which is the root.
pub fn pwd_main(console: &mut Uart, _args: &[&str]) -> (r: Result<(), KernelError>)
    ensures
        r == Ok::<(), KernelError>(()),
        final(console)@ == old(console)@ + line("/"@),
        final(console).spec_base_address() == old(console).spec_base_address(),
{
    match crate::fs::get_current_directory() {
        Ok(path) => say(console, path.as_str()),
        Err(_) => say(console, "/"),
    }
    Ok(())
}

/// What `cat` writes about the file `name`: its lines, or two lines of
/// comment where it does not exist.
pub open spec fn cat_file_output(files: FsState, name: Seq<char>) -> Seq<u8> {
    if files.files.contains_key(name) {
        lines_output(text_lines(utf8_lossy(files.files[name])))
    } else {
        encode_utf8("# Simulated content for: "@) + line(name) + line(
            "# This would be the actual file content in a real filesystem"@,
        )
    }
}

/// What `cat` writes about the first `count` of the files `names`.
pub open spec fn cat_output(files: FsState, names: Seq<Seq<char>>, count: nat) -> Seq<u8>
    decreases count,
{
    if count == 0 {
        Seq::empty()
    } else {
        cat_output(files, names, (count - 1) as nat) + cat_file_output(files, names[count - 1])
    }
}

/// What `cat` does.
pub open spec fn cat_said(files: FsState, names: Seq<Seq<char>>) -> Said {
    if names.len() == 0 {
        usage("Usage: cat <file1> [file2] ..."@)
    } else {
        Said { result: Ok(()), output: cat_output(files, names, names.len()) }
    }
}

/// Writes the lines of the file `filename`.
fn cat_file(fs: &FileSystem, console: &mut Uart, filename: &str)
    requires
        fs@.wf(),
    ensures
        final(console)@ == old(console)@ + cat_file_output(fs@, filename@),
        final(console).spec_base_address() == old(console).spec_base_address(),
{
    match crate::fs::read_file(fs, filename) {
        Ok(contents) => {
            let lines = split_lines(contents.as_str());
            say_all_lines(console, &lines);
        },
        Err(_) => {
            console.write_str("# Simulated content for: ");
            say(console, filename);
            say(console, "# This would be the actual file content in a real filesystem");
            assert(console@ =~= old(console)@ + cat_file_output(fs@, filename@));
        },
    }
}

/// `cat`: writes the lines of each of its files.
pub fn cat_main(fs: &FileSystem, console: &mut Uart, args: &[&str]) -> (r: Result<
    (),
    KernelError,
>)
    requires
        fs@.wf(),
    ensures
        r == cat_said(fs@, arg_texts(args@)).result,
        final(console)@ == old(console)@ + cat_said(fs@, arg_texts(args@)).output,
        final(console).spec_base_address() == old(console).spec_base_address(),
{
    if args.is_empty() {
        say(console, "Usage: cat <file1> [file2] ...");
        return Err(KernelError::InvalidArgument);
    }
    let ghost names = arg_texts(args@);
    let mut i: usize = 0;
    assert(console@ =~= console@ + Seq::<u8>::empty());
    while i < args.len()
        invariant
            i <= args@.len(),
            fs@.wf(),
            names == arg_texts(args@),
            console@ == old(console)@ + cat_output(fs@, names, i as nat),
            console.spec_base_address() == old(console).spec_base_address(),
        decreases args@.len() - i,
    {
        assert(names[i as int] == args@[i as int]@);
        cat_file(fs, console, args[i]);
        assert(console@ =~= old(console)@ + cat_output(fs@, names, (i + 1) as nat));
        i += 1;
    }
    Ok(())
}

/// `ls`: writes the entries of the directory that its first argument
/// names, or of `.` where it has none.
pub fn ls_main(fs: &FileSystem, console: &mut Uart, args: &[&str]) -> (r: Result<(), KernelError>)
    requires
        fs@.wf(),
    ensures
        r == Ok::<(), KernelError>(()),
        final(console)@ == old(console)@ + lines_output(
            fs@.directory_listing(
                if args@.len() == 0 {
                    "."@
                } else {
                    args@[0]@
                },
            ),
        ),
        final(console).spec_base_address() == old(console).spec_base_address(),
{
    let path = if args.is_empty() {
        "."
    } else {
        args[0]
    };
    match crate::fs::list_directory(fs, path) {
        Ok(entries) => {
            say_all_lines(console, &entries);
            Ok(())
        },
        Err(e) => Err(e),
    }
}

/// What `head` writes about the file `name`: its first ten lines, or
/// eleven lines of comment where it does not exist.
pub open spec fn head_file_output(files: FsState, name: Seq<char>) -> Seq<u8> {
    if files.files.contains_key(name) {
        lines_output(
            first_lines(text_lines(utf8_lossy(files.files[name])), SHOWN_LINES as nat),
        )
    } else {
        encode_utf8("# First 10 lines of: "@) + line(name) + numbered_lines(
            SHOWN_LINES as nat,
            true,
        )
    }
}

/// The first `count` of the ten stand-in lines of `head`, which count up
/// from 1, or of `tail`, which count down from 10.
pub open spec fn numbered_lines(count: nat, up: bool) -> Seq<u8>
    decreases count,
{
    if count == 0 {
        Seq::empty()
    } else if up {
        numbered_lines((count - 1) as nat, up) + encode_utf8("Line "@) + decimal_digits(count)
            + line(" of the file"@)
    } else {
        numbered_lines((count - 1) as nat, up) + encode_utf8("Line "@) + decimal_digits(
            (SHOWN_LINES + 1 - count) as nat,
        ) + line(" (from end) of the file"@)
    }
}

/// What `tail` writes about the file `name`: its last ten lines, or
/// eleven lines of comment where it does not exist.
pub open spec fn tail_file_output(files: FsState, name: Seq<char>) -> Seq<u8> {
    if files.files.contains_key(name) {
        lines_output(last_lines(text_lines(utf8_lossy(files.files[name])), SHOWN_LINES as nat))
    } else {
        encode_utf8("# Last 10 lines of: "@) + line(name) + numbered_lines(
            SHOWN_LINES as nat,
            false,
        )
    }
}

/// What `head` or `tail` writes about the first `count` of the files
/// `names`.
pub open spec fn ends_output(files: FsState, names: Seq<Seq<char>>, count: nat, head: bool) -> Seq<
    u8,
>
    decreases count,
{
    if count == 0 {
        Seq::empty()
    } else {
        ends_output(files, names, (count - 1) as nat, head) + if head {
            head_file_output(files, names[count - 1])
        } else {
            tail_file_output(files, names[count - 1])
        }
    }
}

/// The first `count` of the lines `lines`, or all of them where there are
/// fewer.
pub open spec fn first_lines(lines: Seq<Seq<char>>, count: nat) -> Seq<Seq<char>> {
    lines.subrange(
        0,
        if lines.len() < count {
            lines.len() as int
        } else {
            count as int
        },
    )
}

/// The last `count` of the lines `lines`, or all of them where there are
/// fewer.
pub open spec fn last_lines(lines: Seq<Seq<char>>, count: nat) -> Seq<Seq<char>> {
    lines.subrange(
        if lines.len() > count {
            lines.len() - count
        } else {
            0
        },
        lines.len() as int,
    )
}

/// Writes every one of the lines `lines`, as `cat` does with the lines of
/// a file.
pub fn say_all_lines(console: &mut Uart, lines: &Vec<String>)
    ensures
        final(console)@ == old(console)@ + lines_output(texts(lines@)),
        final(console).spec_base_address() == old(console).spec_base_address(),
{
    assert(texts(lines@).subrange(0, lines@.len() as int) =~= texts(lines@));
    say_lines(console, lines, 0, lines.len());
}

/// Writes the first `count` of the lines `lines`, as `head` does with the
/// lines of a file.
pub fn say_first_lines(console: &mut Uart, lines: &Vec<String>, count: usize)
    ensures
        final(console)@ == old(console)@ + lines_output(first_lines(texts(lines@), count as nat)),
        final(console).spec_base_address() == old(console).spec_base_address(),
{
    let shown = if lines.len() < count {
        lines.len()
    } else {
        count
    };
    say_lines(console, lines, 0, shown);
}

/// Writes the last `count` of the lines `lines`, as `tail` does with the
/// lines of a file.
pub fn say_last_lines(console: &mut Uart, lines: &Vec<String>, count: usize)
    ensures
        final(console)@ == old(console)@ + lines_output(last_lines(texts(lines@), count as nat)),
        final(console).spec_base_address() == old(console).spec_base_address(),
{
    let start = if lines.len() > count {
        lines.len() - count
    } else {
        0
    };
    say_lines(console, lines, start, lines.len());
}

/// Writes the ten stand-in lines of `head` or of `tail`.
fn say_numbered(console: &mut Uart, up: bool)
    ensures
        final(console)@ == old(console)@ + numbered_lines(SHOWN_LINES as nat, up),
        final(console).spec_base_address() == old(console).spec_base_address(),
{
    let mut i: usize = 0;
    assert(console@ =~= console@ + Seq::<u8>::empty());
    while i < SHOWN_LINES
        invariant
            i <= SHOWN_LINES,
            console@ == old(console)@ + numbered_lines(i as nat, up),
            console.spec_base_address() == old(console).spec_base_address(),
        decreases SHOWN_LINES - i,
    {
        i += 1;
        console.write_str("Line ");
        if up {
            write_decimal(console, i as u64);
            say(console, " of the file");
        } else {
            write_decimal(console, (SHOWN_LINES + 1 - i) as u64);
            say(console, " (from end) of the file");
        }
        assert(console@ =~= old(console)@ + numbered_lines(i as nat, up));
    }
}

/// Writes the first lines of the file `filename`.
fn show_head(fs: &FileSystem, console: &mut Uart, filename: &str)
    requires
        fs@.wf(),
    ensures
        final(console)@ == old(console)@ + head_file_output(fs@, filename@),
        final(console).spec_base_address() == old(console).spec_base_address(),
{
    match crate::fs::read_file(fs, filename) {
        Ok(contents) => {
            let lines = split_lines(contents.as_str());
            say_first_lines(console, &lines, SHOWN_LINES);
        },
        Err(_) => {
            console.write_str("# First 10 lines of: ");
            say(console, filename);
            say_numbered(console, true);
            assert(console@ =~= old(console)@ + head_file_output(fs@, filename@));
        },
    }
}

/// Writes the last lines of the file `filename`.
fn show_tail(fs: &FileSystem, console: &mut Uart, filename: &str)
    requires
        fs@.wf(),
    ensures
        final(console)@ == old(console)@ + tail_file_output(fs@, filename@),
        final(console).spec_base_address() == old(console).spec_base_address(),
{
    match crate::fs::read_file(fs, filename) {
        Ok(contents) => {
            let lines = split_lines(contents.as_str());
            say_last_lines(console, &lines, SHOWN_LINES);
        },
        Err(_) => {
            console.write_str("# Last 10 lines of: ");
            say(console, filename);
            say_numbered(console, false);
            assert(console@ =~= old(console)@ + tail_file_output(fs@, filename@));
        },
    }
}

/// What `head` does, or `tail`.
pub open spec fn ends_said(files: FsState, names: Seq<Seq<char>>, head: bool) -> Said {
    if names.len() == 0 {
        usage(
            if head {
                "Usage: head <file1> [file2] ..."@
            } else {
                "Usage: tail <file1> [file2] ..."@
            },
        )
    } else {
        Said { result: Ok(()), output: ends_output(files, names, names.len(), head) }
    }
}

/// `head`: writes the first ten lines of each of its files.
pub fn head_main(fs: &FileSystem, console: &mut Uart, args: &[&str]) -> (r: Result<
    (),
    KernelError,
>)
    requires
        fs@.wf(),
    ensures
        r == ends_said(fs@, arg_texts(args@), true).result,
        final(console)@ == old(console)@ + ends_said(fs@, arg_texts(args@), true).output,
        final(console).spec_base_address() == old(console).spec_base_address(),
{
    if args.is_empty() {
        say(console, "Usage: head <file1> [file2] ...");
        return Err(KernelError::InvalidArgument);
    }
    let ghost names = arg_texts(args@);
    let mut i: usize = 0;
    assert(console@ =~= console@ + Seq::<u8>::empty());
    while i < args.len()
        invariant
            i <= args@.len(),
            fs@.wf(),
            names == arg_texts(args@),
            console@ == old(console)@ + ends_output(fs@, names, i as nat, true),
            console.spec_base_address() == old(console).spec_base_address(),
        decreases args@.len() - i,
    {
        assert(names[i as int] == args@[i as int]@);
        show_head(fs, console, args[i]);
        assert(console@ =~= old(console)@ + ends_output(fs@, names, (i + 1) as nat, true));
        i += 1;
    }
    Ok(())
}

/// `tail`: writes the last ten lines of each of its files.
pub fn tail_main(fs: &FileSystem, console: &mut Uart, args: &[&str]) -> (r: Result<
    (),
    KernelError,
>)
    requires
        fs@.wf(),
    ensures
        r == ends_said(fs@, arg_texts(args@), false).result,
        final(console)@ == old(console)@ + ends_said(fs@, arg_texts(args@), false).output,
        final(console).spec_base_address() == old(console).spec_base_address(),
{
    if args.is_empty() {
        say(console, "Usage: tail <file1> [file2] ...");
        return Err(KernelError::InvalidArgument);
    }
    let ghost names = arg_texts(args@);
    let mut i: usize = 0;
    assert(console@ =~= console@ + Seq::<u8>::empty());
    while i < args.len()
        invariant
            i <= args@.len(),
            fs@.wf(),
            names == arg_texts(args@),
            console@ == old(console)@ + ends_output(fs@, names, i as nat, false),
            console.spec_base_address() == old(console).spec_base_address(),
        decreases args@.len() - i,
    {
        assert(names[i as int] == args@[i as int]@);
        show_tail(fs, console, args[i]);
        assert(console@ =~= old(console)@ + ends_output(fs@, names, (i + 1) as nat, false));
        i += 1;
    }
    Ok(())
}

/// The counts of a file: its lines, its words and its bytes.
pub struct Counts {
    pub lines: usize,
    pub words: usize,
    pub bytes: usize,
}

/// The counts of the file `name`, or stand-in counts where it does not
/// exist: 10 lines, 50 words, 300 bytes.
pub open spec fn counts_of(files: FsState, name: Seq<char>) -> (nat, nat, nat) {
    if files.files.contains_key(name) {
        let text = utf8_lossy(files.files[name]);
        (text_lines(text).len(), whitespace_words(text).len(), encode_utf8(text).len())
    } else {
        (10, 50, 300)
    }
}

/// Counts the lines, the words and the bytes of the text of a file.
pub fn count_words(fs: &FileSystem, filename: &str) -> (r: Result<(usize, usize, usize), KernelError>)
    requires
        fs@.wf(),
    ensures
        r is Ok,
        r->Ok_0.0 == counts_of(fs@, filename@).0,
        r->Ok_0.1 == counts_of(fs@, filename@).1,
        r->Ok_0.2 == counts_of(fs@, filename@).2,
{
    match crate::fs::read_file(fs, filename) {
        Ok(contents) => {
            let lines = split_lines(contents.as_str());
            let words = split_words(contents.as_str());
            assert(texts(lines@).len() == lines@.len());
            assert(texts(words@).len() == words@.len());
            Ok((lines.len(), words.len(), contents.as_str().as_bytes().len()))
        },
        Err(_) => Ok((10, 50, 300)),
    }
}

/// A line of `wc`: the three counts in columns, and the name.
pub open spec fn counts_line(lines: nat, words: nat, bytes: nat, name: Seq<char>) -> Seq<u8> {
    padded_decimal(lines, COUNT_WIDTH as nat) + seq![SPACE] + padded_decimal(
        words,
        COUNT_WIDTH as nat,
    ) + seq![SPACE] + padded_decimal(bytes, COUNT_WIDTH as nat) + seq![SPACE] + line(name)
}

/// What `wc` writes about the file `name`: the three counts in columns,
/// and the name.
pub open spec fn wc_file_output(files: FsState, name: Seq<char>) -> Seq<u8> {
    let counts = counts_of(files, name);
    counts_line(counts.0, counts.1, counts.2, name)
}

/// Writes a line of `wc`: the three counts in columns, and the name.
pub fn say_counts(console: &mut Uart, lines: usize, words: usize, bytes: usize, name: &str)
    ensures
        final(console)@ == old(console)@ + counts_line(
            lines as nat,
            words as nat,
            bytes as nat,
            name@,
        ),
        final(console).spec_base_address() == old(console).spec_base_address(),
{
    say_count(console, lines);
    console.write_byte(SPACE);
    say_count(console, words);
    console.write_byte(SPACE);
    say_count(console, bytes);
    console.write_byte(SPACE);
    say(console, name);
    assert(console@ =~= old(console)@ + counts_line(
        lines as nat,
        words as nat,
        bytes as nat,
        name@,
    ));
}

/// What `wc` writes about the first `count` of the files `names`.
pub open spec fn wc_output(files: FsState, names: Seq<Seq<char>>, count: nat) -> Seq<u8>
    decreases count,
{
    if count == 0 {
        Seq::empty()
    } else {
        wc_output(files, names, (count - 1) as nat) + wc_file_output(files, names[count - 1])
    }
}

/// What `wc` does.
pub open spec fn wc_said(files: FsState, names: Seq<Seq<char>>) -> Said {
    if names.len() == 0 {
        usage("Usage: wc <file1> [file2] ..."@)
    } else {
        Said { result: Ok(()), output: wc_output(files, names, names.len()) }
    }
}

/// `wc`: writes the counts of each of its files.
pub fn wc_main(fs: &FileSystem, console: &mut Uart, args: &[&str]) -> (r: Result<(), KernelError>)
    requires
        fs@.wf(),
    ensures
        r == wc_said(fs@, arg_texts(args@)).result,
        final(console)@ == old(console)@ + wc_said(fs@, arg_texts(args@)).output,
        final(console).spec_base_address() == old(console).spec_base_address(),
{
    if args.is_empty() {
        say(console, "Usage: wc <file1> [file2] ...");
        return Err(KernelError::InvalidArgument);
    }
    let ghost names = arg_texts(args@);
    let mut i: usize = 0;
    assert(console@ =~= console@ + Seq::<u8>::empty());
    while i < args.len()
        invariant
            i <= args@.len(),
            fs@.wf(),
            names == arg_texts(args@),
            console@ == old(console)@ + wc_output(fs@, names, i as nat),
            console.spec_base_address() == old(console).spec_base_address(),
        decreases args@.len() - i,
    {
        assert(names[i as int] == args@[i as int]@);
        let ghost before = console@;
        match count_words(fs, args[i]) {
            Ok((lines, words, bytes)) => {
                say_counts(console, lines, words, bytes, args[i]);
                assert(console@ =~= before + wc_file_output(fs@, names[i as int]));
            },
            Err(e) => {
                return Err(e);
            },
        }
        assert(console@ =~= old(console)@ + wc_output(fs@, names, (i + 1) as nat));
        i += 1;
    }
    Ok(())
}

/// What `mkdir` writes about the first `count` of the directories `names`.
pub open spec fn mkdir_output(names: Seq<Seq<char>>, count: nat) -> Seq<u8>
    decreases count,
{
    if count == 0 {
        Seq::empty()
    } else {
        mkdir_output(names, (count - 1) as nat) + encode_utf8("Created directory: "@) + line(
            names[count - 1],
        )
    }
}

/// What `mkdir` does.
pub open spec fn mkdir_said(names: Seq<Seq<char>>) -> Said {
    if names.len() == 0 {
        usage("Usage: mkdir <directory1> [directory2] ..."@)
    } else {
        Said { result: Ok(()), output: mkdir_output(names, names.len()) }
    }
}

/// `mkdir`: accepts each of its directories. Directories carry no state,
/// so the file table stays as it is.
pub fn mkdir_main(fs: &FileSystem, console: &mut Uart, args: &[&str]) -> (r: Result<
    (),
    KernelError,
>)
    ensures
        r == mkdir_said(arg_texts(args@)).result,
        final(console)@ == old(console)@ + mkdir_said(arg_texts(args@)).output,
        final(console).spec_base_address() == old(console).spec_base_address(),
{
    if args.is_empty() {
        say(console, "Usage: mkdir <directory1> [directory2] ...");
        return Err(KernelError::InvalidArgument);
    }
    let ghost names = arg_texts(args@);
    let mut i: usize = 0;
    assert(console@ =~= console@ + Seq::<u8>::empty());
    while i < args.len()
        invariant
            i <= args@.len(),
            names == arg_texts(args@),
            console@ == old(console)@ + mkdir_output(names, i as nat),
            console.spec_base_address() == old(console).spec_base_address(),
        decreases args@.len() - i,
    {
        assert(names[i as int] == args@[i as int]@);
        match crate::fs::create_directory(fs, args[i]) {
            Ok(_) => {
                console.write_str("Created directory: ");
                say(console, args[i]);
            },
            Err(e) => {
                return Err(e);
            },
        }
        assert(console@ =~= old(console)@ + mkdir_output(names, (i + 1) as nat));
        i += 1;
    }
    Ok(())
}

/// What `touch` does with the first `count` of the files `names`: each
/// becomes an empty file.
pub open spec fn touched(files: FsState, names: Seq<Seq<char>>, count: nat) -> Done
    decreases count,
{
    if count == 0 {
        Done { files, result: Ok(()), output: Seq::empty() }
    } else {
        let before = touched(files, names, (count - 1) as nat);
        Done {
            files: before.files.with_file(names[count - 1], Seq::empty()),
            result: Ok(()),
            output: before.output + encode_utf8("Created file: "@) + line(names[count - 1]),
        }
    }
}

/// What `touch` does.
pub open spec fn touch_done(files: FsState, names: Seq<Seq<char>>) -> Done {
    if names.len() == 0 {
        Done {
            files,
            result: Err(KernelError::InvalidArgument),
            output: line("Usage: touch <file1> [file2] ..."@),
        }
    } else {
        touched(files, names, names.len())
    }
}

/// `touch`: makes each of its files an empty file.
pub fn touch_main(fs: &mut FileSystem, console: &mut Uart, args: &[&str]) -> (r: Result<
    (),
    KernelError,
>)
    requires
        old(fs)@.wf(),
    ensures
        final(fs)@.wf(),
        r == touch_done(old(fs)@, arg_texts(args@)).result,
        final(fs)@ == touch_done(old(fs)@, arg_texts(args@)).files,
        final(console)@ == old(console)@ + touch_done(old(fs)@, arg_texts(args@)).output,
        final(console).spec_base_address() == old(console).spec_base_address(),
{
    if args.is_empty() {
        say(console, "Usage: touch <file1> [file2] ...");
        return Err(KernelError::InvalidArgument);
    }
    let ghost names = arg_texts(args@);
    let mut i: usize = 0;
    assert(console@ =~= console@ + Seq::<u8>::empty());
    while i < args.len()
        invariant
            i <= args@.len(),
            fs@.wf(),
            names == arg_texts(args@),
            fs@ == touched(old(fs)@, names, i as nat).files,
            console@ == old(console)@ + touched(old(fs)@, names, i as nat).output,
            console.spec_base_address() == old(console).spec_base_address(),
        decreases args@.len() - i,
    {
        assert(names[i as int] == args@[i as int]@);
        match crate::fs::create_file(fs, args[i]) {
            Ok(_) => {
                console.write_str("Created file: ");
                say(console, args[i]);
            },
            Err(e) => {
                return Err(e);
            },
        }
        assert(console@ =~= old(console)@ + touched(old(fs)@, names, (i + 1) as nat).output);
        i += 1;
    }
    Ok(())
}

/// What `rm` does with the first `count` of the files `names`: each is
/// removed in turn, and the first that does not exist ends the command.
pub open spec fn removed(files: FsState, names: Seq<Seq<char>>, count: nat) -> Done
    decreases count,
{
    if count == 0 {
        Done { files, result: Ok(()), output: Seq::empty() }
    } else {
        let before = removed(files, names, (count - 1) as nat);
        let name = names[count - 1];
        if before.result is Err {
            before
        } else if before.files.files.contains_key(name) {
            Done {
                files: before.files.without_file(name),
                result: Ok(()),
                output: before.output + encode_utf8("Removed: "@) + line(name),
            }
        } else {
            Done {
                files: before.files,
                result: Err(KernelError::NotFound),
                output: before.output + encode_utf8("rm: cannot remove '"@) + encode_utf8(name)
                    + line("': File not found"@),
            }
        }
    }
}

/// What `rm` does.
pub open spec fn rm_done(files: FsState, names: Seq<Seq<char>>) -> Done {
    if names.len() == 0 {
        Done {
            files,
            result: Err(KernelError::InvalidArgument),
            output: line("Usage: rm <file1> [file2] ..."@),
        }
    } else {
        removed(files, names, names.len())
    }
}

proof fn lemma_removed_stays_failed(files: FsState, names: Seq<Seq<char>>, failed: nat, count: nat)
    requires
        failed <= count,
        removed(files, names, failed).result is Err,
    ensures
        removed(files, names, count) == removed(files, names, failed),
    decreases count,
{
    if failed < count {
        lemma_removed_stays_failed(files, names, failed, (count - 1) as nat);
    }
}

/// `rm`: removes each of its files, up to the first that does not exist.
pub fn rm_main(fs: &mut FileSystem, console: &mut Uart, args: &[&str]) -> (r: Result<
    (),
    KernelError,
>)
    requires
        old(fs)@.wf(),
    ensures
        final(fs)@.wf(),
        r == rm_done(old(fs)@, arg_texts(args@)).result,
        final(fs)@ == rm_done(old(fs)@, arg_texts(args@)).files,
        final(console)@ == old(console)@ + rm_done(old(fs)@, arg_texts(args@)).output,
        final(console).spec_base_address() == old(console).spec_base_address(),
{
    if args.is_empty() {
        say(console, "Usage: rm <file1> [file2] ...");
        return Err(KernelError::InvalidArgument);
    }
    let ghost names = arg_texts(args@);
    let mut i: usize = 0;
    assert(console@ =~= console@ + Seq::<u8>::empty());
    while i < args.len()
        invariant
            i <= args@.len(),
            args@.len() > 0,
            fs@.wf(),
            names == arg_texts(args@),
            removed(old(fs)@, names, i as nat).result is Ok,
            fs@ == removed(old(fs)@, names, i as nat).files,
            console@ == old(console)@ + removed(old(fs)@, names, i as nat).output,
            console.spec_base_address() == old(console).spec_base_address(),
        decreases args@.len() - i,
    {
        assert(names[i as int] == args@[i as int]@);
        match crate::fs::remove_file(fs, args[i]) {
            Ok(_) => {
                console.write_str("Removed: ");
                say(console, args[i]);
            },
            Err(e) => {
                console.write_str("rm: cannot remove '");
                console.write_str(args[i]);
                say(console, "': File not found");
                assert(console@ =~= old(console)@ + removed(
                    old(fs)@,
                    names,
                    (i + 1) as nat,
                ).output);
                proof {
                    lemma_removed_stays_failed(old(fs)@, names, (i + 1) as nat, args@.len());
                }
                return Err(e);
            },
        }
        assert(console@ =~= old(console)@ + removed(old(fs)@, names, (i + 1) as nat).output);
        i += 1;
    }
    Ok(())
}

/// What `cp` does, or `mv` where `moving` is true.
pub open spec fn transferred(files: FsState, names: Seq<Seq<char>>, moving: bool) -> Done {
    if names.len() < 2 {
        Done {
            files,
            result: Err(KernelError::InvalidArgument),
            output: line(
                if moving {
                    "Usage: mv <source> <destination>"@
                } else {
                    "Usage: cp <source> <destination>"@
                },
            ),
        }
    } else if files.files.contains_key(names[0]) {
        Done {
            files: if moving {
                files.after_move(names[0], names[1])
            } else {
                files.after_copy(names[0], names[1])
            },
            result: Ok(()),
            output: encode_utf8("'"@) + encode_utf8(names[0]) + encode_utf8("' -> '"@)
                + encode_utf8(names[1]) + line("'"@),
        }
    } else {
        Done {
            files,
            result: Err(KernelError::NotFound),
            output: encode_utf8(
                if moving {
                    "mv: cannot move '"@
                } else {
                    "cp: cannot copy '"@
                },
            ) + encode_utf8(names[0]) + encode_utf8("' to '"@) + encode_utf8(names[1]) + line(
                "': Source file not found"@,
            ),
        }
    }
}

/// `cp`: copies its first file to its second.
pub fn cp_main(fs: &mut FileSystem, console: &mut Uart, args: &[&str]) -> (r: Result<
    (),
    KernelError,
>)
    requires
        old(fs)@.wf(),
    ensures
        final(fs)@.wf(),
        r == transferred(old(fs)@, arg_texts(args@), false).result,
        final(fs)@ == transferred(old(fs)@, arg_texts(args@), false).files,
        final(console)@ == old(console)@ + transferred(old(fs)@, arg_texts(args@), false).output,
        final(console).spec_base_address() == old(console).spec_base_address(),
{
    if args.len() < 2 {
        say(console, "Usage: cp <source> <destination>");
        return Err(KernelError::InvalidArgument);
    }
    let source = args[0];
    let dest = args[1];
    let ghost names = arg_texts(args@);
    assert(names[0] == source@ && names[1] == dest@);
    match crate::fs::copy_file(fs, source, dest) {
        Ok(_) => {
            console.write_str("'");
            console.write_str(source);
            console.write_str("' -> '");
            console.write_str(dest);
            say(console, "'");
            assert(console@ =~= old(console)@ + transferred(old(fs)@, names, false).output);
            Ok(())
        },
        Err(e) => {
            console.write_str("cp: cannot copy '");
            console.write_str(source);
            console.write_str("' to '");
            console.write_str(dest);
            say(console, "': Source file not found");
            assert(console@ =~= old(console)@ + transferred(old(fs)@, names, false).output);
            Err(e)
        },
    }
}

/// `mv`: moves its first file to its second.
pub fn mv_main(fs: &mut FileSystem, console: &mut Uart, args: &[&str]) -> (r: Result<
    (),
    KernelError,
>)
    requires
        old(fs)@.wf(),
    ensures
        final(fs)@.wf(),
        r == transferred(old(fs)@, arg_texts(args@), true).result,
        final(fs)@ == transferred(old(fs)@, arg_texts(args@), true).files,
        final(console)@ == old(console)@ + transferred(old(fs)@, arg_texts(args@), true).output,
        final(console).spec_base_address() == old(console).spec_base_address(),
{
    if args.len() < 2 {
        say(console, "Usage: mv <source> <destination>");
        return Err(KernelError::InvalidArgument);
    }
    let source = args[0];
    let dest = args[1];
    let ghost names = arg_texts(args@);
    assert(names[0] == source@ && names[1] == dest@);
    match crate::fs::move_file(fs, source, dest) {
        Ok(_) => {
            console.write_str("'");
            console.write_str(source);
            console.write_str("' -> '");
            console.write_str(dest);
            say(console, "'");
            assert(console@ =~= old(console)@ + transferred(old(fs)@, names, true).output);
            Ok(())
        },
        Err(e) => {
            console.write_str("mv: cannot move '");
            console.write_str(source);
            console.write_str("' to '");
            console.write_str(dest);
            say(console, "': Source file not found");
            assert(console@ =~= old(console)@ + transferred(old(fs)@, names, true).output);
            Err(e)
        },
    }
}

/// What `help` writes.
pub open spec fn help_output() -> Seq<u8> {
    line("RustOS Coreutils - Available commands:"@) + line("  cat     - Display file contents"@)
        + line("  ls      - List directory contents"@) + line("  echo    - Display text"@) + line(
        "  pwd     - Show current directory"@,
    ) + line("  mkdir   - Create directories"@) + line("  touch   - Create files"@) + line(
        "  rm      - Remove files/directories"@,
    ) + line("  cp      - Copy files"@) + line("  mv      - Move/rename files"@) + line(
        "  wc      - Word count"@,
    ) + line("  head    - Show first lines of file"@) + line(
        "  tail    - Show last lines of file"@,
    ) + line("  help    - Show this help"@)
}

/// Writes the list of the commands.
pub fn show_help(console: &mut Uart)
    ensures
        final(console)@ == old(console)@ + help_output(),
        final(console).spec_base_address() == old(console).spec_base_address(),
{
    say(console, "RustOS Coreutils - Available commands:");
    say(console, "  cat     - Display file contents");
    say(console, "  ls      - List directory contents");
    say(console, "  echo    - Display text");
    say(console, "  pwd     - Show current directory");
    say(console, "  mkdir   - Create directories");
    say(console, "  touch   - Create files");
    say(console, "  rm      - Remove files/directories");
    say(console, "  cp      - Copy files");
    say(console, "  mv      - Move/rename files");
    say(console, "  wc      - Word count");
    say(console, "  head    - Show first lines of file");
    say(console, "  tail    - Show last lines of file");
    say(console, "  help    - Show this help");
    assert(console@ =~= old(console)@ + help_output());
}

/// The commands.
#[derive(Debug, Clone, Copy, PartialEq, Eq, Structural)]
pub enum Command {
    Cat,
    Ls,
    Echo,
    Pwd,
    Mkdir,
    Touch,
    Rm,
    Cp,
    Mv,
    Wc,
    Head,
    Tail,
    Help,
}

/// The command that the word `name` names, if it names one.
pub open spec fn command_of(name: Seq<char>) -> Option<Command> {
    if name == "cat"@ {
        Some(Command::Cat)
    } else if name == "ls"@ {
        Some(Command::Ls)
    } else if name == "echo"@ {
        Some(Command::Echo)
    } else if name == "pwd"@ {
        Some(Command::Pwd)
    } else if name == "mkdir"@ {
        Some(Command::Mkdir)
    } else if name == "touch"@ {
        Some(Command::Touch)
    } else if name == "rm"@ {
        Some(Command::Rm)
    } else if name == "cp"@ {
        Some(Command::Cp)
    } else if name == "mv"@ {
        Some(Command::Mv)
    } else if name == "wc"@ {
        Some(Command::Wc)
    } else if name == "head"@ {
        Some(Command::Head)
    } else if name == "tail"@ {
        Some(Command::Tail)
    } else if name == "help"@ || name == "--help"@ {
        Some(Command::Help)
    } else {
        None
    }
}

/// Whether two texts are the same.
fn same_text(a: &str, b: &str) -> (same: bool)
    ensures
        same == (a@ == b@),
{
    let left: String = a.to_owned();
    let right: String = b.to_owned();
    left == right
}

/// The command that the word `name` names, if it names one.
pub fn parse_command(name: &str) -> (command: Option<Command>)
    ensures
        command == command_of(name@),
{
    if same_text(name, "cat") {
        Some(Command::Cat)
    } else if same_text(name, "ls") {
        Some(Command::Ls)
    } else if same_text(name, "echo") {
        Some(Command::Echo)
    } else if same_text(name, "pwd") {
        Some(Command::Pwd)
    } else if same_text(name, "mkdir") {
        Some(Command::Mkdir)
    } else if same_text(name, "touch") {
        Some(Command::Touch)
    } else if same_text(name, "rm") {
        Some(Command::Rm)
    } else if same_text(name, "cp") {
        Some(Command::Cp)
    } else if same_text(name, "mv") {
        Some(Command::Mv)
    } else if same_text(name, "wc") {
        Some(Command::Wc)
    } else if same_text(name, "head") {
        Some(Command::Head)
    } else if same_text(name, "tail") {
        Some(Command::Tail)
    } else if same_text(name, "help") || same_text(name, "--help") {
        Some(Command::Help)
    } else {
        None
    }
}

/// What running the command `name` with the arguments `args` does.
pub open spec fn executed(files: FsState, name: Seq<char>, args: Seq<Seq<char>>) -> Done {
    match command_of(name) {
        Some(Command::Cat) => Done {
            files,
            result: cat_said(files, args).result,
            output: cat_said(files, args).output,
        },
        Some(Command::Ls) => Done {
            files,
            result: Ok(()),
            output: lines_output(
                files.directory_listing(
                    if args.len() == 0 {
                        "."@
                    } else {
                        args[0]
                    },
                ),
            ),
        },
        Some(Command::Echo) => Done {
            files,
            result: Ok(()),
            output: joined(args) + seq![NEWLINE],
        },
        Some(Command::Pwd) => Done { files, result: Ok(()), output: line("/"@) },
        Some(Command::Mkdir) => Done {
            files,
            result: mkdir_said(args).result,
            output: mkdir_said(args).output,
        },
        Some(Command::Touch) => touch_done(files, args),
        Some(Command::Rm) => rm_done(files, args),
        Some(Command::Cp) => transferred(files, args, false),
        Some(Command::Mv) => transferred(files, args, true),
        Some(Command::Wc) => Done {
            files,
            result: wc_said(files, args).result,
            output: wc_said(files, args).output,
        },
        Some(Command::Head) => Done {
            files,
            result: ends_said(files, args, true).result,
            output: ends_said(files, args, true).output,
        },
        Some(Command::Tail) => Done {
            files,
            result: ends_said(files, args, false).result,
            output: ends_said(files, args, false).output,
        },
        Some(Command::Help) => Done { files, result: Ok(()), output: help_output() },
        None => Done {
            files,
            result: Err(KernelError::NotFound),
            output: encode_utf8("rustos: command not found: "@) + line(name) + line(
                "Type 'help' for available commands"@,
            ),
        },
    }
}

/// Runs the command `command` with the arguments `args`. A word that
/// names no command is reported on the console.
pub fn execute_command(fs: &mut FileSystem, console: &mut Uart, command: &str, args: &[&str]) -> (r:
    Result<(), KernelError>)
    requires
        old(fs)@.wf(),
    ensures
        final(fs)@.wf(),
        r == executed(old(fs)@, command@, arg_texts(args@)).result,
        final(fs)@ == executed(old(fs)@, command@, arg_texts(args@)).files,
        final(console)@ == old(console)@ + executed(old(fs)@, command@, arg_texts(args@)).output,
        final(console).spec_base_address() == old(console).spec_base_address(),
{
    match parse_command(command) {
        Some(Command::Cat) => cat_main(fs, console, args),
        Some(Command::Ls) => ls_main(fs, console, args),
        Some(Command::Echo) => echo_main(console, args),
        Some(Command::Pwd) => pwd_main(console, args),
        Some(Command::Mkdir) => mkdir_main(fs, console, args),
        Some(Command::Touch) => touch_main(fs, console, args),
        Some(Command::Rm) => rm_main(fs, console, args),
        Some(Command::Cp) => cp_main(fs, console, args),
        Some(Command::Mv) => mv_main(fs, console, args),
        Some(Command::Wc) => wc_main(fs, console, args),
        Some(Command::Head) => head_main(fs, console, args),
        Some(Command::Tail) => tail_main(fs, console, args),
        Some(Command::Help) => {
            show_help(console);
            Ok(())
        },
        None => {
            console.write_str("rustos: command not found: ");
            say(console, command);
            say(console, "Type 'help' for available commands");
            assert(console@ =~= old(console)@ + executed(
                old(fs)@,
                command@,
                arg_texts(args@),
            ).output);
            Err(KernelError::NotFound)
        },
    }
}

/// Announces the core utilities on the console.
pub fn init(console: &mut Uart)
    ensures
        final(console)@ == old(console)@ + line("Coreutils initialized - 12 commands available"@),
        final(console).spec_base_address() == old(console).spec_base_address(),
{
    say(console, "Coreutils initialized - 12 commands available");
}

} // verus!
