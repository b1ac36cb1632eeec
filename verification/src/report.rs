//! What tools report: listings, command output, search matches, and the limit on their length.

use crate::lines::{join, joined, lemma_position, lines, position, split_lines};
use crate::numeral::{decimal, decimal_int, decimal_text, is_digit, push_decimal, signed_text};
use crate::order::{in_order, sort};
use crate::text::{
    blank, cat, chars_of, clip, clipped, ends_with_char, is_blank, skip_chars, starts_with,
    string_of, texts, trim, trimmed,
};
use vstd::prelude::*;
use vstd::slice::slice_subrange;
use vstd::string::*;
use vstd::utf8::*;

verus! {

// ---- Bytes as text -----------------------------------------------------------------------------

/// The text that bytes stand for, with replacement characters where they are no UTF-8.
pub uninterp spec fn lossy_text(bytes: Seq<u8>) -> Seq<char>;

/// `String::from_utf8_lossy`: the text depends on the bytes alone, and bytes that are UTF-8 give
/// the text that they encode.
#[verifier::external_body]
fn from_utf8_lossy(bytes: &[u8]) -> (r: String)
    ensures
        r@ == lossy_text(bytes@),
        valid_utf8(bytes@) ==> r@ == decode_utf8(bytes@),
{
    String::from_utf8_lossy(bytes).into_owned()
}

/// The text that bytes stand for, with replacement characters where they are no UTF-8.
pub fn text_of_bytes(bytes: &[u8]) -> (r: String)
    ensures
        r@ == lossy_text(bytes@),
        valid_utf8(bytes@) ==> r@ == decode_utf8(bytes@),
{
    from_utf8_lossy(bytes)
}

// ---- The limit on results ----------------------------------------------------------------------

/// Maximum bytes returned from a single tool call to avoid overflowing the context window.
pub const MAX_RESULT_BYTES: usize = 8_000;

/// The longest beginning of a text that takes at most `limit` bytes.
pub open spec fn fitting(s: Seq<char>, limit: nat) -> Seq<char>
    decreases s.len(),
{
    if s.len() == 0 || encode_utf8(s).len() <= limit {
        s
    } else {
        fitting(s.drop_last(), limit)
    }
}

/// One more character adds the bytes of its own encoding.
proof fn lemma_encoding_grows(s: Seq<char>, c: char)
    ensures
        encode_utf8(s.push(c)).len() == encode_utf8(s).len() + encode_scalar(c as u32).len(),
        1 <= encode_scalar(c as u32).len() <= 4,
    decreases s.len(),
{
    char_is_scalar(c);
    reveal_with_fuel(encode_utf8, 2);
    if s.len() == 0 {
        assert(s.push(c).drop_first() == Seq::<char>::empty());
        assert(s.push(c)[0] == c);
    } else {
        lemma_encoding_grows(s.drop_first(), c);
        assert(s.push(c).drop_first() == s.drop_first().push(c));
        assert(s.push(c)[0] == s[0]);
    }
}

proof fn lemma_fitting(s: Seq<char>, limit: nat, n: int)
    requires
        0 <= n <= s.len(),
        encode_utf8(s.take(n)).len() <= limit,
        n < s.len() ==> encode_utf8(s.take(n + 1)).len() > limit,
    ensures
        fitting(s, limit) == s.take(n),
    decreases s.len(),
{
    if n == s.len() {
        assert(s.take(n) == s);
    } else {
        lemma_prefix_shorter(s, n + 1);
        let front = s.drop_last();
        assert(front.take(n) == s.take(n));
        if n < front.len() {
            assert(front.take(n + 1) == s.take(n + 1));
        }
        lemma_fitting(front, limit, n);
    }
}

proof fn lemma_prefix_shorter(s: Seq<char>, n: int)
    requires
        0 <= n <= s.len(),
    ensures
        encode_utf8(s.take(n)).len() <= encode_utf8(s).len(),
    decreases s.len(),
{
    if n == s.len() {
        assert(s.take(n) == s);
    } else {
        let front = s.drop_last();
        lemma_prefix_shorter(front, n);
        lemma_encoding_grows(front, s.last());
        assert(front.push(s.last()) == s);
        assert(front.take(n) == s.take(n));
    }
}

fn width(c: char) -> (r: usize)
    ensures
        r == encode_scalar(c as u32).len(),
        1 <= r <= 4,
{
    proof {
        char_is_scalar(c);
    }
    let v: u32 = c as u32;
    if v <= 0x7f {
        1
    } else if v <= 0x7ff {
        2
    } else if v <= 0xffff {
        3
    } else {
        4
    }
}

/// The longest beginning of a text that takes at most `limit` bytes.
pub fn fit(s: &str, limit: usize) -> (r: String)
    ensures
        r@ == fitting(s@, limit as nat),
{
    let x = chars_of(s);
    let mut used: usize = 0;
    let mut i: usize = 0;
    assert(x@.take(0) == Seq::<char>::empty());
    while i < x.len()
        invariant
            i <= x@.len(),
            x@ == s@,
            used <= limit,
            used == encode_utf8(x@.take(i as int)).len(),
        decreases x@.len() - i,
    {
        let w = width(x[i]);
        proof {
            assert(x@.take(i + 1) == x@.take(i as int).push(x@[i as int]));
            lemma_encoding_grows(x@.take(i as int), x@[i as int]);
        }
        if w > limit - used {
            proof {
                lemma_fitting(x@, limit as nat, i as int);
            }
            let r = string_of(slice_subrange(x.as_slice(), 0, i));
            assert(r@ == x@.take(i as int));
            return r;
        }
        used = used + w;
        i = i + 1;
    }
    proof {
        lemma_fitting(x@, limit as nat, i as int);
        assert(x@.take(i as int) == x@);
    }
    string_of(x.as_slice())
}

/// The number of bytes that a text takes.
pub fn byte_length(s: &str) -> (r: usize)
    ensures
        r == encode_utf8(s@).len(),
{
    s.as_bytes().len()
}

/// What stands for a result that is too long: its beginning, and where the whole is.
pub open spec fn shortened(result: Seq<char>, saved: Option<Seq<char>>) -> Seq<char> {
    fitting(result, MAX_RESULT_BYTES as nat) + match saved {
        Some(path) => "\n[... output truncated at 8000 bytes. Full content saved to "@ + path
            + " — use fs_read to access it.]"@,
        None => "\n[... truncated at 8000 bytes]"@,
    }
}

/// What stands for a result that is too long: its beginning, and where the whole is.
pub fn shorten(result: &str, saved: Option<&str>) -> (r: String)
    ensures
        r@ == shortened(result@, crate::json::opt_text(saved)),
{
    let mut out = fit(result, MAX_RESULT_BYTES);
    let note = match saved {
        Some(path) => {
            let mut note = cat(
                "\n[... output truncated at 8000 bytes. Full content saved to ",
                path,
            );
            note.append(" — use fs_read to access it.]");
            note
        },
        None => "\n[... truncated at 8000 bytes]".to_string(),
    };
    out.append(note.as_str());
    out
}

/// The name of the file that keeps a result in full: by process and time.
pub fn spill_file_name(pid: u32, nanos: u128) -> (r: String)
    ensures
        r@ == "kaku_tool_"@ + decimal(pid as nat) + "_"@ + decimal(nanos as nat) + ".txt"@,
{
    let mut out = cat("kaku_tool_", decimal_text(pid as u64).as_str());
    out.append("_");
    push_decimal(&mut out, nanos);
    out.append(".txt");
    out
}

// ---- Listings ----------------------------------------------------------------------------------

/// The name of a directory entry as it is listed: directories end with a slash.
pub open spec fn entry_label(name: Seq<char>, directory: bool) -> Seq<char> {
    if directory {
        name + "/"@
    } else {
        name
    }
}

/// The contents of a list of directory entries.
pub open spec fn entry_views(list: Seq<(String, bool)>) -> Seq<(Seq<char>, bool)> {
    Seq::new(list.len(), |i: int| (list[i].0@, list[i].1))
}

/// The entries of a directory as they are listed.
pub open spec fn entry_labels(list: Seq<(Seq<char>, bool)>) -> Seq<Seq<char>> {
    Seq::new(list.len(), |i: int| entry_label(list[i].0, list[i].1))
}

/// A listing of directory entries: one a line, in order.
pub open spec fn listed(list: Seq<(Seq<char>, bool)>) -> Seq<char> {
    joined(in_order(entry_labels(list)), "\n"@)
}

/// A listing of directory entries: one a line, in order; directories end with a slash.
pub fn listing(list: &[(String, bool)]) -> (r: String)
    ensures
        r@ == listed(entry_views(list@)),
{
    let mut labels: Vec<String> = Vec::new();
    let ghost all = entry_labels(entry_views(list@));
    let mut i: usize = 0;
    assert(texts(labels@) == all.take(0));
    while i < list.len()
        invariant
            i <= list@.len(),
            all == entry_labels(entry_views(list@)),
            texts(labels@) == all.take(i as int),
        decreases list@.len() - i,
    {
        let label = if list[i].1 {
            cat(list[i].0.as_str(), "/")
        } else {
            list[i].0.clone()
        };
        let ghost before = texts(labels@);
        labels.push(label);
        assert(texts(labels@) == before.push(label@));
        assert(all.take(i + 1) == all.take(i as int).push(all[i as int]));
        i = i + 1;
    }
    assert(all.take(i as int) == all);
    let sorted = sort(labels.as_slice());
    join(sorted.as_slice(), "\n")
}

// ---- Commands ----------------------------------------------------------------------------------

/// What a finished process left.
#[derive(Debug, PartialEq)]
pub struct ProcessOutput {
    pub stdout: Vec<u8>,
    pub stderr: Vec<u8>,
    pub success: bool,
    /// The exit code; none where a signal ended the process.
    pub code: Option<i32>,
}

/// What a finished process left.
pub struct OutputView {
    pub stdout: Seq<u8>,
    pub stderr: Seq<u8>,
    pub success: bool,
    pub code: Option<i32>,
}

impl View for ProcessOutput {
    type V = OutputView;

    open spec fn view(&self) -> OutputView {
        OutputView {
            stdout: self.stdout@,
            stderr: self.stderr@,
            success: self.success,
            code: self.code,
        }
    }
}

/// What begins the line that tells where a command left off.
pub const CWD_MARK: &'static str = "__KAKU_CWD__:";

/// A command followed by what tells where it left off, on a line of its own; its exit code stays
/// what it was. A line break ends whatever the command wrote last.
pub open spec fn tracked_script(command: Seq<char>) -> Seq<char> {
    command
        + "\n__kaku_rc=$?; printf '\\n__KAKU_CWD__:%s\\n' \"$(pwd)\"; exit $__kaku_rc"@
}

/// A command followed by what tells where it left off; its exit code stays what it was.
pub fn track_script(command: &str) -> (r: String)
    ensures
        r@ == tracked_script(command@),
{
    cat(command, "\n__kaku_rc=$?; printf '\\n__KAKU_CWD__:%s\\n' \"$(pwd)\"; exit $__kaku_rc")
}

/// Position of the last line that tells where a command left off; -1 when there is none.
pub open spec fn mark_position(list: Seq<Seq<char>>) -> int
    decreases list.len(),
{
    if list.len() == 0 {
        -1
    } else if CWD_MARK@.is_prefix_of(list.last()) {
        list.len() - 1
    } else {
        mark_position(list.drop_last())
    }
}

/// Where a command left off, as its output tells: nothing where it does not.
pub open spec fn told_directory(stdout: Seq<char>) -> Seq<char> {
    let p = mark_position(lines(stdout));
    if p >= 0 {
        trimmed(lines(stdout)[p].skip(CWD_MARK@.len() as int))
    } else {
        Seq::empty()
    }
}

/// The working directory after a command.
pub open spec fn directory_after(cwd: Seq<char>, stdout: Seq<char>) -> Seq<char> {
    if told_directory(stdout).len() > 0 {
        told_directory(stdout)
    } else {
        cwd
    }
}

/// The output of a command without the line that tells where it left off and without the line break
/// before it. Where no line tells, the output itself, line by line; a line break at the end stays.
pub open spec fn visible_output(stdout: Seq<char>) -> Seq<char> {
    let list = lines(stdout);
    let p = mark_position(list);
    if p >= 0 {
        let after = joined(list.skip(p + 1), "\n"@);
        joined(list.take(p), "\n"@) + if p + 1 < list.len() && stdout.last() == '\n' {
            after.push('\n')
        } else {
            after
        }
    } else {
        let out = joined(list, "\n"@);
        if stdout.len() > 0 && stdout.last() == '\n' && !(out.len() > 0 && out.last() == '\n') {
            out.push('\n')
        } else {
            out
        }
    }
}

/// The code that is told of a process; -1 where a signal ended it.
pub open spec fn told_code(code: Option<i32>) -> int {
    match code {
        Some(c) => c as int,
        None => -1,
    }
}

/// What is reported of a command: its output, what it wrote to the error stream, if anything, and
/// its exit code where it failed.
pub open spec fn command_text(
    stdout: Seq<char>,
    stderr: Option<Seq<char>>,
    success: bool,
    code: Option<i32>,
) -> Seq<char> {
    let out = visible_output(stdout);
    let with_errors = match stderr {
        None => out,
        Some(errors) => if out.len() == 0 {
            "[stderr] "@ + errors
        } else {
            out + "\n[stderr] "@ + errors
        },
    };
    let whole = if success {
        with_errors
    } else {
        with_errors + "\n[exit "@ + decimal_int(told_code(code)) + "]"@
    };
    if blank(whole) {
        "(no output)"@
    } else {
        whole
    }
}

/// What is reported of a command that left the given output.
pub open spec fn command_report(output: OutputView) -> Seq<char> {
    command_text(
        lossy_text(output.stdout),
        if output.stderr.len() == 0 {
            None
        } else {
            Some(lossy_text(output.stderr))
        },
        output.success,
        output.code,
    )
}

fn find_mark(list: &[String]) -> (r: Option<usize>)
    ensures
        match r {
            Some(p) => p < list@.len() && mark_position(texts(list@)) == p,
            None => mark_position(texts(list@)) == -1,
        },
{
    let ghost all = texts(list@);
    let mut i: usize = list.len();
    assert(all.take(i as int) == all);
    while i > 0
        invariant
            i <= list@.len(),
            all == texts(list@),
            mark_position(all.take(i as int)) == mark_position(all),
        decreases i,
    {
        assert(all.take(i as int).last() == list@[i - 1]@);
        assert(all.take(i as int).drop_last() == all.take(i - 1));
        if starts_with(list[i - 1].as_str(), CWD_MARK) {
            return Some(i - 1);
        }
        i = i - 1;
    }
    None
}

/// Reports on a command by what it wrote; the working directory follows it.
pub fn report_texts(
    stdout: &str,
    stderr: Option<&str>,
    success: bool,
    code: Option<i32>,
    cwd: &mut String,
) -> (r: String)
    ensures
        r@ == command_text(stdout@, crate::json::opt_text(stderr), success, code),
        final(cwd)@ == directory_after(old(cwd)@, stdout@),
{
    let list = split_lines(stdout);
    let ghost all = texts(list@);
    let mut out = match find_mark(list.as_slice()) {
        Some(p) => {
            proof {
                lemma_mark(all);
            }
            let dir = trim(skip_chars(list[p].as_str(), CWD_MARK.unicode_len()).as_str());
            if !dir.as_str().is_empty() {
                *cwd = dir;
            }
            let n = list.len();
            let before = slice_subrange(list.as_slice(), 0, p);
            let after = slice_subrange(list.as_slice(), p + 1, n);
            assert(texts(before@) == all.take(p as int));
            assert(texts(after@) == all.skip(p + 1));
            let mut out = join(before, "\n");
            out.append(join(after, "\n").as_str());
            if p + 1 < n && ends_with_char(stdout, '\n') {
                out.push('\n');
            }
            out
        },
        None => {
            let mut out = join(list.as_slice(), "\n");
            if ends_with_char(stdout, '\n') && !ends_with_char(out.as_str(), '\n') {
                out.push('\n');
            }
            out
        },
    };
    assert(out@ == visible_output(stdout@));
    if let Some(errors) = stderr {
        if out.as_str().is_empty() {
            out.append("[stderr] ");
        } else {
            out.append("\n[stderr] ");
        }
        out.append(errors);
    }
    if !success {
        let told: i32 = match code {
            Some(c) => c,
            None => -1,
        };
        out.append("\n[exit ");
        out.append(signed_text(told).as_str());
        out.append("]");
    }
    if is_blank(out.as_str()) {
        "(no output)".to_string()
    } else {
        out
    }
}

/// Reports on a command; the working directory follows it.
pub fn report_command(output: &ProcessOutput, cwd: &mut String) -> (r: String)
    ensures
        r@ == command_report(output@),
        final(cwd)@ == directory_after(old(cwd)@, lossy_text(output@.stdout)),
{
    let stdout = text_of_bytes(output.stdout.as_slice());
    let stderr = text_of_bytes(output.stderr.as_slice());
    let errors = if output.stderr.len() == 0 {
        None
    } else {
        Some(stderr.as_str())
    };
    report_texts(stdout.as_str(), errors, output.success, output.code, cwd)
}

proof fn lemma_mark(list: Seq<Seq<char>>)
    ensures
        -1 <= mark_position(list) < list.len(),
        mark_position(list) >= 0 ==> CWD_MARK@.is_prefix_of(list[mark_position(list)]),
    decreases list.len(),
{
    if list.len() > 0 {
        lemma_mark(list.drop_last());
    }
}

// ---- Searches ----------------------------------------------------------------------------------

/// The arguments with an option and its value at the end, where there is a value.
pub open spec fn with_option(
    args: Seq<Seq<char>>,
    flag: Seq<char>,
    value: Option<Seq<char>>,
) -> Seq<Seq<char>> {
    match value {
        Some(v) => args.push(flag).push(v),
        None => args,
    }
}

/// The arguments with a flag at the end, where it is wanted.
pub open spec fn with_flag(args: Seq<Seq<char>>, flag: Seq<char>, wanted: bool) -> Seq<Seq<char>> {
    if wanted {
        args.push(flag)
    } else {
        args
    }
}

/// The arguments of a search with ripgrep.
pub open spec fn ripgrep_args(
    pattern: Seq<char>,
    path: Seq<char>,
    glob: Option<Seq<char>>,
    context_lines: u64,
    case_insensitive: bool,
) -> Seq<Seq<char>> {
    with_option(
        with_flag(
            seq![
                "--line-number"@,
                "--no-heading"@,
                "--color=never"@,
                "--context="@ + decimal(context_lines as nat),
            ],
            "--ignore-case"@,
            case_insensitive,
        ),
        "--glob"@,
        glob,
    ).push(pattern).push(path)
}

/// The arguments of a search with grep.
pub open spec fn grep_args(
    pattern: Seq<char>,
    path: Seq<char>,
    glob: Option<Seq<char>>,
    context_lines: u64,
    case_insensitive: bool,
) -> Seq<Seq<char>> {
    with_option(
        with_flag(
            seq!["-rn"@, "-C"@ + decimal(context_lines as nat), "--color=never"@],
            "-i"@,
            case_insensitive,
        ),
        "--include"@,
        glob,
    ).push(pattern).push(path)
}

fn push_text(list: &mut Vec<String>, text: &str)
    ensures
        texts(final(list)@) == texts(old(list)@).push(text@),
{
    list.push(text.to_string());
    assert(texts(list@) == texts(old(list)@).push(text@));
}

/// The arguments of a search: for ripgrep, or else for grep.
pub fn search_args(
    ripgrep: bool,
    pattern: &str,
    path: &str,
    glob: Option<&str>,
    context_lines: u64,
    case_insensitive: bool,
) -> (r: Vec<String>)
    ensures
        texts(r@) == if ripgrep {
            ripgrep_args(
                pattern@,
                path@,
                crate::json::opt_text(glob),
                context_lines,
                case_insensitive,
            )
        } else {
            grep_args(
                pattern@,
                path@,
                crate::json::opt_text(glob),
                context_lines,
                case_insensitive,
            )
        },
{
    let mut args: Vec<String> = Vec::new();
    let number = decimal_text(context_lines);
    assert(texts(args@) == Seq::<Seq<char>>::empty());
    if ripgrep {
        push_text(&mut args, "--line-number");
        push_text(&mut args, "--no-heading");
        push_text(&mut args, "--color=never");
        push_text(&mut args, cat("--context=", number.as_str()).as_str());
        assert(texts(args@) == seq![
            "--line-number"@,
            "--no-heading"@,
            "--color=never"@,
            "--context="@ + decimal(context_lines as nat),
        ]);
        if case_insensitive {
            push_text(&mut args, "--ignore-case");
        }
        if let Some(g) = glob {
            push_text(&mut args, "--glob");
            push_text(&mut args, g);
        }
    } else {
        push_text(&mut args, "-rn");
        push_text(&mut args, cat("-C", number.as_str()).as_str());
        push_text(&mut args, "--color=never");
        assert(texts(args@) == seq![
            "-rn"@,
            "-C"@ + decimal(context_lines as nat),
            "--color=never"@,
        ]);
        if case_insensitive {
            push_text(&mut args, "-i");
        }
        if let Some(g) = glob {
            push_text(&mut args, "--include");
            push_text(&mut args, g);
        }
    }
    push_text(&mut args, pattern);
    push_text(&mut args, path);
    args
}

/// A number begins at `start` and ends before `end`, with the sign `c` on both sides; at the
/// beginning of the line no sign stands before it.
pub open spec fn number_at(line: Seq<char>, start: int, end: int, c: char) -> bool {
    &&& 0 <= start < end < line.len()
    &&& line[end] == c
    &&& start > 0 ==> line[start - 1] == c
    &&& forall|k: int| start <= k < end ==> is_digit(#[trigger] line[k])
}

/// A number between two signs `c` begins at `start`.
pub open spec fn begins_number(line: Seq<char>, start: int, c: char) -> bool {
    exists|end: int| #[trigger] number_at(line, start, end, c)
}

/// What stands before the number that begins at `start`, and the sign before it: the file.
pub open spec fn file_before(line: Seq<char>, start: int) -> Seq<char> {
    line.take(if start > 0 {
        start - 1
    } else {
        0
    })
}

/// A line tells a match in the file that the line names before the number at `start`.
pub open spec fn file_matches(line: Seq<char>, start: int, all: Seq<Seq<char>>) -> bool {
    exists|k: int|
        0 <= k < all.len() && begins_number(#[trigger] all[k], start, ':') && file_before(
            all[k],
            start,
        ) == file_before(line, start)
}

/// A line that stands around a match: its number stands between dashes, before any number between
/// colons, and a match is told of the same file. The name of a file may hold a number between
/// dashes as well; then the file before that number has no match.
pub open spec fn is_context(line: Seq<char>, all: Seq<Seq<char>>) -> bool {
    exists|start: int|
        {
            &&& #[trigger] begins_number(line, start, '-')
            &&& file_matches(line, start, all)
            &&& forall|p: int| #[trigger] begins_number(line, p, ':') ==> start < p
        }
}

/// A line of a search that tells a match: its number stands between colons, or before the first one
/// where no file is named. `all` are the lines of the search.
pub open spec fn is_result(line: Seq<char>, all: Seq<Seq<char>>) -> bool {
    (exists|start: int| #[trigger] begins_number(line, start, ':')) && !is_context(line, all)
}

fn does_begin_number(x: &Vec<char>, start: usize, c: char) -> (r: bool)
    requires
        !is_digit(c),
    ensures
        r == begins_number(x@, start as int, c),
{
    let n = x.len();
    if start >= n || (start > 0 && x[start - 1] != c) {
        return false;
    }
    let mut end: usize = start;
    while end < n && x[end] >= '0' && x[end] <= '9'
        invariant
            start <= end <= n,
            n == x@.len(),
            forall|k: int| start <= k < end ==> is_digit(#[trigger] x@[k]),
        decreases n - end,
    {
        end = end + 1;
    }
    proof {
        if end > start && end < n && x@[end as int] == c {
            assert(number_at(x@, start as int, end as int, c));
        } else {
            assert forall|e: int| !#[trigger] number_at(x@, start as int, e, c) by {
                if number_at(x@, start as int, e, c) {
                    if e < end {
                        assert(is_digit(x@[e]));
                    } else if end < e {
                        assert(is_digit(x@[end as int]));
                    }
                }
            }
        }
    }
    end > start && end < n && x[end] == c
}

fn same_beginning(x: &Vec<char>, y: &Vec<char>, n: usize) -> (r: bool)
    requires
        n <= x@.len(),
        n <= y@.len(),
    ensures
        r == (x@.take(n as int) == y@.take(n as int)),
{
    let mut i: usize = 0;
    while i < n
        invariant
            i <= n,
            n <= x@.len(),
            n <= y@.len(),
            forall|k: int| 0 <= k < i ==> x@[k] == y@[k],
        decreases n - i,
    {
        if x[i] != y[i] {
            assert(x@.take(n as int)[i as int] != y@.take(n as int)[i as int]);
            return false;
        }
        i = i + 1;
    }
    assert(x@.take(n as int) == y@.take(n as int));
    true
}

/// The lines as sequences of characters.
spec fn cell_views(cells: Seq<Vec<char>>) -> Seq<Seq<char>> {
    Seq::new(cells.len(), |i: int| cells[i]@)
}

fn cells_of(list: &[String]) -> (r: Vec<Vec<char>>)
    ensures
        cell_views(r@) == texts(list@),
{
    let mut cells: Vec<Vec<char>> = Vec::new();
    let mut i: usize = 0;
    while i < list.len()
        invariant
            i <= list@.len(),
            cells@.len() == i,
            forall|k: int| 0 <= k < i ==> (#[trigger] cells@[k])@ == list@[k]@,
        decreases list@.len() - i,
    {
        cells.push(chars_of(list[i].as_str()));
        i = i + 1;
    }
    assert(cell_views(cells@) == texts(list@));
    cells
}

fn does_file_match(x: &Vec<char>, start: usize, cells: &Vec<Vec<char>>) -> (r: bool)
    requires
        start <= x@.len(),
    ensures
        r == file_matches(x@, start as int, cell_views(cells@)),
{
    let ghost all = cell_views(cells@);
    let n: usize = if start > 0 {
        start - 1
    } else {
        0
    };
    let mut k: usize = 0;
    while k < cells.len()
        invariant
            k <= cells@.len(),
            all == cell_views(cells@),
            start <= x@.len(),
            n == (if start > 0 {
                start - 1
            } else {
                0
            }),
            forall|i: int|
                0 <= i < k ==> !(begins_number(#[trigger] all[i], start as int, ':') && file_before(
                    all[i],
                    start as int,
                ) == file_before(x@, start as int)),
        decreases cells@.len() - k,
    {
        let y = &cells[k];
        assert(all[k as int] == y@);
        if does_begin_number(y, start, ':') && same_beginning(y, x, n) {
            return true;
        }
        k = k + 1;
    }
    false
}

fn tells_match(x: &Vec<char>, cells: &Vec<Vec<char>>) -> (r: bool)
    ensures
        r == is_result(x@, cell_views(cells@)),
{
    let n = x.len();
    let ghost all = cell_views(cells@);
    let mut colon: usize = 0;
    while colon < n && !does_begin_number(x, colon, ':')
        invariant
            colon <= n,
            n == x@.len(),
            forall|p: int| 0 <= p < colon ==> !#[trigger] begins_number(x@, p, ':'),
        decreases n - colon,
    {
        colon = colon + 1;
    }
    if colon == n {
        return false;
    }
    let mut start: usize = 0;
    while start < colon
        invariant
            start <= colon < n,
            n == x@.len(),
            all == cell_views(cells@),
            begins_number(x@, colon as int, ':'),
            forall|p: int| 0 <= p < colon ==> !#[trigger] begins_number(x@, p, ':'),
            forall|p: int|
                0 <= p < start ==> !(#[trigger] begins_number(x@, p, '-') && file_matches(
                    x@,
                    p,
                    all,
                )),
        decreases colon - start,
    {
        if does_begin_number(x, start, '-') && does_file_match(x, start, cells) {
            assert forall|p: int| #[trigger] begins_number(x@, p, ':') implies start < p by {
                if p < colon {
                    assert(0 <= p);
                }
            }
            assert(is_context(x@, all));
            return false;
        }
        start = start + 1;
    }
    proof {
        if is_context(x@, all) {
            let p = choose|p: int|
                {
                    &&& #[trigger] begins_number(x@, p, '-')
                    &&& file_matches(x@, p, all)
                    &&& forall|q: int| #[trigger] begins_number(x@, q, ':') ==> p < q
                };
            assert(p < colon);
        }
    }
    true
}

/// What stands for the lines of a search that are not told.
pub open spec fn cut_note(max_results: u64) -> Seq<char> {
    "\n[... truncated at "@ + decimal(max_results as nat) + " results]"@
}

/// The lines of a search until `left` matches were told, context lines and separators not counted;
/// a note stands for the rest. `all` are the lines of the search.
pub open spec fn capped(
    list: Seq<Seq<char>>,
    all: Seq<Seq<char>>,
    left: u64,
    max_results: u64,
) -> Seq<Seq<char>>
    decreases list.len(),
{
    if list.len() == 0 {
        Seq::empty()
    } else if left == 0 {
        seq![cut_note(max_results)]
    } else {
        seq![list[0]] + capped(
            list.skip(1),
            all,
            if is_result(list[0], all) {
                (left - 1) as u64
            } else {
                left
            },
            max_results,
        )
    }
}

/// What is reported of a search by what it wrote.
pub open spec fn search_text(stdout: Seq<char>, stderr: Seq<char>, max_results: u64) -> Seq<char> {
    if !blank(stdout) {
        joined(capped(lines(stdout), lines(stdout), max_results, max_results), "\n"@)
    } else if !blank(stderr) {
        "No matches. ("@ + clipped(trimmed(stderr), 200) + ")"@
    } else {
        "No matches found."@
    }
}

/// What is reported of a search that left the given output.
pub open spec fn search_report(output: OutputView, max_results: u64) -> Seq<char> {
    search_text(lossy_text(output.stdout), lossy_text(output.stderr), max_results)
}

fn cap(list: &[String], max_results: u64) -> (r: Vec<String>)
    ensures
        texts(r@) == capped(texts(list@), texts(list@), max_results, max_results),
{
    let mut out: Vec<String> = Vec::new();
    let mut left: u64 = max_results;
    let cells = cells_of(list);
    let mut i: usize = 0;
    let ghost all = texts(list@);
    assert(all.skip(0) == all);
    assert(texts(out@) + capped(all, all, left, max_results) == capped(all, all, left, max_results));
    while i < list.len()
        invariant
            i <= list@.len(),
            all == texts(list@),
            cell_views(cells@) == all,
            texts(out@) + capped(all.skip(i as int), all, left, max_results) == capped(
                all,
                all,
                max_results,
                max_results,
            ),
        decreases list@.len() - i,
    {
        let ghost rest = all.skip(i as int);
        let ghost before = texts(out@);
        assert(rest[0] == list@[i as int]@);
        assert(rest.skip(1) == all.skip(i + 1));
        if left == 0 {
            let mut note = cat("\n[... truncated at ", decimal_text(max_results).as_str());
            note.append(" results]");
            push_text(&mut out, note.as_str());
            assert(texts(out@) == before + seq![cut_note(max_results)]);
            return out;
        }
        assert(cells@.len() == list@.len()) by {
            assert(cell_views(cells@).len() == all.len());
        }
        assert(cell_views(cells@)[i as int] == all[i as int]);
        if tells_match(&cells[i], &cells) {
            left = left - 1;
        }
        push_text(&mut out, list[i].as_str());
        assert(texts(out@) + capped(rest.skip(1), all, left, max_results) == before + (seq![
            rest[0],
        ] + capped(rest.skip(1), all, left, max_results)));
        i = i + 1;
    }
    assert(all.skip(i as int).len() == 0);
    assert(texts(out@) == texts(out@) + Seq::<Seq<char>>::empty());
    out
}

/// Reports on a search by what it wrote: at most `max_results` matches, with the lines around them.
pub fn report_found(stdout: &str, stderr: &str, max_results: u64) -> (r: String)
    ensures
        r@ == search_text(stdout@, stderr@, max_results),
{
    if !is_blank(stdout) {
        let list = cap(split_lines(stdout).as_slice(), max_results);
        join(list.as_slice(), "\n")
    } else if !is_blank(stderr) {
        let mut out = cat("No matches. (", clip(trim(stderr).as_str(), 200).as_str());
        out.append(")");
        out
    } else {
        "No matches found.".to_string()
    }
}

/// Reports on a search.
pub fn report_search(output: &ProcessOutput, max_results: u64) -> (r: String)
    ensures
        r@ == search_report(output@, max_results),
{
    let stdout = text_of_bytes(output.stdout.as_slice());
    let stderr = text_of_bytes(output.stderr.as_slice());
    report_found(stdout.as_str(), stderr.as_str(), max_results)
}

// ---- Background processes ----------------------------------------------------------------------

/// What is reported of a background process: whether it runs, its exit code once it has ended, and
/// its output so far.
pub open spec fn process_report(pid: u32, ended: Option<Option<i32>>, output: Seq<char>) -> Seq<
    char,
> {
    let head = "pid "@ + decimal(pid as nat) + match ended {
        Some(code) => ": done [exit "@ + decimal_int(told_code(code)) + "]"@,
        None => ": running "@,
    };
    if output.len() == 0 {
        head
    } else {
        head + "\n"@ + output
    }
}

/// What is reported of a background process.
pub fn report_process(pid: u32, ended: Option<Option<i32>>, output: &str) -> (r: String)
    ensures
        r@ == process_report(pid, ended, output@),
{
    let mut out = cat("pid ", decimal_text(pid as u64).as_str());
    match ended {
        Some(code) => {
            let c: i32 = match code {
                Some(c) => c,
                None => -1,
            };
            let mut part = cat(": done [exit ", signed_text(c).as_str());
            part.append("]");
            out.append(part.as_str());
        },
        None => out.append(": running "),
    }
    if !output.is_empty() {
        out.append("\n");
        out.append(output);
    }
    out
}

// ---- Laws --------------------------------------------------------------------------------------

/// What stands for a result that is too long begins with as much of the result as fits into the
/// limit, and one more character of it would not fit.
pub proof fn law_shortened_is_a_beginning(result: Seq<char>, saved: Option<Seq<char>>)
    requires
        encode_utf8(result).len() > MAX_RESULT_BYTES,
    ensures
        fitting(result, MAX_RESULT_BYTES as nat).is_prefix_of(result),
        fitting(result, MAX_RESULT_BYTES as nat).is_prefix_of(shortened(result, saved)),
        encode_utf8(fitting(result, MAX_RESULT_BYTES as nat)).len() <= MAX_RESULT_BYTES,
        fitting(result, MAX_RESULT_BYTES as nat).len() < result.len(),
        encode_utf8(
            result.take(fitting(result, MAX_RESULT_BYTES as nat).len() as int + 1),
        ).len() > MAX_RESULT_BYTES,
{
    lemma_fitting_is_longest(result, MAX_RESULT_BYTES as nat);
    let n = fitting(result, MAX_RESULT_BYTES as nat).len();
    assert(result.take(n as int) == result.subrange(0, n as int));
    assert(shortened(result, saved).subrange(0, n as int) == result.take(n as int));
    if n == result.len() {
        assert(result.take(n as int) == result);
    }
}

proof fn lemma_fitting_is_longest(s: Seq<char>, limit: nat)
    ensures
        fitting(s, limit).len() <= s.len(),
        fitting(s, limit) == s.take(fitting(s, limit).len() as int),
        encode_utf8(fitting(s, limit)).len() <= limit,
        fitting(s, limit).len() < s.len() ==> encode_utf8(
            s.take(fitting(s, limit).len() as int + 1),
        ).len() > limit,
    decreases s.len(),
{
    if s.len() == 0 || encode_utf8(s).len() <= limit {
        assert(s.take(s.len() as int) == s);
    } else {
        let front = s.drop_last();
        lemma_fitting_is_longest(front, limit);
        let n = fitting(front, limit).len() as int;
        assert(front.take(n) == s.take(n));
        if n < front.len() {
            assert(front.take(n + 1) == s.take(n + 1));
        } else {
            assert(s.take(n + 1) == s);
        }
    }
}

/// The number of lines that tell a match, among `all` lines of the search.
pub open spec fn results_in(list: Seq<Seq<char>>, all: Seq<Seq<char>>) -> nat
    decreases list.len(),
{
    if list.len() == 0 {
        0
    } else {
        results_in(list.skip(1), all) + if is_result(list[0], all) {
            1nat
        } else {
            0nat
        }
    }
}

/// The first `k` lines are the shortest beginning with that many matches: the last of them tells
/// one.
pub open spec fn shortest_with(
    list: Seq<Seq<char>>,
    all: Seq<Seq<char>>,
    results: nat,
    k: int,
) -> bool {
    &&& 0 <= k <= list.len()
    &&& results_in(list.take(k), all) == results
    &&& k > 0 ==> is_result(list[k - 1], all)
}

/// A search tells every line when there are fewer matches than the maximum. Otherwise it tells the
/// shortest beginning with as many matches as the maximum, and a note where lines are left.
pub proof fn law_search_is_capped(
    list: Seq<Seq<char>>,
    all: Seq<Seq<char>>,
    left: u64,
    max_results: u64,
)
    ensures
        results_in(list, all) < left ==> capped(list, all, left, max_results) == list,
        results_in(list, all) >= left ==> exists|k: int| #[trigger]
            shortest_with(list, all, left as nat, k) && capped(list, all, left, max_results) == if k
                == list.len() {
                list
            } else {
                list.take(k).push(cut_note(max_results))
            },
    decreases list.len(),
{
    let whole = capped(list, all, left, max_results);
    if list.len() == 0 || left == 0 {
        assert(list.take(0) == Seq::<Seq<char>>::empty());
        if left == 0 {
            assert(shortest_with(list, all, 0, 0));
            if list.len() == 0 {
                assert(whole == list);
            } else {
                assert(whole == list.take(0).push(cut_note(max_results)));
            }
        }
    } else {
        let rest: u64 = if is_result(list[0], all) {
            (left - 1) as u64
        } else {
            left
        };
        let others = list.skip(1);
        law_search_is_capped(others, all, rest, max_results);
        assert(seq![list[0]] + others == list);
        if results_in(list, all) >= left {
            let n = choose|n: int| #[trigger]
                shortest_with(others, all, rest as nat, n) && capped(others, all, rest, max_results) == if n
                    == others.len() {
                    others
                } else {
                    others.take(n).push(cut_note(max_results))
                };
            let k = n + 1;
            assert(list.take(k).skip(1) == others.take(n));
            assert(list.take(k)[0] == list[0]);
            if n > 0 {
                assert(others[n - 1] == list[k - 1]);
            } else {
                assert(others.take(0).len() == 0);
            }
            assert(shortest_with(list, all, left as nat, k));
            if n < others.len() {
                assert(whole == list.take(k).push(cut_note(max_results)));
            }
        }
    }
}

/// A line of output: it neither holds a line break nor ends with a carriage return.
pub open spec fn is_line(s: Seq<char>) -> bool {
    !s.contains('\n') && (s.len() == 0 || s.last() != '\r')
}

/// The text of whole lines, each with its line break.
pub open spec fn whole_lines(list: Seq<Seq<char>>) -> Seq<char>
    decreases list.len(),
{
    if list.len() == 0 {
        Seq::empty()
    } else {
        whole_lines(list.drop_last()) + list.last().push('\n')
    }
}

proof fn lemma_first_line(line: Seq<char>, rest: Seq<char>)
    requires
        is_line(line),
    ensures
        lines(line.push('\n') + rest) == seq![line] + lines(rest),
{
    let s = line.push('\n') + rest;
    assert forall|i: int| 0 <= i < line.len() implies s[i] != '\n' by {
        assert(line.contains(line[i]));
    }
    crate::lines::lemma_position_at(s, '\n', line.len());
    assert(s.take(line.len() as int) == line);
    assert(s.skip(line.len() as int + 1) == rest);
}

proof fn lemma_lines_of_whole(list: Seq<Seq<char>>, rest: Seq<char>)
    requires
        forall|i: int| 0 <= i < list.len() ==> is_line(#[trigger] list[i]),
    ensures
        lines(whole_lines(list) + rest) == list + lines(rest),
    decreases list.len(),
{
    if list.len() == 0 {
        assert(whole_lines(list) + rest == rest);
        assert(list + lines(rest) == lines(rest));
    } else {
        let front = list.drop_last();
        let tail = list.last().push('\n') + rest;
        lemma_lines_of_whole(front, tail);
        lemma_first_line(list.last(), rest);
        assert(whole_lines(list) + rest == whole_lines(front) + tail);
        assert(front + (seq![list.last()] + lines(rest)) == list + lines(rest));
    }
}

proof fn lemma_whole_is_joined(list: Seq<Seq<char>>)
    requires
        list.len() > 0,
    ensures
        whole_lines(list) == joined(list, "\n"@).push('\n'),
    decreases list.len(),
{
    reveal_strlit("\n");
    assert("\n"@ == seq!['\n']);
    if list.len() == 1 {
        assert(whole_lines(list.drop_last()) == Seq::<char>::empty());
        assert(whole_lines(list) == list.last().push('\n'));
    } else {
        lemma_whole_is_joined(list.drop_last());
        assert(joined(list, "\n"@) == joined(list.drop_last(), "\n"@) + "\n"@ + list.last());
        assert(joined(list.drop_last(), "\n"@).push('\n') + list.last().push('\n') == joined(
            list,
            "\n"@,
        ).push('\n'));
    }
}

/// Text in which no line ends with a carriage return.
pub open spec fn plain_breaks(s: Seq<char>) -> bool {
    forall|i: int|
        0 <= i < s.len() && #[trigger] s[i] == '\r' ==> i + 1 < s.len() && s[i + 1] != '\n'
}

/// The pieces of a text between its line breaks.
pub open spec fn pieces(s: Seq<char>) -> Seq<Seq<char>>
    decreases s.len(),
{
    if position(s, '\n') < s.len() {
        seq![s.take(position(s, '\n') as int)] + pieces(s.skip(position(s, '\n') as int + 1))
    } else {
        seq![s]
    }
}

proof fn lemma_whole_from_first(first: Seq<char>, list: Seq<Seq<char>>)
    ensures
        whole_lines(seq![first] + list) == first.push('\n') + whole_lines(list),
    decreases list.len(),
{
    let all = seq![first] + list;
    if list.len() == 0 {
        assert(all.drop_last().len() == 0);
        assert(whole_lines(all.drop_last()) == Seq::<char>::empty());
        assert(whole_lines(all) == first.push('\n') + whole_lines(list));
    } else {
        lemma_whole_from_first(first, list.drop_last());
        assert(all.drop_last() == seq![first] + list.drop_last());
        assert(all.last() == list.last());
    }
}

proof fn lemma_pieces(s: Seq<char>)
    ensures
        pieces(s).len() > 0,
        whole_lines(pieces(s)) == s.push('\n'),
        plain_breaks(s) ==> forall|i: int|
            0 <= i < pieces(s).len() ==> is_line(#[trigger] pieces(s)[i]),
    decreases s.len(),
{
    lemma_position(s, '\n');
    let p = position(s, '\n') as int;
    if p < s.len() {
        let first = s.take(p);
        let rest = s.skip(p + 1);
        lemma_pieces(rest);
        lemma_whole_from_first(first, pieces(rest));
        assert(first.push('\n') + rest.push('\n') == s.push('\n'));
        if plain_breaks(s) {
            assert(plain_breaks(rest)) by {
                assert forall|i: int| 0 <= i < rest.len() && #[trigger] rest[i] == '\r' implies i + 1
                    < rest.len() && rest[i + 1] != '\n' by {
                    assert(s[i + p + 1] == '\r');
                }
            }
            assert(is_line(first)) by {
                if first.len() > 0 && first.last() == '\r' {
                    assert(s[p - 1] == '\r');
                }
            }
            assert forall|i: int| 0 <= i < pieces(s).len() implies is_line(
                #[trigger] pieces(s)[i],
            ) by {
                if i > 0 {
                    assert(pieces(s)[i] == pieces(rest)[i - 1]);
                }
            }
        }
    } else {
        lemma_whole_from_first(s, Seq::empty());
        assert(seq![s] + Seq::<Seq<char>>::empty() == seq![s]);
        assert(s.push('\n') + whole_lines(Seq::empty()) == s.push('\n'));
        if plain_breaks(s) {
            assert(is_line(s)) by {
                if s.len() > 0 && s.last() == '\r' {
                    assert(s[s.len() - 1] == '\r');
                }
            }
        }
    }
}

/// What tells where a command left off is read and taken away again: of any output, followed by a
/// line break, the mark and a directory, exactly that output is seen, with or without a line break
/// at its end, and the directory becomes the working directory. Lines that look like the mark are
/// kept.
pub proof fn law_mark_is_taken_away(output: Seq<char>, dir: Seq<char>, cwd: Seq<char>)
    requires
        plain_breaks(output),
        is_line(dir),
        dir.len() > 0,
        trimmed(dir) == dir,
    ensures
        visible_output(output.push('\n') + (CWD_MARK@ + dir).push('\n')) == output,
        directory_after(cwd, output.push('\n') + (CWD_MARK@ + dir).push('\n')) == dir,
{
    reveal_strlit("__KAKU_CWD__:");
    let last = CWD_MARK@ + dir;
    let list = pieces(output);
    lemma_pieces(output);
    let stdout = output.push('\n') + last.push('\n');
    assert(is_line(last)) by {
        assert(last.last() == dir.last());
        assert forall|i: int| 0 <= i < last.len() implies last[i] != '\n' by {
            if i >= CWD_MARK@.len() {
                assert(dir.contains(dir[i - CWD_MARK@.len()]));
            }
        }
    }
    lemma_lines_of_whole(list, last.push('\n'));
    lemma_first_line(last, Seq::empty());
    assert(last.push('\n') + Seq::<char>::empty() == last.push('\n'));
    assert(seq![last] + Seq::<Seq<char>>::empty() == seq![last]);
    let all = lines(stdout);
    assert(all == list.push(last));
    assert(CWD_MARK@ == last.subrange(0, CWD_MARK@.len() as int));
    assert(mark_position(all) == list.len());
    assert(last.skip(CWD_MARK@.len() as int) == dir);
    assert(all.take(list.len() as int) == list);
    assert(all.skip(list.len() as int + 1) == Seq::<Seq<char>>::empty());
    lemma_whole_is_joined(list);
    assert(joined(list, "\n"@) == output) by {
        assert(joined(list, "\n"@) == joined(list, "\n"@).push('\n').drop_last());
        assert(output == output.push('\n').drop_last());
    }
    assert(joined(list, "\n"@) + Seq::<char>::empty() == output);
}

/// The arguments of a search: what its lines look like, the context, whether case matters, the
/// files to look at, and at the end the pattern and the place, as they were given.
pub proof fn law_search_arguments(
    pattern: Seq<char>,
    path: Seq<char>,
    glob: Seq<char>,
    context_lines: u64,
)
    ensures
        ripgrep_args(pattern, path, None, context_lines, false) == seq![
                "--line-number"@,
                "--no-heading"@,
                "--color=never"@,
                "--context="@ + decimal(context_lines as nat),
                pattern,
                path,
            ],
        ripgrep_args(pattern, path, None, context_lines, true) == seq![
                "--line-number"@,
                "--no-heading"@,
                "--color=never"@,
                "--context="@ + decimal(context_lines as nat),
                "--ignore-case"@,
                pattern,
                path,
            ],
        ripgrep_args(pattern, path, Some(glob), context_lines, false) == seq![
                "--line-number"@,
                "--no-heading"@,
                "--color=never"@,
                "--context="@ + decimal(context_lines as nat),
                "--glob"@,
                glob,
                pattern,
                path,
            ],
        ripgrep_args(pattern, path, Some(glob), context_lines, true) == seq![
                "--line-number"@,
                "--no-heading"@,
                "--color=never"@,
                "--context="@ + decimal(context_lines as nat),
                "--ignore-case"@,
                "--glob"@,
                glob,
                pattern,
                path,
            ],
        grep_args(pattern, path, None, context_lines, false) == seq![
                "-rn"@,
                "-C"@ + decimal(context_lines as nat),
                "--color=never"@,
                pattern,
                path,
            ],
        grep_args(pattern, path, None, context_lines, true) == seq![
                "-rn"@,
                "-C"@ + decimal(context_lines as nat),
                "--color=never"@,
                "-i"@,
                pattern,
                path,
            ],
        grep_args(pattern, path, Some(glob), context_lines, false) == seq![
                "-rn"@,
                "-C"@ + decimal(context_lines as nat),
                "--color=never"@,
                "--include"@,
                glob,
                pattern,
                path,
            ],
        grep_args(pattern, path, Some(glob), context_lines, true) == seq![
                "-rn"@,
                "-C"@ + decimal(context_lines as nat),
                "--color=never"@,
                "-i"@,
                "--include"@,
                glob,
                pattern,
                path,
            ],
{
    assert(ripgrep_args(pattern, path, None, context_lines, false) =~= seq![
                "--line-number"@,
                "--no-heading"@,
                "--color=never"@,
                "--context="@ + decimal(context_lines as nat),
                pattern,
                path,
            ]);
    assert(ripgrep_args(pattern, path, None, context_lines, true) =~= seq![
                "--line-number"@,
                "--no-heading"@,
                "--color=never"@,
                "--context="@ + decimal(context_lines as nat),
                "--ignore-case"@,
                pattern,
                path,
            ]);
    assert(ripgrep_args(pattern, path, Some(glob), context_lines, false) =~= seq![
                "--line-number"@,
                "--no-heading"@,
                "--color=never"@,
                "--context="@ + decimal(context_lines as nat),
                "--glob"@,
                glob,
                pattern,
                path,
            ]);
    assert(ripgrep_args(pattern, path, Some(glob), context_lines, true) =~= seq![
                "--line-number"@,
                "--no-heading"@,
                "--color=never"@,
                "--context="@ + decimal(context_lines as nat),
                "--ignore-case"@,
                "--glob"@,
                glob,
                pattern,
                path,
            ]);
    assert(grep_args(pattern, path, None, context_lines, false) =~= seq![
                "-rn"@,
                "-C"@ + decimal(context_lines as nat),
                "--color=never"@,
                pattern,
                path,
            ]);
    assert(grep_args(pattern, path, None, context_lines, true) =~= seq![
                "-rn"@,
                "-C"@ + decimal(context_lines as nat),
                "--color=never"@,
                "-i"@,
                pattern,
                path,
            ]);
    assert(grep_args(pattern, path, Some(glob), context_lines, false) =~= seq![
                "-rn"@,
                "-C"@ + decimal(context_lines as nat),
                "--color=never"@,
                "--include"@,
                glob,
                pattern,
                path,
            ]);
    assert(grep_args(pattern, path, Some(glob), context_lines, true) =~= seq![
                "-rn"@,
                "-C"@ + decimal(context_lines as nat),
                "--color=never"@,
                "-i"@,
                "--include"@,
                glob,
                pattern,
                path,
            ]);
}

/// A command reports what it wrote, what it wrote to the error stream behind a mark, and its exit
/// code where it failed, -1 where a signal ended it. One that wrote nothing says so.
pub proof fn law_commands_report_what_they_wrote(
    stdout: Seq<char>,
    errors: Seq<char>,
    code: i32,
)
    ensures
        ({
            let out = visible_output(stdout);
            &&& !blank(out) ==> command_text(stdout, None, true, Some(code)) == out
            &&& !blank(out) ==> command_text(stdout, Some(errors), true, Some(code)) == out
                + "\n[stderr] "@ + errors
            &&& out.len() == 0 ==> command_text(stdout, Some(errors), true, Some(code))
                == "[stderr] "@ + errors
            &&& command_text(stdout, None, false, Some(code)) == out + "\n[exit "@ + decimal_int(
                code as int,
            ) + "]"@
            &&& command_text(stdout, None, false, None) == out + "\n[exit "@ + decimal_int(-1)
                + "]"@
            &&& out.len() > 0 ==> command_text(stdout, Some(errors), false, Some(code)) == out
                + "\n[stderr] "@ + errors + "\n[exit "@ + decimal_int(code as int) + "]"@
            &&& blank(out) ==> command_text(stdout, None, true, Some(code)) == "(no output)"@
        }),
{
    reveal_strlit("]");
    reveal_strlit("[stderr] ");
    reveal_strlit("\n[stderr] ");
    assert("]"@[0] == ']' && "]"@.len() == 1);
    assert("[stderr] "@[0] == '[' && "[stderr] "@.len() == 9);
    assert("\n[stderr] "@[1] == '[' && "\n[stderr] "@.len() == 10);
    assert(!crate::text::is_white(']') && !crate::text::is_white('['));
    let out = visible_output(stdout);
    let told = out + "\n[exit "@ + decimal_int(code as int) + "]"@;
    assert(told[told.len() - 1] == ']');
    let signalled = out + "\n[exit "@ + decimal_int(-1) + "]"@;
    assert(signalled[signalled.len() - 1] == ']');
    let both = out + "\n[stderr] "@ + errors + "\n[exit "@ + decimal_int(code as int) + "]"@;
    assert(both[both.len() - 1] == ']');
    let with_errors = out + "\n[stderr] "@ + errors;
    assert(with_errors[out.len() as int + 1] == '[');
    let only_errors = "[stderr] "@ + errors;
    assert(only_errors[0] == '[');
}

/// A command is reported by both of its streams; an error stream with nothing in it is left out.
pub proof fn law_both_streams_are_reported(output: OutputView)
    ensures
        output.stderr.len() == 0 ==> command_report(output) == command_text(
            lossy_text(output.stdout),
            None,
            output.success,
            output.code,
        ),
        output.stderr.len() > 0 ==> command_report(output) == command_text(
            lossy_text(output.stdout),
            Some(lossy_text(output.stderr)),
            output.success,
            output.code,
        ),
{
}

proof fn lemma_no_mark(list: Seq<Seq<char>>)
    requires
        forall|i: int| 0 <= i < list.len() ==> !"__KAKU_CWD__:"@.is_prefix_of(#[trigger] list[i]),
    ensures
        mark_position(list) == -1,
    decreases list.len(),
{
    if list.len() > 0 {
        let front = list.drop_last();
        assert forall|i: int| 0 <= i < front.len() implies !"__KAKU_CWD__:"@.is_prefix_of(
            #[trigger] front[i],
        ) by {
            assert(front[i] == list[i]);
        }
        assert(!"__KAKU_CWD__:"@.is_prefix_of(list[list.len() - 1]));
        lemma_no_mark(front);
    }
}

proof fn lemma_plain_front(s: Seq<char>)
    requires
        plain_breaks(s),
        s.len() > 0,
        s.last() == '\n',
    ensures
        plain_breaks(s.drop_last()),
{
    let front = s.drop_last();
    assert forall|i: int| 0 <= i < front.len() && #[trigger] front[i] == '\r' implies i + 1
        < front.len() && front[i + 1] != '\n' by {
        assert(s[i] == '\r');
    }
}

proof fn lemma_last_piece(s: Seq<char>)
    requires
        s.len() > 0,
        s.last() != '\n',
    ensures
        pieces(s).len() > 0,
        pieces(s).last().len() > 0,
        !pieces(s).last().contains('\n'),
        whole_lines(pieces(s).drop_last()) + pieces(s).last() == s,
{
    lemma_pieces(s);
    let list = pieces(s);
    lemma_pieces_hold_no_breaks(s);
    let front = whole_lines(list.drop_last());
    assert(front + list.last().push('\n') == s.push('\n'));
    assert(front + list.last() =~= s) by {
        assert((front + list.last().push('\n')).drop_last() =~= front + list.last());
        assert(s.push('\n').drop_last() =~= s);
    }
    if list.last().len() == 0 {
        lemma_whole_ends_with_a_break(list.drop_last());
    }
}

proof fn lemma_whole_ends_with_a_break(list: Seq<Seq<char>>)
    ensures
        whole_lines(list).len() > 0 ==> whole_lines(list).last() == '\n',
{
}

proof fn lemma_pieces_hold_no_breaks(s: Seq<char>)
    ensures
        pieces(s).len() > 0,
        !pieces(s).last().contains('\n'),
    decreases s.len(),
{
    lemma_position(s, '\n');
    let p = position(s, '\n') as int;
    if p < s.len() {
        lemma_pieces_hold_no_breaks(s.skip(p + 1));
    }
}

/// Output that holds no mark is seen as it is, and the working directory stays; this is said of
/// output that ends with at most one line break.
pub proof fn law_unmarked_output_is_seen(stdout: Seq<char>, cwd: Seq<char>)
    requires
        plain_breaks(stdout),
        forall|i: int|
            0 <= i < lines(stdout).len() ==> !"__KAKU_CWD__:"@.is_prefix_of(
                #[trigger] lines(stdout)[i],
            ),
        stdout.len() >= 2 && stdout.last() == '\n' ==> stdout[stdout.len() - 2] != '\n',
    ensures
        visible_output(stdout) == stdout,
        directory_after(cwd, stdout) == cwd,
{
    lemma_no_mark(lines(stdout));
    let none = Seq::<char>::empty();
    if stdout.len() == 0 {
        assert(stdout =~= none);
        assert(lines(stdout) =~= Seq::<Seq<char>>::empty());
    } else if stdout.last() == '\n' {
        let front = stdout.drop_last();
        lemma_plain_front(stdout);
        lemma_pieces(front);
        let list = pieces(front);
        assert(front.push('\n') =~= stdout);
        lemma_lines_of_whole(list, none);
        assert(whole_lines(list) + none =~= stdout);
        assert(list + lines(none) =~= list);
        assert(lines(stdout) == list);
        lemma_whole_is_joined(list);
        assert(joined(list, "\n"@) == front) by {
            assert(joined(list, "\n"@) == joined(list, "\n"@).push('\n').drop_last());
        }
        assert(front.len() > 0 ==> front.last() == stdout[stdout.len() - 2]);
    } else {
        lemma_pieces(stdout);
        lemma_last_piece(stdout);
        let list = pieces(stdout);
        let front = list.drop_last();
        assert forall|i: int| 0 <= i < front.len() implies is_line(#[trigger] front[i]) by {
            assert(front[i] == list[i]);
        }
        lemma_lines_of_whole(front, list.last());
        assert(is_line(list[list.len() - 1]));
        crate::lines::law_lines_end_at_breaks(list.last(), none);
        assert(lines(stdout) =~= list) by {
            assert(front + seq![list.last()] =~= list);
        }
        lemma_whole_is_joined(list);
        assert(joined(list, "\n"@) == stdout) by {
            assert(joined(list, "\n"@) == joined(list, "\n"@).push('\n').drop_last());
            assert(stdout == stdout.push('\n').drop_last());
        }
    }
}

/// The script that runs a command is the command itself, and behind it what tells the directory and
/// ends with the command's own exit code.
pub proof fn law_scripts_run_the_command(command: Seq<char>)
    ensures
        tracked_script(command) == command
            + "\n__kaku_rc=$?; printf '\\n__KAKU_CWD__:%s\\n' \"$(pwd)\"; exit $__kaku_rc"@,
        CWD_MARK@ == "__KAKU_CWD__:"@,
{
}

/// A line that names a file, a number between colons and a text tells a match.
pub proof fn law_numbered_lines_tell_matches(
    name: Seq<char>,
    number: Seq<char>,
    text: Seq<char>,
    all: Seq<Seq<char>>,
)
    requires
        !name.contains('-'),
        number.len() > 0,
        forall|i: int| 0 <= i < number.len() ==> '0' <= #[trigger] number[i] <= '9',
    ensures
        is_result(name + (seq![':'] + (number + (seq![':'] + text))), all),
{
    let line = name + (seq![':'] + (number + (seq![':'] + text)));
    let n = name.len() as int;
    let m = n + 1 + number.len();
    assert(line[n] == ':');
    assert(line[m] == ':');
    assert forall|k: int| n + 1 <= k < m implies is_digit(#[trigger] line[k]) by {
        assert(line[k] == number[k - n - 1]);
    }
    assert(number_at(line, n + 1, m, ':'));
    assert(begins_number(line, n + 1, ':'));
    assert forall|k: int| 0 <= k < n implies line[k] != '-' by {
        assert(name.contains(name[k]));
    }
    assert forall|s: int| #[trigger] begins_number(line, s, '-') implies s > n + 1 by {
        let e = choose|e: int| #[trigger] number_at(line, s, e, '-');
        if s <= n + 1 {
            if s > 0 {
                assert(line[s - 1] == '-');
            } else if e > n {
                assert(is_digit(line[n]));
            }
        }
    }
}

/// A line without a colon tells no match: a separator, or a line around a match. Nor does a line
/// around a match whose text looks like one, where a match of the same file is told.
pub proof fn law_context_lines_tell_no_match(
    line: Seq<char>,
    name: Seq<char>,
    number: Seq<char>,
    text: Seq<char>,
    other_number: Seq<char>,
    other_text: Seq<char>,
    all: Seq<Seq<char>>,
    k: int,
)
    requires
        !name.contains(':'),
        number.len() > 0,
        other_number.len() > 0,
        forall|i: int| 0 <= i < number.len() ==> '0' <= #[trigger] number[i] <= '9',
        forall|i: int| 0 <= i < other_number.len() ==> '0' <= #[trigger] other_number[i] <= '9',
        0 <= k < all.len(),
        all[k] == name + (seq![':'] + (other_number + (seq![':'] + other_text))),
    ensures
        !line.contains(':') ==> !is_result(line, all),
        !is_result(name + (seq!['-'] + (number + (seq!['-'] + text))), all),
{
    if !line.contains(':') {
        assert forall|s: int| !#[trigger] begins_number(line, s, ':') by {
            if begins_number(line, s, ':') {
                let e = choose|e: int| #[trigger] number_at(line, s, e, ':');
                assert(line.contains(line[e]));
            }
        }
    }
    let around = name + (seq!['-'] + (number + (seq!['-'] + text)));
    let n = name.len() as int;
    let m = n + 1 + number.len();
    assert(around[n] == '-' && around[m] == '-');
    assert forall|j: int| n + 1 <= j < m implies is_digit(#[trigger] around[j]) by {
        assert(around[j] == number[j - n - 1]);
    }
    assert(number_at(around, n + 1, m, '-'));
    assert(begins_number(around, n + 1, '-'));
    let found = all[k];
    let p = n + 1 + other_number.len();
    assert(found[n] == ':' && found[p] == ':');
    assert forall|j: int| n + 1 <= j < p implies is_digit(#[trigger] found[j]) by {
        assert(found[j] == other_number[j - n - 1]);
    }
    assert(number_at(found, n + 1, p, ':'));
    assert(begins_number(all[k], n + 1, ':'));
    assert(file_before(found, n + 1) =~= name);
    assert(file_before(around, n + 1) =~= name);
    assert(file_matches(around, n + 1, all));
    assert forall|j: int| 0 <= j < n implies around[j] != ':' by {
        assert(name.contains(name[j]));
    }
    assert forall|s: int| #[trigger] begins_number(around, s, ':') implies n + 1 < s by {
        let e = choose|e: int| #[trigger] number_at(around, s, e, ':');
        if s <= n + 1 {
            if s > 0 {
                assert(around[s - 1] == ':');
            } else if e > n {
                assert(is_digit(around[n]));
            }
        }
    }
    assert(is_context(around, all));
}

/// A search that wrote something tells its lines; one that wrote nothing says that nothing matched,
/// with the beginning of what went wrong, if anything did.
pub proof fn law_searches_tell_what_they_found(
    stdout: Seq<char>,
    stderr: Seq<char>,
    max_results: u64,
    output: OutputView,
)
    ensures
        !blank(stdout) ==> search_text(stdout, stderr, max_results) == joined(
            capped(lines(stdout), lines(stdout), max_results, max_results),
            "\n"@,
        ),
        blank(stdout) && blank(stderr) ==> search_text(stdout, stderr, max_results)
            == "No matches found."@,
        blank(stdout) && !blank(stderr) ==> search_text(stdout, stderr, max_results)
            == "No matches. ("@ + (if trimmed(stderr).len() <= 200 {
            trimmed(stderr)
        } else {
            trimmed(stderr).take(200)
        }) + ")"@,
        cut_note(max_results) == "\n[... truncated at "@ + decimal(max_results as nat)
            + " results]"@,
        search_report(output, max_results) == search_text(
            lossy_text(output.stdout),
            lossy_text(output.stderr),
            max_results,
        ),
{
    crate::text::law_clipping_keeps_the_beginning(trimmed(stderr), 200);
    assert(clipped(trimmed(stderr), 200) =~= if trimmed(stderr).len() <= 200 {
        trimmed(stderr)
    } else {
        trimmed(stderr).take(200)
    });
}

/// A background process is reported by its id, whether it runs, its exit code once it has ended,
/// and all of its output, where there is any.
pub proof fn law_processes_are_reported(pid: u32, code: i32, output: Seq<char>)
    ensures
        output.len() == 0 ==> process_report(pid, None, output) == "pid "@ + decimal(pid as nat)
            + ": running "@,
        output.len() > 0 ==> process_report(pid, None, output) == "pid "@ + decimal(pid as nat)
            + ": running "@ + "\n"@ + output,
        output.len() == 0 ==> process_report(pid, Some(Some(code)), output) == "pid "@ + decimal(
            pid as nat,
        ) + (": done [exit "@ + decimal_int(code as int) + "]"@),
        output.len() > 0 ==> process_report(pid, Some(Some(code)), output) == "pid "@ + decimal(
            pid as nat,
        ) + (": done [exit "@ + decimal_int(code as int) + "]"@) + "\n"@ + output,
        output.len() == 0 ==> process_report(pid, Some(None), output) == "pid "@ + decimal(
            pid as nat,
        ) + (": done [exit "@ + decimal_int(-1) + "]"@),
{
}

/// A listing shows every entry on a line of its own, a directory with a slash behind its name, in
/// order.
pub proof fn law_listings_show_every_entry(list: Seq<(Seq<char>, bool)>, i: int)
    requires
        0 <= i < list.len(),
    ensures
        ({
            let shown = if list[i].1 {
                list[i].0 + "/"@
            } else {
                list[i].0
            };
            &&& in_order(entry_labels(list)).contains(shown)
            &&& in_order(entry_labels(list)).len() == list.len()
            &&& crate::order::ascending(in_order(entry_labels(list)))
            &&& listed(list) == joined(in_order(entry_labels(list)), "\n"@)
        }),
{
    let labels = entry_labels(list);
    crate::order::law_in_order_is_sorted(labels);
    assert(labels[i] == if list[i].1 {
        list[i].0 + "/"@
    } else {
        list[i].0
    });
    assert(labels.contains(labels[i]));
}

/// A result that is cut says so: at how many bytes, and where the whole of it is, if that was
/// saved.
pub proof fn law_cut_results_say_so(result: Seq<char>, path: Seq<char>)
    ensures
        shortened(result, Some(path)) == fitting(result, 8000)
            + ("\n[... output truncated at 8000 bytes. Full content saved to "@ + path
            + " — use fs_read to access it.]"@),
        shortened(result, None) == fitting(result, 8000) + "\n[... truncated at 8000 bytes]"@,
{
}

/// What a process left, and the entries of a directory, are seen whole.
pub proof fn law_outputs_are_seen_whole(output: ProcessOutput, list: Seq<(String, bool)>, i: int)
    ensures
        output@.stdout == output.stdout@,
        output@.stderr == output.stderr@,
        output@.success == output.success,
        output@.code == output.code,
        entry_views(list).len() == list.len(),
        0 <= i < list.len() ==> entry_views(list)[i].0 == list[i].0@ && entry_views(list)[i].1
            == list[i].1,
{
}

} // verus!
