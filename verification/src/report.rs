//! What a run prints besides the status lines: the details of a hook's run,
//! what a dry run would do, and the run's own messages.

use vstd::prelude::*;

use crate::config::{Stage, stage_name};
use crate::style::{
    bold, bold_text, cyan, cyan_text, dimmed, dimmed_text, red, red_text, underline,
    underlined_text, yellow, yellow_text,
};
use crate::text::{join, decimal, decimal_text, owned, signed_decimal, signed_decimal_text};

verus! {

/// ASCII whitespace: space, tab, line feed, form feed and carriage return.
pub open spec fn ascii_whitespace(b: u8) -> bool {
    b == 9 || b == 10 || b == 12 || b == 13 || b == 32
}

/// `s` without its leading ASCII whitespace.
pub open spec fn trim_ascii_start(s: Seq<u8>) -> Seq<u8>
    decreases s.len(),
{
    if s.len() > 0 && ascii_whitespace(s[0]) {
        trim_ascii_start(s.drop_first())
    } else {
        s
    }
}

/// `s` without its trailing ASCII whitespace.
pub open spec fn trim_ascii_end(s: Seq<u8>) -> Seq<u8>
    decreases s.len(),
{
    if s.len() > 0 && ascii_whitespace(s.last()) {
        trim_ascii_end(s.drop_last())
    } else {
        s
    }
}

/// `s` without its leading and trailing ASCII whitespace.
pub open spec fn trim_ascii(s: Seq<u8>) -> Seq<u8> {
    trim_ascii_end(trim_ascii_start(s))
}

/// Removes the leading and trailing ASCII whitespace of `bytes`.
pub fn trimmed_ascii(bytes: &Vec<u8>) -> (r: Vec<u8>)
    ensures
        r@ == trim_ascii(bytes@),
{
    let n = bytes.len();
    let mut start: usize = 0;
    assert(bytes@.subrange(0, n as int) =~= bytes@);
    while start < n && ascii_whitespace_byte(bytes[start])
        invariant
            n == bytes@.len(),
            start <= n,
            trim_ascii_start(bytes@) == trim_ascii_start(bytes@.subrange(start as int, n as int)),
        decreases n - start,
    {
        let ghost rest = bytes@.subrange(start as int, n as int);
        assert(rest.drop_first() =~= bytes@.subrange(start + 1, n as int));
        start = start + 1;
    }
    let ghost front = bytes@.subrange(start as int, n as int);
    assert(trim_ascii_start(bytes@) == front) by {
        if start == n {
            assert(front.len() == 0);
        }
    }
    let mut end: usize = n;
    while end > start && ascii_whitespace_byte(bytes[end - 1])
        invariant
            n == bytes@.len(),
            start <= end <= n,
            front == bytes@.subrange(start as int, n as int),
            trim_ascii_end(front) == trim_ascii_end(bytes@.subrange(start as int, end as int)),
        decreases end - start,
    {
        let ghost part = bytes@.subrange(start as int, end as int);
        assert(part.drop_last() =~= bytes@.subrange(start as int, end - 1));
        end = end - 1;
    }
    let mut r: Vec<u8> = Vec::new();
    let mut i: usize = start;
    while i < end
        invariant
            n == bytes@.len(),
            start <= i <= end <= n,
            r@ == bytes@.subrange(start as int, i as int),
        decreases end - i,
    {
        r.push(bytes[i]);
        assert(r@ =~= bytes@.subrange(start as int, i + 1));
        i = i + 1;
    }
    r
}

fn ascii_whitespace_byte(b: u8) -> (r: bool)
    ensures
        r == ascii_whitespace(b),
{
    b == 9 || b == 10 || b == 12 || b == 13 || b == 32
}

/// What `String::from_utf8_lossy` makes of `bytes`.
pub uninterp spec fn utf8_lossy(bytes: Seq<u8>) -> Seq<char>;

/// Decodes `bytes` as UTF-8, with U+FFFD for each invalid sequence.
///
/// Trusted: `String::from_utf8_lossy` of std, made owned. The decoding is a
/// function of the bytes alone and is named, not stated.
#[verifier::external_body]
fn text_from_utf8_lossy(bytes: &Vec<u8>) -> (r: String)
    ensures
        r@ == utf8_lossy(bytes@),
{
    String::from_utf8_lossy(bytes.as_slice()).into_owned()
}

/// Whitespace as `char::is_whitespace` has it: the characters with the
/// Unicode `White_Space` property.
pub open spec fn unicode_whitespace(c: char) -> bool {
    let n = c as u32;
    (9 <= n <= 13) || n == 32 || n == 0x85 || n == 0xa0 || n == 0x1680 || (0x2000 <= n <= 0x200a)
        || n == 0x2028 || n == 0x2029 || n == 0x202f || n == 0x205f || n == 0x3000
}

/// `s` without its trailing whitespace, as `str::trim_end` leaves it.
pub open spec fn trim_end(s: Seq<char>) -> Seq<char>
    decreases s.len(),
{
    if s.len() > 0 && unicode_whitespace(s.last()) {
        trim_end(s.drop_last())
    } else {
        s
    }
}

/// A line of whitespace only, which `str::trim` leaves empty.
pub open spec fn blank(line: Seq<char>) -> bool {
    forall|i: int| 0 <= i < line.len() ==> unicode_whitespace(#[trigger] line[i])
}

/// The pieces of `s` between line feeds, as `str::split` gives them.
pub open spec fn split_newlines(s: Seq<char>) -> Seq<Seq<char>>
    decreases s.len(),
{
    if s.len() == 0 {
        seq![Seq::empty()]
    } else {
        let pieces = split_newlines(s.drop_last());
        if s.last() == '\n' {
            pieces.push(Seq::empty())
        } else {
            pieces.update(pieces.len() - 1, pieces.last().push(s.last()))
        }
    }
}

/// The lines of `s`, as `str::split_terminator` gives them: the pieces
/// between line feeds, without the last one when it is empty.
pub open spec fn terminated_lines(s: Seq<char>) -> Seq<Seq<char>> {
    let pieces = split_newlines(s);
    if pieces.last().len() == 0 {
        pieces.drop_last()
    } else {
        pieces
    }
}

/// `text` with `prefix` put before each line, and `prefix` without its
/// trailing whitespace before each line of whitespace only; the lines are
/// joined by line feeds, and a final line feed is kept.
pub open spec fn indented(text: Seq<char>, prefix: Seq<char>) -> Seq<char> {
    join(
        terminated_lines(text).map_values(
            |line: Seq<char>|
                (if blank(line) {
                    trim_end(prefix)
                } else {
                    prefix
                }) + line,
        ),
        "\n"@,
    ) + (if text.len() > 0 && text.last() == '\n' {
        "\n"@
    } else {
        Seq::empty()
    })
}

/// Indents each line of `text` by `prefix`.
///
/// Trusted: `textwrap::indent`. Its source splits `text` with
/// `split_terminator('\n')`, puts `prefix` before each line and
/// `prefix.trim_end()` before each line that `trim` leaves empty, joins the
/// lines with line feeds, and adds a line feed when `text` ends with one.
#[verifier::external_body]
fn indent(text: &str, prefix: &str) -> (r: String)
    ensures
        r@ == indented(text@, prefix@),
{
    textwrap::indent(text, prefix)
}

/// A dimmed line.
pub open spec fn dim_line(text: Seq<char>) -> Seq<char> {
    dimmed_text(text) + "\n"@
}

/// The text printed after a hook's status line when its details are shown:
/// its id, how long it ran when asked for, its exit code when not zero,
/// whether it modified files, and its output, indented, unless the output
/// goes to the hook's log file.
pub open spec fn details_text(
    hook_id: Seq<char>,
    show_duration: bool,
    duration: Seq<char>,
    exit_code: int,
    file_modified: bool,
    output: Seq<u8>,
    to_log_file: bool,
) -> Seq<char> {
    let trimmed = trim_ascii(output);
    dim_line("- hook id: "@ + hook_id) + (if show_duration {
        dim_line("- duration: "@ + duration + "s"@)
    } else {
        Seq::empty()
    }) + (if exit_code != 0 {
        dim_line("- exit code: "@ + signed_decimal(exit_code))
    } else {
        Seq::empty()
    }) + (if file_modified {
        dim_line("- files were modified by this hook"@)
    } else {
        Seq::empty()
    }) + (if trimmed.len() > 0 && !to_log_file {
        dim_line(indented(utf8_lossy(trimmed), "  "@))
    } else {
        Seq::empty()
    })
}

/// The details of a hook's run: the text to print, and the output to append
/// to the hook's log file, if any.
pub struct HookDetails {
    pub text: String,
    pub log: Option<Vec<u8>>,
}

/// The details of a hook's run. `duration` is the run's length in seconds,
/// as the run writes it; `to_log_file` is whether the hook has a log file.
pub fn hook_details(
    hook_id: &str,
    show_duration: bool,
    duration: &str,
    exit_code: i32,
    file_modified: bool,
    output: &Vec<u8>,
    to_log_file: bool,
) -> (r: HookDetails)
    ensures
        r.text@ == details_text(
            hook_id@,
            show_duration,
            duration@,
            exit_code as int,
            file_modified,
            output@,
            to_log_file,
        ),
        r.log matches Some(log) ==> log@ == trim_ascii(output@),
        r.log is Some <==> (to_log_file && trim_ascii(output@).len() > 0),
{
    let mut text = String::new();
    let mut line = owned("- hook id: ");
    line.append(hook_id);
    push_dim_line(&mut text, line.as_str());
    let ghost after_id = text@;
    if show_duration {
        let mut line = owned("- duration: ");
        line.append(duration);
        line.append("s");
        push_dim_line(&mut text, line.as_str());
    }
    let ghost after_duration = text@;
    if exit_code != 0 {
        let mut line = owned("- exit code: ");
        line.append(signed_decimal_text(exit_code).as_str());
        push_dim_line(&mut text, line.as_str());
    }
    let ghost after_exit = text@;
    if file_modified {
        push_dim_line(&mut text, "- files were modified by this hook");
    }
    let ghost after_modified = text@;
    let trimmed = trimmed_ascii(output);
    let mut log: Option<Vec<u8>> = None;
    if trimmed.len() > 0 {
        if to_log_file {
            log = Some(trimmed);
        } else {
            let decoded = text_from_utf8_lossy(&trimmed);
            let block = indent(decoded.as_str(), "  ");
            push_dim_line(&mut text, block.as_str());
        }
    }
    proof {
        reveal_strlit("- hook id: ");
        reveal_strlit("- duration: ");
        reveal_strlit("s");
        reveal_strlit("- exit code: ");
        reveal_strlit("- files were modified by this hook");
        reveal_strlit("  ");
    }
    assert(text@ =~= details_text(
        hook_id@,
        show_duration,
        duration@,
        exit_code as int,
        file_modified,
        output@,
        to_log_file,
    ));
    HookDetails { text, log }
}

fn push_dim_line(out: &mut String, text: &str)
    ensures
        final(out)@ == old(out)@ + dim_line(text@),
{
    out.append(dimmed(text).as_str());
    out.append("\n");
}

/// One line per file, each led by a dash.
pub open spec fn file_lines(filenames: Seq<Seq<char>>) -> Seq<char>
    decreases filenames.len(),
{
    if filenames.len() == 0 {
        Seq::empty()
    } else {
        file_lines(filenames.drop_last()) + "- "@ + filenames.last() + "\n"@
    }
}

/// What a dry run prints for a hook: the number of files it would be run on,
/// when there are any, then each file on a line of its own.
pub open spec fn dry_run_text(hook: Seq<char>, filenames: Seq<Seq<char>>) -> Seq<char> {
    (if filenames.len() > 0 {
        "`"@ + hook + "` would be run on "@ + decimal(filenames.len()) + " files:\n"@
    } else {
        Seq::empty()
    }) + file_lines(filenames)
}

/// What a dry run prints for `hook` in place of running it on `filenames`.
pub fn dry_run_output(hook: &str, filenames: &Vec<String>) -> (r: String)
    ensures
        r@ == dry_run_text(hook@, filenames@.map_values(|f: String| f@)),
{
    let ghost names = filenames@.map_values(|f: String| f@);
    let mut out = String::new();
    if filenames.len() > 0 {
        out.append("`");
        out.append(hook);
        out.append("` would be run on ");
        out.append(decimal_text(filenames.len() as u64).as_str());
        out.append(" files:\n");
    }
    let ghost header = out@;
    let mut i: usize = 0;
    while i < filenames.len()
        invariant
            i <= filenames@.len(),
            names == filenames@.map_values(|f: String| f@),
            out@ == header + file_lines(names.take(i as int)),
        decreases filenames.len() - i,
    {
        out.append("- ");
        out.append(filenames[i].as_str());
        out.append("\n");
        assert(names.take(i + 1).drop_last() =~= names.take(i as int));
        assert(names.take(i + 1).last() == filenames@[i as int]@);
        i = i + 1;
    }
    assert(names.take(filenames.len() as int) =~= names);
    out
}

/// The error when no hook is left once the selectors are applied.
pub open spec fn no_hooks_text() -> Seq<char> {
    bold_text(red_text("error"@)) + ": No hooks found after filtering with the given selectors"@
}

/// The error when no hook is left once the selectors are applied.
pub fn no_hooks_message() -> (r: String)
    ensures
        r@ == no_hooks_text(),
{
    let mut r = bold(red("error").as_str());
    r.append(": No hooks found after filtering with the given selectors");
    r
}

/// The error when no selected hook runs at `stage`.
pub open spec fn no_hooks_for_stage_text(stage: Seq<char>) -> Seq<char> {
    bold_text(red_text("error"@)) + ": No hooks found for stage `"@ + cyan_text(stage)
        + "` after filtering"@
}

/// The error when no selected hook runs at `stage`.
pub fn no_hooks_for_stage_message(stage: Stage) -> (r: String)
    ensures
        r@ == no_hooks_for_stage_text(stage_name(stage)),
{
    let mut r = bold(red("error").as_str());
    r.append(": No hooks found for stage `");
    r.append(cyan(stage.as_str()).as_str());
    r.append("` after filtering");
    r
}

/// Where the support of each language is tracked.
pub const LANGUAGE_SUPPORT_URL: &'static str = "https://prek.j178.dev/todo/#language-support-status";

/// The warning after a run that skipped hooks of unimplemented languages.
pub open spec fn unimplemented_warning_text() -> Seq<char> {
    "Some hooks were skipped because their languages are unimplemented.\nWe're working hard to support more languages. Check out current support status at "@
        + underlined_text(cyan_text(LANGUAGE_SUPPORT_URL@)) + "."@
}

/// The warning after a run that skipped hooks of unimplemented languages.
pub fn unimplemented_warning() -> (r: String)
    ensures
        r@ == unimplemented_warning_text(),
{
    let mut r = owned(
        "Some hooks were skipped because their languages are unimplemented.\nWe're working hard to support more languages. Check out current support status at ",
    );
    r.append(underline(cyan(LANGUAGE_SUPPORT_URL).as_str()).as_str());
    r.append(".");
    r
}

/// The hint printed in CI when hooks changed files.
pub open spec fn ci_hint_text() -> Seq<char> {
    "\n"@ + bold_text(yellow_text("Hint"@)) + ": Some hooks made changes to the files.\nIf you are seeing this message in CI, reproduce locally with: `"@
        + cyan_text("prek run --all-files"@)
        + "`\nTo run prek as part of git workflow, use `"@ + cyan_text("prek install"@)
        + "` to set up git hooks.\n"@
}

/// The hint printed in CI when hooks changed files.
pub fn ci_hint() -> (r: String)
    ensures
        r@ == ci_hint_text(),
{
    let mut r = owned("\n");
    r.append(bold(yellow("Hint").as_str()).as_str());
    r.append(
        ": Some hooks made changes to the files.\nIf you are seeing this message in CI, reproduce locally with: `",
    );
    r.append(cyan("prek run --all-files").as_str());
    r.append("`\nTo run prek as part of git workflow, use `");
    r.append(cyan("prek install").as_str());
    r.append("` to set up git hooks.\n");
    r
}

/// The color flag handed to `git diff` when the changes are shown.
pub fn diff_color_flag(use_color: bool) -> (r: &'static str)
    ensures
        r@ == (if use_color {
            "--color=always"@
        } else {
            "--color=never"@
        }),
{
    if use_color {
        "--color=always"
    } else {
        "--color=never"
    }
}

} // verus!
