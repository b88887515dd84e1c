//! The status lines printed while hooks run: a project column and a hook
//! column padded with dots to a common width, then the hook's status.

use vstd::prelude::*;

use crate::run::RunStatus;
use crate::style::{AnsiColor, TextStyle, on_green, on_red, on_yellow, style_prefix, styled};
use crate::text::{concat2, push_dots, repeat_char};

verus! {

/// The columns `unicode-width` assigns to a text, counting ambiguous
/// characters as two columns wide.
pub uninterp spec fn width_cjk(text: Seq<char>) -> usize;

/// Measures a text.
///
/// Trusted: calls `UnicodeWidthStr::width_cjk` of `unicode-width`; the
/// contract claims that the result is the one `width_cjk` names for the text,
/// and that the empty text is zero columns wide (its source folds over the
/// characters starting from zero).
#[verifier::external_body]
fn text_width(text: &str) -> (r: usize)
    ensures
        r == width_cjk(text@),
        text@.len() == 0 ==> r == 0,
{
    unicode_width::UnicodeWidthStr::width_cjk(text)
}

/// One line of status output, and whether it must be shown even in quiet mode.
#[derive(Debug, Clone)]
pub struct StatusLine {
    pub text: String,
    pub important: bool,
}

/// The widest of the texts; `default` when there are none.
pub open spec fn max_width(names: Seq<Seq<char>>, default: usize) -> usize
    decreases names.len(),
{
    if names.len() == 0 {
        default
    } else if names.len() == 1 {
        width_cjk(names[0])
    } else {
        let rest = max_width(names.drop_last(), default);
        let w = width_cjk(names.last());
        if w > rest {
            w
        } else {
            rest
        }
    }
}

/// The widest of the texts is as wide as each of them and as wide as one of
/// them; with no texts it is the default.
pub proof fn lemma_max_width_is_widest(names: Seq<Seq<char>>, default: usize)
    ensures
        names.len() == 0 ==> max_width(names, default) == default,
        forall|i: int| 0 <= i < names.len() ==> max_width(names, default) >= width_cjk(
            #[trigger] names[i],
        ),
        names.len() > 0 ==> exists|j: int|
            0 <= j < names.len() && max_width(names, default) == width_cjk(#[trigger] names[j]),
    decreases names.len(),
{
    if names.len() > 1 {
        let front = names.drop_last();
        lemma_max_width_is_widest(front, default);
        assert forall|i: int| 0 <= i < names.len() implies max_width(names, default) >= width_cjk(
            #[trigger] names[i],
        ) by {
            if i < names.len() - 1 {
                assert(front[i] == names[i]);
            }
        }
        let m = max_width(names, default);
        if m == width_cjk(names.last()) {
            assert(m == width_cjk(names[names.len() - 1]));
        } else {
            let j = choose|j: int| 0 <= j < front.len() && max_width(front, default) == width_cjk(
                #[trigger] front[j],
            );
            assert(front[j] == names[j]);
            assert(m == width_cjk(names[j]));
        }
    } else if names.len() == 1 {
        assert(max_width(names, default) == width_cjk(names[0]));
    }
}

pub open spec fn string_texts(v: Seq<String>) -> Seq<Seq<char>> {
    v.map_values(|s: String| s@)
}

/// `name` followed by enough dots to fill `max` columns and three more.
pub open spec fn padded(name: Seq<char>, max: usize) -> Seq<char> {
    name + repeat_char('.', (3 + if max >= width_cjk(name) {
        max - width_cjk(name)
    } else {
        0
    }) as nat)
}

/// The reason shown for a hook that had no files to check.
pub const NO_FILES: &'static str = "(no files to check)";

/// The reason shown for a hook whose language is not implemented yet.
pub const UNIMPLEMENTED: &'static str = "(unimplemented yet)";

/// The reason and style of the status line of a hook that did not run: one
/// without files shows "Skipped" black on cyan, one of an unimplemented
/// language black on yellow; a hook that ran has no such line.
pub fn skip_line(status: RunStatus) -> (r: Option<(&'static str, TextStyle)>)
    ensures
        match status {
            RunStatus::Skipped => r matches Some((reason, style)) && reason@ == NO_FILES@ && style
                == (TextStyle { fg: AnsiColor::Black, bg: AnsiColor::Cyan }),
            RunStatus::Unimplemented => r matches Some((reason, style)) && reason@
                == UNIMPLEMENTED@ && style == (TextStyle { fg: AnsiColor::Black, bg: AnsiColor::Yellow }),
            _ => r is None,
        },
{
    match status {
        RunStatus::Skipped => Some((NO_FILES, TextStyle { fg: AnsiColor::Black, bg: AnsiColor::Cyan })),
        RunStatus::Unimplemented => Some(
            (UNIMPLEMENTED, TextStyle { fg: AnsiColor::Black, bg: AnsiColor::Yellow }),
        ),
        _ => None,
    }
}

/// Writes the status of hooks, aligned in columns; the lines are gathered
/// here and handed to the printer by the caller.
#[derive(Debug)]
pub struct StatusPrinter {
    pub max_project_width: usize,
    pub max_hook_width: usize,
    pub lines: Vec<StatusLine>,
}

pub open spec fn line_texts(v: Seq<StatusLine>) -> Seq<(Seq<char>, bool)> {
    v.map_values(|l: StatusLine| (l.text@, l.important))
}

impl StatusPrinter {
    fn widest(names: &Vec<String>, default: usize) -> (r: usize)
        ensures
            r == max_width(string_texts(names@), default),
    {
        let mut best = default;
        let mut i: usize = 0;
        while i < names.len()
            invariant
                i <= names@.len(),
                best == max_width(string_texts(names@.take(i as int)), default),
            decreases names.len() - i,
        {
            let w = text_width(names[i].as_str());
            assert(string_texts(names@.take(i + 1)).drop_last() =~= string_texts(
                names@.take(i as int),
            ));
            assert(string_texts(names@.take(i + 1)).last() == names@[i as int]@);
            if i == 0 {
                assert(string_texts(names@.take(1)) =~= seq![names@[0]@]);
                best = w;
            } else if w > best {
                best = w;
            }
            i = i + 1;
        }
        assert(names@.take(names.len() as int) =~= names@);
        best
    }

    /// Sizes the columns for the given project and hook names: the widest
    /// project name (one column when there is none) and the widest hook name
    /// (none when there is none).
    pub fn for_hooks(project_names: &Vec<String>, hook_names: &Vec<String>) -> (r: Self)
        ensures
            r.max_project_width == max_width(string_texts(project_names@), 1),
            r.max_hook_width == max_width(string_texts(hook_names@), 0),
            r.lines@.len() == 0,
    {
        StatusPrinter {
            max_project_width: Self::widest(project_names, 1),
            max_hook_width: Self::widest(hook_names, 0),
            lines: Vec::new(),
        }
    }

    fn section(name: &str, max: usize) -> (r: String)
        requires
            max <= usize::MAX - 3,
        ensures
            r@ == padded(name@, max),
    {
        let width = text_width(name);
        let mut section = name.to_owned();
        let dots = 3 + max.saturating_sub(width);
        push_dots(&mut section, dots);
        section
    }

    pub fn project_section(&self, project: &str) -> (r: String)
        requires
            self.max_project_width <= usize::MAX - 3,
        ensures
            r@ == padded(project@, self.max_project_width),
    {
        Self::section(project, self.max_project_width)
    }

    pub fn hook_section(&self, hook_name: &str) -> (r: String)
        requires
            self.max_hook_width <= usize::MAX - 3,
        ensures
            r@ == padded(hook_name@, self.max_hook_width),
    {
        Self::section(hook_name, self.max_hook_width)
    }

    pub fn formatted_prefix(&self, project: &str, hook_name: &str) -> (r: String)
        requires
            self.max_project_width <= usize::MAX - 3,
            self.max_hook_width <= usize::MAX - 3,
        ensures
            r@ == padded(project@, self.max_project_width) + padded(
                hook_name@,
                self.max_hook_width,
            ),
    {
        let mut line = self.project_section(project);
        line.append(self.hook_section(hook_name).as_str());
        line
    }

    /// Writes the columns, then `body`, as one line.
    pub fn write_line(&mut self, project: &str, hook_name: &str, body: &str, important: bool)
        requires
            old(self).max_project_width <= usize::MAX - 3,
            old(self).max_hook_width <= usize::MAX - 3,
        ensures
            final(self).max_project_width == old(self).max_project_width,
            final(self).max_hook_width == old(self).max_hook_width,
            line_texts(final(self).lines@) == line_texts(old(self).lines@).push(
                (
                    padded(project@, old(self).max_project_width) + padded(
                        hook_name@,
                        old(self).max_hook_width,
                    ) + body@ + "\n"@,
                    important,
                ),
            ),
    {
        let mut line = self.formatted_prefix(project, hook_name);
        line.append(body);
        line.append("\n");
        self.lines.push(StatusLine { text: line, important });
        assert(line_texts(self.lines@) =~= line_texts(old(self).lines@).push(
            (self.lines@.last().text@, important),
        ));
    }

    /// Writes a hook as skipped: `reason`, then "Skipped" in `style`.
    pub fn write_skipped(&mut self, project: &str, hook_name: &str, reason: &str, style: TextStyle)
        requires
            old(self).max_project_width <= usize::MAX - 3,
            old(self).max_hook_width <= usize::MAX - 3,
        ensures
            final(self).max_project_width == old(self).max_project_width,
            final(self).max_hook_width == old(self).max_hook_width,
            line_texts(final(self).lines@) == line_texts(old(self).lines@).push(
                (
                    padded(project@, old(self).max_project_width) + padded(
                        hook_name@,
                        old(self).max_hook_width,
                    ) + reason@ + style_prefix(style) + "Skipped"@ + "\x1b[0m"@ + "\n"@,
                    false,
                ),
            ),
    {
        let status = styled(style, "Skipped");
        let body = concat2(reason, status.as_str());
        self.write_line(project, hook_name, body.as_str(), false);
        assert(padded(project@, old(self).max_project_width) + padded(
            hook_name@,
            old(self).max_hook_width,
        ) + body@ + "\n"@ =~= padded(project@, old(self).max_project_width) + padded(
            hook_name@,
            old(self).max_hook_width,
        ) + reason@ + style_prefix(style) + "Skipped"@ + "\x1b[0m"@ + "\n"@);
    }

    pub fn write_dry_run(&mut self, project: &str, hook_name: &str)
        requires
            old(self).max_project_width <= usize::MAX - 3,
            old(self).max_hook_width <= usize::MAX - 3,
        ensures
            final(self).max_project_width == old(self).max_project_width,
            final(self).max_hook_width == old(self).max_hook_width,
            line_texts(final(self).lines@) == line_texts(old(self).lines@).push(
                (
                    padded(project@, old(self).max_project_width) + padded(
                        hook_name@,
                        old(self).max_hook_width,
                    ) + "\x1b[43m"@ + "Dry Run"@ + "\x1b[49m"@ + "\n"@,
                    false,
                ),
            ),
    {
        let body = on_yellow("Dry Run");
        self.write_line(project, hook_name, body.as_str(), false);
        assert(padded(project@, old(self).max_project_width) + padded(
            hook_name@,
            old(self).max_hook_width,
        ) + body@ + "\n"@ =~= padded(project@, old(self).max_project_width) + padded(
            hook_name@,
            old(self).max_hook_width,
        ) + "\x1b[43m"@ + "Dry Run"@ + "\x1b[49m"@ + "\n"@);
    }

    pub fn write_passed(&mut self, project: &str, hook_name: &str)
        requires
            old(self).max_project_width <= usize::MAX - 3,
            old(self).max_hook_width <= usize::MAX - 3,
        ensures
            final(self).max_project_width == old(self).max_project_width,
            final(self).max_hook_width == old(self).max_hook_width,
            line_texts(final(self).lines@) == line_texts(old(self).lines@).push(
                (
                    padded(project@, old(self).max_project_width) + padded(
                        hook_name@,
                        old(self).max_hook_width,
                    ) + "\x1b[42m"@ + "Passed"@ + "\x1b[49m"@ + "\n"@,
                    false,
                ),
            ),
    {
        let body = on_green("Passed");
        self.write_line(project, hook_name, body.as_str(), false);
        assert(padded(project@, old(self).max_project_width) + padded(
            hook_name@,
            old(self).max_hook_width,
        ) + body@ + "\n"@ =~= padded(project@, old(self).max_project_width) + padded(
            hook_name@,
            old(self).max_hook_width,
        ) + "\x1b[42m"@ + "Passed"@ + "\x1b[49m"@ + "\n"@);
    }

    pub fn write_failed(&mut self, project: &str, hook_name: &str)
        requires
            old(self).max_project_width <= usize::MAX - 3,
            old(self).max_hook_width <= usize::MAX - 3,
        ensures
            final(self).max_project_width == old(self).max_project_width,
            final(self).max_hook_width == old(self).max_hook_width,
            line_texts(final(self).lines@) == line_texts(old(self).lines@).push(
                (
                    padded(project@, old(self).max_project_width) + padded(
                        hook_name@,
                        old(self).max_hook_width,
                    ) + "\x1b[41m"@ + "Failed"@ + "\x1b[49m"@ + "\n"@,
                    true,
                ),
            ),
    {
        let body = on_red("Failed");
        self.write_line(project, hook_name, body.as_str(), true);
        assert(padded(project@, old(self).max_project_width) + padded(
            hook_name@,
            old(self).max_hook_width,
        ) + body@ + "\n"@ =~= padded(project@, old(self).max_project_width) + padded(
            hook_name@,
            old(self).max_hook_width,
        ) + "\x1b[41m"@ + "Failed"@ + "\x1b[49m"@ + "\n"@);
    }

    /// Writes the status line of a hook that ran: dry run, passed or failed.
    pub fn write_result(&mut self, project: &str, hook_name: &str, dry_run: bool, success: bool)
        requires
            old(self).max_project_width <= usize::MAX - 3,
            old(self).max_hook_width <= usize::MAX - 3,
        ensures
            final(self).max_project_width == old(self).max_project_width,
            final(self).max_hook_width == old(self).max_hook_width,
            line_texts(final(self).lines@) == line_texts(old(self).lines@).push(
                (
                    padded(project@, old(self).max_project_width) + padded(
                        hook_name@,
                        old(self).max_hook_width,
                    ) + (if dry_run {
                        "\x1b[43m"@ + "Dry Run"@ + "\x1b[49m"@
                    } else if success {
                        "\x1b[42m"@ + "Passed"@ + "\x1b[49m"@
                    } else {
                        "\x1b[41m"@ + "Failed"@ + "\x1b[49m"@
                    }) + "\n"@,
                    !dry_run && !success,
                ),
            ),
    {
        let ghost prefix = padded(project@, old(self).max_project_width) + padded(
            hook_name@,
            old(self).max_hook_width,
        );
        if dry_run {
            self.write_dry_run(project, hook_name);
            assert(prefix + "\x1b[43m"@ + "Dry Run"@ + "\x1b[49m"@ + "\n"@ =~= prefix + (
            "\x1b[43m"@ + "Dry Run"@ + "\x1b[49m"@) + "\n"@);
        } else if success {
            self.write_passed(project, hook_name);
            assert(prefix + "\x1b[42m"@ + "Passed"@ + "\x1b[49m"@ + "\n"@ =~= prefix + (
            "\x1b[42m"@ + "Passed"@ + "\x1b[49m"@) + "\n"@);
        } else {
            self.write_failed(project, hook_name);
            assert(prefix + "\x1b[41m"@ + "Failed"@ + "\x1b[49m"@ + "\n"@ =~= prefix + (
            "\x1b[41m"@ + "Failed"@ + "\x1b[49m"@) + "\n"@);
        }
    }
}

} // verus!
