//! Terminal colors, as `owo-colors` writes them.

use vstd::prelude::*;

use crate::text::digit_char;

verus! {

/// Puts `text` on a green background.
///
/// Trusted: `OwoColorize::on_green` of `owo-colors`, displayed; its source
/// writes the escape sequence `ESC[42m`, the text, then `ESC[49m`.
#[verifier::external_body]
pub(crate) fn on_green(text: &str) -> (r: String)
    ensures
        r@ == "\x1b[42m"@ + text@ + "\x1b[49m"@,
{
    format!("{}", owo_colors::OwoColorize::on_green(&text))
}

/// Puts `text` on a red background.
///
/// Trusted: `OwoColorize::on_red` of `owo-colors`, displayed; its source
/// writes the escape sequence `ESC[41m`, the text, then `ESC[49m`.
#[verifier::external_body]
pub(crate) fn on_red(text: &str) -> (r: String)
    ensures
        r@ == "\x1b[41m"@ + text@ + "\x1b[49m"@,
{
    format!("{}", owo_colors::OwoColorize::on_red(&text))
}

/// Puts `text` on a yellow background.
///
/// Trusted: `OwoColorize::on_yellow` of `owo-colors`, displayed; its source
/// writes the escape sequence `ESC[43m`, the text, then `ESC[49m`.
#[verifier::external_body]
pub(crate) fn on_yellow(text: &str) -> (r: String)
    ensures
        r@ == "\x1b[43m"@ + text@ + "\x1b[49m"@,
{
    format!("{}", owo_colors::OwoColorize::on_yellow(&text))
}

/// The eight basic terminal colors.
#[derive(Debug, Clone, Copy, PartialEq, Eq, Structural)]
pub enum AnsiColor {
    Black,
    Red,
    Green,
    Yellow,
    Blue,
    Magenta,
    Cyan,
    White,
}

/// The number of a basic color among the eight.
pub open spec fn color_index(c: AnsiColor) -> int {
    match c {
        AnsiColor::Black => 0,
        AnsiColor::Red => 1,
        AnsiColor::Green => 2,
        AnsiColor::Yellow => 3,
        AnsiColor::Blue => 4,
        AnsiColor::Magenta => 5,
        AnsiColor::Cyan => 6,
        AnsiColor::White => 7,
    }
}

/// A text style: a foreground and a background color.
#[derive(Debug, Clone, Copy, PartialEq, Eq, Structural)]
pub struct TextStyle {
    pub fg: AnsiColor,
    pub bg: AnsiColor,
}

/// The escape sequence that opens `style`: the foreground code (30 and up)
/// and the background code (40 and up), joined by a semicolon.
pub open spec fn style_prefix(style: TextStyle) -> Seq<char> {
    "\x1b["@ + seq!['3', digit_char(color_index(style.fg) as nat), ';', '4', digit_char(
        color_index(style.bg) as nat,
    ), 'm']
}

/// Renders `text` in `style`.
///
/// Trusted: builds `owo_colors::Style::new()` with the foreground set by
/// `Style::color` and the background by `Style::on_color` to the same basic
/// colors, and displays `OwoColorize::style` of the text. Its source writes
/// `ESC[`, the foreground code, `;`, the background code and `m`, then the
/// text, then the reset `ESC[0m`.
#[verifier::external_body]
pub(crate) fn styled(style: TextStyle, text: &str) -> (r: String)
    ensures
        r@ == style_prefix(style) + text@ + "\x1b[0m"@,
{
    let ansi = |c: AnsiColor| match c {
        AnsiColor::Black => owo_colors::AnsiColors::Black,
        AnsiColor::Red => owo_colors::AnsiColors::Red,
        AnsiColor::Green => owo_colors::AnsiColors::Green,
        AnsiColor::Yellow => owo_colors::AnsiColors::Yellow,
        AnsiColor::Blue => owo_colors::AnsiColors::Blue,
        AnsiColor::Magenta => owo_colors::AnsiColors::Magenta,
        AnsiColor::Cyan => owo_colors::AnsiColors::Cyan,
        AnsiColor::White => owo_colors::AnsiColors::White,
    };
    let s = owo_colors::Style::new().color(ansi(style.fg)).on_color(ansi(style.bg));
    format!("{}", owo_colors::OwoColorize::style(&text, s))
}

/// `text` in cyan, as a terminal shows it.
pub open spec fn cyan_text(text: Seq<char>) -> Seq<char> {
    "\x1b[36m"@ + text + "\x1b[39m"@
}

/// `text` in yellow, as a terminal shows it.
pub open spec fn yellow_text(text: Seq<char>) -> Seq<char> {
    "\x1b[33m"@ + text + "\x1b[39m"@
}

/// Writes `text` in cyan.
///
/// Trusted: `OwoColorize::cyan` of `owo-colors`, displayed; its source writes
/// the escape sequence `ESC[36m`, the text, then `ESC[39m`.
#[verifier::external_body]
pub(crate) fn cyan(text: &str) -> (r: String)
    ensures
        r@ == cyan_text(text@),
{
    format!("{}", owo_colors::OwoColorize::cyan(&text))
}

/// Writes `text` in yellow.
///
/// Trusted: `OwoColorize::yellow` of `owo-colors`, displayed; its source writes
/// the escape sequence `ESC[33m`, the text, then `ESC[39m`.
#[verifier::external_body]
pub(crate) fn yellow(text: &str) -> (r: String)
    ensures
        r@ == yellow_text(text@),
{
    format!("{}", owo_colors::OwoColorize::yellow(&text))
}

/// `text` dimmed, as a terminal shows it.
pub open spec fn dimmed_text(text: Seq<char>) -> Seq<char> {
    "\x1b[2m"@ + text + "\x1b[0m"@
}

/// `text` in bold, as a terminal shows it.
pub open spec fn bold_text(text: Seq<char>) -> Seq<char> {
    "\x1b[1m"@ + text + "\x1b[0m"@
}

/// `text` underlined, as a terminal shows it.
pub open spec fn underlined_text(text: Seq<char>) -> Seq<char> {
    "\x1b[4m"@ + text + "\x1b[0m"@
}

/// `text` in red, as a terminal shows it.
pub open spec fn red_text(text: Seq<char>) -> Seq<char> {
    "\x1b[31m"@ + text + "\x1b[39m"@
}

/// Writes `text` dimmed.
///
/// Trusted: `OwoColorize::dimmed` of `owo-colors`, displayed; its source
/// writes the escape sequence `ESC[2m`, the text, then `ESC[0m`.
#[verifier::external_body]
pub(crate) fn dimmed(text: &str) -> (r: String)
    ensures
        r@ == dimmed_text(text@),
{
    format!("{}", owo_colors::OwoColorize::dimmed(&text))
}

/// Writes `text` in bold.
///
/// Trusted: `OwoColorize::bold` of `owo-colors`, displayed; its source writes
/// the escape sequence `ESC[1m`, the text, then `ESC[0m`.
#[verifier::external_body]
pub(crate) fn bold(text: &str) -> (r: String)
    ensures
        r@ == bold_text(text@),
{
    format!("{}", owo_colors::OwoColorize::bold(&text))
}

/// Writes `text` underlined.
///
/// Trusted: `OwoColorize::underline` of `owo-colors`, displayed; its source
/// writes the escape sequence `ESC[4m`, the text, then `ESC[0m`.
#[verifier::external_body]
pub(crate) fn underline(text: &str) -> (r: String)
    ensures
        r@ == underlined_text(text@),
{
    format!("{}", owo_colors::OwoColorize::underline(&text))
}

/// Writes `text` in red.
///
/// Trusted: `OwoColorize::red` of `owo-colors`, displayed; its source writes
/// the escape sequence `ESC[31m`, the text, then `ESC[39m`.
#[verifier::external_body]
pub(crate) fn red(text: &str) -> (r: String)
    ensures
        r@ == red_text(text@),
{
    format!("{}", owo_colors::OwoColorize::red(&text))
}

} // verus!
