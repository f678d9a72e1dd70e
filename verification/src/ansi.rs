//! Escape sequences and colours, as `termion` spells them.

use crate::strings::push_char;
use vstd::prelude::*;

verus! {

/// The foreground colours the prompt paints with.
#[derive(Clone, Copy, Debug, PartialEq, Eq, Structural)]
pub enum Tint {
    LightGreen,
    Magenta,
    Blue,
    Cyan,
    LightBlack,
    LightCyan,
    Yellow,
    Red,
    LightMagenta,
}

/// The escape sequence that switches the foreground to `tint`.
pub open spec fn tint_text(tint: Tint) -> Seq<char> {
    match tint {
        Tint::LightGreen => "\x1b[38;5;10m"@,
        Tint::Magenta => "\x1b[38;5;5m"@,
        Tint::Blue => "\x1b[38;5;4m"@,
        Tint::Cyan => "\x1b[38;5;6m"@,
        Tint::LightBlack => "\x1b[38;5;8m"@,
        Tint::LightCyan => "\x1b[38;5;14m"@,
        Tint::Yellow => "\x1b[38;5;3m"@,
        Tint::Red => "\x1b[38;5;1m"@,
        Tint::LightMagenta => "\x1b[38;5;13m"@,
    }
}

/// The sequence that resets every text attribute.
pub open spec fn reset_text() -> Seq<char> {
    "\x1b[m"@
}

/// The sequence that hides the terminal cursor.
pub open spec fn hide_text() -> Seq<char> {
    "\x1b[?25l"@
}

/// The sequence that shows the terminal cursor.
pub open spec fn show_text() -> Seq<char> {
    "\x1b[?25h"@
}

/// The sequence that clears the line the cursor is on.
pub open spec fn clear_line_text() -> Seq<char> {
    "\x1b[2K"@
}

/// The character that stands for the decimal digit `d`.
pub open spec fn digit_char(d: nat) -> char {
    ('0' as nat + d) as char
}

/// The decimal numeral of `n`, without sign or leading zeros.
pub open spec fn decimal(n: nat) -> Seq<char>
    decreases n,
{
    if n < 10 {
        seq![digit_char(n)]
    } else {
        decimal(n / 10).push(digit_char(n % 10))
    }
}

/// The sequence that moves the cursor to column `x` of row `y`.
pub open spec fn goto_text(x: nat, y: nat) -> Seq<char> {
    "\x1b["@ + decimal(y) + ";"@ + decimal(x) + "H"@
}

/// `termion::color::Fg(termion::color::LightGreen)`, formatted: the fixed
/// sequence for colour 10 of the 256-colour palette.
#[verifier::external_body]
fn fg_light_green() -> (s: String)
    ensures
        s@ == "\x1b[38;5;10m"@,
{
    format!("{}", termion::color::Fg(termion::color::LightGreen))
}

/// `termion::color::Fg(termion::color::Magenta)`, formatted: the fixed
/// sequence for colour 5 of the 256-colour palette.
#[verifier::external_body]
fn fg_magenta() -> (s: String)
    ensures
        s@ == "\x1b[38;5;5m"@,
{
    format!("{}", termion::color::Fg(termion::color::Magenta))
}

/// `termion::color::Fg(termion::color::Blue)`, formatted: the fixed sequence
/// for colour 4 of the 256-colour palette.
#[verifier::external_body]
fn fg_blue() -> (s: String)
    ensures
        s@ == "\x1b[38;5;4m"@,
{
    format!("{}", termion::color::Fg(termion::color::Blue))
}

/// `termion::color::Fg(termion::color::Cyan)`, formatted: the fixed sequence
/// for colour 6 of the 256-colour palette.
#[verifier::external_body]
fn fg_cyan() -> (s: String)
    ensures
        s@ == "\x1b[38;5;6m"@,
{
    format!("{}", termion::color::Fg(termion::color::Cyan))
}

/// `termion::color::Fg(termion::color::LightBlack)`, formatted: the fixed
/// sequence for colour 8 of the 256-colour palette.
#[verifier::external_body]
fn fg_light_black() -> (s: String)
    ensures
        s@ == "\x1b[38;5;8m"@,
{
    format!("{}", termion::color::Fg(termion::color::LightBlack))
}

/// `termion::color::Fg(termion::color::LightCyan)`, formatted: the fixed
/// sequence for colour 14 of the 256-colour palette.
#[verifier::external_body]
fn fg_light_cyan() -> (s: String)
    ensures
        s@ == "\x1b[38;5;14m"@,
{
    format!("{}", termion::color::Fg(termion::color::LightCyan))
}

/// `termion::color::Fg(termion::color::Yellow)`, formatted: the fixed sequence
/// for colour 3 of the 256-colour palette.
#[verifier::external_body]
fn fg_yellow() -> (s: String)
    ensures
        s@ == "\x1b[38;5;3m"@,
{
    format!("{}", termion::color::Fg(termion::color::Yellow))
}

/// `termion::color::Fg(termion::color::Red)`, formatted: the fixed sequence
/// for colour 1 of the 256-colour palette.
#[verifier::external_body]
fn fg_red() -> (s: String)
    ensures
        s@ == "\x1b[38;5;1m"@,
{
    format!("{}", termion::color::Fg(termion::color::Red))
}

/// `termion::color::Fg(termion::color::LightMagenta)`, formatted: the fixed
/// sequence for colour 13 of the 256-colour palette.
#[verifier::external_body]
fn fg_light_magenta() -> (s: String)
    ensures
        s@ == "\x1b[38;5;13m"@,
{
    format!("{}", termion::color::Fg(termion::color::LightMagenta))
}

/// `termion::style::Reset`, formatted: the fixed sequence `ESC [ m`.
#[verifier::external_body]
fn style_reset() -> (s: String)
    ensures
        s@ == "\x1b[m"@,
{
    format!("{}", termion::style::Reset)
}

/// `termion::cursor::Hide`, formatted: the fixed sequence `ESC [ ? 2 5 l`.
#[verifier::external_body]
fn cursor_hide() -> (s: String)
    ensures
        s@ == "\x1b[?25l"@,
{
    format!("{}", termion::cursor::Hide)
}

/// `termion::cursor::Show`, formatted: the fixed sequence `ESC [ ? 2 5 h`.
#[verifier::external_body]
fn cursor_show() -> (s: String)
    ensures
        s@ == "\x1b[?25h"@,
{
    format!("{}", termion::cursor::Show)
}

/// `termion::clear::CurrentLine`, formatted: the fixed sequence `ESC [ 2 K`.
#[verifier::external_body]
fn clear_current_line() -> (s: String)
    ensures
        s@ == "\x1b[2K"@,
{
    format!("{}", termion::clear::CurrentLine)
}

/// `termion::cursor::Goto(x, y)`, formatted: `ESC [`, the row in decimal, `;`,
/// the column in decimal, `H`. Formatting `Goto(0, 0)` trips a debug
/// assertion in `termion`, so that pair is left out.
#[verifier::external_body]
pub(crate) fn cursor_goto(x: u16, y: u16) -> (s: String)
    requires
        !(x == 0 && y == 0),
    ensures
        s@ == "\x1b["@ + decimal(y as nat) + ";"@ + decimal(x as nat) + "H"@,
{
    format!("{}", termion::cursor::Goto(x, y))
}

/// The escape sequence that switches the foreground to `tint`.
pub fn foreground(tint: Tint) -> (s: String)
    ensures
        s@ == tint_text(tint),
{
    match tint {
        Tint::LightGreen => fg_light_green(),
        Tint::Magenta => fg_magenta(),
        Tint::Blue => fg_blue(),
        Tint::Cyan => fg_cyan(),
        Tint::LightBlack => fg_light_black(),
        Tint::LightCyan => fg_light_cyan(),
        Tint::Yellow => fg_yellow(),
        Tint::Red => fg_red(),
        Tint::LightMagenta => fg_light_magenta(),
    }
}

/// The sequence that resets every text attribute.
pub fn reset() -> (s: String)
    ensures
        s@ == reset_text(),
{
    style_reset()
}

/// The sequence that hides the terminal cursor.
pub fn hide_cursor() -> (s: String)
    ensures
        s@ == hide_text(),
{
    cursor_hide()
}

/// The sequence that shows the terminal cursor.
pub fn show_cursor() -> (s: String)
    ensures
        s@ == show_text(),
{
    cursor_show()
}

/// The sequence that clears the line the cursor is on.
pub fn clear_line() -> (s: String)
    ensures
        s@ == clear_line_text(),
{
    clear_current_line()
}

/// The sequence that moves the cursor to column `x` of row `y`, or `None` for
/// the one pair `termion` does not format: column 0 of row 0.
pub fn goto(x: u16, y: u16) -> (r: Option<String>)
    ensures
        r is None <==> x == 0 && y == 0,
        r matches Some(s) ==> s@ == goto_text(x as nat, y as nat),
{
    if x == 0 && y == 0 {
        None
    } else {
        Some(cursor_goto(x, y))
    }
}

fn digit(d: u64) -> (c: char)
    requires
        d < 10,
    ensures
        c == digit_char(d as nat),
{
    (48u8 + d as u8) as char
}

/// Appends the decimal numeral of `n` to `s`.
pub fn push_decimal(s: &mut String, n: u64)
    ensures
        final(s)@ == old(s)@ + decimal(n as nat),
    decreases n,
{
    if n >= 10 {
        push_decimal(s, n / 10);
    }
    push_char(s, digit(n % 10));
}

} // verus!
