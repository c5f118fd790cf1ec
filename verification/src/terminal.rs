//! Text for a terminal: the control sequences that come before a frame, and
//! what `String` needs to put a frame together.

use vstd::prelude::*;

verus! {

/// The decimal digit for `d`, which is below ten.
pub open spec fn digit(d: nat) -> char {
    if d == 0 {
        '0'
    } else if d == 1 {
        '1'
    } else if d == 2 {
        '2'
    } else if d == 3 {
        '3'
    } else if d == 4 {
        '4'
    } else if d == 5 {
        '5'
    } else if d == 6 {
        '6'
    } else if d == 7 {
        '7'
    } else if d == 8 {
        '8'
    } else {
        '9'
    }
}

/// `n` written in decimal, without leading zeros.
pub open spec fn decimal(n: nat) -> Seq<char>
    decreases n,
{
    if n < 10 {
        seq![digit(n)]
    } else {
        decimal(n / 10).push(digit(n % 10))
    }
}

/// The control sequence that clears the whole screen: `ESC [ 2 J`.
pub open spec fn clear_all_text() -> Seq<char> {
    seq!['\u{1b}', '[', '2', 'J']
}

/// The control sequence that moves the cursor to column `x` of line `y`,
/// both counted from one: `ESC [ y ; x H`.
pub open spec fn goto_text(x: nat, y: nat) -> Seq<char> {
    seq!['\u{1b}', '['] + decimal(y) + seq![';'] + decimal(x) + seq!['H']
}

/// `termion::clear::All` as text. The contract claims that it formats as the
/// four characters `ESC [ 2 J`.
#[verifier::external_body]
pub(crate) fn clear_all() -> (text: String)
    ensures
        text@ == clear_all_text(),
{
    format!("{}", termion::clear::All)
}

/// `termion::cursor::Goto(x, y)` as text. The contract claims that it formats
/// as `ESC [`, the line in decimal, `;`, the column in decimal and `H`. The
/// position `(0, 0)` is left out: formatting it may panic.
#[verifier::external_body]
pub(crate) fn cursor_goto(x: u16, y: u16) -> (text: String)
    requires
        x != 0 || y != 0,
    ensures
        text@ == goto_text(x as nat, y as nat),
{
    format!("{}", termion::cursor::Goto(x, y))
}

/// `String::push` appends one character.
pub assume_specification[ String::push ](text: &mut String, ch: char)
    ensures
        final(text)@ == old(text)@.push(ch),
;

/// `String::push_str` appends a string slice.
pub assume_specification[ String::push_str ](text: &mut String, tail: &str)
    ensures
        final(text)@ == old(text)@ + tail@,
;

} // verus!
