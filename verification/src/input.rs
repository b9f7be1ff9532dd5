//! Keys read from the terminal and the one-line input editor they drive.

use crate::text::{pop_char, push_char};
use vstd::prelude::*;
use vstd::utf8::encode_utf8;

verus! {

/// A key press, as far as the tools tell keys apart.
#[derive(Clone, Copy, Debug, PartialEq, Eq, Structural)]
pub enum Key {
    /// A printable character.
    Char(char),
    /// The backspace key.
    Backspace,
    /// The enter key.
    Enter,
    /// Any other key.
    Other,
}

/// The input line after `key` is typed into `input`: a character is appended,
/// backspace removes the last character (if any), other keys leave it alone.
pub open spec fn edited(input: Seq<char>, key: Key) -> Seq<char> {
    match key {
        Key::Char(c) => input.push(c),
        Key::Backspace => if input.len() > 0 {
            input.drop_last()
        } else {
            input
        },
        _ => input,
    }
}

/// Applies a character or backspace key to the input line; other keys leave
/// it unchanged.
pub fn edit_line(input: &mut String, key: Key)
    ensures
        final(input)@ == edited(old(input)@, key),
{
    match key {
        Key::Char(c) => push_char(input, c),
        Key::Backspace => {
            let _ = pop_char(input);
        },
        _ => {},
    }
}

/// Whether `key` is the quit key `q` of the full-screen tools.
pub fn is_quit_key(key: Key) -> (b: bool)
    ensures
        b == (key == Key::Char('q')),
{
    match key {
        Key::Char(c) => c == 'q',
        _ => false,
    }
}

/// Typing a character and then backspace gives the input line back.
pub proof fn lemma_backspace_undoes_char(input: Seq<char>, c: char)
    ensures
        edited(edited(input, Key::Char(c)), Key::Backspace) == input,
{
    assert(input.push(c).drop_last() =~= input);
}

/// The number of bytes of the UTF-8 encoding of `s`, as `String::len` gives it.
pub open spec fn byte_len(s: Seq<char>) -> usize {
    encode_utf8(s).len() as usize
}

/// Whether the cursor for `input` fits on the screen from an input box at
/// (`x`, `y`): one column past the text, one row below the top border.
pub open spec fn cursor_fits(x: u16, y: u16, input: Seq<char>) -> bool {
    x + (byte_len(input) as u16) + 1 <= u16::MAX && y + 1 <= u16::MAX
}

/// The cursor position inside an input box whose top-left corner is at
/// (`x`, `y`): one column past the text's byte length (taken modulo 2^16),
/// one row below the border.
pub fn cursor_position(x: u16, y: u16, input: &String) -> (pos: (u16, u16))
    requires
        cursor_fits(x, y, input@),
    ensures
        pos.0 == x + (byte_len(input@) as u16) + 1,
        pos.1 == y + 1,
{
    let n = input.as_str().len();
    assert(n == byte_len(input@));
    (x + (n as u16) + 1, y + 1)
}

} // verus!
