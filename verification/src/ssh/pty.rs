//! What a key press in the terminal sends to the remote shell's standard
//! input.

use vstd::prelude::*;

verus! {

/// A key of the terminal screen.
#[derive(Debug, Clone, Copy, PartialEq, Eq, Structural)]
pub enum TermKeyCode {
    Char(char),
    Enter,
    Backspace,
    Tab,
    Esc,
    Up,
    Down,
    Right,
    Left,
    Home,
    End,
    Insert,
    Delete,
    PageUp,
    PageDown,
    /// A function key, `F(1)` to `F(12)` having a sequence.
    F(u8),
    /// Any other key.
    Other,
}

/// A key press with the modifiers held.
#[derive(Debug, Clone, Copy, PartialEq, Eq, Structural)]
pub struct TermKey {
    pub code: TermKeyCode,
    pub ctrl: bool,
    pub alt: bool,
    pub shift: bool,
}

/// The byte Control turns a character into: letters to 1 through 26, `[`
/// to ESC, `\`, `]`, `^`, `_` to 0x1c through 0x1f, `@` to NUL, any other
/// character to the low byte of its code.
pub open spec fn ctrl_byte(c: char) -> u8 {
    let u = c as u32;
    if 'a' <= c <= 'z' {
        (u - 0x60) as u8
    } else if 'A' <= c <= 'Z' {
        (u - 0x40) as u8
    } else if c == '[' {
        0x1b
    } else if c == '\\' {
        0x1c
    } else if c == ']' {
        0x1d
    } else if c == '^' {
        0x1e
    } else if c == '_' {
        0x1f
    } else if c == '@' {
        0x00
    } else {
        (u % 256) as u8
    }
}

/// The sequence of a function key (xterm/VT220), empty past F12.
pub open spec fn function_key_bytes(n: u8) -> Seq<u8> {
    if n == 1 {
        seq![0x1bu8, 0x4f, 0x50]
    } else if n == 2 {
        seq![0x1bu8, 0x4f, 0x51]
    } else if n == 3 {
        seq![0x1bu8, 0x4f, 0x52]
    } else if n == 4 {
        seq![0x1bu8, 0x4f, 0x53]
    } else if n == 5 {
        seq![0x1bu8, 0x5b, 0x31, 0x35, 0x7e]
    } else if n == 6 {
        seq![0x1bu8, 0x5b, 0x31, 0x37, 0x7e]
    } else if n == 7 {
        seq![0x1bu8, 0x5b, 0x31, 0x38, 0x7e]
    } else if n == 8 {
        seq![0x1bu8, 0x5b, 0x31, 0x39, 0x7e]
    } else if n == 9 {
        seq![0x1bu8, 0x5b, 0x32, 0x30, 0x7e]
    } else if n == 10 {
        seq![0x1bu8, 0x5b, 0x32, 0x31, 0x7e]
    } else if n == 11 {
        seq![0x1bu8, 0x5b, 0x32, 0x33, 0x7e]
    } else if n == 12 {
        seq![0x1bu8, 0x5b, 0x32, 0x34, 0x7e]
    } else {
        Seq::empty()
    }
}

/// The bytes a key press sends: Control gives a control byte, Alt an ESC
/// before the character's UTF-8 bytes, a plain character its UTF-8 bytes;
/// Enter is CR, Backspace DEL, Tab HT (`ESC [ Z` with Shift), Esc ESC; the
/// cursor, edit and function keys send their VT sequences; other keys send
/// nothing.
pub open spec fn key_bytes(k: TermKey) -> Seq<u8> {
    match k.code {
        TermKeyCode::Char(c) => if k.ctrl {
            seq![ctrl_byte(c)]
        } else if k.alt {
            seq![0x1bu8] + vstd::utf8::encode_utf8(seq![c])
        } else {
            vstd::utf8::encode_utf8(seq![c])
        },
        TermKeyCode::Enter => seq![0x0du8],
        TermKeyCode::Backspace => seq![0x7fu8],
        TermKeyCode::Tab => if k.shift {
            seq![0x1bu8, 0x5b, 0x5a]
        } else {
            seq![0x09u8]
        },
        TermKeyCode::Esc => seq![0x1bu8],
        TermKeyCode::Up => seq![0x1bu8, 0x5b, 0x41],
        TermKeyCode::Down => seq![0x1bu8, 0x5b, 0x42],
        TermKeyCode::Right => seq![0x1bu8, 0x5b, 0x43],
        TermKeyCode::Left => seq![0x1bu8, 0x5b, 0x44],
        TermKeyCode::Home => seq![0x1bu8, 0x5b, 0x48],
        TermKeyCode::End => seq![0x1bu8, 0x5b, 0x46],
        TermKeyCode::Insert => seq![0x1bu8, 0x5b, 0x32, 0x7e],
        TermKeyCode::Delete => seq![0x1bu8, 0x5b, 0x33, 0x7e],
        TermKeyCode::PageUp => seq![0x1bu8, 0x5b, 0x35, 0x7e],
        TermKeyCode::PageDown => seq![0x1bu8, 0x5b, 0x36, 0x7e],
        TermKeyCode::F(n) => function_key_bytes(n),
        TermKeyCode::Other => Seq::empty(),
    }
}

/// The character's bytes in UTF-8, as vstd's `encode_utf8` states them.
fn utf8_bytes(c: char) -> (r: Vec<u8>)
    ensures
        r@ == vstd::utf8::encode_utf8(seq![c]),
{
    let v = c as u32;
    let mut r: Vec<u8> = Vec::new();
    if v <= 0x7F {
        r.push((v & 0x7F) as u8);
    } else if v <= 0x7FF {
        r.push(0xC0 | ((v >> 6) & 0x1F) as u8);
        r.push(0x80 | (v & 0x3F) as u8);
    } else if v <= 0xFFFF && !(0xD800 <= v && v <= 0xDFFF) {
        r.push(0xE0 | ((v >> 12) & 0x0F) as u8);
        r.push(0x80 | ((v >> 6) & 0x3F) as u8);
        r.push(0x80 | (v & 0x3F) as u8);
    } else {
        r.push(0xF0 | ((v >> 18) & 0x7) as u8);
        r.push(0x80 | ((v >> 12) & 0x3F) as u8);
        r.push(0x80 | ((v >> 6) & 0x3F) as u8);
        r.push(0x80 | (v & 0x3F) as u8);
    }
    assert(seq![c].drop_first() =~= Seq::<char>::empty());
    assert(vstd::utf8::encode_utf8(seq![c]) =~= vstd::utf8::encode_scalar(v) + vstd::utf8::encode_utf8(
        Seq::<char>::empty(),
    ));
    assert(r@ =~= vstd::utf8::encode_scalar(v));
    r
}

/// The bytes of a short sequence.
fn bytes_of(a: u8, rest: &[u8]) -> (r: Vec<u8>)
    ensures
        r@ == seq![a] + rest@,
{
    let mut v: Vec<u8> = Vec::new();
    v.push(a);
    let mut i: usize = 0;
    while i < rest.len()
        invariant
            i <= rest@.len(),
            v@ == seq![a] + rest@.take(i as int),
        decreases rest@.len() - i,
    {
        v.push(rest[i]);
        i = i + 1;
        assert(v@ =~= seq![a] + rest@.take(i as int));
    }
    assert(rest@.take(rest@.len() as int) =~= rest@);
    v
}

/// The control byte of a character; see [`ctrl_byte`].
fn ctrl_byte_of(c: char) -> (r: u8)
    ensures
        r == ctrl_byte(c),
{
    let u = c as u32;
    if 'a' <= c && c <= 'z' {
        (u - 0x60) as u8
    } else if 'A' <= c && c <= 'Z' {
        (u - 0x40) as u8
    } else if c == '[' {
        0x1b
    } else if c == '\\' {
        0x1c
    } else if c == ']' {
        0x1d
    } else if c == '^' {
        0x1e
    } else if c == '_' {
        0x1f
    } else if c == '@' {
        0x00
    } else {
        (u % 256) as u8
    }
}

/// The bytes a key press sends to the remote shell; see [`key_bytes`].
/// Keys without bytes give an empty vector, which the caller skips.
pub fn key_to_bytes(key: TermKey) -> (r: Vec<u8>)
    ensures
        r@ == key_bytes(key),
{
    match key.code {
        TermKeyCode::Char(c) => {
            if key.ctrl {
                let mut v: Vec<u8> = Vec::new();
                v.push(ctrl_byte_of(c));
                assert(v@ =~= seq![ctrl_byte(c)]);
                v
            } else if key.alt {
                let b = utf8_bytes(c);
                bytes_of(0x1b, b.as_slice())
            } else {
                utf8_bytes(c)
            }
        },
        TermKeyCode::Enter => bytes_of(0x0d, &[]),
        TermKeyCode::Backspace => bytes_of(0x7f, &[]),
        TermKeyCode::Tab => if key.shift {
            bytes_of(0x1b, &[0x5b, 0x5a])
        } else {
            bytes_of(0x09, &[])
        },
        TermKeyCode::Esc => bytes_of(0x1b, &[]),
        TermKeyCode::Up => bytes_of(0x1b, &[0x5b, 0x41]),
        TermKeyCode::Down => bytes_of(0x1b, &[0x5b, 0x42]),
        TermKeyCode::Right => bytes_of(0x1b, &[0x5b, 0x43]),
        TermKeyCode::Left => bytes_of(0x1b, &[0x5b, 0x44]),
        TermKeyCode::Home => bytes_of(0x1b, &[0x5b, 0x48]),
        TermKeyCode::End => bytes_of(0x1b, &[0x5b, 0x46]),
        TermKeyCode::Insert => bytes_of(0x1b, &[0x5b, 0x32, 0x7e]),
        TermKeyCode::Delete => bytes_of(0x1b, &[0x5b, 0x33, 0x7e]),
        TermKeyCode::PageUp => bytes_of(0x1b, &[0x5b, 0x35, 0x7e]),
        TermKeyCode::PageDown => bytes_of(0x1b, &[0x5b, 0x36, 0x7e]),
        TermKeyCode::F(n) => {
            if n == 1 {
                bytes_of(0x1b, &[0x4f, 0x50])
            } else if n == 2 {
                bytes_of(0x1b, &[0x4f, 0x51])
            } else if n == 3 {
                bytes_of(0x1b, &[0x4f, 0x52])
            } else if n == 4 {
                bytes_of(0x1b, &[0x4f, 0x53])
            } else if n == 5 {
                bytes_of(0x1b, &[0x5b, 0x31, 0x35, 0x7e])
            } else if n == 6 {
                bytes_of(0x1b, &[0x5b, 0x31, 0x37, 0x7e])
            } else if n == 7 {
                bytes_of(0x1b, &[0x5b, 0x31, 0x38, 0x7e])
            } else if n == 8 {
                bytes_of(0x1b, &[0x5b, 0x31, 0x39, 0x7e])
            } else if n == 9 {
                bytes_of(0x1b, &[0x5b, 0x32, 0x30, 0x7e])
            } else if n == 10 {
                bytes_of(0x1b, &[0x5b, 0x32, 0x31, 0x7e])
            } else if n == 11 {
                bytes_of(0x1b, &[0x5b, 0x32, 0x33, 0x7e])
            } else if n == 12 {
                bytes_of(0x1b, &[0x5b, 0x32, 0x34, 0x7e])
            } else {
                Vec::new()
            }
        },
        TermKeyCode::Other => Vec::new(),
    }
}

} // verus!
