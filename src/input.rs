//! The key encoder: a key press with its modifiers becomes the bytes an
//! xterm-family host expects on its input.
use vstd::prelude::*;

verus! {

/// A key, as the terminal host distinguishes them.
#[derive(Clone, Copy, Debug, PartialEq, Eq, Structural)]
pub enum KeyCode {
    Char(char),
    Enter,
    Backspace,
    Tab,
    BackTab,
    Esc,
    Insert,
    Delete,
    Home,
    End,
    PageUp,
    PageDown,
    Up,
    Down,
    Left,
    Right,
    /// A function key, F1 to F12 and beyond.
    F(u8),
    /// Any key that has no encoding.
    Null,
}

/// The modifiers held with a key. `other` stands for any modifier beyond
/// Shift, Alt and Control (Super, Hyper, Meta).
#[derive(Clone, Copy, Debug, PartialEq, Eq, Structural)]
pub struct KeyModifiers {
    pub shift: bool,
    pub control: bool,
    pub alt: bool,
    pub other: bool,
}

impl KeyModifiers {
    /// No modifier held.
    pub fn none() -> (r: KeyModifiers)
        ensures
            r == no_modifiers(),
    {
        KeyModifiers { shift: false, control: false, alt: false, other: false }
    }
}

pub open spec fn no_modifiers() -> KeyModifiers {
    KeyModifiers { shift: false, control: false, alt: false, other: false }
}

/// A key press.
#[derive(Clone, Copy, Debug, PartialEq, Eq, Structural)]
pub struct KeyEvent {
    pub code: KeyCode,
    pub modifiers: KeyModifiers,
}

/// The first character of the upper-case mapping of `c`, as
/// char::to_uppercase gives it.
pub uninterp spec fn upper_of(c: char) -> char;

/// Relies on char::to_uppercase, whose result depends on the character
/// alone; its first character is taken, as a single key yields one.
#[verifier::external_body]
fn to_upper(c: char) -> (r: char)
    ensures
        r == upper_of(c),
{
    c.to_uppercase().next().unwrap_or(c)
}

/// The UTF-8 encoding of `c`.
pub open spec fn utf8_of(c: char) -> Seq<u8> {
    vstd::utf8::encode_utf8(seq![c])
}

/// Relies on char::encode_utf8: the UTF-8 bytes of the character.
#[verifier::external_body]
fn encode_char(c: char) -> (r: Vec<u8>)
    ensures
        r@ == utf8_of(c),
{
    let mut buf = [0u8; 4];
    c.encode_utf8(&mut buf).as_bytes().to_vec()
}

/// The xterm modifier parameter: 1, plus 1 for Shift, 2 for Alt and 4 for
/// Control.
pub open spec fn modifier_param(m: KeyModifiers) -> u8 {
    (1 + (if m.shift {
        1int
    } else {
        0
    }) + (if m.alt {
        2int
    } else {
        0
    }) + (if m.control {
        4int
    } else {
        0
    })) as u8
}

/// The control byte for `c`: its ASCII lower case, minus 0x60, modulo 256;
/// Ctrl-A is 1 and Ctrl-Z is 26.
pub open spec fn ctrl_byte(c: char) -> u8 {
    let v = c as u32;
    let lower = if 0x41 <= v <= 0x5A {
        v + 32
    } else {
        v as int
    };
    ((lower % 256 + 256 - 0x60) % 256) as u8
}

pub open spec fn esc() -> u8 {
    0x1B
}

/// `ESC [ f` without modifiers, `ESC [ 1 ; m f` with them.
pub open spec fn letter_seq(m: u8, f: u8) -> Seq<u8> {
    if m == 1 {
        seq![0x1Bu8, 0x5Bu8, f]
    } else {
        seq![0x1Bu8, 0x5Bu8, 0x31u8, 0x3Bu8, (0x30 + m) as u8, f]
    }
}

/// `ESC [ n ~` without modifiers, `ESC [ n ; m ~` with them.
pub open spec fn tilde_seq(n: Seq<u8>, m: u8) -> Seq<u8> {
    if m == 1 {
        seq![0x1Bu8, 0x5Bu8] + n + seq![0x7Eu8]
    } else {
        seq![0x1Bu8, 0x5Bu8] + n + seq![0x3Bu8, (0x30 + m) as u8, 0x7Eu8]
    }
}

/// F1 to F4: `ESC O f` without modifiers, `ESC [ 1 ; m f` with them.
pub open spec fn ss3_seq(m: u8, f: u8) -> Seq<u8> {
    if m == 1 {
        seq![0x1Bu8, 0x4Fu8, f]
    } else {
        letter_seq(m, f)
    }
}

/// The number that stands for function key F5 to F12.
pub open spec fn function_number(n: u8) -> Seq<u8> {
    if n == 5 {
        seq![0x31u8, 0x35u8]
    } else if n == 6 {
        seq![0x31u8, 0x37u8]
    } else if n == 7 {
        seq![0x31u8, 0x38u8]
    } else if n == 8 {
        seq![0x31u8, 0x39u8]
    } else if n == 9 {
        seq![0x32u8, 0x30u8]
    } else if n == 10 {
        seq![0x32u8, 0x31u8]
    } else if n == 11 {
        seq![0x32u8, 0x33u8]
    } else {
        seq![0x32u8, 0x34u8]
    }
}

pub open spec fn char_key(c: char, m: KeyModifiers) -> Seq<u8> {
    let plain = !m.control && !m.alt && !m.other;
    if plain {
        utf8_of(if m.shift {
            upper_of(c)
        } else {
            c
        })
    } else if m == (KeyModifiers { control: true, ..no_modifiers() }) {
        seq![ctrl_byte(c)]
    } else if m == (KeyModifiers { alt: true, ..no_modifiers() }) {
        seq![esc()] + utf8_of(c)
    } else if m == (KeyModifiers { control: true, alt: true, ..no_modifiers() }) {
        seq![esc(), ctrl_byte(c)]
    } else {
        utf8_of(c)
    }
}

/// The bytes for a key press; empty for a key with no encoding.
pub open spec fn key_bytes(k: KeyEvent) -> Seq<u8> {
    let m = modifier_param(k.modifiers);
    match k.code {
        KeyCode::Char(c) => char_key(c, k.modifiers),
        KeyCode::Enter => seq![0x0Du8],
        KeyCode::Backspace => if k.modifiers.alt {
            seq![0x1Bu8, 0x7Fu8]
        } else {
            seq![0x7Fu8]
        },
        KeyCode::Tab => if k.modifiers.shift {
            seq![0x1Bu8, 0x5Bu8, 0x5Au8]
        } else {
            seq![0x09u8]
        },
        KeyCode::BackTab => seq![0x1Bu8, 0x5Bu8, 0x5Au8],
        KeyCode::Esc => seq![0x1Bu8],
        KeyCode::Insert => tilde_seq(seq![0x32u8], m),
        KeyCode::Delete => tilde_seq(seq![0x33u8], m),
        KeyCode::PageUp => tilde_seq(seq![0x35u8], m),
        KeyCode::PageDown => tilde_seq(seq![0x36u8], m),
        KeyCode::Up => letter_seq(m, 0x41),
        KeyCode::Down => letter_seq(m, 0x42),
        KeyCode::Right => letter_seq(m, 0x43),
        KeyCode::Left => letter_seq(m, 0x44),
        KeyCode::Home => letter_seq(m, 0x48),
        KeyCode::End => letter_seq(m, 0x46),
        KeyCode::F(n) => if n == 1 {
            ss3_seq(m, 0x50)
        } else if n == 2 {
            ss3_seq(m, 0x51)
        } else if n == 3 {
            ss3_seq(m, 0x52)
        } else if n == 4 {
            ss3_seq(m, 0x53)
        } else if 5 <= n <= 12 {
            tilde_seq(function_number(n), m)
        } else {
            Seq::empty()
        },
        KeyCode::Null => Seq::empty(),
    }
}

fn param_of(m: KeyModifiers) -> (r: u8)
    ensures
        r == modifier_param(m),
        1 <= r <= 8,
{
    let mut p: u8 = 1;
    if m.shift {
        p = p + 1;
    }
    if m.alt {
        p = p + 2;
    }
    if m.control {
        p = p + 4;
    }
    p
}

fn ctrl_of(c: char) -> (r: u8)
    ensures
        r == ctrl_byte(c),
{
    let v = c as u32;
    let lower: u32 = if 0x41 <= v && v <= 0x5A {
        v + 32
    } else {
        v
    };
    ((lower % 256 + 256 - 0x60) % 256) as u8
}

fn letter_key(m: u8, f: u8) -> (r: Vec<u8>)
    requires
        1 <= m <= 8,
    ensures
        r@ == letter_seq(m, f),
{
    let mut v: Vec<u8> = Vec::new();
    v.push(0x1B);
    v.push(0x5B);
    if m != 1 {
        v.push(0x31);
        v.push(0x3B);
        v.push(0x30 + m);
    }
    v.push(f);
    assert(v@ =~= letter_seq(m, f));
    v
}

fn tilde_key(n: &Vec<u8>, m: u8) -> (r: Vec<u8>)
    requires
        1 <= m <= 8,
    ensures
        r@ == tilde_seq(n@, m),
{
    let mut v: Vec<u8> = Vec::new();
    v.push(0x1B);
    v.push(0x5B);
    let mut i: usize = 0;
    while i < n.len()
        invariant
            i <= n@.len(),
            v@ == seq![0x1Bu8, 0x5Bu8] + n@.subrange(0, i as int),
        decreases n.len() - i,
    {
        v.push(n[i]);
        i = i + 1;
        assert(v@ =~= seq![0x1Bu8, 0x5Bu8] + n@.subrange(0, i as int));
    }
    assert(n@.subrange(0, n@.len() as int) =~= n@);
    if m != 1 {
        v.push(0x3B);
        v.push(0x30 + m);
    }
    v.push(0x7E);
    assert(v@ =~= tilde_seq(n@, m));
    v
}

fn ss3_key(m: u8, f: u8) -> (r: Vec<u8>)
    requires
        1 <= m <= 8,
    ensures
        r@ == ss3_seq(m, f),
{
    if m == 1 {
        let mut v: Vec<u8> = Vec::new();
        v.push(0x1B);
        v.push(0x4F);
        v.push(f);
        assert(v@ =~= ss3_seq(m, f));
        v
    } else {
        letter_key(m, f)
    }
}

fn function_digits(n: u8) -> (r: Vec<u8>)
    ensures
        r@ == function_number(n),
{
    let (a, b): (u8, u8) = if n == 5 {
        (0x31, 0x35)
    } else if n == 6 {
        (0x31, 0x37)
    } else if n == 7 {
        (0x31, 0x38)
    } else if n == 8 {
        (0x31, 0x39)
    } else if n == 9 {
        (0x32, 0x30)
    } else if n == 10 {
        (0x32, 0x31)
    } else if n == 11 {
        (0x32, 0x33)
    } else {
        (0x32, 0x34)
    };
    let mut v: Vec<u8> = Vec::new();
    v.push(a);
    v.push(b);
    assert(v@ =~= function_number(n));
    v
}

fn one_byte(b: u8) -> (r: Vec<u8>)
    ensures
        r@ == seq![b],
{
    let mut v: Vec<u8> = Vec::new();
    v.push(b);
    assert(v@ =~= seq![b]);
    v
}

fn two_bytes(a: u8, b: u8) -> (r: Vec<u8>)
    ensures
        r@ == seq![a, b],
{
    let mut v: Vec<u8> = Vec::new();
    v.push(a);
    v.push(b);
    assert(v@ =~= seq![a, b]);
    v
}

fn three_bytes(a: u8, b: u8, c: u8) -> (r: Vec<u8>)
    ensures
        r@ == seq![a, b, c],
{
    let mut v: Vec<u8> = Vec::new();
    v.push(a);
    v.push(b);
    v.push(c);
    assert(v@ =~= seq![a, b, c]);
    v
}

fn char_bytes(c: char, m: KeyModifiers) -> (r: Vec<u8>)
    ensures
        r@ == char_key(c, m),
{
    if !m.control && !m.alt && !m.other {
        if m.shift {
            encode_char(to_upper(c))
        } else {
            encode_char(c)
        }
    } else if m.control && !m.alt && !m.shift && !m.other {
        one_byte(ctrl_of(c))
    } else if m.alt && !m.control && !m.shift && !m.other {
        let mut v = one_byte(0x1B);
        let mut u = encode_char(c);
        v.append(&mut u);
        v
    } else if m.control && m.alt && !m.shift && !m.other {
        two_bytes(0x1B, ctrl_of(c))
    } else {
        encode_char(c)
    }
}

/// The bytes to send for a key press; empty for a key with no encoding.
pub fn encode_key(key: KeyEvent) -> (r: Vec<u8>)
    ensures
        r@ == key_bytes(key),
{
    let m = param_of(key.modifiers);
    match key.code {
        KeyCode::Char(c) => char_bytes(c, key.modifiers),
        KeyCode::Enter => one_byte(0x0D),
        KeyCode::Backspace => if key.modifiers.alt {
            two_bytes(0x1B, 0x7F)
        } else {
            one_byte(0x7F)
        },
        KeyCode::Tab => if key.modifiers.shift {
            three_bytes(0x1B, 0x5B, 0x5A)
        } else {
            one_byte(0x09)
        },
        KeyCode::BackTab => three_bytes(0x1B, 0x5B, 0x5A),
        KeyCode::Esc => one_byte(0x1B),
        KeyCode::Insert => tilde_key(&one_byte(0x32), m),
        KeyCode::Delete => tilde_key(&one_byte(0x33), m),
        KeyCode::PageUp => tilde_key(&one_byte(0x35), m),
        KeyCode::PageDown => tilde_key(&one_byte(0x36), m),
        KeyCode::Up => letter_key(m, 0x41),
        KeyCode::Down => letter_key(m, 0x42),
        KeyCode::Right => letter_key(m, 0x43),
        KeyCode::Left => letter_key(m, 0x44),
        KeyCode::Home => letter_key(m, 0x48),
        KeyCode::End => letter_key(m, 0x46),
        KeyCode::F(n) => if n == 1 {
            ss3_key(m, 0x50)
        } else if n == 2 {
            ss3_key(m, 0x51)
        } else if n == 3 {
            ss3_key(m, 0x52)
        } else if n == 4 {
            ss3_key(m, 0x53)
        } else if 5 <= n && n <= 12 {
            tilde_key(&function_digits(n), m)
        } else {
            Vec::new()
        },
        KeyCode::Null => Vec::new(),
    }
}

/// The byte that interrupts the program, Ctrl-C.
pub fn interrupt_bytes() -> (r: Vec<u8>)
    ensures
        r@ == seq![0x03u8],
{
    one_byte(0x03)
}

/// The focus report: `ESC [ I` when focus is gained, `ESC [ O` when lost.
pub fn focus_bytes(gained: bool) -> (r: Vec<u8>)
    ensures
        r@ == if gained {
            seq![0x1Bu8, 0x5Bu8, 0x49u8]
        } else {
            seq![0x1Bu8, 0x5Bu8, 0x4Fu8]
        },
{
    if gained {
        three_bytes(0x1B, 0x5B, 0x49)
    } else {
        three_bytes(0x1B, 0x5B, 0x4F)
    }
}


/// Pasted text: its UTF-8 bytes, between `ESC [ 200 ~` and `ESC [ 201 ~`
/// when the host asked for bracketed paste.
pub open spec fn paste_seq(text: Seq<char>, bracketed: bool) -> Seq<u8> {
    if bracketed {
        seq![0x1Bu8, 0x5Bu8, 0x32u8, 0x30u8, 0x30u8, 0x7Eu8] + vstd::utf8::encode_utf8(text) + seq![
            0x1Bu8,
            0x5Bu8,
            0x32u8,
            0x30u8,
            0x31u8,
            0x7Eu8,
        ]
    } else {
        vstd::utf8::encode_utf8(text)
    }
}

fn bracket(last: u8) -> (r: Vec<u8>)
    ensures
        r@ == seq![0x1Bu8, 0x5Bu8, 0x32u8, 0x30u8, last, 0x7Eu8],
{
    let mut v: Vec<u8> = Vec::new();
    v.push(0x1B);
    v.push(0x5B);
    v.push(0x32);
    v.push(0x30);
    v.push(last);
    v.push(0x7E);
    assert(v@ =~= seq![0x1Bu8, 0x5Bu8, 0x32u8, 0x30u8, last, 0x7Eu8]);
    v
}

/// The bytes to send for pasted text.
pub fn paste_bytes(text: &str, bracketed: bool) -> (r: Vec<u8>)
    ensures
        r@ == paste_seq(text@, bracketed),
{
    let body = text.as_bytes();
    let mut out: Vec<u8> = if bracketed {
        bracket(0x30)
    } else {
        Vec::new()
    };
    let ghost start = out@;
    let mut i: usize = 0;
    while i < body.len()
        invariant
            i <= body@.len(),
            out@ == start + body@.subrange(0, i as int),
        decreases body.len() - i,
    {
        out.push(body[i]);
        i = i + 1;
        assert(out@ =~= start + body@.subrange(0, i as int));
    }
    assert(body@.subrange(0, body@.len() as int) =~= body@);
    if bracketed {
        let mut tail = bracket(0x31);
        out.append(&mut tail);
    }
    assert(out@ =~= paste_seq(text@, bracketed));
    out
}

} // verus!
