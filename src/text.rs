//! Character and string facts the terminal relies on from std and from the
//! unicode-width crate.
use vstd::prelude::*;

verus! {

/// The display width that unicode-width gives a character: `None` for
/// control characters, otherwise the number of columns it takes.
pub uninterp spec fn width_of(c: char) -> Option<usize>;

/// Relies on unicode_width::UnicodeWidthChar::width, a function of the
/// character alone: printable ASCII is one column wide, C0 and C1 controls
/// and DEL have no width.
#[verifier::external_body]
pub(crate) fn char_width(c: char) -> (r: Option<usize>)
    ensures
        r == width_of(c),
        0x20 <= c as u32 <= 0x7E ==> r == Some(1usize),
        (c as u32) < 0x20 || 0x7F <= c as u32 <= 0x9F ==> r is None,
{
    unicode_width::UnicodeWidthChar::width(c)
}

/// Relies on String::push: the character is appended.
#[verifier::external_body]
pub(crate) fn push_char(s: &mut String, c: char)
    ensures
        final(s)@ == old(s)@.push(c),
{
    s.push(c)
}

/// The text that String::from_utf8_lossy makes of a byte string, with
/// U+FFFD in place of each malformed part.
pub uninterp spec fn utf8_lossy(b: Seq<u8>) -> Seq<char>;

/// Relies on String::from_utf8_lossy, a function of the bytes alone;
/// well-formed UTF-8 decodes to its characters unchanged.
#[verifier::external_body]
pub(crate) fn decode_lossy(b: &[u8]) -> (r: String)
    ensures
        r@ == utf8_lossy(b@),
        vstd::utf8::valid_utf8(b@) ==> r@ == vstd::utf8::decode_utf8(b@),
{
    String::from_utf8_lossy(b).into_owned()
}

} // verus!
