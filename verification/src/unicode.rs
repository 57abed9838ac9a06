use vstd::prelude::*;

verus! {

/// The display width that the crate `unicode-width` gives the character
/// `c`, in columns; nothing for a control character.
pub uninterp spec fn char_width(c: char) -> Option<usize>;

/// Calls `unicode_width::UnicodeWidthChar::width`. Its result is a
/// function of the character alone. The crate's source shows three facts
/// that are stated here: a printable ASCII character is one column wide;
/// the control characters of both control sets, and the delete character,
/// have no width; every character from U+00A0 on has one.
#[verifier::external_body]
pub(crate) fn display_width(c: char) -> (w: Option<usize>)
    ensures
        w == char_width(c),
        0x20 <= c as u32 && (c as u32) < 0x7f ==> w == Some(1usize),
        (c as u32) < 0x20 || (0x7f <= c as u32 && (c as u32) < 0xa0) ==> w is None,
        c as u32 >= 0xa0 ==> w is Some,
{
    unicode_width::UnicodeWidthChar::width(c)
}

/// The text that `String::from_utf8_lossy` makes of `bytes`: their
/// characters, with the replacement character in place of what is no
/// UTF-8.
pub uninterp spec fn lossy_text(bytes: Seq<u8>) -> Seq<char>;

/// Calls `String::from_utf8_lossy`. Its result is a function of the bytes
/// alone; of bytes that are valid UTF-8 it is the text that they encode.
#[verifier::external_body]
pub(crate) fn text_of_bytes(bytes: &[u8]) -> (text: String)
    ensures
        text@ == lossy_text(bytes@),
        vstd::utf8::valid_utf8(bytes@) ==> text@ == vstd::utf8::decode_utf8(bytes@),
{
    String::from_utf8_lossy(bytes).into_owned()
}

} // verus!
