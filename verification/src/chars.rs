//! Character classes of the lexical grammar, and byte offsets of characters.

use unicode_xid::UnicodeXID;
use vstd::prelude::*;
use vstd::utf8::*;

verus! {

/// Whether `c` ends a line.
pub open spec fn spec_is_line_break(c: char) -> bool {
    c == '\n' || c == '\r' || c == '\u{2028}' || c == '\u{2029}'
}

/// Whether `c` ends a line.
#[verifier::when_used_as_spec(spec_is_line_break)]
pub fn is_line_break(c: char) -> (b: bool)
    ensures
        b == spec_is_line_break(c),
{
    c == '\n' || c == '\r' || c == '\u{2028}' || c == '\u{2029}'
}

/// Whether `c` is white space that does not end a line.
pub open spec fn spec_is_whitespace(c: char) -> bool {
    let u = c as u32;
    u == 0x09 || u == 0x0B || u == 0x0C || u == 0x20 || u == 0xA0 || u == 0xFEFF || u == 0x1680
        || (0x2000 <= u <= 0x200A) || u == 0x202F || u == 0x205F || u == 0x3000
}

/// Whether `c` is white space that does not end a line.
#[verifier::when_used_as_spec(spec_is_whitespace)]
pub fn is_whitespace(c: char) -> (b: bool)
    ensures
        b == spec_is_whitespace(c),
{
    let u: u32 = c as u32;
    u == 0x09 || u == 0x0B || u == 0x0C || u == 0x20 || u == 0xA0 || u == 0xFEFF || u == 0x1680
        || (0x2000 <= u && u <= 0x200A) || u == 0x202F || u == 0x205F || u == 0x3000
}

/// Whether `c` is one of the letters `a` to `z` and `A` to `Z`.
pub open spec fn spec_is_ascii_letter(c: char) -> bool {
    let u = c as u32;
    (0x61 <= u <= 0x7A) || (0x41 <= u <= 0x5A)
}

/// Whether `c` is one of the digits `0` to `9`.
pub open spec fn spec_is_decimal_digit(c: char) -> bool {
    0x30 <= c as u32 <= 0x39
}

/// Whether `c` is one of the digits `0` to `9`.
#[verifier::when_used_as_spec(spec_is_decimal_digit)]
pub fn is_decimal_digit(c: char) -> (b: bool)
    ensures
        b == spec_is_decimal_digit(c),
{
    let u: u32 = c as u32;
    0x30 <= u && u <= 0x39
}

/// The Unicode property `XID_Start` of a character beyond ASCII.
pub uninterp spec fn xid_start(c: char) -> bool;

/// The Unicode property `XID_Continue` of a character beyond ASCII.
pub uninterp spec fn xid_continue(c: char) -> bool;

/// Calls `UnicodeXID::is_xid_start` of the crate `unicode-xid`. The result is
/// what that crate's table says of `c`; nothing about the table is claimed.
#[verifier::external_body]
fn has_xid_start(c: char) -> (b: bool)
    ensures
        b == xid_start(c),
{
    UnicodeXID::is_xid_start(c)
}

/// Calls `UnicodeXID::is_xid_continue` of the crate `unicode-xid`. The result
/// is what that crate's table says of `c`; nothing about the table is claimed.
#[verifier::external_body]
fn has_xid_continue(c: char) -> (b: bool)
    ensures
        b == xid_continue(c),
{
    UnicodeXID::is_xid_continue(c)
}

/// Whether `c` can start an identifier: an ASCII letter, `$`, `_`, or a
/// character beyond ASCII with the property `XID_Start`.
pub open spec fn spec_is_ident_start(c: char) -> bool {
    if c as u32 <= 0x7F {
        spec_is_ascii_letter(c) || c == '$' || c == '_'
    } else {
        xid_start(c)
    }
}

/// Whether `c` can start an identifier.
#[verifier::when_used_as_spec(spec_is_ident_start)]
pub fn is_ident_start(c: char) -> (b: bool)
    ensures
        b == spec_is_ident_start(c),
{
    let u: u32 = c as u32;
    if u <= 0x7F {
        (0x61 <= u && u <= 0x7A) || (0x41 <= u && u <= 0x5A) || c == '$' || c == '_'
    } else {
        has_xid_start(c)
    }
}

/// Whether `c` can continue an identifier: an ASCII letter or digit, `$`,
/// `_`, one of the two zero-width joiners, or a character beyond ASCII with
/// the property `XID_Continue`.
pub open spec fn spec_is_ident_part(c: char) -> bool {
    if c as u32 <= 0x7F {
        spec_is_ascii_letter(c) || spec_is_decimal_digit(c) || c == '$' || c == '_'
    } else {
        c == '\u{200C}' || c == '\u{200D}' || xid_continue(c)
    }
}

/// Whether `c` can continue an identifier.
#[verifier::when_used_as_spec(spec_is_ident_part)]
pub fn is_ident_part(c: char) -> (b: bool)
    ensures
        b == spec_is_ident_part(c),
{
    let u: u32 = c as u32;
    if u <= 0x7F {
        (0x61 <= u && u <= 0x7A) || (0x41 <= u && u <= 0x5A) || (0x30 <= u && u <= 0x39) || c
            == '$' || c == '_'
    } else {
        c == '\u{200C}' || c == '\u{200D}' || has_xid_continue(c)
    }
}

/// The value of `c` as a digit in the given radix (at most 16), if it is one.
pub open spec fn spec_digit_value(c: char, radix: u32) -> Option<u32> {
    let u = c as u32;
    let v: int = if 0x30 <= u <= 0x39 {
        u - 0x30
    } else if 0x61 <= u <= 0x66 {
        u - 0x61 + 10
    } else if 0x41 <= u <= 0x46 {
        u - 0x41 + 10
    } else {
        16
    };
    if v < 16 && v < radix {
        Some(v as u32)
    } else {
        None
    }
}

/// The value of `c` as a digit in the given radix, if it is one.
#[verifier::when_used_as_spec(spec_digit_value)]
pub fn digit_value(c: char, radix: u32) -> (d: Option<u32>)
    ensures
        d == spec_digit_value(c, radix),
        d is Some ==> d->0 < radix && d->0 < 16,
{
    let u: u32 = c as u32;
    let v: u32 = if 0x30 <= u && u <= 0x39 {
        u - 0x30
    } else if 0x61 <= u && u <= 0x66 {
        u - 0x61 + 10
    } else if 0x41 <= u && u <= 0x46 {
        u - 0x41 + 10
    } else {
        16
    };
    if v < 16 && v < radix {
        Some(v)
    } else {
        None
    }
}

/// The number of bytes that `c` takes in UTF-8.
pub open spec fn spec_utf8_len(c: char) -> nat {
    let u = c as u32;
    if u < 0x80 {
        1
    } else if u < 0x800 {
        2
    } else if u < 0x10000 {
        3
    } else {
        4
    }
}

/// The number of bytes that `c` takes in UTF-8.
pub fn utf8_len(c: char) -> (n: u32)
    ensures
        n == spec_utf8_len(c),
        1 <= n <= 4,
{
    let u: u32 = c as u32;
    if u < 0x80 {
        1
    } else if u < 0x800 {
        2
    } else if u < 0x10000 {
        3
    } else {
        4
    }
}

/// The number of bytes that a text takes in UTF-8.
pub open spec fn byte_len(s: Seq<char>) -> nat
    decreases s.len(),
{
    if s.len() == 0 {
        0
    } else {
        byte_len(s.drop_last()) + spec_utf8_len(s.last())
    }
}

/// The byte offset at which the character with index `i` starts.
pub open spec fn byte_offset(s: Seq<char>, i: int) -> nat {
    byte_len(s.take(i))
}

/// Stepping over one character moves the byte offset by that character's width.
pub proof fn lemma_byte_offset_step(s: Seq<char>, i: int)
    requires
        0 <= i < s.len(),
    ensures
        byte_offset(s, i + 1) == byte_offset(s, i) + spec_utf8_len(s[i]),
        byte_offset(s, 0) == 0,
{
    assert(s.take(i + 1).drop_last() == s.take(i));
    assert(s.take(0).len() == 0);
}

/// Byte offsets grow with character indices, by at least one byte per character.
pub proof fn lemma_byte_offset_mono(s: Seq<char>, i: int, j: int)
    requires
        0 <= i <= j <= s.len(),
    ensures
        byte_offset(s, i) + (j - i) <= byte_offset(s, j),
        byte_offset(s, j) <= byte_offset(s, i) + 4 * (j - i),
    decreases j - i,
{
    if i < j {
        lemma_byte_offset_mono(s, i, j - 1);
        lemma_byte_offset_step(s, j - 1);
    }
}

/// The byte offset past the last character is the length of the whole text.
pub proof fn lemma_byte_offset_end(s: Seq<char>)
    ensures
        byte_offset(s, s.len() as int) == byte_len(s),
        byte_offset(s, 0) == 0,
{
    assert(s.take(s.len() as int) == s);
    assert(s.take(0).len() == 0);
}

/// The width of one character is the length of its encoding.
proof fn lemma_encode_scalar_len(c: char)
    ensures
        encode_scalar(c as u32).len() == spec_utf8_len(c),
{
    char_is_scalar(c);
}

/// Encoding a text with one more character appends that character's encoding.
proof fn lemma_encode_push(s: Seq<char>, c: char)
    ensures
        encode_utf8(s.push(c)) == encode_utf8(s) + encode_scalar(c as u32),
    decreases s.len(),
{
    if s.len() == 0 {
        assert(s.push(c).drop_first() == s);
        assert(encode_utf8(s) == Seq::<u8>::empty());
        assert(encode_utf8(s.push(c)) == encode_scalar(c as u32) + encode_utf8(s));
        assert(encode_scalar(c as u32) + Seq::<u8>::empty() == Seq::<u8>::empty()
            + encode_scalar(c as u32));
    } else {
        lemma_encode_push(s.drop_first(), c);
        assert(s.push(c).drop_first() == s.drop_first().push(c));
        assert(s.push(c)[0] == s[0]);
        assert(encode_scalar(s[0] as u32) + (encode_utf8(s.drop_first()) + encode_scalar(
            c as u32,
        )) == (encode_scalar(s[0] as u32) + encode_utf8(s.drop_first())) + encode_scalar(
            c as u32,
        ));
    }
}

/// `byte_len` is the length of the UTF-8 encoding.
pub proof fn lemma_byte_len_is_encoded_len(s: Seq<char>)
    ensures
        byte_len(s) == encode_utf8(s).len(),
    decreases s.len(),
{
    if s.len() > 0 {
        lemma_byte_len_is_encoded_len(s.drop_last());
        lemma_encode_push(s.drop_last(), s.last());
        lemma_encode_scalar_len(s.last());
        assert(s.drop_last().push(s.last()) == s);
    }
}

} // verus!
