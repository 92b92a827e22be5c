//! Percent-encoding of the path segments of a URL.
//!
//! A segment is encoded over its UTF-8 bytes: a letter or digit of ASCII and
//! the bytes `_`, `.` and `-` stand for themselves, every other byte becomes
//! `%` and its two upper-case hexadecimal digits.

use vstd::prelude::*;
use vstd::string::StringSliceAdditionalSpecFns;
use vstd::utf8::{encode_utf8, is_ascii_chars_encode_utf8};

verus! {

/// `String::push` of the standard library: the text afterwards is the text
/// before with `c` added at its end.
pub assume_specification[ String::push ](text: &mut String, c: char)
    ensures
        final(text)@ == old(text)@.push(c),
;

/// Whether a byte is written into a segment as it is.
pub open spec fn is_unreserved(b: u8) -> bool {
    ||| 'A' as u8 <= b <= 'Z' as u8
    ||| 'a' as u8 <= b <= 'z' as u8
    ||| '0' as u8 <= b <= '9' as u8
    ||| b == '_' as u8
    ||| b == '.' as u8
    ||| b == '-' as u8
}

/// The upper-case hexadecimal digit for a number below sixteen.
pub open spec fn hex_digit(n: u8) -> char
    recommends
        n < 16,
{
    if n < 10 {
        ('0' as u8 + n) as char
    } else {
        ('A' as u8 + (n - 10)) as char
    }
}

/// What one byte of a segment becomes.
pub open spec fn escaped_byte(b: u8) -> Seq<char> {
    if is_unreserved(b) {
        seq![b as char]
    } else {
        seq!['%', hex_digit(b / 16), hex_digit(b % 16)]
    }
}

/// What a run of bytes becomes: each byte's encoding, in order.
pub open spec fn escaped_bytes(bytes: Seq<u8>) -> Seq<char>
    decreases bytes.len(),
{
    if bytes.len() == 0 {
        Seq::empty()
    } else {
        escaped_bytes(bytes.drop_last()) + escaped_byte(bytes.last())
    }
}

/// The percent-encoding of a segment.
pub open spec fn escaped_segment(segment: Seq<char>) -> Seq<char> {
    escaped_bytes(encode_utf8(segment))
}

/// Whether a character needs no encoding.
pub open spec fn is_plain_char(c: char) -> bool {
    ||| 'A' <= c <= 'Z'
    ||| 'a' <= c <= 'z'
    ||| '0' <= c <= '9'
    ||| c == '_'
    ||| c == '.'
    ||| c == '-'
}

fn stays(b: u8) -> (plain: bool)
    ensures
        plain == is_unreserved(b),
{
    ('A' as u8 <= b && b <= 'Z' as u8) || ('a' as u8 <= b && b <= 'z' as u8) || ('0' as u8 <= b
        && b <= '9' as u8) || b == '_' as u8 || b == '.' as u8 || b == '-' as u8
}

fn digit_of(n: u8) -> (c: char)
    requires
        n < 16,
    ensures
        c == hex_digit(n),
{
    if n < 10 {
        ('0' as u8 + n) as char
    } else {
        ('A' as u8 + (n - 10)) as char
    }
}

/// Appends the percent-encoding of `segment` to `out`.
pub fn push_escaped(out: &mut String, segment: &str)
    ensures
        final(out)@ == old(out)@ + escaped_segment(segment@),
{
    let bytes = segment.as_bytes();
    let mut i: usize = 0;
    while i < bytes.len()
        invariant
            i <= bytes.len(),
            bytes@ == encode_utf8(segment@),
            out@ == old(out)@ + escaped_bytes(bytes@.take(i as int)),
        decreases bytes.len() - i,
    {
        let b = bytes[i];
        proof {
            let next = bytes@.take(i + 1);
            assert(next.drop_last() == bytes@.take(i as int));
            assert(next.last() == b);
        }
        if stays(b) {
            out.push(b as char);
            assert(out@ == old(out)@ + escaped_bytes(bytes@.take(i + 1)));
        } else {
            out.push('%');
            out.push(digit_of(b / 16));
            out.push(digit_of(b % 16));
            assert(out@ == old(out)@ + escaped_bytes(bytes@.take(i + 1)));
        }
        i += 1;
    }
    assert(bytes@.take(i as int) == bytes@);
}

/// A text with no byte to encode.
proof fn lemma_plain_bytes(bytes: Seq<u8>)
    requires
        forall|i: int| 0 <= i < bytes.len() ==> is_unreserved(#[trigger] bytes[i]),
    ensures
        escaped_bytes(bytes) == Seq::new(bytes.len(), |i: int| bytes[i] as char),
    decreases bytes.len(),
{
    if bytes.len() > 0 {
        lemma_plain_bytes(bytes.drop_last());
    }
}

/// A segment made of letters and digits of ASCII, `_`, `.` and `-` alone is
/// its own encoding.
pub proof fn lemma_plain_segment_unchanged(segment: Seq<char>)
    requires
        forall|i: int| 0 <= i < segment.len() ==> is_plain_char(#[trigger] segment[i]),
    ensures
        escaped_segment(segment) == segment,
{
    assert forall|i: int| 0 <= i < segment.len() implies '\0' <= #[trigger] segment[i]
        <= '\u{7f}' by {
        assert(is_plain_char(segment[i]));
    }
    is_ascii_chars_encode_utf8(segment);
    let bytes = encode_utf8(segment);
    assert forall|i: int| 0 <= i < bytes.len() implies is_unreserved(#[trigger] bytes[i]) by {
        assert(is_plain_char(segment[i]));
    }
    lemma_plain_bytes(bytes);
    assert forall|i: int| 0 <= i < segment.len() implies (bytes[i] as char) == segment[i] by {
        assert(is_plain_char(segment[i]));
    }
    assert(escaped_segment(segment) =~= segment);
}

} // verus!
