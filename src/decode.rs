//! Turning raw bytes and key codes into input tokens, and characters into bytes.

use vstd::prelude::*;
use vstd::utf8::*;
use crate::{InputToken, LibError};

verus! {

/// Relies on `char::from_u32`: it yields a `char` exactly for Unicode scalar values,
/// and that `char` has the given code.
pub assume_specification[ core::char::from_u32 ](i: u32) -> (r: Option<char>)
    ensures
        r is Some <==> is_scalar(i),
        r matches Some(c) ==> c as u32 == i,
;

/// True when `b` is a UTF-8 continuation byte (`10xxxxxx`).
fn is_continuation(b: u8) -> (r: bool)
    ensures
        r == is_continuation_byte(b),
{
    0x80 <= b && b <= 0xbf
}

/// The lower-case hexadecimal digit for a value below sixteen.
pub open spec fn hex_digit(d: u8) -> char {
    if d < 10 {
        (d + 48) as u8 as char
    } else {
        (d + 87) as u8 as char
    }
}

/// Each byte as a space and two hexadecimal digits.
pub open spec fn byte_listing(b: Seq<u8>) -> Seq<char>
    decreases b.len(),
{
    if b.len() == 0 {
        seq![]
    } else {
        byte_listing(b.drop_last()) + seq![' ', hex_digit(b.last() / 16), hex_digit(b.last() % 16)]
    }
}

/// The message of the error for bytes that do not start with a UTF-8 scalar.
pub open spec fn invalid_message(b: Seq<u8>) -> Seq<char> {
    "invalid UTF-8 sequence:"@ + byte_listing(b)
}

fn hex_char(d: u8) -> (c: char)
    requires
        d < 16,
    ensures
        c == hex_digit(d),
{
    if d < 10 {
        (d + 48) as char
    } else {
        (d + 87) as char
    }
}

/// The error for a byte sequence that does not start with a complete UTF-8
/// scalar; it lists the bytes.
fn invalid_sequence(buf: &[u8]) -> (e: LibError)
    ensures
        e matches LibError::InvalidCharacter(m) && m@ == invalid_message(buf@),
{
    let mut text = crate::file_input::chars_of("invalid UTF-8 sequence:");
    let ghost head = text@;
    let mut i: usize = 0;
    while i < buf.len()
        invariant
            i <= buf@.len(),
            head == "invalid UTF-8 sequence:"@,
            text@ == head + byte_listing(buf@.take(i as int)),
        decreases buf@.len() - i,
    {
        let b = buf[i];
        text.push(' ');
        text.push(hex_char(b / 16));
        text.push(hex_char(b % 16));
        assert(buf@.take(i + 1).drop_last() =~= buf@.take(i as int));
        i = i + 1;
        assert(text@ =~= head + byte_listing(buf@.take(i as int)));
    }
    assert(buf@.take(i as int) =~= buf@);
    LibError::InvalidCharacter(crate::string_from_chars(&text))
}

/// Decodes the first Unicode scalar value of `buf`, reporting its byte length.
/// Fails with `InvalidCharacter`, listing the bytes, when `buf` does not begin
/// with a complete, well-formed UTF-8 encoding (a truncated sequence included).
pub fn decode_first_char(buf: &[u8]) -> (r: Result<(char, usize), LibError>)
    ensures
        r is Ok <==> (buf@.len() > 0 && valid_first_scalar(buf@)),
        r matches Ok((c, n)) ==> c as u32 == decode_first_scalar(buf@) && n as int
            == length_of_first_scalar(buf@),
        r matches Err(e) ==> e matches LibError::InvalidCharacter(m) && m@ == invalid_message(buf@),
{
    let n = buf.len();
    if n == 0 {
        return Err(invalid_sequence(buf));
    }
    let b0 = buf[0];
    let cp: u32;
    let len: usize;
    if b0 <= 0x7f {
        cp = (b0 & 0x7F) as u32;
        len = 1;
    } else if 0xc0 <= b0 && b0 <= 0xdf {
        if n < 2 || !is_continuation(buf[1]) {
            return Err(invalid_sequence(buf));
        }
        let b1 = buf[1];
        cp = (((b0 & 0x1F) as u32) << 6) | ((b1 & 0x3f) as u32);
        assert((((b0 & 0x1F) as u32) << 6) | ((b1 & 0x3f) as u32) <= 0x7ff) by (bit_vector);
        if cp < 0x80 {
            return Err(invalid_sequence(buf));
        }
        len = 2;
    } else if 0xe0 <= b0 && b0 <= 0xef {
        if n < 3 || !is_continuation(buf[1]) || !is_continuation(buf[2]) {
            return Err(invalid_sequence(buf));
        }
        let b1 = buf[1];
        let b2 = buf[2];
        cp = (((b0 & 0x0F) as u32) << 12) | (((b1 & 0x3f) as u32) << 6) | ((b2 & 0x3f) as u32);
        assert((((b0 & 0x0F) as u32) << 12) | (((b1 & 0x3f) as u32) << 6) | ((b2 & 0x3f) as u32)
            <= 0xffff) by (bit_vector);
        if cp < 0x800 || (0xD800 <= cp && cp <= 0xDFFF) {
            return Err(invalid_sequence(buf));
        }
        len = 3;
    } else if 0xf0 <= b0 && b0 <= 0xf7 {
        if n < 4 || !is_continuation(buf[1]) || !is_continuation(buf[2]) || !is_continuation(
            buf[3],
        ) {
            return Err(invalid_sequence(buf));
        }
        let b1 = buf[1];
        let b2 = buf[2];
        let b3 = buf[3];
        cp = (((b0 & 0x07) as u32) << 18) | (((b1 & 0x3f) as u32) << 12) | (((b2 & 0x3f) as u32)
            << 6) | ((b3 & 0x3f) as u32);
        if cp < 0x10000 || cp > 0x10ffff {
            return Err(invalid_sequence(buf));
        }
        len = 4;
    } else {
        return Err(invalid_sequence(buf));
    }
    match core::char::from_u32(cp) {
        Some(c) => Ok((c, len)),
        None => Err(invalid_sequence(buf)),
    }
}

/// Appends the UTF-8 encoding of `c` to `o`.
pub fn push_utf8(o: &mut Vec<u8>, c: char)
    ensures
        final(o)@ == old(o)@ + encode_scalar(c as u32),
{
    proof {
        char_is_scalar(c);
    }
    let v = c as u32;
    if v <= 0x7f {
        o.push((v & 0x7F) as u8);
    } else if v <= 0x7ff {
        o.push(0xC0 | ((v >> 6) & 0x1F) as u8);
        o.push(0x80 | (v & 0x3F) as u8);
    } else if v <= 0xffff {
        o.push(0xE0 | ((v >> 12) & 0x0F) as u8);
        o.push(0x80 | ((v >> 6) & 0x3F) as u8);
        o.push(0x80 | (v & 0x3F) as u8);
    } else {
        o.push(0xF0 | ((v >> 18) & 0x7) as u8);
        o.push(0x80 | ((v >> 12) & 0x3F) as u8);
        o.push(0x80 | ((v >> 6) & 0x3F) as u8);
        o.push(0x80 | (v & 0x3F) as u8);
    }
    assert(final(o)@ =~= old(o)@ + encode_scalar(c as u32));
}

/// The token for one read of a byte source: end of input when nothing was
/// read, else the first character of the bytes read.
pub open spec fn read_token(buf: Seq<u8>) -> InputToken {
    if buf.len() == 0 {
        InputToken::EOF
    } else {
        InputToken::Character(decode_first_scalar(buf) as char)
    }
}

/// Decides the token for the bytes that one read of a byte source returned
/// (at most four are asked for), and how many of them it used; the caller
/// pushes the rest back to the source. An empty read is the end of input; a
/// read that does not start with a complete UTF-8 scalar is `InvalidCharacter`.
pub fn token_from_read(buf: &[u8]) -> (r: Result<(InputToken, usize), LibError>)
    ensures
        r is Ok <==> (buf@.len() == 0 || valid_first_scalar(buf@)),
        r matches Ok((t, n)) ==> t == read_token(buf@) && n as int == (if buf@.len() == 0 {
            0
        } else {
            length_of_first_scalar(buf@)
        }),
        r matches Err(e) ==> e matches LibError::InvalidCharacter(m) && m@ == invalid_message(buf@),
{
    if buf.len() == 0 {
        return Ok((InputToken::EOF, 0));
    }
    match decode_first_char(buf) {
        Ok((c, n)) => {
            proof {
                char_u32_cast(c, c as u32);
            }
            Ok((InputToken::Character(c), n))
        },
        Err(e) => Err(e),
    }
}

/// The meaning of one key code from a keyboard: `None` stands for an interrupt.
pub open spec fn key_token(b: u8) -> Option<InputToken> {
    if b == 0x08 || b == 0x7f {
        Some(InputToken::Backspace)
    } else if b == 0x0a || b == 0x0d {
        Some(InputToken::EOF)
    } else if b == 0x03 {
        None
    } else {
        Some(InputToken::Character(b as char))
    }
}

/// Decides the token for one key code read from a keyboard: backspace and
/// delete erase, newline and carriage return end the input, `0x03` (Ctrl+C) is
/// an interrupt, and any other code is the character of that code.
pub fn token_from_key(b: u8) -> (r: Result<InputToken, LibError>)
    ensures
        key_token(b) matches Some(t) ==> r == Ok::<InputToken, LibError>(t),
        key_token(b) is None ==> r == Err::<InputToken, LibError>(LibError::UserInterrupt),
{
    if b == 0x08 || b == 0x7f {
        Ok(InputToken::Backspace)
    } else if b == 0x0a || b == 0x0d {
        Ok(InputToken::EOF)
    } else if b == 0x03 {
        Err(LibError::UserInterrupt)
    } else {
        Ok(InputToken::Character(b as char))
    }
}

} // verus!
