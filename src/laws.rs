//! Properties that hold across calls: decoding is independent of how a byte
//! stream is split into reads, and erasing a character undoes showing it.

use vstd::prelude::*;
use vstd::utf8::*;
use crate::{Mask, popped};
use crate::masks::{erase_run, run_of};
use crate::policy::MaskPolicy;
use crate::reverse::reveal_output;

verus! {

/// A read that returns the first `k` bytes of the encoding of `chars`, where
/// `k` is anything from the length of the first character's encoding up to
/// four bytes, decodes to that first character and uses exactly its encoding;
/// what stays in the source is the encoding of the remaining characters. So
/// the characters decoded do not depend on how the stream is split into reads.
pub proof fn lemma_read_split_independent(chars: Seq<char>, k: int)
    requires
        chars.len() > 0,
        encode_scalar(chars[0] as u32).len() <= k <= encode_utf8(chars).len(),
    ensures
        valid_first_scalar(encode_utf8(chars).take(k)),
        decode_first_scalar(encode_utf8(chars).take(k)) as char == chars[0],
        length_of_first_scalar(encode_utf8(chars).take(k)) == encode_scalar(chars[0] as u32).len(),
        encode_utf8(chars).skip(encode_scalar(chars[0] as u32).len() as int) == encode_utf8(
            chars.drop_first(),
        ),
{
    let bytes = encode_utf8(chars);
    let part = bytes.take(k);
    encode_utf8_first_scalar(chars);
    let n = encode_scalar(chars[0] as u32).len() as int;
    assert(bytes == encode_scalar(chars[0] as u32) + encode_utf8(chars.drop_first()));
    assert(forall|i: int| 0 <= i < k ==> part[i] == bytes[i]);
    assert(1 <= n <= 4) by {
        char_is_scalar(chars[0]);
    }
    char_u32_cast(chars[0], decode_first_scalar(bytes));
    assert(bytes.skip(n) =~= encode_utf8(chars.drop_first()));
}

/// The bytes one read returns when it asks for four bytes and the source
/// hands out at most `chunk` at a time.
pub open spec fn read_of(bytes: Seq<u8>, chunk: nat) -> Seq<u8> {
    let k = if chunk < 4 { chunk as int } else { 4 };
    bytes.take(if k < bytes.len() { k } else { bytes.len() as int })
}

/// The characters decoded from `bytes` read by read, each read returning at
/// most `chunk` bytes and pushing back what its character did not use; `None`
/// when a read does not start with a complete character.
pub open spec fn decode_in_reads(bytes: Seq<u8>, chunk: nat) -> Option<Seq<char>>
    decreases bytes.len(),
{
    if bytes.len() == 0 {
        Some(seq![])
    } else {
        let got = read_of(bytes, chunk);
        if got.len() > 0 && valid_first_scalar(got) && length_of_first_scalar(got) <= bytes.len() {
            let used = length_of_first_scalar(got);
            if 0 < used {
                match decode_in_reads(bytes.skip(used), chunk) {
                    Some(rest) => Some(seq![decode_first_scalar(got) as char] + rest),
                    None => None,
                }
            } else {
                None
            }
        } else {
            None
        }
    }
}

/// Decoding a valid UTF-8 stream read by read gives the same characters as
/// decoding it in one piece, whatever the size of the reads, as long as each
/// read can hold the character it starts with.
pub proof fn lemma_reads_decode_whole_stream(chars: Seq<char>, chunk: nat)
    requires
        forall|i: int| 0 <= i < chars.len() ==> encode_scalar(#[trigger] chars[i] as u32).len() <= chunk,
    ensures
        decode_in_reads(encode_utf8(chars), chunk) == Some(chars),
        decode_utf8(encode_utf8(chars)) == chars,
    decreases chars.len(),
{
    encode_utf8_decode_utf8(chars);
    if chars.len() > 0 {
        let bytes = encode_utf8(chars);
        let n = encode_scalar(chars[0] as u32).len() as int;
        encode_utf8_first_scalar(chars);
        assert(bytes == encode_scalar(chars[0] as u32) + encode_utf8(chars.drop_first()));
        char_is_scalar(chars[0]);
        assert(1 <= n <= 4);
        let k = if chunk < 4 { chunk as int } else { 4 };
        let m = if k < bytes.len() { k } else { bytes.len() as int };
        assert(read_of(bytes, chunk) == bytes.take(m));
        lemma_read_split_independent(chars, m);
        let rest = chars.drop_first();
        assert forall|i: int| 0 <= i < rest.len() implies encode_scalar(#[trigger] rest[i] as u32).len() <= chunk by {
            assert(rest[i] == chars[i + 1]);
        }
        lemma_reads_decode_whole_stream(rest, chunk);
        assert(seq![chars[0]] + rest =~= chars);
    }
}

/// How far one byte moves the cursor: a backspace one column back, a UTF-8
/// continuation byte not at all, any other byte one column forward.
pub open spec fn column_shift(b: u8) -> int {
    if b == 0x08 {
        -1
    } else if is_continuation_byte(b) {
        0
    } else {
        1
    }
}

/// How far a sequence of bytes moves the cursor.
pub open spec fn cursor_shift(bytes: Seq<u8>) -> int
    decreases bytes.len(),
{
    if bytes.len() == 0 {
        0
    } else {
        cursor_shift(bytes.drop_last()) + column_shift(bytes.last())
    }
}

/// A glyph whose bytes each take one column: ASCII, and no backspace.
pub open spec fn plain_glyph(g: Seq<u8>) -> bool {
    forall|i: int| 0 <= i < g.len() ==> g[i] != 0x08 && g[i] < 0x80
}

/// When erasing a character typed into `password` puts the cursor back:
/// glyphs of one column per byte, and for OneReverse on an empty password a
/// glyph of one byte, as wide as the character it replaces.
pub open spec fn erase_restores(m: MaskPolicy, password: Seq<char>) -> bool {
    match m {
        MaskPolicy::Standard(s) => plain_glyph(s.glyph()),
        MaskPolicy::OneReverse(r) => plain_glyph(r.glyph()) && (password.len() > 0
            || r.glyph().len() == 1),
        MaskPolicy::MimiReverse(r) => plain_glyph(r.inner().glyph()),
        _ => true,
    }
}

proof fn lemma_shift_concat(a: Seq<u8>, b: Seq<u8>)
    ensures
        cursor_shift(a + b) == cursor_shift(a) + cursor_shift(b),
    decreases b.len(),
{
    if b.len() > 0 {
        assert((a + b).drop_last() =~= a + b.drop_last());
        lemma_shift_concat(a, b.drop_last());
    } else {
        assert(a + b =~= a);
    }
}

proof fn lemma_shift_one(b: u8)
    ensures
        cursor_shift(seq![b]) == column_shift(b),
{
    assert(seq![b].drop_last() =~= Seq::<u8>::empty());
    assert(cursor_shift(Seq::<u8>::empty()) == 0);
    assert(seq![b].last() == b);
}

proof fn lemma_shift_run(b: u8, n: nat)
    ensures
        cursor_shift(run_of(b, n)) == n * column_shift(b),
    decreases n,
{
    if n > 0 {
        assert(run_of(b, n).drop_last() =~= run_of(b, (n - 1) as nat));
        lemma_shift_run(b, (n - 1) as nat);
        assert(n * column_shift(b) == (n - 1) * column_shift(b) + column_shift(b)) by (nonlinear_arith);
    }
}

proof fn lemma_shift_plain(g: Seq<u8>)
    requires
        plain_glyph(g),
    ensures
        cursor_shift(g) == g.len(),
    decreases g.len(),
{
    if g.len() > 0 {
        lemma_shift_plain(g.drop_last());
    }
}

proof fn lemma_shift_erase(w: nat)
    ensures
        cursor_shift(erase_run(w)) == -w,
{
    lemma_shift_run(0x08, w);
    lemma_shift_run(0x20, w);
    lemma_shift_concat(run_of(0x08, w), run_of(0x20, w));
    lemma_shift_concat(run_of(0x08, w) + run_of(0x20, w), run_of(0x08, w));
}

proof fn lemma_shift_small(a: u8, b: u8, c: u8)
    ensures
        cursor_shift(seq![a, b, c]) == column_shift(a) + column_shift(b) + column_shift(c),
{
    lemma_shift_one(a);
    lemma_shift_one(b);
    lemma_shift_one(c);
    lemma_shift_concat(seq![a], seq![b]);
    lemma_shift_concat(seq![a] + seq![b], seq![c]);
    assert(seq![a] + seq![b] + seq![c] =~= seq![a, b, c]);
}

/// A character other than backspace takes one column.
proof fn lemma_shift_char(c: char)
    requires
        c != '\x08',
    ensures
        cursor_shift(encode_scalar(c as u32)) == 1,
{
    char_is_scalar(c);
    let v = c as u32;
    let e = encode_scalar(v);
    assert(0x80 <= 0x80u8 | ((v & 0x3F) as u8) <= 0xbf) by (bit_vector);
    assert(0x80 <= 0x80u8 | (((v >> 6) & 0x3F) as u8) <= 0xbf) by (bit_vector);
    assert(0x80 <= 0x80u8 | (((v >> 12) & 0x3F) as u8) <= 0xbf) by (bit_vector);
    if has_width_1_encoding(v) {
        assert(v <= 0x7f ==> (v & 0x7F) as u8 as u32 == v) by (bit_vector);
        assert(v != 8) by {
            char_u32_cast(c, v);
            char_u32_cast('\x08', 8);
        }
        lemma_shift_one(e[0]);
        assert(e =~= seq![e[0]]);
    } else if has_width_2_encoding(v) {
        assert(0xc0 <= 0xC0u8 | (((v >> 6) & 0x1F) as u8)) by (bit_vector);
        lemma_shift_one(e[0]);
        lemma_shift_one(e[1]);
        lemma_shift_concat(seq![e[0]], seq![e[1]]);
        assert(e =~= seq![e[0]] + seq![e[1]]);
    } else if has_width_3_encoding(v) {
        assert(0xe0 <= 0xE0u8 | (((v >> 12) & 0x0F) as u8)) by (bit_vector);
        lemma_shift_small(e[0], e[1], e[2]);
        assert(e =~= seq![e[0], e[1], e[2]]);
    } else {
        assert(0xf0 <= 0xF0u8 | (((v >> 18) & 0x7) as u8)) by (bit_vector);
        lemma_shift_small(e[0], e[1], e[2]);
        lemma_shift_one(e[3]);
        lemma_shift_concat(seq![e[0], e[1], e[2]], seq![e[3]]);
        assert(e =~= seq![e[0], e[1], e[2]] + seq![e[3]]);
    }
}

/// Typing a character and then erasing it leaves the password as it was and
/// puts the cursor back where it was; Blind shows nothing at all. It holds for
/// text without backspace characters, under `erase_restores`.
pub proof fn lemma_feed_then_pop_restores(m: MaskPolicy, password: Seq<char>, ch: char)
    requires
        erase_restores(m, password),
        ch != '\x08',
        password.len() > 0 ==> password.last() != '\x08',
    ensures
        popped(password.push(ch)) == password,
        cursor_shift(m.feed_output(password, ch) + m.pop_output(password.push(ch))) == 0,
        m is Blind ==> m.feed_output(password, ch) + m.pop_output(password.push(ch))
            == Seq::<u8>::empty(),
{
    assert(password.push(ch).drop_last() =~= password);
    let typed = password.push(ch);
    let shown = m.feed_output(password, ch);
    let erased = m.pop_output(typed);
    lemma_shift_concat(shown, erased);
    lemma_shift_char(ch);
    match m {
        MaskPolicy::Standard(s) => {
            lemma_shift_plain(s.glyph());
            lemma_shift_erase(s.glyph().len());
        },
        MaskPolicy::Echo(_) => {
            lemma_shift_small(0x08, 0x20, 0x08);
        },
        MaskPolicy::Blind(_) => {
            assert(shown + erased =~= Seq::<u8>::empty());
        },
        MaskPolicy::OneReverse(r) => {
            let g = r.glyph();
            lemma_shift_erase(g.len());
            lemma_shift_plain(g);
            if password.len() > 0 {
                lemma_shift_one(0x08);
                lemma_shift_concat(seq![0x08u8], g);
                lemma_shift_concat(seq![0x08u8] + g, encode_scalar(ch as u32));
            }
        },
        MaskPolicy::MimiReverse(r) => {
            let g = r.inner().glyph();
            let w = g.len();
            lemma_shift_plain(g);
            if password.len() == 0 {
                lemma_shift_small(0x08, 0x20, 0x08);
            } else {
                lemma_shift_one(0x08);
                lemma_shift_one(0x20);
                lemma_shift_concat(seq![0x08u8], g);
                lemma_shift_concat(seq![0x08u8] + g, encode_scalar(ch as u32));
                assert(typed[typed.len() - 2] == password.last());
                lemma_shift_char(password.last());
                lemma_shift_run(0x08, w);
                lemma_shift_run(0x20, w);
                let s1 = seq![0x08u8] + run_of(0x08, w);
                let s2 = s1 + seq![0x20u8];
                let s3 = s2 + run_of(0x20, w);
                let s4 = s3 + run_of(0x08, w);
                let s5 = s4 + seq![0x08u8];
                lemma_shift_concat(seq![0x08u8], run_of(0x08, w));
                lemma_shift_concat(s1, seq![0x20u8]);
                lemma_shift_concat(s2, run_of(0x20, w));
                lemma_shift_concat(s3, run_of(0x08, w));
                lemma_shift_concat(s4, seq![0x08u8]);
                lemma_shift_concat(s5, encode_scalar(password.last() as u32));
                assert(erased == reveal_output(w, typed));
            }
        },
    }
}

/// A backspace on an empty password changes neither the password nor the display.
pub proof fn lemma_pop_empty_is_noop(m: MaskPolicy)
    ensures
        popped(Seq::<char>::empty()) == Seq::<char>::empty(),
        m.pop_output(Seq::<char>::empty()) == Seq::<u8>::empty(),
{
    assert(m.pop_output(Seq::<char>::empty()) =~= Seq::<u8>::empty());
}

} // verus!
