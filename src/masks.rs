//! The basic masks: Standard, Echo and Blind.

use vstd::prelude::*;
use vstd::utf8::{encode_scalar, encode_utf8};
use crate::Mask;
use crate::colors::DEFAULT_MASK_COLOR;
use crate::decode::push_utf8;

verus! {

pub const DEFAULT_MASK_CHAR: &'static str = "*";

/// `n` copies of the byte `b`.
pub open spec fn run_of(b: u8, n: nat) -> Seq<u8> {
    Seq::new(n, |_i: int| b)
}

/// Erases `width` columns and puts the cursor back: `width` backspaces,
/// `width` spaces, `width` backspaces.
pub open spec fn erase_run(width: nat) -> Seq<u8> {
    run_of(0x08, width) + run_of(0x20, width) + run_of(0x08, width)
}

/// Appends the bytes of `s` to `o`.
pub fn append_bytes(o: &mut Vec<u8>, s: &[u8])
    ensures
        final(o)@ == old(o)@ + s@,
{
    let ghost start = o@;
    let mut i: usize = 0;
    while i < s.len()
        invariant
            i <= s@.len(),
            o@ == start + s@.subrange(0, i as int),
        decreases s@.len() - i,
    {
        o.push(s[i]);
        i = i + 1;
        assert(s@.subrange(0, i as int) =~= s@.subrange(0, i - 1) + seq![s@[i - 1]]);
    }
    assert(s@.subrange(0, i as int) =~= s@);
}

/// A vector of `n` copies of `b`.
pub fn fill(b: u8, n: usize) -> (v: Vec<u8>)
    ensures
        v@ == run_of(b, n as nat),
{
    let mut v: Vec<u8> = Vec::with_capacity(n);
    let mut i: usize = 0;
    while i < n
        invariant
            i <= n,
            v@ == run_of(b, i as nat),
        decreases n - i,
    {
        v.push(b);
        i = i + 1;
        assert(v@ =~= run_of(b, i as nat));
    }
    v
}

/// Copies the bytes of a string.
pub fn bytes_of(s: &str) -> (v: Vec<u8>)
    ensures
        v@ == encode_utf8(s@),
{
    let mut v: Vec<u8> = Vec::new();
    append_bytes(&mut v, s.as_bytes());
    v
}

/// Copies a string.
pub fn string_of(s: &str) -> (r: String)
    ensures
        r@ == s@,
{
    s.to_owned()
}

/// Shows a mask glyph for each character typed, e.g. `Hello` as `*****`.
pub struct Standard {
    mask: Vec<u8>,
    spaces: Vec<u8>,
    backs: Vec<u8>,
    color: String,
}

impl Standard {
    #[verifier::type_invariant]
    spec fn padded(&self) -> bool {
        &&& self.spaces@ == run_of(0x20, self.mask@.len())
        &&& self.backs@ == run_of(0x08, self.mask@.len())
    }

    /// The bytes of the mask glyph.
    pub closed spec fn glyph(&self) -> Seq<u8> {
        self.mask@
    }

    /// The color name of the mask.
    pub closed spec fn color_name(&self) -> Seq<char> {
        self.color@
    }

    /// A mask showing `mask` for each character; the empty glyph is allowed
    /// and makes the characters invisible.
    pub fn new(mask: &str) -> (r: Self)
        ensures
            r.glyph() == encode_utf8(mask@),
            r.color_name() == DEFAULT_MASK_COLOR@,
    {
        let glyph = bytes_of(mask);
        let spaces = fill(0x20, glyph.len());
        let backs = fill(0x08, glyph.len());
        Standard { mask: glyph, spaces, backs, color: string_of(DEFAULT_MASK_COLOR) }
    }
}

impl Mask for Standard {
    open spec fn feed_output(&self, password: Seq<char>, ch: char) -> Seq<u8> {
        self.glyph()
    }

    open spec fn pop_output(&self, password: Seq<char>) -> Seq<u8> {
        if password.len() == 0 {
            seq![]
        } else {
            erase_run(self.glyph().len())
        }
    }

    open spec fn end_output(&self) -> Seq<u8> {
        seq![0x0au8]
    }

    open spec fn color(&self) -> Option<Seq<char>> {
        Some(self.color_name())
    }

    open spec fn is_default_mask(&self) -> bool {
        self.glyph() == encode_utf8(DEFAULT_MASK_CHAR@) && self.color_name() == DEFAULT_MASK_COLOR@
    }

    fn default() -> (r: Self) {
        Self::new(DEFAULT_MASK_CHAR)
    }

    fn feed_password(&self, password: &mut Vec<char>, ch: char, o: &mut Vec<u8>) {
        append_bytes(o, self.mask.as_slice());
        password.push(ch);
    }

    fn pop_password(&self, password: &mut Vec<char>, o: &mut Vec<u8>) {
        proof {
            use_type_invariant(self);
        }
        match password.pop() {
            Some(_) => {
                append_bytes(o, self.backs.as_slice());
                append_bytes(o, self.spaces.as_slice());
                append_bytes(o, self.backs.as_slice());
                assert(final(o)@ =~= old(o)@ + erase_run(self.glyph().len()));
            },
            None => {},
        }
    }

    fn end_password(&self, o: &mut Vec<u8>) {
        o.push(0x0a);
        assert(final(o)@ =~= old(o)@ + seq![0x0au8]);
    }

    fn set_color(&mut self, c: &str) {
        proof {
            use_type_invariant(&*self);
        }
        self.color = string_of(c);
    }
}

/// Shows each character as typed: no mask at all, for clear-text input.
pub struct Echo {
    color: String,
}

impl Echo {
    /// The color name of the echoed characters.
    pub closed spec fn color_name(&self) -> Seq<char> {
        self.color@
    }
}

impl Mask for Echo {
    open spec fn feed_output(&self, password: Seq<char>, ch: char) -> Seq<u8> {
        encode_scalar(ch as u32)
    }

    open spec fn pop_output(&self, password: Seq<char>) -> Seq<u8> {
        if password.len() == 0 {
            seq![]
        } else {
            seq![0x08u8, 0x20u8, 0x08u8]
        }
    }

    open spec fn end_output(&self) -> Seq<u8> {
        seq![0x0au8]
    }

    open spec fn color(&self) -> Option<Seq<char>> {
        Some(self.color_name())
    }

    open spec fn is_default_mask(&self) -> bool {
        self.color_name() == DEFAULT_MASK_COLOR@
    }

    fn default() -> (r: Self) {
        Echo { color: string_of(DEFAULT_MASK_COLOR) }
    }

    fn feed_password(&self, password: &mut Vec<char>, ch: char, o: &mut Vec<u8>) {
        push_utf8(o, ch);
        password.push(ch);
    }

    fn pop_password(&self, password: &mut Vec<char>, o: &mut Vec<u8>) {
        match password.pop() {
            Some(_) => {
                o.push(0x08);
                o.push(0x20);
                o.push(0x08);
                assert(final(o)@ =~= old(o)@ + seq![0x08u8, 0x20u8, 0x08u8]);
            },
            None => {},
        }
    }

    fn end_password(&self, o: &mut Vec<u8>) {
        o.push(0x0a);
        assert(final(o)@ =~= old(o)@ + seq![0x0au8]);
    }

    fn set_color(&mut self, c: &str) {
        self.color = string_of(c);
    }
}

/// Shows nothing at all, like a shell's silent read.
pub struct Blind;

impl Mask for Blind {
    open spec fn feed_output(&self, password: Seq<char>, ch: char) -> Seq<u8> {
        seq![]
    }

    open spec fn pop_output(&self, password: Seq<char>) -> Seq<u8> {
        seq![]
    }

    open spec fn end_output(&self) -> Seq<u8> {
        seq![]
    }

    open spec fn color(&self) -> Option<Seq<char>> {
        None
    }

    open spec fn is_default_mask(&self) -> bool {
        true
    }

    fn default() -> (r: Self) {
        Blind
    }

    fn feed_password(&self, password: &mut Vec<char>, ch: char, o: &mut Vec<u8>) {
        password.push(ch);
        assert(final(o)@ =~= old(o)@ + seq![]);
    }

    fn pop_password(&self, password: &mut Vec<char>, o: &mut Vec<u8>) {
        let _ = password.pop();
        assert(final(o)@ =~= old(o)@ + seq![]);
    }

    fn end_password(&self, o: &mut Vec<u8>) {
        assert(final(o)@ =~= old(o)@ + seq![]);
    }

    fn set_color(&mut self, c: &str) {
    }
}

} // verus!
