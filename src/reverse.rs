//! Masks that keep one character in clear: OneReverse shows the last character
//! typed, MimiReverse also shows the new last character after a backspace.

use vstd::prelude::*;
use vstd::utf8::{encode_scalar, encode_utf8};
use crate::Mask;
use crate::colors::DEFAULT_MASK_COLOR;
use crate::decode::push_utf8;
use crate::masks::{append_bytes, bytes_of, erase_run, fill, run_of, string_of, DEFAULT_MASK_CHAR};

verus! {

/// Shows the last character typed in clear and every earlier one as the mask glyph.
pub struct OneReverse {
    mask: Vec<u8>,
    spaces: Vec<u8>,
    backs: Vec<u8>,
    color: String,
}

impl OneReverse {
    #[verifier::type_invariant]
    spec fn padded(&self) -> bool {
        &&& self.spaces@ == run_of(0x20, self.mask@.len())
        &&& self.backs@ == run_of(0x08, self.mask@.len())
    }

    /// The bytes of the mask glyph.
    pub closed spec fn glyph(&self) -> Seq<u8> {
        self.mask@
    }

    /// The color name of the display.
    pub closed spec fn color_name(&self) -> Seq<char> {
        self.color@
    }

    /// A mask hiding earlier characters behind `mask`; the empty glyph is allowed.
    pub fn new(mask: &str) -> (r: Self)
        ensures
            r.glyph() == encode_utf8(mask@),
            r.color_name() == DEFAULT_MASK_COLOR@,
    {
        let glyph = bytes_of(mask);
        let spaces = fill(0x20, glyph.len());
        let backs = fill(0x08, glyph.len());
        OneReverse { mask: glyph, spaces, backs, color: string_of(DEFAULT_MASK_COLOR) }
    }

    /// Appends the erase sequence: backspaces, spaces, backspaces, one glyph wide each.
    fn push_erase(&self, o: &mut Vec<u8>)
        ensures
            final(o)@ == old(o)@ + erase_run(self.glyph().len()),
    {
        proof {
            use_type_invariant(self);
        }
        append_bytes(o, self.backs.as_slice());
        append_bytes(o, self.spaces.as_slice());
        append_bytes(o, self.backs.as_slice());
        assert(final(o)@ =~= old(o)@ + erase_run(self.glyph().len()));
    }
}

impl Mask for OneReverse {
    open spec fn feed_output(&self, password: Seq<char>, ch: char) -> Seq<u8> {
        if password.len() == 0 {
            encode_scalar(ch as u32)
        } else {
            seq![0x08u8] + self.glyph() + encode_scalar(ch as u32)
        }
    }

    open spec fn pop_output(&self, password: Seq<char>) -> Seq<u8> {
        if password.len() == 0 {
            seq![]
        } else {
            erase_run(self.glyph().len())
        }
    }

    open spec fn end_output(&self) -> Seq<u8> {
        seq![0x08u8] + self.glyph() + seq![0x0au8]
    }

    open spec fn color(&self) -> Option<Seq<char>> {
        Some(self.color_name())
    }

    open spec fn is_default_mask(&self) -> bool {
        self.glyph() == encode_utf8(DEFAULT_MASK_CHAR@) && self.color_name() == DEFAULT_MASK_COLOR@
    }

    fn default() -> (r: Self) {
        Self::new(DEFAULT_MASK_CHAR)
    }

    fn feed_password(&self, password: &mut Vec<char>, ch: char, o: &mut Vec<u8>) {
        if password.len() != 0 {
            o.push(0x08);
            append_bytes(o, self.mask.as_slice());
        }
        push_utf8(o, ch);
        password.push(ch);
        assert(final(o)@ =~= old(o)@ + self.feed_output(old(password)@, ch));
    }

    fn pop_password(&self, password: &mut Vec<char>, o: &mut Vec<u8>) {
        match password.pop() {
            Some(_) => {
                self.push_erase(o);
            },
            None => {},
        }
    }

    fn end_password(&self, o: &mut Vec<u8>) {
        o.push(0x08);
        append_bytes(o, self.mask.as_slice());
        o.push(0x0a);
        assert(final(o)@ =~= old(o)@ + self.end_output());
    }

    fn set_color(&mut self, c: &str) {
        proof {
            use_type_invariant(&*self);
        }
        self.color = string_of(c);
    }
}

/// Like OneReverse, and after a backspace the new last character is shown in
/// clear again, e.g. `****o` becomes `***l`.
pub struct MimiReverse(OneReverse);

impl MimiReverse {
    /// The OneReverse mask this one builds on.
    pub closed spec fn inner(&self) -> OneReverse {
        self.0
    }

    /// A mask hiding earlier characters behind `mask`; the empty glyph is allowed.
    pub fn new(mask: &str) -> (r: Self)
        ensures
            r.inner().glyph() == encode_utf8(mask@),
            r.inner().color_name() == DEFAULT_MASK_COLOR@,
    {
        MimiReverse(OneReverse::new(mask))
    }
}

/// What MimiReverse shows for a backspace on a password of two or more
/// characters with a glyph of `width` bytes: the last character and the glyph
/// before it are blanked, and the character before the last is shown in clear.
pub open spec fn reveal_output(width: nat, password: Seq<char>) -> Seq<u8> {
    seq![0x08u8] + run_of(0x08, width) + seq![0x20u8] + run_of(0x20, width) + run_of(0x08, width)
        + seq![0x08u8] + encode_scalar(password[password.len() - 2] as u32)
}

impl Mask for MimiReverse {
    open spec fn feed_output(&self, password: Seq<char>, ch: char) -> Seq<u8> {
        self.inner().feed_output(password, ch)
    }

    open spec fn pop_output(&self, password: Seq<char>) -> Seq<u8> {
        if password.len() == 0 {
            seq![]
        } else if password.len() == 1 {
            seq![0x08u8, 0x20u8, 0x08u8]
        } else {
            reveal_output(self.inner().glyph().len(), password)
        }
    }

    open spec fn end_output(&self) -> Seq<u8> {
        self.inner().end_output()
    }

    open spec fn color(&self) -> Option<Seq<char>> {
        self.inner().color()
    }

    open spec fn is_default_mask(&self) -> bool {
        self.inner().is_default_mask()
    }

    fn default() -> (r: Self) {
        Self::new(DEFAULT_MASK_CHAR)
    }

    fn feed_password(&self, password: &mut Vec<char>, ch: char, o: &mut Vec<u8>) {
        self.0.feed_password(password, ch, o)
    }

    fn pop_password(&self, password: &mut Vec<char>, o: &mut Vec<u8>) {
        let n = password.len();
        if n == 0 {
            return;
        }
        if n == 1 {
            o.push(0x08);
            o.push(0x20);
            o.push(0x08);
            assert(o@ =~= old(o)@ + seq![0x08u8, 0x20u8, 0x08u8]);
        } else {
            proof {
                use_type_invariant(&self.0);
            }
            let shown = password[n - 2];
            o.push(0x08);
            append_bytes(o, self.0.backs.as_slice());
            o.push(0x20);
            append_bytes(o, self.0.spaces.as_slice());
            append_bytes(o, self.0.backs.as_slice());
            o.push(0x08);
            push_utf8(o, shown);
            assert(o@ =~= old(o)@ + reveal_output(self.inner().glyph().len(), old(password)@));
        }
        let _ = password.pop();
    }

    fn end_password(&self, o: &mut Vec<u8>) {
        self.0.end_password(o)
    }

    fn set_color(&mut self, c: &str) {
        let ghost before = self.0;
        self.0.set_color(c);
        proof {
            let p = seq!['a'];
            assert(self.0.pop_output(p) == before.pop_output(p));
            assert(erase_run(self.0.glyph().len()).len() == erase_run(before.glyph().len()).len());
        }
    }
}

} // verus!
