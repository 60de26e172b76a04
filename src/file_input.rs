//! An input source over a string held in memory.

use vstd::prelude::*;
use crate::{InputStream, InputToken, LibError};

verus! {

/// Relies on `str::chars`, collected: the characters of `s` in order.
#[verifier::external_body]
pub(crate) fn chars_of(s: &str) -> (r: Vec<char>)
    ensures
        r@ == s@,
{
    s.chars().collect()
}

/// The characters of a string, handed out one token at a time.
pub struct IString {
    chars: Vec<char>,
    next: usize,
}

impl View for IString {
    type V = Seq<char>;

    /// The characters not handed out yet.
    closed spec fn view(&self) -> Seq<char> {
        self.chars@.subrange(self.next as int, self.chars@.len() as int)
    }
}

impl IString {
    #[verifier::type_invariant]
    spec fn in_bounds(&self) -> bool {
        self.next <= self.chars@.len()
    }

    /// A source yielding the characters of `s`, then the end of input.
    pub fn new(s: String) -> (r: Self)
        ensures
            r@ == s@,
    {
        let chars = chars_of(s.as_str());
        let r = IString { chars, next: 0 };
        assert(r@ =~= s@);
        r
    }

    /// The next character as a token, or the end of input once all are out.
    pub fn next_token(&mut self) -> (t: InputToken)
        ensures
            old(self)@.len() == 0 ==> t == InputToken::EOF && final(self)@ == old(self)@,
            old(self)@.len() > 0 ==> t == InputToken::Character(old(self)@[0]) && final(self)@
                == old(self)@.drop_first(),
    {
        proof {
            use_type_invariant(&*self);
        }
        if self.next >= self.chars.len() {
            return InputToken::EOF;
        }
        let c = self.chars[self.next];
        self.next = self.next + 1;
        assert(self@ =~= old(self)@.drop_first());
        InputToken::Character(c)
    }
}

impl InputStream for IString {
    fn get_token(&mut self) -> Result<InputToken, LibError> {
        Ok(self.next_token())
    }
}

} // verus!
