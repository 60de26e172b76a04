//! Reads a password from a character source while a mask decides what the
//! display shows: UTF-8 decoding of the input, the masks' exact display bytes,
//! and the session that ties them together.

use vstd::prelude::*;
use vstd::utf8::encode_utf8;
use crate::colors::DEFAULT_PROMPT_COLOR;
use crate::file_input::IString;
use crate::masks::{append_bytes, string_of};

pub mod colors;
pub mod decode;
pub mod file_input;
pub mod masks;
pub mod laws;
pub mod policy;
pub mod reverse;

verus! {

/// One logical keystroke event read from an input source.
#[derive(Debug, Clone, Copy, PartialEq, Eq)]
pub enum InputToken {
    /// A Unicode character.
    Character(char),
    /// Backspace or delete.
    Backspace,
    /// End of input.
    EOF,
    /// A control input to be dropped without touching the password or the display.
    IgnoreToken,
}

impl Default for InputToken {
    fn default() -> (r: Self)
        ensures
            r == InputToken::IgnoreToken,
    {
        InputToken::IgnoreToken
    }
}

/// Errors of the library.
#[derive(Debug, PartialEq, Eq)]
pub enum LibError {
    /// Input bytes that do not start with a UTF-8 character; the message lists them.
    InvalidCharacter(String),
    /// A mask operation (feed, pop or end) failed.
    PasswordCRUDFailure(String),
    /// The user interrupted the input.
    UserInterrupt,
    /// Reading the input or writing the prompt failed.
    IOError(String),
    Other(String),
    UndefinedBehavior(String),
    /// An error of another library, by its message.
    ForeignLibrary(String),
}

impl Default for LibError {
    fn default() -> (r: Self)
        ensures
            r matches LibError::Other(m) && m@ == "Undefined"@,
    {
        LibError::Other(string_of("Undefined"))
    }
}

/// The password after a backspace: the last character goes, an empty
/// password stays empty.
pub open spec fn popped(password: Seq<char>) -> Seq<char> {
    if password.len() == 0 {
        password
    } else {
        password.drop_last()
    }
}

/// A masking policy: how the password buffer and the display change for each
/// character typed, each backspace and the end of input. Each operation appends
/// its display bytes to `o`; the spec functions state which bytes.
pub trait Mask: Sized {
    /// Bytes shown when `ch` is typed while the password is `password`.
    spec fn feed_output(&self, password: Seq<char>, ch: char) -> Seq<u8>;

    /// Bytes shown for a backspace while the password is `password`.
    spec fn pop_output(&self, password: Seq<char>) -> Seq<u8>;

    /// Bytes shown at the end of input.
    spec fn end_output(&self) -> Seq<u8>;

    /// The color name the display is drawn in, for masks that have one.
    spec fn color(&self) -> Option<Seq<char>>;

    /// True of the mask that `default` makes.
    spec fn is_default_mask(&self) -> bool;

    /// The mask with its default glyph and color.
    fn default() -> (r: Self)
        ensures
            r.is_default_mask(),
    ;

    /// Appends `ch` to the password and shows it.
    fn feed_password(&self, password: &mut Vec<char>, ch: char, o: &mut Vec<u8>)
        ensures
            final(password)@ == old(password)@.push(ch),
            final(o)@ == old(o)@ + self.feed_output(old(password)@, ch),
    ;

    /// Removes the last character of the password, if any, and erases it.
    fn pop_password(&self, password: &mut Vec<char>, o: &mut Vec<u8>)
        ensures
            final(password)@ == popped(old(password)@),
            final(o)@ == old(o)@ + self.pop_output(old(password)@),
    ;

    /// Closes the display once the input has ended.
    fn end_password(&self, o: &mut Vec<u8>)
        ensures
            final(o)@ == old(o)@ + self.end_output(),
    ;

    /// Sets the color of the display; what is shown stays the same.
    fn set_color(&mut self, c: &str)
        ensures
            old(self).color() is Some ==> final(self).color() == Some(c@),
            old(self).color() is None ==> final(self).color() is None,
            forall|p: Seq<char>, ch: char| #[trigger]
                final(self).feed_output(p, ch) == old(self).feed_output(p, ch),
            forall|p: Seq<char>| #[trigger] final(self).pop_output(p) == old(self).pop_output(p),
            final(self).end_output() == old(self).end_output(),
    ;
}

/// A source of input tokens: a keyboard, a byte stream, a string.
pub trait InputStream {
    /// The next token; an interrupt from the user is `Err(LibError::UserInterrupt)`.
    fn get_token(&mut self) -> Result<InputToken, LibError>;
}

/// A sink for the bytes shown while the password is typed.
pub trait OutputStream {
    /// Writes all of `bytes`, or fails with a message.
    fn write_bytes(&mut self, bytes: &[u8]) -> Result<(), String>;
}

/// A sink that drops everything written to it.
pub struct Void;

impl OutputStream for Void {
    fn write_bytes(&mut self, bytes: &[u8]) -> Result<(), String> {
        Ok(())
    }
}

/// Where a session goes after one token.
#[derive(Debug, PartialEq, Eq)]
pub enum Transition {
    /// Keep reading input.
    Continue,
    /// The input ended: the password is complete.
    Completed,
    /// The user interrupted and interrupts do not abort: the password so far is the result.
    PartialReturn,
    /// The session fails with this error and the password is dropped.
    Failed(LibError),
}

/// Relies on collecting chars into a `String`: the characters of `v` in order.
#[verifier::external_body]
pub(crate) fn string_from_chars(v: &Vec<char>) -> (r: String)
    ensures
        r@ == v@,
{
    v.iter().collect()
}

/// The prompt used when none is given.
pub const DEFAULT_PROMPT: &'static str = "Enter the Password";

/// True of the characters that Rust calls ASCII whitespace.
pub open spec fn is_ascii_whitespace(c: char) -> bool {
    c == ' ' || c == '\t' || c == '\n' || c == '\x0C' || c == '\r'
}

/// The bytes shown before the password: the prompt, then `": "` unless the
/// prompt already ends in whitespace.
pub open spec fn prompt_output(prompt: Seq<char>) -> Seq<u8> {
    if prompt.len() > 0 && is_ascii_whitespace(prompt.last()) {
        encode_utf8(prompt)
    } else {
        encode_utf8(prompt) + seq![0x3au8, 0x20u8]
    }
}

/// Where a session goes from a token, or from the failure to read one.
pub open spec fn step_transition(ctrl_c_abort: bool, token: Result<InputToken, LibError>) -> Transition {
    match token {
        Ok(InputToken::EOF) => Transition::Completed,
        Ok(_) => Transition::Continue,
        Err(LibError::UserInterrupt) => if ctrl_c_abort {
            Transition::Failed(LibError::UserInterrupt)
        } else {
            Transition::PartialReturn
        },
        Err(e) => Transition::Failed(e),
    }
}

/// The password after a token.
pub open spec fn step_password(password: Seq<char>, token: Result<InputToken, LibError>) -> Seq<char> {
    match token {
        Ok(InputToken::Character(c)) => password.push(c),
        Ok(InputToken::Backspace) => popped(password),
        _ => password,
    }
}

/// The bytes shown for a token.
pub open spec fn step_output<M: Mask>(mask: M, password: Seq<char>, token: Result<InputToken, LibError>) -> Seq<u8> {
    match token {
        Ok(InputToken::Character(c)) => mask.feed_output(password, c),
        Ok(InputToken::Backspace) => mask.pop_output(password),
        Ok(InputToken::EOF) => mask.end_output(),
        _ => seq![],
    }
}

/// A password prompt: where the input comes from, how it is masked, where
/// the display goes, whether an interrupt aborts, and the prompt text.
pub struct GPass<I, M, O> {
    pub input_stream: I,
    pub mask: M,
    pub output_stream: O,
    /// On an interrupt, fail (true) or return the password typed so far (false).
    pub ctrl_c_abort: bool,
    pub prompt: String,
    /// Color name of the prompt.
    pub prompt_color: String,
}

impl<I: InputStream, M: Mask, O: OutputStream> GPass<I, M, O> {
    /// A prompt over the given parts; without a prompt text the default one is used.
    pub fn new(
        prompt: Option<&str>,
        input_stream: I,
        mask: M,
        output_stream: O,
        ctrl_c_abort: bool,
    ) -> (r: Self)
        ensures
            r.prompt@ == (match prompt {
                Some(p) => p@,
                None => DEFAULT_PROMPT@,
            }),
            r.input_stream == input_stream,
            r.mask == mask,
            r.output_stream == output_stream,
            r.ctrl_c_abort == ctrl_c_abort,
            r.prompt_color@ == DEFAULT_PROMPT_COLOR@,
    {
        let text = match prompt {
            Some(p) => string_of(p),
            None => string_of(DEFAULT_PROMPT),
        };
        GPass {
            prompt: text,
            input_stream,
            mask,
            output_stream,
            ctrl_c_abort,
            prompt_color: string_of(DEFAULT_PROMPT_COLOR),
        }
    }

    /// Sets the color of the prompt.
    pub fn set_prompt_color(&mut self, c: &str)
        ensures
            final(self).prompt_color@ == c@,
            final(self).prompt@ == old(self).prompt@,
            final(self).mask == old(self).mask,
            final(self).input_stream == old(self).input_stream,
            final(self).output_stream == old(self).output_stream,
            final(self).ctrl_c_abort == old(self).ctrl_c_abort,
    {
        self.prompt_color = string_of(c);
    }

    /// Sets the color of the mask; what the mask shows stays the same.
    pub fn set_mask_color(&mut self, c: &str)
        ensures
            old(self).mask.color() is Some ==> final(self).mask.color() == Some(c@),
            old(self).mask.color() is None ==> final(self).mask.color() is None,
            forall|p: Seq<char>, ch: char| #[trigger]
                final(self).mask.feed_output(p, ch) == old(self).mask.feed_output(p, ch),
            forall|p: Seq<char>| #[trigger]
                final(self).mask.pop_output(p) == old(self).mask.pop_output(p),
            final(self).mask.end_output() == old(self).mask.end_output(),
            final(self).prompt@ == old(self).prompt@,
            final(self).prompt_color@ == old(self).prompt_color@,
            final(self).input_stream == old(self).input_stream,
            final(self).output_stream == old(self).output_stream,
            final(self).ctrl_c_abort == old(self).ctrl_c_abort,
    {
        self.mask.set_color(c);
    }

    /// The bytes shown before the password is typed.
    pub fn prompt_bytes(&self) -> (r: Vec<u8>)
        ensures
            r@ == prompt_output(self.prompt@),
    {
        let text = self.prompt.as_str();
        let mut r: Vec<u8> = Vec::new();
        append_bytes(&mut r, text.as_bytes());
        let chars = crate::file_input::chars_of(text);
        let n = chars.len();
        let ends_in_space = n > 0 && {
            let c = chars[n - 1];
            c == ' ' || c == '\t' || c == '\n' || c == '\x0C' || c == '\r'
        };
        if !ends_in_space {
            r.push(0x3a);
            r.push(0x20);
        }
        assert(r@ =~= prompt_output(self.prompt@));
        r
    }

    /// Writes the prompt to the output.
    fn prompt_print(&mut self) -> (r: Result<(), LibError>)
        ensures
            r matches Err(e) ==> e is IOError,
            final(self).input_stream == old(self).input_stream,
            final(self).mask == old(self).mask,
            final(self).ctrl_c_abort == old(self).ctrl_c_abort,
    {
        let bytes = self.prompt_bytes();
        match self.output_stream.write_bytes(bytes.as_slice()) {
            Ok(()) => Ok(()),
            Err(m) => Err(LibError::IOError(m)),
        }
    }

    /// Handles one token, or the failure to read one: the mask updates the
    /// password and appends the bytes to show to `o`, and the result says
    /// whether the session goes on, ends, or fails.
    pub fn step(&self, password: &mut Vec<char>, token: Result<InputToken, LibError>, o: &mut Vec<u8>) -> (r: Transition)
        ensures
            r == step_transition(self.ctrl_c_abort, token),
            final(password)@ == step_password(old(password)@, token),
            final(o)@ == old(o)@ + step_output(self.mask, old(password)@, token),
    {
        match token {
            Ok(InputToken::Character(c)) => {
                self.mask.feed_password(password, c, o);
                Transition::Continue
            },
            Ok(InputToken::Backspace) => {
                self.mask.pop_password(password, o);
                Transition::Continue
            },
            Ok(InputToken::EOF) => {
                self.mask.end_password(o);
                Transition::Completed
            },
            Ok(InputToken::IgnoreToken) => {
                assert(o@ =~= old(o)@ + seq![]);
                Transition::Continue
            },
            Err(LibError::UserInterrupt) => {
                assert(o@ =~= old(o)@ + seq![]);
                if self.ctrl_c_abort {
                    Transition::Failed(LibError::UserInterrupt)
                } else {
                    Transition::PartialReturn
                }
            },
            Err(e) => {
                assert(o@ =~= old(o)@ + seq![]);
                Transition::Failed(e)
            },
        }
    }
}

impl<M: Mask, O: OutputStream> GPass<IString, M, O> {
    /// Shows the prompt, then reads the string's characters through the mask
    /// up to its end. The password returned is the whole string; writing to
    /// the output can fail: on the prompt with `IOError`, on the mask's
    /// display with `PasswordCRUDFailure`.
    pub fn get_password(self) -> (r: Result<String, LibError>)
        ensures
            r matches Ok(p) ==> p@ == self.input_stream@,
            r matches Err(e) ==> e is IOError || e is PasswordCRUDFailure,
    {
        let ghost text = self.input_stream@;
        let mut session = self;
        let mut password: Vec<char> = Vec::with_capacity(25);
        session.prompt_print()?;
        loop
            invariant
                password@ + session.input_stream@ == text,
                text == self.input_stream@,
            decreases session.input_stream@.len(),
        {
            let ghost before = session.input_stream@;
            let token = session.input_stream.next_token();
            let mut shown: Vec<u8> = Vec::new();
            let next = session.step(&mut password, Ok(token), &mut shown);
            if shown.len() > 0 {
                match session.output_stream.write_bytes(shown.as_slice()) {
                    Ok(()) => {},
                    Err(m) => {
                        return Err(LibError::PasswordCRUDFailure(m));
                    },
                }
            }
            match next {
                Transition::Continue => {
                    assert(password@ + session.input_stream@ =~= text) by {
                        assert(before =~= seq![before[0]] + before.drop_first());
                    }
                },
                _ => {
                    assert(before.len() == 0);
                    assert(password@ =~= text);
                    return Ok(string_from_chars(&password));
                },
            }
        }
    }
}

} // verus!
