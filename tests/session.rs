use gpass::decode::{decode_first_char, push_utf8, token_from_key, token_from_read};
use gpass::file_input::IString;
use gpass::masks::{Blind, Echo, Standard};
use gpass::policy::MaskPolicy;
use gpass::reverse::{MimiReverse, OneReverse};
use gpass::{GPass, InputStream, InputToken, LibError, Mask, OutputStream, Transition, Void};
use std::io::Write;

struct Stderr;

impl OutputStream for Stderr {
    fn write_bytes(&mut self, bytes: &[u8]) -> Result<(), String> {
        std::io::stderr().write_all(bytes).map_err(|e| e.to_string())
    }
}

struct Failing;

impl OutputStream for Failing {
    fn write_bytes(&mut self, _bytes: &[u8]) -> Result<(), String> {
        Err("closed".to_string())
    }
}

/// Hands out a fixed list of token results, then the end of input.
struct Events(Vec<Result<InputToken, LibError>>);

impl InputStream for Events {
    fn get_token(&mut self) -> Result<InputToken, LibError> {
        if self.0.is_empty() {
            Ok(InputToken::EOF)
        } else {
            self.0.remove(0)
        }
    }
}

/// Drives a session token by token, as a terminal front end does.
fn run<M: Mask>(gp: &mut GPass<Events, M, Void>) -> (Result<String, LibError>, Vec<u8>) {
    let mut password: Vec<char> = Vec::new();
    let mut shown = gp.prompt_bytes();
    loop {
        let token = gp.input_stream.get_token();
        match gp.step(&mut password, token, &mut shown) {
            Transition::Continue => {}
            Transition::Completed | Transition::PartialReturn => {
                return (Ok(password.iter().collect()), shown)
            }
            Transition::Failed(e) => return (Err(e), shown),
        }
    }
}

fn chars(s: &str) -> Vec<Result<InputToken, LibError>> {
    s.chars().map(|c| Ok(InputToken::Character(c))).collect()
}

/// Columns the cursor moves over for a byte sequence.
fn cursor_shift(bytes: &[u8]) -> i64 {
    bytes
        .iter()
        .map(|&b| {
            if b == 0x08 {
                -1
            } else if (0x80..=0xbf).contains(&b) {
                0
            } else {
                1
            }
        })
        .sum()
}

fn all_masks() -> Vec<MaskPolicy> {
    vec![
        MaskPolicy::Standard(Standard::new("#")),
        MaskPolicy::Standard(Standard::new("##")),
        MaskPolicy::Echo(Echo::default()),
        MaskPolicy::Blind(Blind::default()),
        MaskPolicy::OneReverse(OneReverse::new("*")),
        MaskPolicy::MimiReverse(MimiReverse::new("*")),
        MaskPolicy::MimiReverse(MimiReverse::new("+-")),
    ]
}

#[test]
fn test_input_functionality() {
    let password = "Hello World!".to_string();
    let input_stream = IString::new(password.clone());
    let output_stream = Stderr;

    let gpass = GPass::new(
        Some("Enter Password Hello World! Here: "),
        input_stream,
        Echo::default(),
        output_stream,
        false,
    );

    let password2 = gpass.get_password().unwrap();
    assert_eq!(password, password2);
}

#[test]
fn echo_session_returns_hello() {
    let mut gp = GPass::new(None, Events(chars("Hello")), Echo::default(), Void, false);
    let (r, shown) = run(&mut gp);
    assert_eq!(r, Ok("Hello".to_string()));
    assert_eq!(shown, b"Enter the Password: Hello\n".to_vec());
}

#[test]
fn interrupt_with_abort_fails() {
    let mut events = chars("He");
    events.push(Err(LibError::UserInterrupt));
    let mut gp = GPass::new(None, Events(events), Echo::default(), Void, true);
    let (r, _) = run(&mut gp);
    assert_eq!(r, Err(LibError::UserInterrupt));
}

#[test]
fn interrupt_without_abort_returns_partial() {
    let mut events = chars("He");
    events.push(Err(LibError::UserInterrupt));
    let mut gp = GPass::new(None, Events(events), Echo::default(), Void, false);
    let (r, shown) = run(&mut gp);
    assert_eq!(r, Ok("He".to_string()));
    // no end sequence after an interrupt
    assert_eq!(shown, b"Enter the Password: He".to_vec());
}

#[test]
fn read_error_fails_the_session() {
    let mut events = chars("ab");
    events.push(Err(LibError::InvalidCharacter("bad".to_string())));
    let mut gp = GPass::new(None, Events(events), Blind::default(), Void, false);
    let (r, _) = run(&mut gp);
    assert_eq!(r, Err(LibError::InvalidCharacter("bad".to_string())));
}

#[test]
fn ignore_and_backspace_tokens() {
    let events = vec![
        Ok(InputToken::Backspace),
        Ok(InputToken::Character('a')),
        Ok(InputToken::IgnoreToken),
        Ok(InputToken::Character('b')),
        Ok(InputToken::Backspace),
        Ok(InputToken::Character('c')),
        Ok(InputToken::EOF),
        Ok(InputToken::Character('z')),
    ];
    let mut gp = GPass::new(Some("pw "), Events(events), Standard::new("*"), Void, true);
    let (r, shown) = run(&mut gp);
    assert_eq!(r, Ok("ac".to_string()));
    assert_eq!(shown, b"pw **\x08 \x08*\n".to_vec());
}

#[test]
fn standard_double_glyph_feed_and_pop() {
    let m = Standard::new("##");
    let mut pw = Vec::new();
    let mut o = Vec::new();
    m.feed_password(&mut pw, 'x', &mut o);
    assert_eq!(o, b"##".to_vec());
    let mut o2 = Vec::new();
    m.pop_password(&mut pw, &mut o2);
    assert_eq!(o2, b"\x08\x08  \x08\x08".to_vec());
    assert!(pw.is_empty());
}

#[test]
fn mimi_reverse_reveals_new_last_char() {
    let m = MimiReverse::new("*");
    let mut pw = Vec::new();
    let mut o = Vec::new();
    for c in "Hello".chars() {
        m.feed_password(&mut pw, c, &mut o);
    }
    assert_eq!(o, b"H\x08*e\x08*l\x08*l\x08*o".to_vec());
    let mut o2 = Vec::new();
    m.pop_password(&mut pw, &mut o2);
    assert_eq!(pw.iter().collect::<String>(), "Hell");
    assert_eq!(o2, b"\x08\x08  \x08\x08l".to_vec());
    assert_eq!(*o2.last().unwrap(), b'l');
}

#[test]
fn mimi_reverse_single_char_pop() {
    let m = MimiReverse::new("##");
    let mut pw = vec!['a'];
    let mut o = Vec::new();
    m.pop_password(&mut pw, &mut o);
    assert!(pw.is_empty());
    assert_eq!(o, b"\x08 \x08".to_vec());
}

#[test]
fn mimi_reverse_wide_glyph_pop() {
    let m = MimiReverse::new("##");
    let mut pw = vec!['a', 'b'];
    let mut o = Vec::new();
    m.pop_password(&mut pw, &mut o);
    assert_eq!(pw, vec!['a']);
    assert_eq!(o, b"\x08\x08\x08   \x08\x08\x08a".to_vec());
}

#[test]
fn one_reverse_feed_and_end() {
    let m = OneReverse::new("*");
    let mut pw = Vec::new();
    let mut o = Vec::new();
    m.feed_password(&mut pw, 'a', &mut o);
    assert_eq!(o, b"a".to_vec());
    m.feed_password(&mut pw, 'b', &mut o);
    assert_eq!(o, b"a\x08*b".to_vec());
    m.pop_password(&mut pw, &mut o);
    assert_eq!(o, b"a\x08*b\x08 \x08".to_vec());
    let mut end = Vec::new();
    m.end_password(&mut end);
    assert_eq!(end, b"\x08*\n".to_vec());
    assert_eq!(pw, vec!['a']);
}

#[test]
fn echo_shows_multibyte_characters() {
    let m = Echo::default();
    let mut pw = Vec::new();
    let mut o = Vec::new();
    m.feed_password(&mut pw, '€', &mut o);
    assert_eq!(o, "€".as_bytes().to_vec());
    m.pop_password(&mut pw, &mut o);
    assert_eq!(o, b"\xe2\x82\xac\x08 \x08".to_vec());
}

#[test]
fn end_sequences() {
    let mut o = Vec::new();
    Standard::default().end_password(&mut o);
    assert_eq!(o, b"\n".to_vec());
    let mut o = Vec::new();
    Echo::default().end_password(&mut o);
    assert_eq!(o, b"\n".to_vec());
    let mut o = Vec::new();
    Blind::default().end_password(&mut o);
    assert!(o.is_empty());
    let mut o = Vec::new();
    MimiReverse::default().end_password(&mut o);
    assert_eq!(o, b"\x08*\n".to_vec());
}

#[test]
fn empty_glyph_is_invisible() {
    let m = Standard::new("");
    let mut pw = Vec::new();
    let mut o = Vec::new();
    m.feed_password(&mut pw, 'a', &mut o);
    m.pop_password(&mut pw, &mut o);
    assert!(o.is_empty());
    assert!(pw.is_empty());
}

#[test]
fn pop_on_empty_changes_nothing() {
    for m in all_masks() {
        let mut pw: Vec<char> = Vec::new();
        let mut o = b"keep".to_vec();
        m.pop_password(&mut pw, &mut o);
        assert!(pw.is_empty());
        assert_eq!(o, b"keep".to_vec());
    }
}

#[test]
fn feed_then_pop_restores_buffer_and_cursor() {
    for m in all_masks() {
        for start in ["", "ab"] {
            let mut pw: Vec<char> = start.chars().collect();
            let mut o = Vec::new();
            m.feed_password(&mut pw, 'é', &mut o);
            m.pop_password(&mut pw, &mut o);
            assert_eq!(pw, start.chars().collect::<Vec<char>>());
            assert_eq!(cursor_shift(&o), 0);
            if matches!(&m, MaskPolicy::Blind(_)) {
                assert!(o.is_empty());
            }
        }
    }
}

#[test]
fn set_color_keeps_output() {
    let mut m = MaskPolicy::Standard(Standard::new("#"));
    m.set_color("red");
    let mut pw = Vec::new();
    let mut o = Vec::new();
    m.feed_password(&mut pw, 'a', &mut o);
    assert_eq!(o, b"#".to_vec());
}

#[test]
fn prompt_separator() {
    let gp = GPass::new(Some("Enter"), IString::new(String::new()), Blind, Void, true);
    assert_eq!(gp.prompt_bytes(), b"Enter: ".to_vec());
    let gp = GPass::new(Some("Enter\t"), IString::new(String::new()), Blind, Void, true);
    assert_eq!(gp.prompt_bytes(), b"Enter\t".to_vec());
    let gp = GPass::new(None, IString::new(String::new()), Blind, Void, true);
    assert_eq!(gp.prompt, "Enter the Password");
    assert_eq!(gp.prompt_bytes(), b"Enter the Password: ".to_vec());
}

#[test]
fn prompt_and_mask_colors() {
    let mut gp = GPass::new(None, IString::new(String::new()), Echo::default(), Void, true);
    assert_eq!(gp.prompt_color, "yellow");
    gp.set_prompt_color("blue");
    gp.set_mask_color("red");
    assert_eq!(gp.prompt_color, "blue");
}

#[test]
fn get_password_reports_output_failure() {
    let gp = GPass::new(None, IString::new("ab".to_string()), Echo::default(), Failing, true);
    assert!(matches!(gp.get_password(), Err(LibError::IOError(_))));
}

#[test]
fn get_password_returns_whole_string() {
    let gp = GPass::new(None, IString::new("pa\u{8}ss€".to_string()), Blind, Void, true);
    assert_eq!(gp.get_password().unwrap(), "pa\u{8}ss€");
}

#[test]
fn istring_hands_out_characters() {
    let mut s = IString::new("hé".to_string());
    assert_eq!(s.next_token(), InputToken::Character('h'));
    assert_eq!(s.get_token(), Ok(InputToken::Character('é')));
    assert_eq!(s.next_token(), InputToken::EOF);
    assert_eq!(s.next_token(), InputToken::EOF);
}

/// Decodes a byte stream where each read returns at most `chunk` bytes (and
/// never more than four), pushing back what a token did not use.
fn decode_stream(bytes: &[u8], chunk: usize) -> Result<Vec<char>, LibError> {
    let mut pos = 0;
    let mut out = Vec::new();
    loop {
        let end = (pos + chunk.min(4)).min(bytes.len());
        match token_from_read(&bytes[pos..end])? {
            (InputToken::EOF, _) => return Ok(out),
            (InputToken::Character(c), n) => {
                out.push(c);
                pos += n;
            }
            (t, _) => panic!("unexpected token {:?}", t),
        }
    }
}

#[test]
fn decoding_ignores_read_boundaries() {
    let text = "aé€😀z\u{7ff}\u{800}\u{10ffff}";
    let expected: Vec<char> = text.chars().collect();
    assert_eq!(decode_stream(text.as_bytes(), 4), Ok(expected.clone()));
    assert_eq!(decode_stream(text.as_bytes(), 9), Ok(expected));
    assert_eq!(decode_stream(b"plain", 1), Ok("plain".chars().collect()));
}

#[test]
fn truncated_sequence_is_invalid() {
    assert!(matches!(token_from_read(&[0xc3]), Err(LibError::InvalidCharacter(_))));
    assert!(matches!(token_from_read(&[0xe2, 0x82]), Err(LibError::InvalidCharacter(_))));
    assert!(matches!(decode_stream("é".as_bytes(), 1), Err(LibError::InvalidCharacter(_))));
}

#[test]
fn malformed_sequences_are_invalid() {
    // lone continuation byte, overlong form, surrogate, beyond U+10FFFF
    for bad in [&[0x80u8][..], &[0xc0, 0x80], &[0xed, 0xa0, 0x80], &[0xf4, 0x90, 0x80, 0x80], &[0xff]] {
        assert!(matches!(decode_first_char(bad), Err(LibError::InvalidCharacter(_))));
    }
}

#[test]
fn read_tokens() {
    assert_eq!(token_from_read(&[]), Ok((InputToken::EOF, 0)));
    assert_eq!(token_from_read(b"ab"), Ok((InputToken::Character('a'), 1)));
    assert_eq!(token_from_read(&[0xc3, 0xa9, b'x']), Ok((InputToken::Character('é'), 2)));
    assert_eq!(token_from_read(&[0xf0, 0x9f, 0x98, 0x80]), Ok((InputToken::Character('😀'), 4)));
}

#[test]
fn key_tokens() {
    assert_eq!(token_from_key(0x08), Ok(InputToken::Backspace));
    assert_eq!(token_from_key(0x7f), Ok(InputToken::Backspace));
    assert_eq!(token_from_key(b'\n'), Ok(InputToken::EOF));
    assert_eq!(token_from_key(b'\r'), Ok(InputToken::EOF));
    assert_eq!(token_from_key(0x03), Err(LibError::UserInterrupt));
    assert_eq!(token_from_key(b'q'), Ok(InputToken::Character('q')));
}

#[test]
fn utf8_encoding() {
    let mut o = Vec::new();
    for c in ['a', 'é', '€', '😀'] {
        push_utf8(&mut o, c);
    }
    assert_eq!(o, "aé€😀".as_bytes().to_vec());
}

#[test]
fn defaults() {
    assert_eq!(LibError::default(), LibError::Other("Undefined".to_string()));
    assert_eq!(InputToken::default(), InputToken::IgnoreToken);
}

#[test]
fn invalid_character_lists_the_bytes() {
    assert_eq!(
        token_from_read(&[0xc3]),
        Err(LibError::InvalidCharacter("invalid UTF-8 sequence: c3".to_string()))
    );
    assert_eq!(
        decode_first_char(&[0xed, 0xa0, 0x80]),
        Err(LibError::InvalidCharacter("invalid UTF-8 sequence: ed a0 80".to_string()))
    );
}
