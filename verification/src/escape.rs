//! Escaping and unescaping of JSON string values, at the character level.
//!
//! Escaping maps every character to its JSON escape expansion: `"` and `\`
//! gain a backslash, the named control characters become two-character
//! escapes, every other control character becomes a `\u00..` escape, and all
//! remaining characters stand for themselves.  Unescaping reverses this and
//! also reads `\uXXXX` escapes, joining UTF-16 surrogate pairs; every
//! malformed escape yields a typed error.

use vstd::prelude::*;
use vstd::utf8::{char_u32_cast, is_scalar};

use crate::strutil::{chars_of, chars_to_string, copy_range, push_char};

verus! {

/// The ways a JSON-escaped string can be malformed.
#[derive(Debug, PartialEq, Eq)]
pub enum Error {
    /// A high surrogate escape was not followed by a `\uXXXX` low word; the
    /// payload holds the six characters found instead.
    ExpectedSurrogatePair(String),
    /// A backslash was followed by a character that opens no escape.
    InvalidEscapeCharacter(char),
    /// A high surrogate escape was followed by a codepoint that is not a low
    /// surrogate.
    InvalidSurrogatePair(u16, u16),
    /// A `\u` escape whose four digits are not hexadecimal, or that encodes
    /// an unpaired low surrogate; the payload holds the offending text.
    InvalidUnicodeEscape(String),
    /// A decoded byte sequence that is not valid UTF-8.  Character-level
    /// unescaping never produces it; the variant names the failure for
    /// byte-level callers.
    InvalidUtf8,
    /// The input ended in the middle of an escape sequence.
    UnexpectedEndOfString,
}

/// The mathematical shape of an unescape error.
pub ghost enum EscErrView {
    ExpectedSurrogatePair(Seq<char>),
    InvalidEscapeCharacter(char),
    InvalidSurrogatePair(u16, u16),
    InvalidUnicodeEscape(Seq<char>),
    InvalidUtf8,
    UnexpectedEndOfString,
}

impl View for Error {
    type V = EscErrView;

    open spec fn view(&self) -> EscErrView {
        match self {
            Error::ExpectedSurrogatePair(t) => EscErrView::ExpectedSurrogatePair(t@),
            Error::InvalidEscapeCharacter(c) => EscErrView::InvalidEscapeCharacter(*c),
            Error::InvalidSurrogatePair(h, l) => EscErrView::InvalidSurrogatePair(*h, *l),
            Error::InvalidUnicodeEscape(t) => EscErrView::InvalidUnicodeEscape(t@),
            Error::InvalidUtf8 => EscErrView::InvalidUtf8,
            Error::UnexpectedEndOfString => EscErrView::UnexpectedEndOfString,
        }
    }
}

/// The lowercase hexadecimal digit for `n`.
pub open spec fn hex_digit_spec(n: int) -> char {
    ((if n < 10 {
        48 + n
    } else {
        87 + n
    }) as u8) as char
}

/// Is `c` a hexadecimal digit?
pub open spec fn is_hex_char(c: char) -> bool {
    let v = c as u32;
    (48 <= v <= 57) || (97 <= v <= 102) || (65 <= v <= 70)
}

/// The value of the hexadecimal digit `c`.
pub open spec fn hex_val(c: char) -> int {
    let v = c as u32;
    if 48 <= v <= 57 {
        v - 48
    } else if 97 <= v <= 102 {
        v - 87
    } else {
        v - 55
    }
}

/// The value of the four hexadecimal digits `s[0..4]`.
pub open spec fn hex4_val(s: Seq<char>) -> int {
    hex_val(s[0]) * 4096 + hex_val(s[1]) * 256 + hex_val(s[2]) * 16 + hex_val(s[3])
}

/// The JSON escape expansion of one character.
pub open spec fn escape_char(c: char) -> Seq<char> {
    if c == '"' {
        seq!['\\', '"']
    } else if c == '\\' {
        seq!['\\', '\\']
    } else if c == '\u{8}' {
        seq!['\\', 'b']
    } else if c == '\u{c}' {
        seq!['\\', 'f']
    } else if c == '\n' {
        seq!['\\', 'n']
    } else if c == '\r' {
        seq!['\\', 'r']
    } else if c == '\t' {
        seq!['\\', 't']
    } else if (c as u32) < 0x20 {
        seq!['\\', 'u', '0', '0', hex_digit_spec(c as u32 as int / 16), hex_digit_spec(c as u32 as int % 16)]
    } else {
        seq![c]
    }
}

/// The escape expansion of `s[j..]`.
pub open spec fn escaped_from(s: Seq<char>, j: int) -> Seq<char>
    decreases s.len() - j,
{
    if j < 0 || j >= s.len() {
        Seq::empty()
    } else {
        escape_char(s[j]) + escaped_from(s, j + 1)
    }
}

/// The escape expansion of a whole string.
pub open spec fn escaped_of(s: Seq<char>) -> Seq<char> {
    escaped_from(s, 0)
}

/// The character a simple (single-letter) escape stands for, if `c` opens
/// one.
pub open spec fn simple_escape(c: char) -> Option<char> {
    if c == '\\' {
        Some('\\')
    } else if c == '/' {
        Some('/')
    } else if c == '"' {
        Some('"')
    } else if c == 'b' {
        Some('\u{8}')
    } else if c == 'f' {
        Some('\u{c}')
    } else if c == 'n' {
        Some('\n')
    } else if c == 'r' {
        Some('\r')
    } else if c == 't' {
        Some('\t')
    } else {
        None
    }
}

/// Is `v` a UTF-16 high surrogate word?
pub open spec fn is_high_surrogate_spec(v: u16) -> bool {
    0xD800 <= v <= 0xDBFF
}

/// Is `v` a UTF-16 low surrogate word?
pub open spec fn is_low_surrogate_spec(v: u16) -> bool {
    0xDC00 <= v <= 0xDFFF
}

/// The character a surrogate pair encodes.
pub open spec fn surrogate_char(high: u16, low: u16) -> char {
    ((0x10000 + (high - 0xD800) * 0x400 + (low - 0xDC00)) as u32) as char
}

/// What reading one `\uXXXX` escape at `s[j..]` yields: its 16-bit word, or
/// the error that describes how it is malformed.
pub open spec fn read_codepoint_spec(s: Seq<char>, j: int) -> Result<u16, EscErrView> {
    if s.len() - j < 6 {
        Err(EscErrView::UnexpectedEndOfString)
    } else if !(s[j] == '\\' && s[j + 1] == 'u') {
        Err(EscErrView::ExpectedSurrogatePair(s.subrange(j, j + 6)))
    } else if !(is_hex_char(s[j + 2]) && is_hex_char(s[j + 3]) && is_hex_char(s[j + 4])
        && is_hex_char(s[j + 5])) {
        Err(EscErrView::InvalidUnicodeEscape(s.subrange(j + 2, j + 6)))
    } else {
        Ok(hex4_val(s.subrange(j + 2, j + 6)) as u16)
    }
}

/// What reading the unicode escape(s) at `s[j..]` yields: whether a
/// surrogate pair was read (so twelve characters instead of six), and the
/// character they encode; or the error.
pub open spec fn read_unicode_spec(s: Seq<char>, j: int) -> Result<(bool, char), EscErrView> {
    match read_codepoint_spec(s, j) {
        Err(e) => Err(e),
        Ok(high) => if is_high_surrogate_spec(high) {
            match read_codepoint_spec(s, j + 6) {
                Err(e) => Err(e),
                Ok(low) => if !is_low_surrogate_spec(low) {
                    Err(EscErrView::InvalidSurrogatePair(high, low))
                } else {
                    Ok((true, surrogate_char(high, low)))
                },
            }
        } else if is_low_surrogate_spec(high) {
            Err(EscErrView::InvalidUnicodeEscape(s.subrange(j, j + 6)))
        } else {
            Ok((false, (high as u32) as char))
        },
    }
}

/// What unescaping `s[j..]` yields: the unescaped characters, or the error
/// of the first malformed escape.
pub open spec fn unescape_from(s: Seq<char>, j: int) -> Result<Seq<char>, EscErrView>
    decreases s.len() - j,
{
    if j < 0 || j >= s.len() {
        Ok(Seq::empty())
    } else if s[j] != '\\' {
        match unescape_from(s, j + 1) {
            Ok(rest) => Ok(seq![s[j]] + rest),
            Err(e) => Err(e),
        }
    } else if j + 1 >= s.len() {
        Err(EscErrView::UnexpectedEndOfString)
    } else if s[j + 1] == 'u' {
        match read_unicode_spec(s, j) {
            Err(e) => Err(e),
            Ok((pair, c)) => {
                let step: int = if pair {
                    12
                } else {
                    6
                };
                match unescape_from(s, j + step) {
                    Ok(rest) => Ok(seq![c] + rest),
                    Err(e) => Err(e),
                }
            },
        }
    } else {
        match simple_escape(s[j + 1]) {
            None => Err(EscErrView::InvalidEscapeCharacter(s[j + 1])),
            Some(c) => match unescape_from(s, j + 2) {
                Ok(rest) => Ok(seq![c] + rest),
                Err(e) => Err(e),
            },
        }
    }
}

/// What unescaping a whole string yields.
pub open spec fn unescaped_of(s: Seq<char>) -> Result<Seq<char>, EscErrView> {
    unescape_from(s, 0)
}

/// The lowercase hexadecimal digit for `n`.
fn hex_digit(n: u32) -> (c: char)
    requires
        n < 16,
    ensures
        c == hex_digit_spec(n as int),
{
    if n < 10 {
        (48 + n as u8) as char
    } else {
        (87 + n as u8) as char
    }
}

/// Is `c` a hexadecimal digit?
fn is_hex_exec(c: char) -> (r: bool)
    ensures
        r == is_hex_char(c),
{
    let v = c as u32;
    (48 <= v && v <= 57) || (97 <= v && v <= 102) || (65 <= v && v <= 70)
}

/// Relies on `char::from_u32`: yields the character with the given
/// codepoint exactly when the value is a Unicode scalar, that is, not a
/// surrogate and at most `0x10FFFF`.
#[verifier::external_body]
fn char_from_u32(v: u32) -> (r: Option<char>)
    ensures
        match r {
            Some(c) => is_scalar(v) && c as u32 == v,
            None => !is_scalar(v),
        },
{
    char::from_u32(v)
}

/// Is `codepoint` a UTF-16 low surrogate word?
pub fn is_utf16_low_surrogate(codepoint: u16) -> (r: bool)
    ensures
        r == is_low_surrogate_spec(codepoint),
{
    let r = codepoint & 0xFC00 == 0xDC00;
    proof {
        assert((codepoint & 0xFC00 == 0xDC00) == (0xDC00 <= codepoint <= 0xDFFF)) by (bit_vector);
    }
    r
}

/// Is `codepoint` a UTF-16 high surrogate word?
pub fn is_utf16_high_surrogate(codepoint: u16) -> (r: bool)
    ensures
        r == is_high_surrogate_spec(codepoint),
{
    let r = codepoint & 0xFC00 == 0xD800;
    proof {
        assert((codepoint & 0xFC00 == 0xD800) == (0xD800 <= codepoint <= 0xDBFF)) by (bit_vector);
    }
    r
}

/// Read one `\uXXXX` escape at `cs[j..]`.
pub fn read_codepoint(cs: &Vec<char>, j: usize) -> (r: Result<u16, Error>)
    requires
        j <= cs@.len(),
    ensures
        match r {
            Ok(v) => read_codepoint_spec(cs@, j as int) == Ok::<u16, EscErrView>(v),
            Err(e) => read_codepoint_spec(cs@, j as int) == Err::<u16, EscErrView>(e@),
        },
{
    if cs.len() - j < 6 {
        return Err(Error::UnexpectedEndOfString);
    }
    if !(cs[j] == '\\' && cs[j + 1] == 'u') {
        let text = copy_range(cs, j, j + 6);
        return Err(Error::ExpectedSurrogatePair(chars_to_string(&text)));
    }
    if !(is_hex_exec(cs[j + 2]) && is_hex_exec(cs[j + 3]) && is_hex_exec(cs[j + 4]) && is_hex_exec(
        cs[j + 5],
    )) {
        let text = copy_range(cs, j + 2, j + 6);
        return Err(Error::InvalidUnicodeEscape(chars_to_string(&text)));
    }
    let d0 = hex_val_exec(cs[j + 2]);
    let d1 = hex_val_exec(cs[j + 3]);
    let d2 = hex_val_exec(cs[j + 4]);
    let d3 = hex_val_exec(cs[j + 5]);
    let v: u32 = d0 * 4096 + d1 * 256 + d2 * 16 + d3;
    proof {
        assert(cs@.subrange(j + 2, j + 6)[0] == cs@[j + 2]);
        assert(cs@.subrange(j + 2, j + 6)[1] == cs@[j + 3]);
        assert(cs@.subrange(j + 2, j + 6)[2] == cs@[j + 4]);
        assert(cs@.subrange(j + 2, j + 6)[3] == cs@[j + 5]);
    }
    Ok(v as u16)
}

/// The value of the hexadecimal digit `c`.
fn hex_val_exec(c: char) -> (r: u32)
    requires
        is_hex_char(c),
    ensures
        r == hex_val(c),
        r < 16,
{
    let v = c as u32;
    if 48 <= v && v <= 57 {
        v - 48
    } else if 97 <= v && v <= 102 {
        v - 87
    } else {
        v - 55
    }
}

/// Read the unicode escape(s) at `cs[j..]` and append the character they
/// encode: a surrogate pair is twelve characters, a plain escape six.  The
/// result is how many characters were read.
pub fn read_unicode_escapes(cs: &Vec<char>, j: usize, into: &mut String) -> (r: Result<
    usize,
    Error,
>)
    requires
        j <= cs@.len(),
    ensures
        match r {
            Ok(k) => {
                &&& read_unicode_spec(cs@, j as int) is Ok
                &&& k == (if read_unicode_spec(cs@, j as int)->Ok_0.0 {
                    12int
                } else {
                    6int
                })
                &&& j + k <= cs@.len()
                &&& final(into)@ == old(into)@.push(read_unicode_spec(cs@, j as int)->Ok_0.1)
            },
            Err(e) => read_unicode_spec(cs@, j as int) == Err::<(bool, char), EscErrView>(e@)
                && final(into)@ == old(into)@,
        },
{
    let n = cs.len();
    let high = match read_codepoint(cs, j) {
        Ok(v) => v,
        Err(e) => {
            return Err(e);
        },
    };
    proof {
        assert(j + 6 <= n);
    }
    if is_utf16_high_surrogate(high) {
        let low = match read_codepoint(cs, j + 6) {
            Ok(v) => v,
            Err(e) => {
                return Err(e);
            },
        };
        if !is_utf16_low_surrogate(low) {
            return Err(Error::InvalidSurrogatePair(high, low));
        }
        let scalar: u32 = 0x10000 + (high as u32 - 0xD800) * 0x400 + (low as u32 - 0xDC00);
        let c = char_from_u32(scalar);
        proof {
            assert(is_scalar(scalar));
        }
        let ch = c.unwrap();
        proof {
            char_u32_cast(ch, scalar);
            assert(ch == surrogate_char(high, low));
        }
        push_char(into, ch);
        Ok(12)
    } else {
        match char_from_u32(high as u32) {
            Some(ch) => {
                proof {
                    char_u32_cast(ch, high as u32);
                    assert(!is_low_surrogate_spec(high));
                }
                push_char(into, ch);
                Ok(6)
            },
            None => {
                proof {
                    assert(is_low_surrogate_spec(high));
                }
                let text = copy_range(cs, j, j + 6);
                Err(Error::InvalidUnicodeEscape(chars_to_string(&text)))
            },
        }
    }
}

/// Escape a string for embedding in a JSON string value.
#[verifier::loop_isolation(false)]
pub fn escape_string(value: &str) -> (r: String)
    ensures
        r@ == escaped_of(value@),
{
    let cs = chars_of(value);
    let mut out = String::new();
    let mut j: usize = 0;
    while j < cs.len()
        invariant
            j <= cs@.len(),
            escaped_of(value@) == out@ + escaped_from(cs@, j as int),
        decreases cs@.len() - j,
    {
        let c = cs[j];
        let ghost old_out = out@;
        if c == '"' {
            push_char(&mut out, '\\');
            push_char(&mut out, '"');
        } else if c == '\\' {
            push_char(&mut out, '\\');
            push_char(&mut out, '\\');
        } else if c == '\u{8}' {
            push_char(&mut out, '\\');
            push_char(&mut out, 'b');
        } else if c == '\u{c}' {
            push_char(&mut out, '\\');
            push_char(&mut out, 'f');
        } else if c == '\n' {
            push_char(&mut out, '\\');
            push_char(&mut out, 'n');
        } else if c == '\r' {
            push_char(&mut out, '\\');
            push_char(&mut out, 'r');
        } else if c == '\t' {
            push_char(&mut out, '\\');
            push_char(&mut out, 't');
        } else if (c as u32) < 0x20 {
            let v = c as u32;
            push_char(&mut out, '\\');
            push_char(&mut out, 'u');
            push_char(&mut out, '0');
            push_char(&mut out, '0');
            push_char(&mut out, hex_digit(v / 16));
            push_char(&mut out, hex_digit(v % 16));
        } else {
            push_char(&mut out, c);
        }
        proof {
            assert(out@ =~= old_out + escape_char(c));
            assert(old_out + (escape_char(c) + escaped_from(cs@, j + 1)) =~= (old_out + escape_char(
                c,
            )) + escaped_from(cs@, j + 1));
        }
        j = j + 1;
    }
    proof {
        assert(out@ + escaped_from(cs@, cs@.len() as int) =~= out@);
    }
    out
}

/// Unescape a JSON-escaped string, reading from the first character on.
#[verifier::loop_isolation(false)]
pub fn unescape_string_inner(cs: &Vec<char>) -> (r: Result<String, Error>)
    ensures
        match r {
            Ok(out) => unescaped_of(cs@) == Ok::<Seq<char>, EscErrView>(out@),
            Err(e) => unescaped_of(cs@) == Err::<Seq<char>, EscErrView>(e@),
        },
{
    let mut out = String::new();
    let mut j: usize = 0;
    while j < cs.len()
        invariant
            j <= cs@.len(),
            match unescape_from(cs@, j as int) {
                Ok(rest) => unescaped_of(cs@) == Ok::<Seq<char>, EscErrView>(out@ + rest),
                Err(e) => unescaped_of(cs@) == Err::<Seq<char>, EscErrView>(e),
            },
        decreases cs@.len() - j,
    {
        let c = cs[j];
        let ghost old_out = out@;
        if c != '\\' {
            push_char(&mut out, c);
            proof {
                assert(out@ =~= old_out + seq![c]);
                lemma_step(cs@, j as int, old_out, out@, seq![c]);
            }
            j = j + 1;
        } else {
            if j + 1 == cs.len() {
                return Err(Error::UnexpectedEndOfString);
            }
            let c2 = cs[j + 1];
            if c2 == 'u' {
                match read_unicode_escapes(cs, j, &mut out) {
                    Err(e) => {
                        return Err(e);
                    },
                    Ok(k) => {
                        proof {
                            let got = read_unicode_spec(cs@, j as int)->Ok_0.1;
                            assert(out@ =~= old_out + seq![got]);
                            lemma_step(cs@, j as int, old_out, out@, seq![got]);
                        }
                        j = j + k;
                    },
                }
            } else {
                let mapped: char;
                if c2 == '\\' {
                    mapped = '\\';
                } else if c2 == '/' {
                    mapped = '/';
                } else if c2 == '"' {
                    mapped = '"';
                } else if c2 == 'b' {
                    mapped = '\u{8}';
                } else if c2 == 'f' {
                    mapped = '\u{c}';
                } else if c2 == 'n' {
                    mapped = '\n';
                } else if c2 == 'r' {
                    mapped = '\r';
                } else if c2 == 't' {
                    mapped = '\t';
                } else {
                    return Err(Error::InvalidEscapeCharacter(c2));
                }
                push_char(&mut out, mapped);
                proof {
                    assert(out@ =~= old_out + seq![mapped]);
                    lemma_step(cs@, j as int, old_out, out@, seq![mapped]);
                }
                j = j + 2;
            }
        }
    }
    Ok(out)
}

/// One loop step of unescaping: appending the characters one escape decodes
/// to keeps the loop's accounting of the final result intact.
proof fn lemma_step(s: Seq<char>, j: int, old_out: Seq<char>, new_out: Seq<char>, got: Seq<char>)
    requires
        new_out == old_out + got,
    ensures
        forall|rest: Seq<char>| old_out + (got + rest) == new_out + rest,
{
    assert forall|rest: Seq<char>| old_out + (got + rest) == new_out + rest by {
        assert(old_out + (got + rest) =~= new_out + rest);
    }
}

/// Unescape a JSON-escaped string.
pub fn unescape_string(value: &str) -> (r: Result<String, Error>)
    ensures
        match r {
            Ok(out) => unescaped_of(value@) == Ok::<Seq<char>, EscErrView>(out@),
            Err(e) => unescaped_of(value@) == Err::<Seq<char>, EscErrView>(e@),
        },
{
    let cs = chars_of(value);
    unescape_string_inner(&cs)
}

/// The uppercase hexadecimal digit for `n`.
pub open spec fn hex_digit_upper_spec(n: int) -> char {
    ((if n < 10 {
        48 + n
    } else {
        55 + n
    }) as u8) as char
}

/// The four uppercase hexadecimal digits of `v`.
pub open spec fn hex4_upper(v: u16) -> Seq<char> {
    seq![
        hex_digit_upper_spec(v as int / 4096),
        hex_digit_upper_spec((v as int / 256) % 16),
        hex_digit_upper_spec((v as int / 16) % 16),
        hex_digit_upper_spec(v as int % 16),
    ]
}

/// The text describing an unescape error.
pub open spec fn error_message_spec(e: EscErrView) -> Seq<char> {
    match e {
        EscErrView::ExpectedSurrogatePair(low) => "expected a UTF-16 surrogate pair, but got "@
            + low + " as the low word"@,
        EscErrView::InvalidEscapeCharacter(c) => "invalid JSON escape: \\"@ + seq![c],
        EscErrView::InvalidSurrogatePair(h, l) => "invalid surrogate pair: \\u"@ + hex4_upper(h)
            + "\\u"@ + hex4_upper(l),
        EscErrView::InvalidUnicodeEscape(t) => "invalid JSON Unicode escape: \\u"@ + t,
        EscErrView::InvalidUtf8 => "invalid UTF-8 codepoint in JSON string"@,
        EscErrView::UnexpectedEndOfString => "unexpected end of string"@,
    }
}

/// The uppercase hexadecimal digit for `n`.
fn hex_digit_upper(n: u32) -> (c: char)
    requires
        n < 16,
    ensures
        c == hex_digit_upper_spec(n as int),
{
    if n < 10 {
        (48 + n as u8) as char
    } else {
        (55 + n as u8) as char
    }
}

/// Append the four uppercase hexadecimal digits of `v`.
fn push_hex4_upper(out: &mut String, v: u16)
    ensures
        final(out)@ == old(out)@ + hex4_upper(v),
{
    let x = v as u32;
    let ghost o = out@;
    push_char(out, hex_digit_upper(x / 4096));
    push_char(out, hex_digit_upper((x / 256) % 16));
    push_char(out, hex_digit_upper((x / 16) % 16));
    push_char(out, hex_digit_upper(x % 16));
    proof {
        assert(out@ =~= o + hex4_upper(v));
    }
}

impl Error {
    /// The text describing this error.
    pub fn message(&self) -> (r: String)
        ensures
            r@ == error_message_spec(self@),
    {
        match self {
            Error::ExpectedSurrogatePair(low) => {
                let mut out = String::from_str("expected a UTF-16 surrogate pair, but got ");
                out.append(low.as_str());
                out.append(" as the low word");
                proof {
                    assert(out@ =~= error_message_spec(self@));
                }
                out
            },
            Error::InvalidEscapeCharacter(c) => {
                let mut out = String::from_str("invalid JSON escape: \\");
                push_char(&mut out, *c);
                proof {
                    assert(out@ =~= error_message_spec(self@));
                }
                out
            },
            Error::InvalidSurrogatePair(h, l) => {
                let mut out = String::from_str("invalid surrogate pair: \\u");
                push_hex4_upper(&mut out, *h);
                out.append("\\u");
                push_hex4_upper(&mut out, *l);
                proof {
                    assert(out@ =~= error_message_spec(self@));
                }
                out
            },
            Error::InvalidUnicodeEscape(t) => {
                let mut out = String::from_str("invalid JSON Unicode escape: \\u");
                out.append(t.as_str());
                proof {
                    assert(out@ =~= error_message_spec(self@));
                }
                out
            },
            Error::InvalidUtf8 => String::from_str("invalid UTF-8 codepoint in JSON string"),
            Error::UnexpectedEndOfString => String::from_str("unexpected end of string"),
        }
    }
}

/// The hexadecimal digit characters decode back to their values.
proof fn lemma_hex_digit_roundtrip(n: int)
    requires
        0 <= n < 16,
    ensures
        is_hex_char(hex_digit_spec(n)),
        hex_val(hex_digit_spec(n)) == n,
{
    let c = hex_digit_spec(n);
    if n < 10 {
        assert(c as u32 == 48 + n);
    } else {
        assert(c as u32 == 87 + n);
    }
}

/// Unescaping a string that continues, from position `j`, with the escape
/// expansion of `s[i..]` yields exactly `s[i..]`.
proof fn lemma_unescape_escaped(s: Seq<char>, u: Seq<char>, i: int, j: int)
    requires
        0 <= i <= s.len(),
        0 <= j <= u.len(),
        u.skip(j) == escaped_from(s, i),
    ensures
        unescape_from(u, j) == Ok::<Seq<char>, EscErrView>(s.skip(i)),
    decreases s.len() - i,
{
    if i == s.len() {
        assert(u.skip(j).len() == 0);
        assert(j == u.len());
        assert(s.skip(i) =~= Seq::<char>::empty());
    } else {
        let c = s[i];
        let e = escape_char(c);
        let rest = escaped_from(s, i + 1);
        assert(u.skip(j) == e + rest);
        assert(e.len() >= 1);
        assert(u.skip(j).len() == e.len() + rest.len());
        assert forall|k: int| 0 <= k < e.len() implies u[j + k] == e[k] by {
            assert(u.skip(j)[k] == u[k + j]);
            assert((e + rest)[k] == e[k]);
        }
        assert(u.skip(j + e.len()) =~= rest) by {
            assert forall|k: int| 0 <= k < u.skip(j + e.len()).len() implies u.skip(j + e.len())[k]
                == rest[k] by {
                assert(u.skip(j + e.len())[k] == u[k + (j + e.len())]);
                assert(u.skip(j)[e.len() + k] == u[(e.len() + k) + j]);
                assert((e + rest)[e.len() + k] == rest[k]);
            }
        }
        lemma_unescape_escaped(s, u, i + 1, j + e.len());
        assert(seq![c] + s.skip(i + 1) =~= s.skip(i));
        if c == '"' || c == '\\' || c == '\u{8}' || c == '\u{c}' || c == '\n' || c == '\r' || c
            == '\t' {
            // A two-character escape: a backslash and its letter, which
            // `simple_escape` maps back to `c`.
            assert(u[j] == '\\');
            assert(u[j + 1] == e[1]);
            assert(simple_escape(e[1]) == Some(c));
            assert(unescape_from(u, j) == Ok::<Seq<char>, EscErrView>(seq![c] + s.skip(i + 1)));
        } else if (c as u32) < 0x20 {
            // A `\u00..` escape: two zero digits and the two hex digits of
            // the codepoint, which decode back to it.
            let v = c as u32;
            assert(u[j] == '\\' && u[j + 1] == 'u' && u[j + 2] == '0' && u[j + 3] == '0');
            assert(u[j + 4] == hex_digit_spec(v as int / 16) && u[j + 5] == hex_digit_spec(v as int % 16));
            lemma_hex_digit_roundtrip(v as int / 16);
            lemma_hex_digit_roundtrip(v as int % 16);
            assert('0' as u32 == 48);
            assert(is_hex_char('0') && hex_val('0') == 0);
            let sub = u.subrange(j + 2, j + 6);
            assert(sub[0] == '0' && sub[1] == '0' && sub[2] == u[j + 4] && sub[3] == u[j + 5]);
            assert(hex4_val(sub) == (v / 16) * 16 + (v % 16));
            assert((v / 16) * 16 + (v % 16) == v) by (nonlinear_arith);
            assert(read_codepoint_spec(u, j) == Ok::<u16, EscErrView>(v as u16));
            assert(!is_high_surrogate_spec(v as u16) && !is_low_surrogate_spec(v as u16));
            char_u32_cast(c, v);
            assert(read_unicode_spec(u, j) == Ok::<(bool, char), EscErrView>((false, c)));
            assert(unescape_from(u, j) == Ok::<Seq<char>, EscErrView>(seq![c] + s.skip(i + 1)));
        } else {
            // The character stands for itself, and it is not a backslash.
            assert(u[j + 0] == e[0]);
            assert(e[0] == c);
            assert(u[j] == c);
            assert(c != '\\');
            assert(unescape_from(u, j) == Ok::<Seq<char>, EscErrView>(seq![c] + s.skip(i + 1)));
        }
    }
}

/// Escaping a string and unescaping the result gives the original string
/// back: every string survives the round trip.
pub proof fn lemma_escape_round_trip(s: Seq<char>)
    ensures
        unescaped_of(escaped_of(s)) == Ok::<Seq<char>, EscErrView>(s),
{
    let u = escaped_of(s);
    assert(u.skip(0) =~= u);
    lemma_unescape_escaped(s, u, 0, 0);
    assert(s.skip(0) =~= s);
}

} // verus!
