//! The compact textual encoding of the values that are kept in the local
//! store: a mode and a text as JSON strings, a flag as `true` or `false`.

use vstd::prelude::*;
use vstd::utf8::*;
use crate::hex::{digit, digit_of};
use crate::mode::{mode_named, name_of, name_round_trip, ParseMode};
use crate::text::{char_of, chars_of, push_char, same_text};

verus! {

/// How one character stands inside a JSON string: the quote, the backslash
/// and the control characters are escaped, every other character stands for
/// itself.
pub open spec fn escaped(c: char) -> Seq<char> {
    if c == '"' {
        seq!['\\', '"']
    } else if c == '\\' {
        seq!['\\', '\\']
    } else if c == '\u{8}' {
        seq!['\\', 'b']
    } else if c == '\u{c}' {
        seq!['\\', 'f']
    } else if c == '\n' {
        seq!['\\', 'n']
    } else if c == '\r' {
        seq!['\\', 'r']
    } else if c == '\t' {
        seq!['\\', 't']
    } else if (c as u32) < 0x20 {
        seq!['\\', 'u', '0', '0', digit_of(c as u32 as int / 16), digit_of(c as u32 as int % 16)]
    } else {
        seq![c]
    }
}

/// The characters of a text, each as it stands inside a JSON string.
pub open spec fn escaped_all(text: Seq<char>) -> Seq<char>
    decreases text.len(),
{
    if text.len() == 0 {
        Seq::empty()
    } else {
        escaped_all(text.drop_last()) + escaped(text.last())
    }
}

/// The JSON string for a text: its escaped characters between two quotes.
pub open spec fn encoded_text(text: Seq<char>) -> Seq<char> {
    seq!['"'] + escaped_all(text) + seq!['"']
}

/// The value of a hexadecimal digit of either case.
pub open spec fn digit_value(c: char) -> Option<int> {
    if '0' <= c <= '9' {
        Some(c as u32 as int - 0x30)
    } else if 'a' <= c <= 'f' {
        Some(c as u32 as int - 0x61 + 10)
    } else if 'A' <= c <= 'F' {
        Some(c as u32 as int - 0x41 + 10)
    } else {
        None
    }
}

/// The number that the first four characters spell in hexadecimal.
pub open spec fn code_unit(s: Seq<char>) -> Option<int> {
    if s.len() >= 4 && digit_value(s[0]) is Some && digit_value(s[1]) is Some && digit_value(s[2]) is Some
        && digit_value(s[3]) is Some {
        Some(
            ((digit_value(s[0])->0 * 16 + digit_value(s[1])->0) * 16 + digit_value(s[2])->0) * 16
                + digit_value(s[3])->0,
        )
    } else {
        None
    }
}

/// The character that the letter after a backslash stands for, for the
/// escapes of two characters.
pub open spec fn short_escape(c: char) -> Option<char> {
    if c == '"' {
        Some('"')
    } else if c == '\\' {
        Some('\\')
    } else if c == '/' {
        Some('/')
    } else if c == 'b' {
        Some('\u{8}')
    } else if c == 'f' {
        Some('\u{c}')
    } else if c == 'n' {
        Some('\n')
    } else if c == 'r' {
        Some('\r')
    } else if c == 't' {
        Some('\t')
    } else {
        None
    }
}

/// The character that `\u` and what follows it stand for, with the number of
/// characters used after the `u`: four digits, or, for a character beyond the
/// basic plane, a high surrogate, `\u` and a low surrogate. A surrogate
/// without its partner stands for nothing.
pub open spec fn unicode_escape(s: Seq<char>) -> Option<(char, int)> {
    match code_unit(s) {
        None => None,
        Some(unit) => if 0xD800 <= unit < 0xDC00 {
            if s.len() >= 6 && s[4] == '\\' && s[5] == 'u' {
                match code_unit(s.skip(6)) {
                    Some(low) => if 0xDC00 <= low < 0xE000 {
                        Some(((0x10000 + (unit - 0xD800) * 0x400 + (low - 0xDC00)) as u32 as char, 10))
                    } else {
                        None
                    },
                    None => None,
                }
            } else {
                None
            }
        } else if 0xDC00 <= unit < 0xE000 {
            None
        } else {
            Some((unit as u32 as char, 4))
        },
    }
}

/// The first character that the inside of a JSON string spells, with the
/// number of characters that spell it. A bare quote, a bare control character
/// or a broken escape spells nothing.
#[verifier::opaque]
pub open spec fn first_char(body: Seq<char>) -> Option<(char, int)> {
    if body.len() == 0 {
        None
    } else if body[0] == '\\' {
        if body.len() < 2 {
            None
        } else if body[1] == 'u' {
            match unicode_escape(body.skip(2)) {
                Some((c, used)) => Some((c, used + 2)),
                None => None,
            }
        } else {
            match short_escape(body[1]) {
                Some(c) => Some((c, 2)),
                None => None,
            }
        }
    } else if body[0] == '"' || (body[0] as u32) < 0x20 {
        None
    } else {
        Some((body[0], 1))
    }
}

/// The text that the inside of a JSON string spells, if it is well formed.
pub open spec fn unescaped(body: Seq<char>) -> Option<Seq<char>>
    decreases body.len(),
{
    if body.len() == 0 {
        Some(Seq::empty())
    } else {
        match first_char(body) {
            Some((c, used)) => if 0 < used <= body.len() {
                match unescaped(body.skip(used)) {
                    Some(rest) => Some(seq![c] + rest),
                    None => None,
                }
            } else {
                None
            },
            None => None,
        }
    }
}

/// The text that a payload encodes, if the payload is one JSON string and
/// nothing else.
pub open spec fn decoded_text(payload: Seq<char>) -> Option<Seq<char>> {
    if payload.len() >= 2 && payload[0] == '"' && payload.last() == '"' {
        unescaped(payload.subrange(1, payload.len() - 1))
    } else {
        None
    }
}

/// The payload for a mode: its name as a JSON string.
pub open spec fn encoded_mode(mode: ParseMode) -> Seq<char> {
    encoded_text(name_of(mode))
}

/// The mode that a payload encodes: it must be a JSON string that spells the
/// name of a mode.
pub open spec fn decoded_mode(payload: Seq<char>) -> Option<ParseMode> {
    match decoded_text(payload) {
        Some(name) => mode_named(name),
        None => None,
    }
}

/// The payload for a flag.
pub open spec fn encoded_flag(flag: bool) -> Seq<char> {
    if flag {
        "true"@
    } else {
        "false"@
    }
}

/// The flag that a payload encodes: `true` or `false`, and nothing else.
pub open spec fn decoded_flag(payload: Seq<char>) -> Option<bool> {
    if payload == "true"@ {
        Some(true)
    } else if payload == "false"@ {
        Some(false)
    } else {
        None
    }
}

/// Appending a character to a text appends its escape.
proof fn escaped_all_push(text: Seq<char>, c: char)
    ensures
        escaped_all(text.push(c)) == escaped_all(text) + escaped(c),
{
    assert(text.push(c).drop_last() =~= text);
}

/// Putting a character before a text puts its escape before the text's.
proof fn escaped_all_front(c: char, rest: Seq<char>)
    ensures
        escaped_all(seq![c] + rest) == escaped(c) + escaped_all(rest),
    decreases rest.len(),
{
    let whole = seq![c] + rest;
    if rest.len() == 0 {
        assert(whole.drop_last() =~= Seq::<char>::empty());
        assert(escaped_all(whole.drop_last()) =~= Seq::<char>::empty());
        assert(escaped_all(whole) =~= escaped(c));
        assert(escaped(c) + escaped_all(rest) =~= escaped(c));
    } else {
        escaped_all_front(c, rest.drop_last());
        assert(whole.drop_last() =~= seq![c] + rest.drop_last());
        assert(whole.last() == rest.last());
        assert(escaped_all(whole) =~= escaped(c) + escaped_all(rest));
    }
}

/// A lowercase digit reads back as the value it was written for.
proof fn digit_reads_back(value: int)
    requires
        0 <= value < 16,
    ensures
        digit_value(digit_of(value)) == Some(value),
{
}

/// An escape, whatever follows it, reads back as the character it was
/// written for.
proof fn escape_reads_back(c: char, rest: Seq<char>)
    ensures
        first_char(escaped(c) + rest) == Some((c, escaped(c).len() as int)),
        (escaped(c) + rest).skip(escaped(c).len() as int) == rest,
{
    reveal(first_char);
    let body = escaped(c) + rest;
    assert(body.skip(escaped(c).len() as int) =~= rest);
    if c == '"' || c == '\\' || c == '\u{8}' || c == '\u{c}' || c == '\n' || c == '\r' || c == '\t' {
        assert(body[0] == '\\');
        assert(body[1] == escaped(c)[1]);
    } else if (c as u32) < 0x20 {
        let v = c as u32 as int;
        let tail = body.skip(2);
        assert(body[0] == '\\' && body[1] == 'u');
        assert(tail[0] == '0' && tail[1] == '0');
        assert(tail[2] == digit_of(v / 16) && tail[3] == digit_of(v % 16));
        digit_reads_back(v / 16);
        digit_reads_back(v % 16);
        assert(code_unit(tail) == Some(v));
        char_u32_cast(c, v as u32);
    } else {
        assert(body[0] == c);
    }
}

/// The escaped characters of a text spell that text.
proof fn escaped_all_reads_back(text: Seq<char>)
    ensures
        unescaped(escaped_all(text)) == Some(text),
    decreases text.len(),
{
    if text.len() == 0 {
    } else {
        let c = text[0];
        let rest = text.drop_first();
        assert(text =~= seq![c] + rest);
        escaped_all_front(c, rest);
        escape_reads_back(c, escaped_all(rest));
        escaped_all_reads_back(rest);
        assert(seq![c] + rest =~= text);
    }
}

/// Decoding the payload of a text gives that text back.
pub proof fn text_round_trip(text: Seq<char>)
    ensures
        decoded_text(encoded_text(text)) == Some(text),
{
    let payload = encoded_text(text);
    assert(payload.subrange(1, payload.len() - 1) =~= escaped_all(text));
    escaped_all_reads_back(text);
}

/// Decoding the payload of a mode gives that mode back.
pub proof fn mode_round_trip(mode: ParseMode)
    ensures
        decoded_mode(encoded_mode(mode)) == Some(mode),
{
    text_round_trip(name_of(mode));
    name_round_trip(mode);
}

/// Decoding the payload of a flag gives that flag back.
pub proof fn flag_round_trip(flag: bool)
    ensures
        decoded_flag(encoded_flag(flag)) == Some(flag),
{
    reveal_strlit("true");
    reveal_strlit("false");
    assert("true"@.len() == 4 && "false"@.len() == 5);
}

/// Writes a text as a JSON string.
pub fn encode_text(text: &str) -> (payload: String)
    ensures
        payload@ == encoded_text(text@),
{
    let chars = chars_of(text);
    let mut payload = String::new();
    push_char(&mut payload, '"');
    let mut i: usize = 0;
    while i < chars.len()
        invariant
            i <= chars.len(),
            payload@ == seq!['"'] + escaped_all(chars@.take(i as int)),
        decreases chars.len() - i,
    {
        let c = chars[i];
        let ghost before = payload@;
        if c == '"' {
            push_char(&mut payload, '\\');
            push_char(&mut payload, '"');
        } else if c == '\\' {
            push_char(&mut payload, '\\');
            push_char(&mut payload, '\\');
        } else if c == '\u{8}' {
            push_char(&mut payload, '\\');
            push_char(&mut payload, 'b');
        } else if c == '\u{c}' {
            push_char(&mut payload, '\\');
            push_char(&mut payload, 'f');
        } else if c == '\n' {
            push_char(&mut payload, '\\');
            push_char(&mut payload, 'n');
        } else if c == '\r' {
            push_char(&mut payload, '\\');
            push_char(&mut payload, 'r');
        } else if c == '\t' {
            push_char(&mut payload, '\\');
            push_char(&mut payload, 't');
        } else if (c as u32) < 0x20 {
            let v: u8 = c as u32 as u8;
            push_char(&mut payload, '\\');
            push_char(&mut payload, 'u');
            push_char(&mut payload, '0');
            push_char(&mut payload, '0');
            push_char(&mut payload, digit(v / 16));
            push_char(&mut payload, digit(v % 16));
        } else {
            push_char(&mut payload, c);
        }
        proof {
            assert(payload@ =~= before + escaped(c));
            assert(chars@.take(i + 1) =~= chars@.take(i as int).push(c));
            escaped_all_push(chars@.take(i as int), c);
        }
        i += 1;
    }
    assert(chars@.take(i as int) =~= chars@);
    push_char(&mut payload, '"');
    payload
}

/// The value of a hexadecimal digit of either case.
fn digit_value_of(c: char) -> (value: Option<u32>)
    ensures
        match value {
            Some(v) => digit_value(c) == Some(v as int) && v < 16,
            None => digit_value(c) is None,
        },
{
    let code = c as u32;
    if 0x30 <= code && code <= 0x39 {
        Some(code - 0x30)
    } else if 0x61 <= code && code <= 0x66 {
        Some(code - 0x61 + 10)
    } else if 0x41 <= code && code <= 0x46 {
        Some(code - 0x41 + 10)
    } else {
        None
    }
}

/// Reads four hexadecimal digits at `at`.
fn read_unit(chars: &Vec<char>, at: usize, end: usize) -> (unit: Option<u32>)
    requires
        at <= end <= chars.len(),
    ensures
        match unit {
            Some(u) => code_unit(chars@.subrange(at as int, end as int)) == Some(u as int) && u < 0x10000,
            None => code_unit(chars@.subrange(at as int, end as int)) is None,
        },
{
    let ghost s = chars@.subrange(at as int, end as int);
    if end - at < 4 {
        return None;
    }
    assert(s[0] == chars@[at as int] && s[1] == chars@[at + 1] && s[2] == chars@[at + 2] && s[3]
        == chars@[at + 3]);
    match digit_value_of(chars[at]) {
        None => None,
        Some(a) => match digit_value_of(chars[at + 1]) {
            None => None,
            Some(b) => match digit_value_of(chars[at + 2]) {
                None => None,
                Some(c) => match digit_value_of(chars[at + 3]) {
                    None => None,
                    Some(d) => Some(((a * 16 + b) * 16 + c) * 16 + d),
                },
            },
        },
    }
}

/// Reads what follows `\u` at `at`.
fn read_unicode_escape(chars: &Vec<char>, at: usize, end: usize) -> (found: Option<(char, usize)>)
    requires
        at <= end <= chars.len(),
    ensures
        match found {
            Some((c, used)) => unicode_escape(chars@.subrange(at as int, end as int)) == Some((c, used as int))
                && 0 < used <= end - at,
            None => unicode_escape(chars@.subrange(at as int, end as int)) is None,
        },
{
    let ghost s = chars@.subrange(at as int, end as int);
    match read_unit(chars, at, end) {
        None => None,
        Some(unit) => {
            if 0xD800 <= unit && unit < 0xDC00 {
                if end - at >= 6 && chars[at + 4] == '\\' && chars[at + 5] == 'u' {
                    assert(s[4] == chars@[at + 4] && s[5] == chars@[at + 5]);
                    assert(s.skip(6) =~= chars@.subrange(at + 6, end as int));
                    match read_unit(chars, at + 6, end) {
                        None => None,
                        Some(low) => {
                            if 0xDC00 <= low && low < 0xE000 {
                                let value: u32 = 0x10000 + (unit - 0xD800) * 0x400 + (low - 0xDC00);
                                match char_of(value) {
                                    Some(c) => {
                                        proof {
                                            char_u32_cast(c, value);
                                        }
                                        Some((c, 10))
                                    },
                                    None => {
                                        assert(false);
                                        None
                                    },
                                }
                            } else {
                                None
                            }
                        },
                    }
                } else {
                    assert(end - at >= 6 ==> s[4] == chars@[at + 4] && s[5] == chars@[at + 5]);
                    None
                }
            } else if 0xDC00 <= unit && unit < 0xE000 {
                None
            } else {
                match char_of(unit) {
                    Some(c) => {
                        proof {
                            char_u32_cast(c, unit);
                        }
                        Some((c, 4))
                    },
                    None => {
                        assert(false);
                        None
                    },
                }
            }
        },
    }
}

/// Reads one character, escaped or not, at `at`.
fn read_char(chars: &Vec<char>, at: usize, end: usize) -> (found: Option<(char, usize)>)
    requires
        at < end <= chars.len(),
    ensures
        match found {
            Some((c, used)) => first_char(chars@.subrange(at as int, end as int)) == Some((c, used as int))
                && 0 < used <= end - at,
            None => first_char(chars@.subrange(at as int, end as int)) is None,
        },
{
    reveal(first_char);
    let ghost s = chars@.subrange(at as int, end as int);
    let c = chars[at];
    assert(s[0] == c);
    if c == '\\' {
        if end - at < 2 {
            return None;
        }
        let d = chars[at + 1];
        assert(s[1] == d);
        if d == 'u' {
            assert(s.skip(2) =~= chars@.subrange(at + 2, end as int));
            match read_unicode_escape(chars, at + 2, end) {
                Some((c, used)) => Some((c, used + 2)),
                None => None,
            }
        } else if d == '"' {
            Some(('"', 2))
        } else if d == '\\' {
            Some(('\\', 2))
        } else if d == '/' {
            Some(('/', 2))
        } else if d == 'b' {
            Some(('\u{8}', 2))
        } else if d == 'f' {
            Some(('\u{c}', 2))
        } else if d == 'n' {
            Some(('\n', 2))
        } else if d == 'r' {
            Some(('\r', 2))
        } else if d == 't' {
            Some(('\t', 2))
        } else {
            None
        }
    } else if c == '"' || (c as u32) < 0x20 {
        None
    } else {
        Some((c, 1))
    }
}

/// What reading one more character does to the text that a body spells.
proof fn unescaped_step(body: Seq<char>)
    requires
        body.len() > 0,
    ensures
        first_char(body) is None ==> unescaped(body) is None,
        first_char(body) matches Some((c, used)) ==> (0 < used <= body.len() ==> unescaped(body) == match unescaped(
            body.skip(used),
        ) {
            Some(rest) => Some(seq![c] + rest),
            None => None,
        }),
{
}

/// Reads a text from its payload. A payload that is not exactly one
/// well-formed JSON string encodes nothing.
pub fn decode_text(payload: &str) -> (text: Option<String>)
    ensures
        match text {
            Some(t) => decoded_text(payload@) == Some(t@),
            None => decoded_text(payload@) is None,
        },
{
    let chars = chars_of(payload);
    let n = chars.len();
    if n < 2 || chars[0] != '"' || chars[n - 1] != '"' {
        return None;
    }
    let end = n - 1;
    let ghost body = chars@.subrange(1, end as int);
    let mut text = String::new();
    let mut i: usize = 1;
    assert(body.skip(0) =~= body);
    while i < end
        invariant
            1 <= i <= end,
            end == chars.len() - 1,
            body == chars@.subrange(1, end as int),
            decoded_text(payload@) == unescaped(body),
            unescaped(body) == match unescaped(body.skip(i - 1)) {
                Some(rest) => Some(text@ + rest),
                None => None,
            },
        decreases end - i,
    {
        let ghost here = body.skip(i - 1);
        let ghost so_far = text@;
        proof {
            assert(here =~= chars@.subrange(i as int, end as int));
            unescaped_step(here);
        }
        match read_char(&chars, i, end) {
            None => {
                return None;
            },
            Some((c, used)) => {
                push_char(&mut text, c);
                i += used;
                proof {
                    assert(here.skip(used as int) =~= body.skip(i - 1));
                    if let Some(r) = unescaped(body.skip(i - 1)) {
                        assert(so_far + (seq![c] + r) =~= so_far.push(c) + r);
                    }
                }
            },
        }
    }
    assert(body.skip(i - 1) =~= Seq::<char>::empty());
    assert(text@ + Seq::<char>::empty() =~= text@);
    Some(text)
}

/// Writes a mode as the JSON string of its name.
pub fn encode_mode(mode: ParseMode) -> (payload: String)
    ensures
        payload@ == encoded_mode(mode),
{
    encode_text(mode.name())
}

/// Reads a mode from its payload. A payload that is no JSON string, or that
/// spells no mode's name, encodes nothing.
pub fn decode_mode(payload: &str) -> (mode: Option<ParseMode>)
    ensures
        mode == decoded_mode(payload@),
{
    match decode_text(payload) {
        Some(name) => ParseMode::from_name(name.as_str()),
        None => None,
    }
}

/// Writes a flag as `true` or `false`.
pub fn encode_flag(flag: bool) -> (payload: String)
    ensures
        payload@ == encoded_flag(flag),
{
    if flag {
        "true".to_owned()
    } else {
        "false".to_owned()
    }
}

/// Reads a flag from its payload.
pub fn decode_flag(payload: &str) -> (flag: Option<bool>)
    ensures
        flag == decoded_flag(payload@),
{
    if same_text(payload, "true") {
        Some(true)
    } else if same_text(payload, "false") {
        Some(false)
    } else {
        None
    }
}

} // verus!
