//! The page address as a store: percent-encoding of one component, the query
//! string as a list of pairs, and the address with its query replaced.

use vstd::prelude::*;
use vstd::utf8::*;
use vstd::string::*;
use crate::text::{chars_of, push_char, same_text, text_of_utf8};

verus! {

/// The bytes that stand for themselves in a component: ASCII letters and
/// digits, `-`, `.`, `_` and `~`.
pub open spec fn is_unreserved(b: u8) -> bool {
    (0x41 <= b <= 0x5a) || (0x61 <= b <= 0x7a) || (0x30 <= b <= 0x39) || b == 0x2d || b == 0x2e || b
        == 0x5f || b == 0x7e
}

/// The ASCII code of the uppercase hexadecimal digit for a value below
/// sixteen.
pub open spec fn upper_digit(value: int) -> u8 {
    if value < 10 {
        (0x30 + value) as u8
    } else {
        (0x41 + value - 10) as u8
    }
}

/// How one byte stands in a component: as itself where it is unreserved,
/// else as `%` and its two uppercase hexadecimal digits.
pub open spec fn escaped_byte(b: u8) -> Seq<u8> {
    if is_unreserved(b) {
        seq![b]
    } else {
        seq![0x25u8, upper_digit(b as int / 16), upper_digit(b as int % 16)]
    }
}

/// The bytes of a sequence, each as it stands in a component.
pub open spec fn percent_encoded(bytes: Seq<u8>) -> Seq<u8>
    decreases bytes.len(),
{
    if bytes.len() == 0 {
        Seq::empty()
    } else {
        percent_encoded(bytes.drop_last()) + escaped_byte(bytes.last())
    }
}

/// The text whose characters have the given ASCII codes.
pub open spec fn ascii_text(bytes: Seq<u8>) -> Seq<char> {
    Seq::new(bytes.len(), |i: int| bytes[i] as char)
}

/// A text as a component of a query: its UTF-8 bytes, percent-encoded.
pub open spec fn encoded_component(text: Seq<char>) -> Seq<char> {
    ascii_text(percent_encoded(encode_utf8(text)))
}

/// The value of the hexadecimal digit with the given ASCII code, of either
/// case.
pub open spec fn digit_value(b: u8) -> Option<int> {
    if 0x30 <= b <= 0x39 {
        Some(b - 0x30)
    } else if 0x41 <= b <= 0x46 {
        Some(b - 0x41 + 10)
    } else if 0x61 <= b <= 0x66 {
        Some(b - 0x61 + 10)
    } else {
        None
    }
}

/// The bytes that a raw component stands for: `%` and two hexadecimal digits
/// are one byte, `+` is a space, any other byte is itself. A `%` without two
/// digits after it makes the component malformed.
pub open spec fn percent_decoded(raw: Seq<u8>) -> Option<Seq<u8>>
    decreases raw.len(),
{
    if raw.len() == 0 {
        Some(Seq::empty())
    } else if raw[0] == 0x25 {
        if raw.len() >= 3 && digit_value(raw[1]) is Some && digit_value(raw[2]) is Some {
            match percent_decoded(raw.skip(3)) {
                Some(rest) => Some(
                    seq![(digit_value(raw[1])->0 * 16 + digit_value(raw[2])->0) as u8] + rest,
                ),
                None => None,
            }
        } else {
            None
        }
    } else {
        match percent_decoded(raw.skip(1)) {
            Some(rest) => Some(
                seq![if raw[0] == 0x2b {
                    0x20u8
                } else {
                    raw[0]
                }] + rest,
            ),
            None => None,
        }
    }
}

/// The text that a raw component stands for, if it is well formed: its
/// percent-decoded bytes, read as UTF-8.
pub open spec fn decoded_component(raw: Seq<char>) -> Option<Seq<char>> {
    match percent_decoded(encode_utf8(raw)) {
        Some(bytes) => if valid_utf8(bytes) {
            Some(decode_utf8(bytes))
        } else {
            None
        },
        None => None,
    }
}

/// The position of the first `c` in `s`, or the length of `s` where it has
/// none.
pub open spec fn first_index(s: Seq<char>, c: char) -> int
    decreases s.len(),
{
    if s.len() == 0 {
        0
    } else if s[0] == c {
        0
    } else {
        1 + first_index(s.drop_first(), c)
    }
}

/// One pair as it stands in a query: name, `=`, value, both encoded.
pub open spec fn pair_text(pair: (Seq<char>, Seq<char>)) -> Seq<char> {
    encoded_component(pair.0) + seq!['='] + encoded_component(pair.1)
}

/// The query for a list of pairs: the pairs in order, with `&` between them.
pub open spec fn query_text(pairs: Seq<(Seq<char>, Seq<char>)>) -> Seq<char>
    decreases pairs.len(),
{
    if pairs.len() == 0 {
        Seq::empty()
    } else if pairs.len() == 1 {
        pair_text(pairs[0])
    } else {
        query_text(pairs.drop_last()) + seq!['&'] + pair_text(pairs.last())
    }
}

/// The pair that one segment of a query stands for: the name before the
/// first `=` and the value after it (empty where there is no `=`). An empty
/// segment, or one with a malformed name or value, stands for nothing.
pub open spec fn parsed_pair(segment: Seq<char>) -> Option<(Seq<char>, Seq<char>)> {
    if segment.len() == 0 {
        None
    } else {
        let cut = first_index(segment, '=');
        let name = decoded_component(segment.take(cut));
        let value = if cut < segment.len() {
            decoded_component(segment.skip(cut + 1))
        } else {
            Some(Seq::empty())
        };
        if name is Some && value is Some {
            Some((name->0, value->0))
        } else {
            None
        }
    }
}

/// The pairs that a query stands for: one for each segment between `&`s
/// that stands for a pair, in order.
pub open spec fn parsed_query(query: Seq<char>) -> Seq<(Seq<char>, Seq<char>)>
    decreases query.len(),
{
    if query.len() == 0 {
        Seq::empty()
    } else {
        let cut = first_index(query, '&');
        let rest = if 0 <= cut < query.len() {
            parsed_query(query.skip(cut + 1))
        } else {
            Seq::empty()
        };
        match parsed_pair(query.take(cut)) {
            Some(pair) => seq![pair] + rest,
            None => rest,
        }
    }
}

/// Where the fragment of an address starts: at its first `#`, or at its end.
pub open spec fn fragment_start(address: Seq<char>) -> int {
    first_index(address, '#')
}

/// Where the query of an address starts: at the first `?` before the
/// fragment, or where the fragment starts.
pub open spec fn query_start(address: Seq<char>) -> int {
    first_index(address.take(fragment_start(address)), '?')
}

/// The query of an address: what stands between its first `?` and its
/// fragment; empty where it has no `?` before the fragment.
pub open spec fn query_of(address: Seq<char>) -> Seq<char> {
    if query_start(address) < fragment_start(address) {
        address.subrange(query_start(address) + 1, fragment_start(address))
    } else {
        Seq::empty()
    }
}

/// The address with its query replaced by the given pairs: what stood before
/// the query, `?` and the new query where there are pairs, and the fragment
/// as it was.
pub open spec fn address_with(address: Seq<char>, pairs: Seq<(Seq<char>, Seq<char>)>) -> Seq<char> {
    address.take(query_start(address)) + (if pairs.len() > 0 {
        seq!['?'] + query_text(pairs)
    } else {
        Seq::empty()
    }) + address.skip(fragment_start(address))
}

/// The pairs of an executable list as mathematical values.
pub open spec fn pairs_view(pairs: Seq<(String, String)>) -> Seq<(Seq<char>, Seq<char>)> {
    Seq::new(pairs.len(), |i: int| (pairs[i].0@, pairs[i].1@))
}

/// The value of the first pair with the given name.
pub open spec fn first_value(pairs: Seq<(Seq<char>, Seq<char>)>, name: Seq<char>) -> Option<Seq<char>>
    decreases pairs.len(),
{
    if pairs.len() == 0 {
        None
    } else if pairs[0].0 == name {
        Some(pairs[0].1)
    } else {
        first_value(pairs.drop_first(), name)
    }
}

/// The first `c` of a sequence stands where no `c` stands before it.
pub proof fn first_index_is(s: Seq<char>, c: char, at: int)
    requires
        0 <= at <= s.len(),
        forall|j: int| 0 <= j < at ==> s[j] != c,
        at < s.len() ==> s[at] == c,
    ensures
        first_index(s, c) == at,
    decreases s.len(),
{
    if s.len() == 0 || at == 0 {
    } else {
        assert(s[0] != c);
        first_index_is(s.drop_first(), c, at - 1);
    }
}

/// The first `c` of a sequence lies within it, after characters that differ
/// from `c`.
pub proof fn first_index_bounds(s: Seq<char>, c: char)
    ensures
        0 <= first_index(s, c) <= s.len(),
        forall|j: int| 0 <= j < first_index(s, c) ==> s[j] != c,
        first_index(s, c) < s.len() ==> s[first_index(s, c)] == c,
    decreases s.len(),
{
    if s.len() == 0 || s[0] == c {
    } else {
        let rest = s.drop_first();
        first_index_bounds(rest, c);
        assert forall|j: int| 0 <= j < first_index(s, c) implies s[j] != c by {
            if j > 0 {
                assert(rest[j - 1] == s[j]);
            }
        }
    }
}

/// Appending a byte appends its escape.
proof fn percent_encoded_push(bytes: Seq<u8>, b: u8)
    ensures
        percent_encoded(bytes.push(b)) == percent_encoded(bytes) + escaped_byte(b),
{
    assert(bytes.push(b).drop_last() =~= bytes);
}

/// The uppercase hexadecimal digit for a value below sixteen.
fn upper_digit_of(value: u8) -> (code: u8)
    requires
        value < 16,
    ensures
        code == upper_digit(value as int),
{
    if value < 10 {
        0x30 + value
    } else {
        0x41 + value - 10
    }
}

/// Whether a byte stands for itself in a component.
fn unreserved(b: u8) -> (plain: bool)
    ensures
        plain == is_unreserved(b),
{
    (0x41 <= b && b <= 0x5a) || (0x61 <= b && b <= 0x7a) || (0x30 <= b && b <= 0x39) || b == 0x2d
        || b == 0x2e || b == 0x5f || b == 0x7e
}

/// Writes a text as a component of a query.
pub fn encode_component(text: &str) -> (component: String)
    ensures
        component@ == encoded_component(text@),
{
    let bytes = text.as_bytes();
    let mut component = String::new();
    let mut i: usize = 0;
    while i < bytes.len()
        invariant
            i <= bytes.len(),
            bytes@ == encode_utf8(text@),
            component@ == ascii_text(percent_encoded(bytes@.take(i as int))),
        decreases bytes.len() - i,
    {
        let b = bytes[i];
        let ghost before = percent_encoded(bytes@.take(i as int));
        proof {
            assert(bytes@.take(i + 1) =~= bytes@.take(i as int).push(b));
            percent_encoded_push(bytes@.take(i as int), b);
        }
        if unreserved(b) {
            push_char(&mut component, b as char);
        } else {
            push_char(&mut component, '%');
            push_char(&mut component, upper_digit_of(b / 16) as char);
            push_char(&mut component, upper_digit_of(b % 16) as char);
        }
        assert(component@ =~= ascii_text(before + escaped_byte(b)));
        i += 1;
    }
    assert(bytes@.take(i as int) =~= bytes@);
    component
}

/// The value of a hexadecimal digit given by its ASCII code.
fn digit_value_of(b: u8) -> (value: Option<u8>)
    ensures
        match value {
            Some(v) => digit_value(b) == Some(v as int) && v < 16,
            None => digit_value(b) is None,
        },
{
    if 0x30 <= b && b <= 0x39 {
        Some(b - 0x30)
    } else if 0x41 <= b && b <= 0x46 {
        Some(b - 0x41 + 10)
    } else if 0x61 <= b && b <= 0x66 {
        Some(b - 0x61 + 10)
    } else {
        None
    }
}

/// Reads the text of a raw component. A `%` without two hexadecimal digits
/// after it, or bytes that are not UTF-8, make the component malformed.
pub fn decode_component(raw: &str) -> (text: Option<String>)
    ensures
        match text {
            Some(t) => decoded_component(raw@) == Some(t@),
            None => decoded_component(raw@) is None,
        },
{
    let bytes = raw.as_bytes();
    let n = bytes.len();
    let mut out: Vec<u8> = Vec::new();
    let mut i: usize = 0;
    assert(bytes@.skip(0) =~= bytes@);
    while i < n
        invariant
            i <= n,
            n == bytes.len(),
            bytes@ == encode_utf8(raw@),
            percent_decoded(bytes@) == match percent_decoded(bytes@.skip(i as int)) {
                Some(rest) => Some(out@ + rest),
                None => None,
            },
        decreases n - i,
    {
        let ghost here = bytes@.skip(i as int);
        let ghost so_far = out@;
        let b = bytes[i];
        assert(here[0] == b);
        if b == 0x25 {
            if n - i < 3 {
                return None;
            }
            assert(here[1] == bytes@[i + 1] && here[2] == bytes@[i + 2]);
            match (digit_value_of(bytes[i + 1]), digit_value_of(bytes[i + 2])) {
                (Some(high), Some(low)) => {
                    out.push(high * 16 + low);
                    i += 3;
                    proof {
                        assert(here.skip(3) =~= bytes@.skip(i as int));
                        if let Some(rest) = percent_decoded(bytes@.skip(i as int)) {
                            assert(so_far + (seq![(high * 16 + low) as u8] + rest) =~= out@ + rest);
                        }
                    }
                },
                _ => {
                    return None;
                },
            }
        } else {
            let plain = if b == 0x2b {
                0x20u8
            } else {
                b
            };
            out.push(plain);
            i += 1;
            proof {
                assert(here.skip(1) =~= bytes@.skip(i as int));
                if let Some(rest) = percent_decoded(bytes@.skip(i as int)) {
                    assert(so_far + (seq![plain] + rest) =~= out@ + rest);
                }
            }
        }
    }
    assert(bytes@.skip(i as int) =~= Seq::<u8>::empty());
    assert(out@ + Seq::<u8>::empty() =~= out@);
    text_of_utf8(out)
}

/// The position of the first `c` among the characters from `from` up to
/// `to`, or `to` where there is none.
fn find_char(chars: &Vec<char>, from: usize, to: usize, c: char) -> (at: usize)
    requires
        from <= to <= chars.len(),
    ensures
        from <= at <= to,
        at - from == first_index(chars@.subrange(from as int, to as int), c),
{
    let ghost s = chars@.subrange(from as int, to as int);
    let mut at = from;
    while at < to && chars[at] != c
        invariant
            from <= at <= to <= chars.len(),
            s == chars@.subrange(from as int, to as int),
            forall|j: int| 0 <= j < at - from ==> s[j] != c,
        decreases to - at,
    {
        at += 1;
    }
    proof {
        first_index_is(s, c, at - from);
    }
    at
}

/// The characters from `from` up to `to` as a string.
fn text_between(chars: &Vec<char>, from: usize, to: usize) -> (text: String)
    requires
        from <= to <= chars.len(),
    ensures
        text@ == chars@.subrange(from as int, to as int),
{
    let mut text = String::new();
    let mut i = from;
    while i < to
        invariant
            from <= i <= to <= chars.len(),
            text@ == chars@.subrange(from as int, i as int),
        decreases to - i,
    {
        push_char(&mut text, chars[i]);
        i += 1;
        assert(text@ =~= chars@.subrange(from as int, i as int));
    }
    text
}

/// Appends the characters of `text` to `out`.
fn push_text(out: &mut String, text: &str)
    ensures
        final(out)@ == old(out)@ + text@,
{
    out.append(text);
}

/// Reads the pair of the segment from `from` up to `to`.
fn parse_pair(chars: &Vec<char>, from: usize, to: usize) -> (pair: Option<(String, String)>)
    requires
        from <= to <= chars.len(),
    ensures
        match pair {
            Some(p) => parsed_pair(chars@.subrange(from as int, to as int)) == Some((p.0@, p.1@)),
            None => parsed_pair(chars@.subrange(from as int, to as int)) is None,
        },
{
    let ghost segment = chars@.subrange(from as int, to as int);
    if from == to {
        return None;
    }
    let cut = find_char(chars, from, to, '=');
    let raw_name = text_between(chars, from, cut);
    assert(raw_name@ =~= segment.take(cut - from));
    let name = decode_component(raw_name.as_str());
    let value = if cut < to {
        let raw_value = text_between(chars, cut + 1, to);
        assert(raw_value@ =~= segment.skip(cut - from + 1));
        decode_component(raw_value.as_str())
    } else {
        Some(String::new())
    };
    match (name, value) {
        (Some(n), Some(v)) => Some((n, v)),
        _ => None,
    }
}

/// One more pair at the end of a list is one more at the end of its view.
proof fn pairs_view_push(pairs: Seq<(String, String)>, pair: (String, String))
    ensures
        pairs_view(pairs.push(pair)) == pairs_view(pairs).push((pair.0@, pair.1@)),
{
    assert(pairs_view(pairs.push(pair)) =~= pairs_view(pairs).push((pair.0@, pair.1@)));
}

/// Reads the pairs of the query from `from` up to `to`.
fn parse_range(chars: &Vec<char>, from: usize, to: usize) -> (pairs: Vec<(String, String)>)
    requires
        from <= to <= chars.len(),
    ensures
        pairs_view(pairs@) == parsed_query(chars@.subrange(from as int, to as int)),
{
    let ghost whole = chars@.subrange(from as int, to as int);
    let mut pairs: Vec<(String, String)> = Vec::new();
    let mut start = from;
    assert(pairs_view(pairs@) + parsed_query(whole) =~= parsed_query(whole));
    while start < to
        invariant
            from <= start <= to <= chars.len(),
            whole == chars@.subrange(from as int, to as int),
            parsed_query(whole) == pairs_view(pairs@) + parsed_query(chars@.subrange(start as int, to as int)),
        decreases to - start,
    {
        let ghost here = chars@.subrange(start as int, to as int);
        let ghost before = pairs_view(pairs@);
        let cut = find_char(chars, start, to, '&');
        let next = if cut < to {
            cut + 1
        } else {
            to
        };
        let ghost rest = parsed_query(chars@.subrange(next as int, to as int));
        proof {
            assert(here.take(cut - start) =~= chars@.subrange(start as int, cut as int));
            if cut < to {
                assert(here.skip(cut - start + 1) =~= chars@.subrange(next as int, to as int));
            } else {
                assert(chars@.subrange(next as int, to as int) =~= Seq::<char>::empty());
            }
        }
        match parse_pair(chars, start, cut) {
            Some(pair) => {
                proof {
                    pairs_view_push(pairs@, pair);
                    assert(before + (seq![(pair.0@, pair.1@)] + rest) =~= before.push((pair.0@, pair.1@))
                        + rest);
                }
                pairs.push(pair);
            },
            None => {},
        }
        start = next;
    }
    assert(chars@.subrange(start as int, to as int) =~= Seq::<char>::empty());
    assert(pairs_view(pairs@) + Seq::<(Seq<char>, Seq<char>)>::empty() =~= pairs_view(pairs@));
    pairs
}

/// Reads the pairs of a query string. Segments that stand for no pair are
/// passed over.
pub fn parse_query(query: &str) -> (pairs: Vec<(String, String)>)
    ensures
        pairs_view(pairs@) == parsed_query(query@),
{
    let chars = chars_of(query);
    assert(chars@.subrange(0, chars.len() as int) =~= chars@);
    parse_range(&chars, 0, chars.len())
}

/// Writes a list of pairs as a query string.
pub fn build_query(pairs: &Vec<(String, String)>) -> (query: String)
    ensures
        query@ == query_text(pairs_view(pairs@)),
{
    let mut query = String::new();
    let mut i: usize = 0;
    let ghost all = pairs_view(pairs@);
    while i < pairs.len()
        invariant
            i <= pairs.len(),
            all == pairs_view(pairs@),
            query@ == query_text(all.take(i as int)),
        decreases pairs.len() - i,
    {
        let ghost before = query@;
        if i > 0 {
            push_char(&mut query, '&');
        }
        let name = encode_component(pairs[i].0.as_str());
        let value = encode_component(pairs[i].1.as_str());
        push_text(&mut query, name.as_str());
        push_char(&mut query, '=');
        push_text(&mut query, value.as_str());
        proof {
            let upto = all.take(i + 1);
            assert(upto.drop_last() =~= all.take(i as int));
            assert(upto.last() == (pairs@[i as int].0@, pairs@[i as int].1@));
            if i > 0 {
                assert(query@ =~= before + seq!['&'] + pair_text(upto.last()));
            } else {
                assert(query@ =~= pair_text(upto.last()));
            }
        }
        i += 1;
    }
    assert(all.take(i as int) =~= all);
    query
}

/// Reads the pairs of the query of an address.
pub fn read_params(address: &str) -> (pairs: Vec<(String, String)>)
    ensures
        pairs_view(pairs@) == parsed_query(query_of(address@)),
{
    let chars = chars_of(address);
    let n = chars.len();
    assert(chars@.subrange(0, n as int) =~= chars@);
    let fragment = find_char(&chars, 0, n, '#');
    assert(chars@.subrange(0, fragment as int) =~= address@.take(fragment as int));
    let query = find_char(&chars, 0, fragment, '?');
    if query < fragment {
        parse_range(&chars, query + 1, fragment)
    } else {
        assert(parsed_query(Seq::<char>::empty()) =~= Seq::<(Seq<char>, Seq<char>)>::empty());
        let none: Vec<(String, String)> = Vec::new();
        assert(pairs_view(none@) =~= Seq::<(Seq<char>, Seq<char>)>::empty());
        none
    }
}

/// The address with its query cleared and the given pairs appended in
/// order. What stands before the query and the fragment are kept as they
/// are.
pub fn build_url(address: &str, pairs: &Vec<(String, String)>) -> (url: String)
    ensures
        url@ == address_with(address@, pairs_view(pairs@)),
{
    let chars = chars_of(address);
    let n = chars.len();
    assert(chars@.subrange(0, n as int) =~= chars@);
    let fragment = find_char(&chars, 0, n, '#');
    assert(chars@.subrange(0, fragment as int) =~= address@.take(fragment as int));
    let query = find_char(&chars, 0, fragment, '?');
    let mut url = text_between(&chars, 0, query);
    assert(chars@.subrange(0, query as int) =~= address@.take(query as int));
    if pairs.len() > 0 {
        push_char(&mut url, '?');
        let text = build_query(pairs);
        push_text(&mut url, text.as_str());
    }
    let tail = text_between(&chars, fragment, n);
    assert(chars@.subrange(fragment as int, n as int) =~= address@.skip(fragment as int));
    push_text(&mut url, tail.as_str());
    assert(url@ =~= address_with(address@, pairs_view(pairs@)));
    url
}

/// The value of the first pair with the given name.
pub fn lookup<'a>(pairs: &'a Vec<(String, String)>, name: &str) -> (value: Option<&'a String>)
    ensures
        match value {
            Some(v) => first_value(pairs_view(pairs@), name@) == Some(v@),
            None => first_value(pairs_view(pairs@), name@) is None,
        },
{
    let ghost all = pairs_view(pairs@);
    let mut i: usize = 0;
    assert(all.skip(0) =~= all);
    while i < pairs.len()
        invariant
            i <= pairs.len(),
            all == pairs_view(pairs@),
            first_value(all, name@) == first_value(all.skip(i as int), name@),
        decreases pairs.len() - i,
    {
        let ghost here = all.skip(i as int);
        assert(here[0] == (pairs@[i as int].0@, pairs@[i as int].1@));
        if same_text(pairs[i].0.as_str(), name) {
            return Some(&pairs[i].1);
        }
        assert(here.drop_first() =~= all.skip(i + 1));
        i += 1;
    }
    None
}

/// Whether a character is one of those that give an address and its query
/// their structure: `#`, `?`, `&` and `=`.
pub open spec fn is_separator(c: char) -> bool {
    c == '#' || c == '?' || c == '&' || c == '='
}

/// Whether a byte can stand in an encoded component: an ASCII code that is
/// no separator and no `+`.
pub open spec fn is_component_byte(b: u8) -> bool {
    b < 128 && b != 0x23 && b != 0x3f && b != 0x26 && b != 0x3d && b != 0x2b
}

/// A text of ASCII codes has exactly those codes as its UTF-8 bytes.
proof fn ascii_text_bytes(bytes: Seq<u8>)
    requires
        forall|i: int| 0 <= i < bytes.len() ==> bytes[i] < 128,
    ensures
        encode_utf8(ascii_text(bytes)) == bytes,
{
    let chars = ascii_text(bytes);
    assert(is_ascii_chars(chars)) by {
        assert forall|i: int| 0 <= i < chars.len() implies '\0' <= #[trigger] chars[i] <= '\u{7f}' by {
            assert(chars[i] == bytes[i] as char);
        }
    }
    is_ascii_chars_encode_utf8(chars);
    assert forall|i: int| 0 <= i < bytes.len() implies encode_utf8(chars)[i] == bytes[i] by {
        assert(chars[i] == bytes[i] as char);
        assert(chars[i] as u8 == encode_utf8(chars)[i]);
    }
    assert(encode_utf8(chars) =~= bytes);
}

/// Putting a byte before a sequence puts its escape before the sequence's.
proof fn percent_encoded_front(b: u8, rest: Seq<u8>)
    ensures
        percent_encoded(seq![b] + rest) == escaped_byte(b) + percent_encoded(rest),
    decreases rest.len(),
{
    let whole = seq![b] + rest;
    if rest.len() == 0 {
        assert(whole.drop_last() =~= Seq::<u8>::empty());
        assert(percent_encoded(whole.drop_last()) =~= Seq::<u8>::empty());
        assert(percent_encoded(whole) =~= escaped_byte(b));
        assert(escaped_byte(b) + percent_encoded(rest) =~= escaped_byte(b));
    } else {
        percent_encoded_front(b, rest.drop_last());
        assert(whole.drop_last() =~= seq![b] + rest.drop_last());
        assert(whole.last() == rest.last());
        assert(percent_encoded(whole) =~= escaped_byte(b) + percent_encoded(rest));
    }
}

/// An escape consists of component bytes, and, whatever follows it, reads
/// back as the byte it was written for.
proof fn escaped_byte_reads_back(b: u8, rest: Seq<u8>)
    ensures
        forall|i: int| 0 <= i < escaped_byte(b).len() ==> is_component_byte(#[trigger] escaped_byte(b)[i]),
        percent_decoded(escaped_byte(b) + rest) == match percent_decoded(rest) {
            Some(tail) => Some(seq![b] + tail),
            None => None,
        },
{
    let raw = escaped_byte(b) + rest;
    if is_unreserved(b) {
        assert(raw[0] == b);
        assert(raw.skip(1) =~= rest);
    } else {
        let high = b as int / 16;
        let low = b as int % 16;
        assert(raw[0] == 0x25 && raw[1] == upper_digit(high) && raw[2] == upper_digit(low));
        assert(digit_value(upper_digit(high)) == Some(high));
        assert(digit_value(upper_digit(low)) == Some(low));
        assert(raw.skip(3) =~= rest);
        assert((high * 16 + low) as u8 == b);
    }
}

/// Percent-encoded bytes are component bytes and decode to what was encoded.
proof fn percent_round_trip(bytes: Seq<u8>)
    ensures
        forall|i: int| 0 <= i < percent_encoded(bytes).len() ==> is_component_byte(#[trigger] percent_encoded(bytes)[i]),
        percent_decoded(percent_encoded(bytes)) == Some(bytes),
    decreases bytes.len(),
{
    if bytes.len() == 0 {
    } else {
        let b = bytes[0];
        let rest = bytes.drop_first();
        assert(bytes =~= seq![b] + rest);
        percent_encoded_front(b, rest);
        percent_round_trip(rest);
        escaped_byte_reads_back(b, percent_encoded(rest));
        let escape = escaped_byte(b);
        let tail = percent_encoded(rest);
        assert forall|i: int| 0 <= i < percent_encoded(bytes).len() implies is_component_byte(
            #[trigger] percent_encoded(bytes)[i],
        ) by {
            if i < escape.len() {
                assert(percent_encoded(bytes)[i] == escape[i]);
            } else {
                assert(percent_encoded(bytes)[i] == tail[i - escape.len()]);
            }
        }
    }
}

/// An encoded component decodes to the text it was made from, and holds no
/// character that separates the parts of an address or a query.
pub proof fn component_round_trip(text: Seq<char>)
    ensures
        decoded_component(encoded_component(text)) == Some(text),
        forall|i: int| 0 <= i < encoded_component(text).len() ==> !is_separator(#[trigger] encoded_component(text)[i]),
{
    let bytes = encode_utf8(text);
    let encoded = percent_encoded(bytes);
    percent_round_trip(bytes);
    ascii_text_bytes(encoded);
    encode_utf8_valid_utf8(text);
    encode_utf8_decode_utf8(text);
    assert forall|i: int| 0 <= i < encoded_component(text).len() implies !is_separator(
        #[trigger] encoded_component(text)[i],
    ) by {
        assert(encoded_component(text)[i] == encoded[i] as char);
        assert(is_component_byte(encoded[i]));
    }
}

/// The text of a pair is not empty, holds neither `&`, `#` nor `?`, and
/// reads back as that pair.
pub proof fn pair_round_trip(pair: (Seq<char>, Seq<char>))
    ensures
        pair_text(pair).len() > 0,
        forall|i: int| 0 <= i < pair_text(pair).len() ==> {
            let c = #[trigger] pair_text(pair)[i];
            c != '&' && c != '#' && c != '?'
        },
        parsed_pair(pair_text(pair)) == Some(pair),
{
    let name = encoded_component(pair.0);
    let value = encoded_component(pair.1);
    let segment = pair_text(pair);
    component_round_trip(pair.0);
    component_round_trip(pair.1);
    assert(segment.len() == name.len() + 1 + value.len());
    assert forall|i: int| 0 <= i < segment.len() implies {
        let c = #[trigger] segment[i];
        c != '&' && c != '#' && c != '?'
    } by {
        if i < name.len() {
            assert(segment[i] == name[i]);
        } else if i == name.len() {
            assert(segment[i] == '=');
        } else {
            assert(segment[i] == value[i - name.len() - 1]);
        }
    }
    assert forall|j: int| 0 <= j < name.len() implies segment[j] != '=' by {
        assert(segment[j] == name[j]);
    }
    assert(segment[name.len() as int] == '=');
    first_index_is(segment, '=', name.len() as int);
    assert(segment.take(name.len() as int) =~= name);
    assert(segment.skip(name.len() as int + 1) =~= value);
}

/// Putting a pair before a list puts its text, and `&` where more follow,
/// before the list's query.
proof fn query_text_front(pair: (Seq<char>, Seq<char>), rest: Seq<(Seq<char>, Seq<char>)>)
    ensures
        query_text(seq![pair] + rest) == pair_text(pair) + (if rest.len() > 0 {
            seq!['&'] + query_text(rest)
        } else {
            Seq::empty()
        }),
    decreases rest.len(),
{
    let whole = seq![pair] + rest;
    if rest.len() == 0 {
        assert(whole[0] == pair);
        assert(query_text(whole) =~= pair_text(pair) + Seq::<char>::empty());
    } else {
        let shorter = rest.drop_last();
        query_text_front(pair, shorter);
        assert(whole.drop_last() =~= seq![pair] + shorter);
        assert(whole.last() == rest.last());
        if shorter.len() == 0 {
            assert(rest[0] == rest.last());
            assert(query_text(whole) =~= pair_text(pair) + (seq!['&'] + query_text(rest)));
        } else {
            assert(query_text(whole) =~= pair_text(pair) + (seq!['&'] + query_text(rest)));
        }
    }
}

/// The query of a list of pairs holds neither `#` nor `?`.
pub proof fn query_text_is_plain(pairs: Seq<(Seq<char>, Seq<char>)>)
    ensures
        forall|i: int| 0 <= i < query_text(pairs).len() ==> {
            let c = #[trigger] query_text(pairs)[i];
            c != '#' && c != '?'
        },
    decreases pairs.len(),
{
    if pairs.len() == 0 {
    } else {
        let last = pair_text(pairs.last());
        pair_round_trip(pairs.last());
        if pairs.len() == 1 {
            assert(pairs[0] == pairs.last());
        } else {
            let front = query_text(pairs.drop_last());
            query_text_is_plain(pairs.drop_last());
            assert forall|i: int| 0 <= i < query_text(pairs).len() implies {
                let c = #[trigger] query_text(pairs)[i];
                c != '#' && c != '?'
            } by {
                if i < front.len() {
                    assert(query_text(pairs)[i] == front[i]);
                } else if i == front.len() {
                    assert(query_text(pairs)[i] == '&');
                } else {
                    assert(query_text(pairs)[i] == last[i - front.len() - 1]);
                }
            }
        }
    }
}

/// Reading the query that was written for a list of pairs gives the list
/// back: the same names and values in the same order.
pub proof fn query_round_trip(pairs: Seq<(Seq<char>, Seq<char>)>)
    ensures
        parsed_query(query_text(pairs)) == pairs,
    decreases pairs.len(),
{
    if pairs.len() == 0 {
        assert(parsed_query(query_text(pairs)) =~= pairs);
    } else {
        let pair = pairs[0];
        let rest = pairs.drop_first();
        assert(pairs =~= seq![pair] + rest);
        query_text_front(pair, rest);
        pair_round_trip(pair);
        query_round_trip(rest);
        let head = pair_text(pair);
        let query = query_text(pairs);
        assert forall|j: int| 0 <= j < head.len() implies query[j] != '&' by {
            assert(query[j] == head[j]);
        }
        if rest.len() > 0 {
            assert(query[head.len() as int] == '&');
            first_index_is(query, '&', head.len() as int);
            assert(query.take(head.len() as int) =~= head);
            assert(query.skip(head.len() as int + 1) =~= query_text(rest));
        } else {
            assert(query =~= head);
            first_index_is(query, '&', head.len() as int);
            assert(query.take(head.len() as int) =~= head);
            assert(seq![pair] + Seq::<(Seq<char>, Seq<char>)>::empty() =~= pairs);
        }
    }
}

/// The query of an address whose query was replaced is the query of the new
/// pairs, whatever the address was.
pub proof fn replaced_query(address: Seq<char>, pairs: Seq<(Seq<char>, Seq<char>)>)
    ensures
        query_of(address_with(address, pairs)) == query_text(pairs),
{
    let mark = fragment_start(address);
    first_index_bounds(address, '#');
    let before = address.take(mark);
    let cut = query_start(address);
    first_index_bounds(before, '?');
    let base = address.take(cut);
    let tail = address.skip(mark);
    let query = query_text(pairs);
    let made = address_with(address, pairs);
    query_text_is_plain(pairs);
    assert forall|j: int| 0 <= j < base.len() implies base[j] != '#' && base[j] != '?' by {
        assert(base[j] == before[j]);
        assert(before[j] == address[j]);
    }
    assert(tail.len() > 0 ==> tail[0] == '#');
    if pairs.len() > 0 {
        pair_round_trip(pairs.last());
        let new_mark: int = base.len() as int + 1 + query.len() as int;
        assert(made =~= base + seq!['?'] + query + tail);
        assert(made.len() == new_mark + tail.len());
        assert forall|j: int| 0 <= j < new_mark implies made[j] != '#' by {
            if j < base.len() {
                assert(made[j] == base[j]);
            } else if j == base.len() {
                assert(made[j] == '?');
            } else {
                assert(made[j] == query[j - base.len() - 1]);
            }
        }
        assert(new_mark < made.len() ==> made[new_mark] == tail[0]);
        first_index_is(made, '#', new_mark);
        let new_before = made.take(new_mark);
        assert forall|j: int| 0 <= j < base.len() implies new_before[j] != '?' by {
            assert(new_before[j] == base[j]);
        }
        assert(new_before[base.len() as int] == '?');
        first_index_is(new_before, '?', base.len() as int);
        assert(made.subrange(base.len() as int + 1, new_mark) =~= query);
    } else {
        let new_mark = base.len() as int;
        assert(made =~= base + tail);
        assert forall|j: int| 0 <= j < new_mark implies made[j] != '#' by {
            assert(made[j] == base[j]);
        }
        assert(new_mark < made.len() ==> made[new_mark] == tail[0]);
        first_index_is(made, '#', new_mark);
        let new_before = made.take(new_mark);
        assert forall|j: int| 0 <= j < new_mark implies new_before[j] != '?' by {
            assert(new_before[j] == base[j]);
        }
        first_index_is(new_before, '?', new_mark);
    }
}

/// A link round-trips: reading the pairs of an address whose query was
/// replaced gives exactly the pairs that were put there.
pub proof fn address_round_trip(address: Seq<char>, pairs: Seq<(Seq<char>, Seq<char>)>)
    ensures
        parsed_query(query_of(address_with(address, pairs))) == pairs,
{
    replaced_query(address, pairs);
    query_round_trip(pairs);
}

} // verus!
