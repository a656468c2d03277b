//! Reading parameters out of the query of a URI, and decoding their values.
use vstd::prelude::*;
use vstd::utf8::encode_utf8;

verus! {

pub const PERCENT: u8 = 0x25;

pub const PLUS: u8 = 0x2b;

pub const QUESTION_MARK: u8 = 0x3f;

pub const AMPERSAND: u8 = 0x26;

pub const EQUALS_SIGN: u8 = 0x3d;

/// Value of one hexadecimal digit, in either case, or `None` for any other byte.
pub open spec fn hex_digit_value(b: u8) -> Option<u8> {
    if 0x30 <= b <= 0x39 {
        Some((b - 0x30) as u8)
    } else if 0x61 <= b <= 0x66 {
        Some((b - 0x61 + 10) as u8)
    } else if 0x41 <= b <= 0x46 {
        Some((b - 0x41 + 10) as u8)
    } else {
        None
    }
}

/// The byte that the two bytes after a `%` stand for. They are read as an unsigned
/// hexadecimal number, written either as two digits or as a `+` sign and one digit.
pub open spec fn hex_pair(hi: u8, lo: u8) -> Option<u8> {
    match (hex_digit_value(hi), hex_digit_value(lo)) {
        (Some(h), Some(l)) => Some((16 * h + l) as u8),
        (None, Some(l)) => if hi == PLUS {
            Some(l)
        } else {
            None
        },
        _ => None,
    }
}

/// The character whose code is the byte `b`.
pub open spec fn byte_char(b: u8) -> char {
    b as char
}

/// Decoding of a query value: `%` and two hexadecimal digits give the byte they spell,
/// `+` gives a space, and every other byte gives the character with the same code.
pub open spec fn percent_decode(s: Seq<u8>) -> Seq<char>
    decreases s.len(),
{
    if s.len() == 0 {
        Seq::empty()
    } else if s[0] == PERCENT && s.len() > 2 && hex_pair(s[1], s[2]) is Some {
        seq![byte_char(hex_pair(s[1], s[2])->0)] + percent_decode(s.skip(3))
    } else if s[0] == PLUS {
        seq![' '] + percent_decode(s.skip(1))
    } else {
        seq![byte_char(s[0])] + percent_decode(s.skip(1))
    }
}

/// Index of the first `b` in `s`, or the length of `s` when `b` does not occur.
pub open spec fn find_byte(s: Seq<u8>, b: u8) -> nat
    decreases s.len(),
{
    if s.len() == 0 {
        0
    } else if s[0] == b {
        0
    } else {
        1 + find_byte(s.drop_first(), b)
    }
}

/// The text between the first `?` of a URI and the next `?` (or the end), if the URI has a `?`.
pub open spec fn query_section(uri: Seq<u8>) -> Option<Seq<u8>> {
    let p = find_byte(uri, QUESTION_MARK);
    if p < uri.len() {
        let rest = uri.skip(p + 1int);
        Some(rest.take(find_byte(rest, QUESTION_MARK) as int))
    } else {
        None
    }
}

/// Raw value of the first `&`-separated pair of `query` whose name (the text before its first
/// `=`, or the whole pair) is `key`. The value is the text after that `=`, or empty.
pub open spec fn pair_value(query: Seq<u8>, key: Seq<u8>) -> Option<Seq<u8>>
    decreases query.len(),
{
    let end = find_byte(query, AMPERSAND);
    let pair = query.take(end as int);
    let eq = find_byte(pair, EQUALS_SIGN);
    if pair.take(eq as int) == key {
        Some(
            if eq < pair.len() {
                pair.skip(eq + 1int)
            } else {
                Seq::empty()
            },
        )
    } else if end < query.len() {
        pair_value(query.skip(end + 1int), key)
    } else {
        None
    }
}

/// Raw (still encoded) value of the query parameter `key` in the URI `uri`, both as UTF-8 bytes.
pub open spec fn raw_query_value(uri: Seq<u8>, key: Seq<u8>) -> Option<Seq<u8>> {
    match query_section(uri) {
        Some(q) => pair_value(q, key),
        None => None,
    }
}

/// Decoded value of the query parameter `key` in the URI `uri`.
pub open spec fn query_param(uri: Seq<char>, key: Seq<char>) -> Option<Seq<char>> {
    match raw_query_value(encode_utf8(uri), encode_utf8(key)) {
        Some(v) => Some(percent_decode(v)),
        None => None,
    }
}

/// An index before which `b` does not occur, and at which `b` occurs or the text ends, is
/// `find_byte`.
pub proof fn lemma_find_byte_at(s: Seq<u8>, b: u8, i: int)
    requires
        0 <= i <= s.len(),
        forall|j: int| 0 <= j < i ==> s[j] != b,
        i == s.len() || s[i] == b,
    ensures
        find_byte(s, b) == i,
    decreases i,
{
    if i > 0 {
        assert forall|j: int| 0 <= j < i - 1 implies s.drop_first()[j] != b by {
            assert(s.drop_first()[j] == s[j + 1]);
        }
        lemma_find_byte_at(s.drop_first(), b, i - 1);
    }
}

/// Appends `c` to `s`, through `String::push`.
#[verifier::external_body]
pub(crate) fn push_char(s: &mut String, c: char)
    ensures
        final(s)@ == old(s)@.push(c),
{
    s.push(c);
}

fn hex_digit(b: u8) -> (r: Option<u8>)
    ensures
        r == hex_digit_value(b),
{
    if 0x30 <= b && b <= 0x39 {
        Some(b - 0x30)
    } else if 0x61 <= b && b <= 0x66 {
        Some(b - 0x61 + 10)
    } else if 0x41 <= b && b <= 0x46 {
        Some(b - 0x41 + 10)
    } else {
        None
    }
}

fn decode_hex_pair(hi: u8, lo: u8) -> (r: Option<u8>)
    ensures
        r == hex_pair(hi, lo),
{
    match (hex_digit(hi), hex_digit(lo)) {
        (Some(h), Some(l)) => Some(16 * h + l),
        (None, Some(l)) => if hi == PLUS {
            Some(l)
        } else {
            None
        },
        _ => None,
    }
}

/// Index of the first `b` in `bytes[start..end]`, or `end`.
fn find_byte_in(bytes: &[u8], start: usize, end: usize, b: u8) -> (r: usize)
    requires
        start <= end <= bytes@.len(),
    ensures
        start <= r <= end,
        r - start == find_byte(bytes@.subrange(start as int, end as int), b),
{
    let mut i = start;
    while i < end && bytes[i] != b
        invariant
            start <= i <= end,
            end <= bytes@.len(),
            forall|j: int| start <= j < i ==> bytes@[j] != b,
        decreases end - i,
    {
        i = i + 1;
    }
    proof {
        let s = bytes@.subrange(start as int, end as int);
        assert forall|j: int| 0 <= j < i - start implies s[j] != b by {
            assert(s[j] == bytes@[start + j]);
        }
        lemma_find_byte_at(s, b, i - start);
    }
    i
}

/// Whether `bytes[start..end]` equals `other`.
fn range_equals(bytes: &[u8], start: usize, end: usize, other: &[u8]) -> (r: bool)
    requires
        start <= end <= bytes@.len(),
    ensures
        r == (bytes@.subrange(start as int, end as int) == other@),
{
    let ghost s = bytes@.subrange(start as int, end as int);
    if end - start != other.len() {
        return false;
    }
    let mut i: usize = 0;
    while i < other.len()
        invariant
            start <= end <= bytes@.len(),
            end - start == other@.len(),
            s == bytes@.subrange(start as int, end as int),
            0 <= i <= other@.len(),
            forall|j: int| 0 <= j < i ==> s[j] == other@[j],
        decreases other@.len() - i,
    {
        if bytes[start + i] != other[i] {
            assert(s[i as int] != other@[i as int]);
            return false;
        }
        i = i + 1;
    }
    assert(s =~= other@);
    true
}

/// Decodes `bytes[start..end]` as a query value.
fn decode_range(bytes: &[u8], start: usize, end: usize) -> (out: String)
    requires
        start <= end <= bytes@.len(),
    ensures
        out@ == percent_decode(bytes@.subrange(start as int, end as int)),
{
    let mut out = String::new();
    let mut i = start;
    while i < end
        invariant
            start <= i <= end <= bytes@.len(),
            percent_decode(bytes@.subrange(start as int, end as int)) == out@ + percent_decode(
                bytes@.subrange(i as int, end as int),
            ),
        decreases end - i,
    {
        let ghost rest = bytes@.subrange(i as int, end as int);
        let ghost before = out@;
        let b = bytes[i];
        if b == PERCENT && end - i > 2 {
            if let Some(v) = decode_hex_pair(bytes[i + 1], bytes[i + 2]) {
                proof {
                    assert(rest[1] == bytes@[i + 1]);
                    assert(rest[2] == bytes@[i + 2]);
                    assert(rest.skip(3) =~= bytes@.subrange(i + 3, end as int));
                }
                push_char(&mut out, v as char);
                proof {
                    assert(before + percent_decode(rest) =~= out@ + percent_decode(rest.skip(3)));
                }
                i = i + 3;
                continue;
            }
        } else if b == PLUS {
            proof {
                assert(rest.skip(1) =~= bytes@.subrange(i + 1, end as int));
            }
            push_char(&mut out, ' ');
            proof {
                assert(before + percent_decode(rest) =~= out@ + percent_decode(rest.skip(1)));
            }
            i = i + 1;
            continue;
        }
        proof {
            assert(rest.skip(1) =~= bytes@.subrange(i + 1, end as int));
            if b == PERCENT && end - i > 2 {
                assert(rest[1] == bytes@[i + 1]);
                assert(rest[2] == bytes@[i + 2]);
            }
        }
        push_char(&mut out, b as char);
        proof {
            assert(before + percent_decode(rest) =~= out@ + percent_decode(rest.skip(1)));
        }
        i = i + 1;
    }
    proof {
        assert(bytes@.subrange(end as int, end as int) =~= Seq::<u8>::empty());
        assert(out@ + Seq::<char>::empty() =~= out@);
    }
    out
}

/// Decodes a query value: `%XY` becomes the byte `XY`, `+` a space, and each other byte the
/// character with the same code.
pub fn url_decode(s: &str) -> (out: String)
    ensures
        out@ == percent_decode(encode_utf8(s@)),
{
    let bytes = s.as_bytes();
    proof {
        assert(bytes@.subrange(0, bytes@.len() as int) =~= bytes@);
    }
    decode_range(bytes, 0, bytes.len())
}

/// The decoded value of the first query parameter of `uri` named `key`, if there is one.
pub fn extract_query_param(uri: &str, key: &str) -> (r: Option<String>)
    ensures
        match query_param(uri@, key@) {
            Some(v) => r is Some && r->0@ == v,
            None => r is None,
        },
{
    let bytes = uri.as_bytes();
    let kb = key.as_bytes();
    let ghost u = bytes@;
    let n = bytes.len();
    let p = find_byte_in(bytes, 0, n, QUESTION_MARK);
    proof {
        assert(u.subrange(0, n as int) =~= u);
    }
    if p == n {
        return None;
    }
    let qs = p + 1;
    let qe = find_byte_in(bytes, qs, n, QUESTION_MARK);
    proof {
        let rest = u.skip(p + 1);
        assert(rest =~= u.subrange(qs as int, n as int));
        assert(rest.take(qe - qs) =~= u.subrange(qs as int, qe as int));
    }
    let mut pos = qs;
    loop
        invariant
            qs <= pos <= qe <= n,
            n == bytes@.len(),
            u == bytes@,
            u == encode_utf8(uri@),
            kb@ == encode_utf8(key@),
            query_section(u) == Some(u.subrange(qs as int, qe as int)),
            pair_value(u.subrange(qs as int, qe as int), kb@) == pair_value(
                u.subrange(pos as int, qe as int),
                kb@,
            ),
        decreases qe - pos,
    {
        let end = find_byte_in(bytes, pos, qe, AMPERSAND);
        let eq = find_byte_in(bytes, pos, end, EQUALS_SIGN);
        let ghost q = u.subrange(pos as int, qe as int);
        let ghost pair = q.take(end - pos);
        proof {
            assert(pair =~= u.subrange(pos as int, end as int));
            assert(pair.take(eq - pos) =~= u.subrange(pos as int, eq as int));
            assert(find_byte(q, AMPERSAND) == end - pos);
            assert(find_byte(pair, EQUALS_SIGN) == eq - pos);
        }
        if range_equals(bytes, pos, eq, kb) {
            let vstart = if eq < end {
                eq + 1
            } else {
                end
            };
            proof {
                if eq < end {
                    assert(pair.skip(eq - pos + 1) =~= u.subrange(vstart as int, end as int));
                } else {
                    assert(u.subrange(vstart as int, end as int) =~= Seq::<u8>::empty());
                }
            }
            assert(pair_value(q, kb@) == Some(u.subrange(vstart as int, end as int)));
            return Some(decode_range(bytes, vstart, end));
        }
        if end == qe {
            assert(pair_value(q, kb@) is None);
            return None;
        }
        proof {
            assert(q.skip(end - pos + 1) =~= u.subrange(end + 1, qe as int));
        }
        pos = end + 1;
    }
}

/// Uppercase hexadecimal digit for a value below 16.
pub open spec fn hex_upper(d: u8) -> u8 {
    if d < 10 {
        (0x30 + d) as u8
    } else {
        (0x41 + d - 10) as u8
    }
}

/// `%` followed by the two uppercase hexadecimal digits of `b`.
pub open spec fn percent_escape(b: u8) -> Seq<u8> {
    seq![PERCENT, hex_upper(b / 16), hex_upper(b % 16)]
}

/// `bytes` with each byte whose flag in `escape` is set written as `percent_escape` of it.
pub open spec fn encode_selected(bytes: Seq<u8>, escape: Seq<bool>) -> Seq<u8>
    decreases bytes.len(),
{
    if bytes.len() == 0 {
        Seq::empty()
    } else {
        (if escape[0] {
            percent_escape(bytes[0])
        } else {
            seq![bytes[0]]
        }) + encode_selected(bytes.drop_first(), escape.drop_first())
    }
}

/// Each byte as the character with the same code.
pub open spec fn bytes_as_chars(bytes: Seq<u8>) -> Seq<char> {
    bytes.map_values(|b: u8| byte_char(b))
}

/// Percent-escaping any choice of bytes that includes every `%` and `+`, and then decoding,
/// gives back each byte as the character with the same code.
pub proof fn lemma_decode_undoes_escaping(bytes: Seq<u8>, escape: Seq<bool>)
    requires
        escape.len() == bytes.len(),
        forall|i: int|
            0 <= i < bytes.len() && !escape[i] ==> bytes[i] != PERCENT && bytes[i] != PLUS,
    ensures
        percent_decode(encode_selected(bytes, escape)) == bytes_as_chars(bytes),
    decreases bytes.len(),
{
    if bytes.len() > 0 {
        let tail = bytes.drop_first();
        let tail_escape = escape.drop_first();
        assert forall|i: int| 0 <= i < tail.len() && !tail_escape[i] implies tail[i] != PERCENT
            && tail[i] != PLUS by {
            assert(tail[i] == bytes[i + 1]);
            assert(tail_escape[i] == escape[i + 1]);
        }
        lemma_decode_undoes_escaping(tail, tail_escape);
        let rest = encode_selected(tail, tail_escape);
        let e = encode_selected(bytes, escape);
        let b = bytes[0];
        if escape[0] {
            assert(hex_digit_value(hex_upper(b / 16)) == Some((b / 16) as u8));
            assert(hex_digit_value(hex_upper(b % 16)) == Some((b % 16) as u8));
            assert(hex_pair(hex_upper(b / 16), hex_upper(b % 16)) == Some(b));
            assert(e.skip(3) =~= rest);
        } else {
            assert(e.skip(1) =~= rest);
        }
        assert(bytes_as_chars(bytes) =~= seq![byte_char(b)] + bytes_as_chars(tail));
    }
}

/// UTF-8 encoding distributes over concatenation.
pub proof fn lemma_encode_utf8_concat(x: Seq<char>, y: Seq<char>)
    ensures
        encode_utf8(x + y) == encode_utf8(x) + encode_utf8(y),
    decreases x.len(),
{
    if x.len() == 0 {
        assert(x + y =~= y);
        assert(encode_utf8(x) + encode_utf8(y) =~= encode_utf8(y));
    } else {
        lemma_encode_utf8_concat(x.drop_first(), y);
        assert((x + y).drop_first() =~= x.drop_first() + y);
        assert((x + y)[0] == x[0]);
        assert(encode_utf8(x + y) =~= encode_utf8(x) + encode_utf8(y));
    }
}

/// The UTF-8 encoding of characters other than the ASCII character with code `c` never holds
/// the byte `c`: the bytes of longer encodings are all at least 0x80.
pub proof fn lemma_encode_utf8_avoids_ascii(chars: Seq<char>, c: u8)
    requires
        c < 0x80,
        forall|i: int| 0 <= i < chars.len() ==> (chars[i] as u32) != (c as u32),
    ensures
        forall|j: int| 0 <= j < encode_utf8(chars).len() ==> encode_utf8(chars)[j] != c,
    decreases chars.len(),
{
    if chars.len() > 0 {
        let tail = chars.drop_first();
        assert forall|i: int| 0 <= i < tail.len() implies (tail[i] as u32) != (c as u32) by {
            assert(tail[i] == chars[i + 1]);
        }
        lemma_encode_utf8_avoids_ascii(tail, c);
        let v = chars[0] as u32;
        let head = vstd::utf8::encode_scalar(v);
        assert(v != c as u32);
        assert(v <= 0x7F ==> (v & 0x7F) as u8 != c) by (bit_vector)
            requires
                v != c as u32,
                c < 0x80,
        ;
        assert((0xC0u8 | ((v >> 6) & 0x1F) as u8) >= 0x80) by (bit_vector);
        assert((0xE0u8 | ((v >> 12) & 0x0F) as u8) >= 0x80) by (bit_vector);
        assert((0xF0u8 | ((v >> 18) & 0x7) as u8) >= 0x80) by (bit_vector);
        assert((0x80u8 | (v & 0x3F) as u8) >= 0x80) by (bit_vector);
        assert((0x80u8 | ((v >> 6) & 0x3F) as u8) >= 0x80) by (bit_vector);
        assert((0x80u8 | ((v >> 12) & 0x3F) as u8) >= 0x80) by (bit_vector);
        assert forall|j: int| 0 <= j < head.len() implies head[j] != c by {}
        assert(encode_utf8(chars) =~= head + encode_utf8(tail));
        assert forall|j: int| 0 <= j < encode_utf8(chars).len() implies encode_utf8(chars)[j]
            != c by {
            if j >= head.len() {
                assert(encode_utf8(chars)[j] == encode_utf8(tail)[j - head.len()]);
            } else {
                assert(encode_utf8(chars)[j] == head[j]);
            }
        }
    }
}

/// Escaping with `percent_escape` never writes a byte that is neither `%` nor a hexadecimal
/// digit, so such a byte occurs in the result only where it stood unescaped.
pub proof fn lemma_encode_selected_avoids(bytes: Seq<u8>, escape: Seq<bool>, c: u8)
    requires
        escape.len() == bytes.len(),
        c != PERCENT,
        hex_digit_value(c) is None,
        forall|i: int| 0 <= i < bytes.len() && !escape[i] ==> bytes[i] != c,
    ensures
        forall|j: int|
            0 <= j < encode_selected(bytes, escape).len() ==> encode_selected(bytes, escape)[j]
                != c,
    decreases bytes.len(),
{
    if bytes.len() > 0 {
        let tail = bytes.drop_first();
        let tail_escape = escape.drop_first();
        assert forall|i: int| 0 <= i < tail.len() && !tail_escape[i] implies tail[i] != c by {
            assert(tail[i] == bytes[i + 1]);
            assert(tail_escape[i] == escape[i + 1]);
        }
        lemma_encode_selected_avoids(tail, tail_escape, c);
        let b = bytes[0];
        let head = if escape[0] {
            percent_escape(b)
        } else {
            seq![b]
        };
        let rest = encode_selected(tail, tail_escape);
        let e = encode_selected(bytes, escape);
        assert(e =~= head + rest);
        if escape[0] {
            assert(hex_digit_value(hex_upper(b / 16)) is Some);
            assert(hex_digit_value(hex_upper(b % 16)) is Some);
        }
        assert forall|j: int| 0 <= j < e.len() implies e[j] != c by {
            if j < head.len() {
                assert(e[j] == head[j]);
            } else {
                assert(e[j] == rest[j - head.len()]);
            }
        }
    }
}

/// A hexadecimal digit for a value below 16, in lowercase or in uppercase.
pub open spec fn hex_digit_char(d: u8, upper: bool) -> u8 {
    if d < 10 {
        (0x30 + d) as u8
    } else if upper {
        (0x41 + d - 10) as u8
    } else {
        (0x61 + d - 10) as u8
    }
}

/// `%` and two hexadecimal digits, each in either case, decode to the one character whose code
/// they spell, and decoding goes on after them.
pub proof fn lemma_hex_escape_decodes(
    hi: u8,
    lo: u8,
    upper_hi: bool,
    upper_lo: bool,
    rest: Seq<u8>,
)
    requires
        hi < 16,
        lo < 16,
    ensures
        percent_decode(seq![0x25u8, hex_digit_char(hi, upper_hi), hex_digit_char(lo, upper_lo)] + rest)
            == seq![((16 * hi + lo) as u8) as char] + percent_decode(rest),
{
    let s = seq![0x25u8, hex_digit_char(hi, upper_hi), hex_digit_char(lo, upper_lo)] + rest;
    assert(s[0] == 0x25u8);
    assert(s[1] == hex_digit_char(hi, upper_hi));
    assert(s[2] == hex_digit_char(lo, upper_lo));
    assert(hex_digit_value(hex_digit_char(hi, upper_hi)) == Some(hi));
    assert(hex_digit_value(hex_digit_char(lo, upper_lo)) == Some(lo));
    assert(s.skip(3) =~= rest);
}

/// `+` decodes to a space, and any byte other than `%` and `+` to the character with its code;
/// decoding goes on after it.
pub proof fn lemma_plain_bytes_decode(b: u8, rest: Seq<u8>)
    ensures
        b == 0x2b ==> percent_decode(seq![b] + rest) == seq![' '] + percent_decode(rest),
        b != 0x25 && b != 0x2b ==> percent_decode(seq![b] + rest) == seq![b as char]
            + percent_decode(rest),
{
    let s = seq![b] + rest;
    assert(s[0] == b);
    assert(s.skip(1) =~= rest);
}

/// Text without `%` and `+` decodes to its bytes, each as the character with its code.
pub proof fn lemma_plain_text_decodes_to_itself(s: Seq<u8>)
    requires
        forall|i: int| 0 <= i < s.len() ==> s[i] != 0x25 && s[i] != 0x2b,
    ensures
        percent_decode(s) == s.map_values(|b: u8| b as char),
    decreases s.len(),
{
    if s.len() > 0 {
        let tail = s.drop_first();
        assert forall|i: int| 0 <= i < tail.len() implies tail[i] != 0x25 && tail[i] != 0x2b by {
            assert(tail[i] == s[i + 1]);
        }
        lemma_plain_text_decodes_to_itself(tail);
        assert(s.skip(1) =~= tail);
        assert(s.map_values(|b: u8| b as char) =~= seq![s[0] as char] + tail.map_values(
            |b: u8| b as char,
        ));
    }
}

/// Whether `s` holds neither `&` nor `=`.
pub open spec fn free_of_delimiters(s: Seq<u8>) -> bool {
    forall|i: int| 0 <= i < s.len() ==> s[i] != 0x26 && s[i] != 0x3d
}

/// A query pair without `=` is a name without value: it gives the empty value when it is the
/// key, and otherwise the search goes on with the next pair (an empty pair included).
pub proof fn lemma_pair_without_value(name: Seq<u8>, key: Seq<u8>, rest: Seq<u8>)
    requires
        free_of_delimiters(name),
    ensures
        name == key ==> pair_value(name + seq![0x26u8] + rest, key) == Some(Seq::<u8>::empty()),
        name != key ==> pair_value(name + seq![0x26u8] + rest, key) == pair_value(rest, key),
        name == key ==> pair_value(name, key) == Some(Seq::<u8>::empty()),
        name != key ==> pair_value(name, key) is None,
{
    let q = name + seq![0x26u8] + rest;
    assert forall|j: int| 0 <= j < name.len() implies q[j] != AMPERSAND by {
        assert(q[j] == name[j]);
    }
    assert(q[name.len() as int] == AMPERSAND);
    lemma_find_byte_at(q, AMPERSAND, name.len() as int);
    assert(q.take(name.len() as int) =~= name);
    lemma_find_byte_at(name, EQUALS_SIGN, name.len() as int);
    lemma_find_byte_at(name, AMPERSAND, name.len() as int);
    assert(name.take(name.len() as int) =~= name);
    assert(q.skip(name.len() + 1int) =~= rest);
}

/// A query pair `name=value` gives `value` when `name` is the key, and otherwise the search goes
/// on with the next pair.
pub proof fn lemma_pair_with_value(name: Seq<u8>, value: Seq<u8>, key: Seq<u8>, rest: Seq<u8>)
    requires
        free_of_delimiters(name),
        forall|i: int| 0 <= i < value.len() ==> value[i] != 0x26,
    ensures
        name == key ==> pair_value(name + seq![0x3du8] + value + seq![0x26u8] + rest, key)
            == Some(value),
        name != key ==> pair_value(name + seq![0x3du8] + value + seq![0x26u8] + rest, key)
            == pair_value(rest, key),
        name == key ==> pair_value(name + seq![0x3du8] + value, key) == Some(value),
        name != key ==> pair_value(name + seq![0x3du8] + value, key) is None,
{
    let pair = name + seq![0x3du8] + value;
    let end = pair.len() as int;
    assert forall|j: int| 0 <= j < end implies pair[j] != AMPERSAND by {
        if j < name.len() {
            assert(pair[j] == name[j]);
        } else if j > name.len() {
            assert(pair[j] == value[j - name.len() - 1]);
        }
    }
    assert forall|j: int| 0 <= j < name.len() implies pair[j] != EQUALS_SIGN by {
        assert(pair[j] == name[j]);
    }
    assert(pair[name.len() as int] == EQUALS_SIGN);
    lemma_find_byte_at(pair, EQUALS_SIGN, name.len() as int);
    assert(pair.take(name.len() as int) =~= name);
    assert(pair.skip(name.len() + 1int) =~= value);
    lemma_find_byte_at(pair, AMPERSAND, end);
    assert(pair.take(end) =~= pair);
    let q = pair + seq![0x26u8] + rest;
    assert forall|j: int| 0 <= j < end implies q[j] != AMPERSAND by {
        assert(q[j] == pair[j]);
    }
    assert(q[end] == AMPERSAND);
    lemma_find_byte_at(q, AMPERSAND, end);
    assert(q.take(end) =~= pair);
    assert(q.skip(end + 1) =~= rest);
}

/// A `+` sign and one hexadecimal digit after `%` also spell a byte: that digit's value.
pub proof fn lemma_signed_hex_escape_decodes(d: u8, upper: bool, rest: Seq<u8>)
    requires
        d < 16,
    ensures
        percent_decode(seq![0x25u8, 0x2bu8, hex_digit_char(d, upper)] + rest) == seq![d as char]
            + percent_decode(rest),
{
    let s = seq![0x25u8, 0x2bu8, hex_digit_char(d, upper)] + rest;
    assert(s[1] == 0x2bu8);
    assert(s[2] == hex_digit_char(d, upper));
    assert(hex_digit_value(hex_digit_char(d, upper)) == Some(d));
    assert(s.skip(3) =~= rest);
}

/// Whether `b` is an ASCII hexadecimal digit, in either case.
pub open spec fn is_hex_digit_byte(b: u8) -> bool {
    (0x30 <= b <= 0x39) || (0x41 <= b <= 0x46) || (0x61 <= b <= 0x66)
}

/// A `%` that is not followed by two more bytes, or whose next byte is neither a hexadecimal
/// digit nor `+`, stays a `%`, and decoding goes on with the byte after it.
pub proof fn lemma_bare_percent_stays(rest: Seq<u8>)
    requires
        rest.len() < 2 || (!is_hex_digit_byte(rest[0]) && rest[0] != 0x2b),
    ensures
        percent_decode(seq![0x25u8] + rest) == seq!['%'] + percent_decode(rest),
{
    let s = seq![0x25u8] + rest;
    assert(s.skip(1) =~= rest);
    if rest.len() >= 2 {
        assert(s[1] == rest[0]);
    }
    assert(byte_char(0x25u8) == '%');
}

/// The query of a URI is the text between its first `?` and the next `?`, or the end; a URI
/// without `?` has none.
pub proof fn lemma_query_section(head: Seq<u8>, query: Seq<u8>, tail: Seq<u8>)
    requires
        forall|i: int| 0 <= i < head.len() ==> head[i] != 0x3f,
        forall|i: int| 0 <= i < query.len() ==> query[i] != 0x3f,
    ensures
        query_section(head + seq![0x3fu8] + query) == Some(query),
        query_section(head + seq![0x3fu8] + query + seq![0x3fu8] + tail) == Some(query),
        query_section(head) is None,
{
    lemma_find_byte_at(head, QUESTION_MARK, head.len() as int);
    let u1 = head + seq![0x3fu8] + query;
    let u2 = head + seq![0x3fu8] + query + seq![0x3fu8] + tail;
    assert forall|j: int| 0 <= j < head.len() implies u1[j] != QUESTION_MARK && u2[j]
        != QUESTION_MARK by {
        assert(u1[j] == head[j]);
        assert(u2[j] == head[j]);
    }
    assert(u1[head.len() as int] == QUESTION_MARK);
    assert(u2[head.len() as int] == QUESTION_MARK);
    lemma_find_byte_at(u1, QUESTION_MARK, head.len() as int);
    lemma_find_byte_at(u2, QUESTION_MARK, head.len() as int);
    let r1 = u1.skip(head.len() + 1int);
    let r2 = u2.skip(head.len() + 1int);
    assert(r1 =~= query);
    assert(r2 =~= query + seq![0x3fu8] + tail);
    lemma_find_byte_at(query, QUESTION_MARK, query.len() as int);
    assert(query.take(query.len() as int) =~= query);
    assert forall|j: int| 0 <= j < query.len() implies r2[j] != QUESTION_MARK by {
        assert(r2[j] == query[j]);
    }
    assert(r2[query.len() as int] == QUESTION_MARK);
    lemma_find_byte_at(r2, QUESTION_MARK, query.len() as int);
    assert(r2.take(query.len() as int) =~= query);
}

} // verus!
