//! The `url-encode` and `url-decode` tools: percent-encoding (RFC 3986).

use vstd::prelude::*;
use vstd::string::StringSliceAdditionalSpecFns;
use vstd::utf8::{decode_utf8, encode_utf8, encode_utf8_decode_utf8, encode_utf8_valid_utf8, is_ascii_chars, is_ascii_chars_encode_utf8, valid_utf8};
use crate::error::{ToolError, is_invalid_input};
use crate::text::{chars_of, hex_digit_lower, push_char, push_str, string_of, utf8_text};
use crate::category::ToolCategory;
use crate::request::{TextInput, missing_input_message, require_input};
use crate::tool::Tool;

verus! {

/// An unreserved byte, written as itself: `A-Z a-z 0-9 - _ . ~`.
pub open spec fn is_unreserved(b: u8) -> bool {
    ||| 65 <= b <= 90
    ||| 97 <= b <= 122
    ||| 48 <= b <= 57
    ||| b == 45
    ||| b == 95
    ||| b == 46
    ||| b == 126
}

/// The upper-case hexadecimal digit for `n` (0 to 15).
pub open spec fn hex_digit_upper(n: int) -> char {
    if n < 10 {
        (48 + n) as char
    } else {
        (55 + n) as char
    }
}

/// How one byte is written: itself when unreserved, else `%` and two
/// upper-case hex digits (a space becomes `%20`).
pub open spec fn encode_byte(b: u8) -> Seq<char> {
    if is_unreserved(b) {
        seq![b as char]
    } else {
        seq!['%', hex_digit_upper((b / 16) as int), hex_digit_upper((b % 16) as int)]
    }
}

/// The percent-encoding of a byte string.
pub open spec fn url_encoded(b: Seq<u8>) -> Seq<char>
    decreases b.len(),
{
    if b.len() == 0 {
        Seq::empty()
    } else {
        url_encoded(b.drop_last()) + encode_byte(b.last())
    }
}

/// The number of bytes of a character in UTF-8.
pub open spec fn utf8_width(c: char) -> int {
    if (c as u32) < 0x80 {
        1
    } else if (c as u32) < 0x800 {
        2
    } else if (c as u32) < 0x10000 {
        3
    } else {
        4
    }
}

/// The number of bytes of a string in UTF-8.
pub open spec fn utf8_len(s: Seq<char>) -> int
    decreases s.len(),
{
    if s.len() == 0 {
        0
    } else {
        utf8_len(s.drop_last()) + utf8_width(s.last())
    }
}

/// The value of a hexadecimal digit (either case).
pub open spec fn hex_value(c: char) -> Option<u8> {
    if '0' <= c <= '9' {
        Some(((c as u32) - 48) as u8)
    } else if 'a' <= c <= 'f' {
        Some(((c as u32) - 87) as u8)
    } else if 'A' <= c <= 'F' {
        Some(((c as u32) - 55) as u8)
    } else {
        None
    }
}

/// The byte written by the two hex digits of an escape; `None` unless `h`
/// is exactly two hex digits (either case).
pub open spec fn parse_hex_byte(h: Seq<char>) -> Option<u8> {
    if h.len() == 2 {
        match (hex_value(h[0]), hex_value(h[1])) {
            (Some(a), Some(b)) => Some((a * 16 + b) as u8),
            _ => None,
        }
    } else {
        None
    }
}

/// Puts bytes `b` in front of decoded bytes, passing an error on.
pub open spec fn prepend(b: Seq<u8>, r: Result<Seq<u8>, Seq<char>>) -> Result<Seq<u8>, Seq<char>> {
    match r {
        Ok(t) => Ok(b + t),
        Err(e) => Err(e),
    }
}

/// The text taken as the two hex digits after a `%` at position `i`.
pub open spec fn escape_digits(s: Seq<char>, i: int) -> Seq<char> {
    s.subrange(i + 1, if i + 3 <= s.len() { i + 3 } else { s.len() as int })
}

/// The bytes a percent-encoded text stands for, left to right: `+` is a
/// space, `%` followed by two hex digits is that byte, and any other
/// character stands for its own UTF-8 bytes. The error is the message of
/// the first bad escape.
pub open spec fn url_decoded_bytes(s: Seq<char>) -> Result<Seq<u8>, Seq<char>>
    decreases s.len(),
{
    if s.len() == 0 {
        Ok(Seq::empty())
    } else if s[0] == '+' {
        prepend(seq![32u8], url_decoded_bytes(s.drop_first()))
    } else if s[0] == '%' {
        let hex = escape_digits(s, 0);
        if utf8_len(hex) < 2 {
            Err("不完整的百分号编码"@)
        } else {
            match parse_hex_byte(hex) {
                None => Err("无效的百分号编码: %"@ + hex),
                Some(v) => prepend(seq![v], url_decoded_bytes(s.skip(1 + hex.len() as int))),
            }
        }
    } else {
        prepend(encode_utf8(seq![s[0]]), url_decoded_bytes(s.drop_first()))
    }
}

/// Puts `c` in front of a decoded text, passing an error on.
pub open spec fn prepend_char(c: char, r: Result<Seq<char>, Seq<char>>) -> Result<Seq<char>, Seq<char>> {
    match r {
        Ok(t) => Ok(seq![c] + t),
        Err(e) => Err(e),
    }
}

/// A percent-encoded text read one character per escaped byte: `+` is a
/// space, an escape is the character whose code is its byte, and any other
/// character stands for itself. It fails exactly where
/// [`url_decoded_bytes`] does.
pub open spec fn url_decoded_chars(s: Seq<char>) -> Result<Seq<char>, Seq<char>>
    decreases s.len(),
{
    if s.len() == 0 {
        Ok(Seq::empty())
    } else if s[0] == '+' {
        prepend_char(' ', url_decoded_chars(s.drop_first()))
    } else if s[0] == '%' {
        let hex = escape_digits(s, 0);
        if utf8_len(hex) < 2 {
            Err("不完整的百分号编码"@)
        } else {
            match parse_hex_byte(hex) {
                None => Err("无效的百分号编码: %"@ + hex),
                Some(v) => prepend_char(v as char, url_decoded_chars(s.skip(1 + hex.len() as int))),
            }
        }
    } else {
        prepend_char(s[0], url_decoded_chars(s.drop_first()))
    }
}

/// Decoding a percent-encoded text. It fails only on a malformed escape (a
/// `%` not followed by two hex digits), with that escape's message. When
/// the bytes it stands for are UTF-8, the answer is the text they encode;
/// otherwise each escaped byte is read as the character with that code.
pub open spec fn url_decoded(s: Seq<char>) -> Result<Seq<char>, Seq<char>> {
    match url_decoded_bytes(s) {
        Ok(b) => if valid_utf8(b) {
            Ok(decode_utf8(b))
        } else {
            url_decoded_chars(s)
        },
        Err(m) => Err(m),
    }
}

/// Decoded text so far, followed by the decoding of what is left.
pub open spec fn continue_chars(out: Seq<char>, r: Result<Seq<char>, Seq<char>>) -> Result<Seq<char>, Seq<char>> {
    match r {
        Ok(t) => Ok(out + t),
        Err(e) => Err(e),
    }
}

proof fn lemma_continue_prepend_char(out: Seq<char>, c: char, r: Result<Seq<char>, Seq<char>>)
    ensures
        continue_chars(out, prepend_char(c, r)) == continue_chars(out.push(c), r),
{
    if let Ok(t) = r {
        assert(out + (seq![c] + t) =~= out.push(c) + t);
    }
}

/// Decoded bytes so far, followed by the decoding of what is left.
pub open spec fn continue_with(out: Seq<u8>, r: Result<Seq<u8>, Seq<char>>) -> Result<Seq<u8>, Seq<char>> {
    match r {
        Ok(t) => Ok(out + t),
        Err(e) => Err(e),
    }
}

proof fn lemma_continue_prepend(out: Seq<u8>, b: Seq<u8>, r: Result<Seq<u8>, Seq<char>>)
    ensures
        continue_with(out, prepend(b, r)) == continue_with(out + b, r),
{
    if let Ok(t) = r {
        assert(out + (b + t) =~= (out + b) + t);
    }
}

proof fn lemma_utf8_len_bound(s: Seq<char>)
    ensures
        0 <= utf8_len(s) <= 4 * s.len(),
    decreases s.len(),
{
    if s.len() > 0 {
        lemma_utf8_len_bound(s.drop_last());
    }
}

fn hex_upper(n: u8) -> (c: char)
    requires
        n < 16,
    ensures
        c == hex_digit_upper(n as int),
{
    if n < 10 {
        (48 + n) as char
    } else {
        (55 + n) as char
    }
}

/// Percent-encodes the UTF-8 bytes of a text.
pub fn url_encode(input: &str) -> (r: String)
    ensures
        r@ == url_encoded(encode_utf8(input@)),
{
    let bytes = input.as_bytes();
    let mut out: Vec<char> = Vec::new();
    let mut i: usize = 0;
    while i < bytes.len()
        invariant
            bytes@ == input.spec_bytes(),
            i <= bytes@.len(),
            out@ == url_encoded(bytes@.take(i as int)),
        decreases bytes.len() - i,
    {
        let b = bytes[i];
        assert(bytes@.take(i + 1).drop_last() =~= bytes@.take(i as int));
        if (65 <= b && b <= 90) || (97 <= b && b <= 122) || (48 <= b && b <= 57) || b == 45 || b
            == 95 || b == 46 || b == 126 {
            out.push(b as char);
        } else {
            out.push('%');
            out.push(hex_upper(b / 16));
            out.push(hex_upper(b % 16));
        }
        assert(out@ =~= url_encoded(bytes@.take(i + 1)));
        i = i + 1;
    }
    assert(bytes@.take(bytes@.len() as int) =~= bytes@);
    string_of(&out)
}

fn hex_of(c: char) -> (r: Option<u8>)
    ensures
        r == hex_value(c),
{
    if '0' <= c && c <= '9' {
        Some((c as u8) - 48)
    } else if 'a' <= c && c <= 'f' {
        Some((c as u8) - 87)
    } else if 'A' <= c && c <= 'F' {
        Some((c as u8) - 55)
    } else {
        None
    }
}

fn char_width(c: char) -> (r: usize)
    ensures
        r == utf8_width(c),
{
    if (c as u32) < 0x80 {
        1
    } else if (c as u32) < 0x800 {
        2
    } else if (c as u32) < 0x10000 {
        3
    } else {
        4
    }
}

/// The UTF-8 bytes of one character.
fn char_bytes(c: char) -> (r: Vec<u8>)
    ensures
        r@ == encode_utf8(seq![c]),
{
    let mut t = String::new();
    push_char(&mut t, c);
    assert(t@ =~= seq![c]);
    let bs = t.as_str().as_bytes();
    let mut r: Vec<u8> = Vec::new();
    let mut i: usize = 0;
    while i < bs.len()
        invariant
            i <= bs@.len(),
            r@ == bs@.take(i as int),
        decreases bs.len() - i,
    {
        r.push(bs[i]);
        i = i + 1;
        assert(r@ =~= bs@.take(i as int));
    }
    assert(bs@.take(bs@.len() as int) =~= bs@);
    r
}

/// Decodes a percent-encoded text (see [`url_decoded`]); a `%` not followed
/// by two hex digits is an `InvalidInput` error.
pub fn url_decode(input: &str) -> (r: Result<String, ToolError>)
    ensures
        url_decoded(input@) matches Ok(t) ==> r matches Ok(s) && s@ == t,
        url_decoded(input@) matches Err(m) ==> r matches Err(e) && is_invalid_input(e, m),
{
    let cs = chars_of(input);
    let n = cs.len();
    let mut out: Vec<u8> = Vec::new();
    let mut text: Vec<char> = Vec::new();
    let mut i: usize = 0;
    assert(cs@.skip(0) =~= cs@);
    proof {
        if let Ok(t) = url_decoded_bytes(cs@) {
            assert(Seq::<u8>::empty() + t =~= t);
        }
        if let Ok(t) = url_decoded_chars(cs@) {
            assert(Seq::<char>::empty() + t =~= t);
        }
    }
    while i < n
        invariant
            cs@ == input@,
            n == cs@.len(),
            i <= n,
            url_decoded_bytes(cs@) == continue_with(out@, url_decoded_bytes(cs@.skip(i as int))),
            url_decoded_chars(cs@) == continue_chars(text@, url_decoded_chars(cs@.skip(i as int))),
        decreases n - i,
    {
        let c = cs[i];
        let ghost rest = cs@.skip(i as int);
        assert(rest[0] == c);
        if c == '+' {
            assert(rest.drop_first() =~= cs@.skip(i + 1));
            proof {
                lemma_continue_prepend(out@, seq![32u8], url_decoded_bytes(cs@.skip(i + 1)));
                lemma_continue_prepend_char(text@, ' ', url_decoded_chars(cs@.skip(i + 1)));
            }
            let ghost before = out@;
            out.push(32u8);
            text.push(' ');
            assert(out@ =~= before + seq![32u8]);
            i = i + 1;
        } else if c == '%' {
            let end = if n - i >= 3 { i + 3 } else { n };
            let ghost hex = escape_digits(rest, 0);
            assert(hex =~= cs@.subrange(i + 1, end as int));
            let mut digits: Vec<char> = Vec::new();
            let mut width: usize = 0;
            let mut j = i + 1;
            while j < end
                invariant
                    i + 1 <= j <= end,
                    end <= n,
                    end <= i + 3,
                    n == cs@.len(),
                    digits@ == cs@.subrange(i + 1, j as int),
                    width == utf8_len(digits@),
                    width <= 4 * (j - i - 1),
                decreases end - j,
            {
                let d = cs[j];
                proof {
                    lemma_utf8_len_bound(digits@);
                }
                digits.push(d);
                width = width + char_width(d);
                j = j + 1;
                assert(digits@.drop_last() =~= cs@.subrange(i + 1, j - 1));
            }
            assert(digits@ =~= hex);
            if width < 2 {
                return Err(ToolError::InvalidInput(String::from_str("不完整的百分号编码")));
            }
            let value = if digits.len() == 2 {
                match (hex_of(digits[0]), hex_of(digits[1])) {
                    (Some(a), Some(b)) => Some(a * 16 + b),
                    _ => None,
                }
            } else {
                None
            };
            match value {
                None => {
                    let mut msg = String::from_str("无效的百分号编码: %");
                    let h = string_of(&digits);
                    push_str(&mut msg, h.as_str());
                    return Err(ToolError::InvalidInput(msg));
                },
                Some(v) => {
                    assert(rest.skip(1 + hex.len() as int) =~= cs@.skip(end as int));
                    proof {
                        lemma_continue_prepend(out@, seq![v], url_decoded_bytes(cs@.skip(end as int)));
                        lemma_continue_prepend_char(text@, v as char, url_decoded_chars(cs@.skip(end as int)));
                    }
                    let ghost before = out@;
                    out.push(v);
                    text.push(v as char);
                    assert(out@ =~= before + seq![v]);
                    i = end;
                },
            }
        } else {
            assert(rest.drop_first() =~= cs@.skip(i + 1));
            let bs = char_bytes(c);
            proof {
                lemma_continue_prepend(out@, bs@, url_decoded_bytes(cs@.skip(i + 1)));
                lemma_continue_prepend_char(text@, c, url_decoded_chars(cs@.skip(i + 1)));
            }
            let ghost before = out@;
            let mut k: usize = 0;
            while k < bs.len()
                invariant
                    k <= bs@.len(),
                    out@ == before + bs@.take(k as int),
                decreases bs.len() - k,
            {
                out.push(bs[k]);
                k = k + 1;
                assert(out@ =~= before + bs@.take(k as int));
            }
            assert(bs@.take(bs@.len() as int) =~= bs@);
            text.push(c);
            i = i + 1;
        }
    }
    assert(cs@.skip(n as int) =~= Seq::<char>::empty());
    assert(out@ + Seq::<u8>::empty() =~= out@);
    assert(text@ + Seq::<char>::empty() =~= text@);
    match utf8_text(out.as_slice()) {
        Some(t) => Ok(t),
        None => Ok(string_of(&text)),
    }
}

/// The `url-encode` tool.
#[derive(Clone, Copy)]
pub struct UrlEncode;

impl Tool for UrlEncode {
    open spec fn spec_id(&self) -> Seq<char> {
        "url-encode"@
    }

    open spec fn spec_name(&self) -> Seq<char> {
        "URL 编码"@
    }

    open spec fn spec_description(&self) -> Seq<char> {
        "将文本进行 URL 百分号编码（RFC 3986）"@
    }

    open spec fn spec_category(&self) -> ToolCategory {
        ToolCategory::Network
    }

    open spec fn spec_cpu_intensive(&self) -> bool {
        false
    }

    fn id(&self) -> &'static str {
        "url-encode"
    }

    fn name(&self) -> &'static str {
        "URL 编码"
    }

    fn description(&self) -> &'static str {
        "将文本进行 URL 百分号编码（RFC 3986）"
    }

    fn category(&self) -> ToolCategory {
        ToolCategory::Network
    }

    fn is_cpu_intensive(&self) -> bool {
        false
    }
}

impl UrlEncode {
    /// Percent-encodes the request's `input`; the answer's `result`.
    pub fn execute(&self, req: TextInput) -> (r: Result<String, ToolError>)
        ensures
            req.input matches Some(s) ==> r matches Ok(out) && out@ == url_encoded(encode_utf8(s@)),
            req.input is None ==> (r matches Err(e) && is_invalid_input(e, missing_input_message())),
    {
        let input = require_input(req.input)?;
        Ok(url_encode(input.as_str()))
    }
}

/// The `url-decode` tool.
#[derive(Clone, Copy)]
pub struct UrlDecode;

impl Tool for UrlDecode {
    open spec fn spec_id(&self) -> Seq<char> {
        "url-decode"@
    }

    open spec fn spec_name(&self) -> Seq<char> {
        "URL 解码"@
    }

    open spec fn spec_description(&self) -> Seq<char> {
        "解码 URL 百分号编码的字符串"@
    }

    open spec fn spec_category(&self) -> ToolCategory {
        ToolCategory::Network
    }

    open spec fn spec_cpu_intensive(&self) -> bool {
        false
    }

    fn id(&self) -> &'static str {
        "url-decode"
    }

    fn name(&self) -> &'static str {
        "URL 解码"
    }

    fn description(&self) -> &'static str {
        "解码 URL 百分号编码的字符串"
    }

    fn category(&self) -> ToolCategory {
        ToolCategory::Network
    }

    fn is_cpu_intensive(&self) -> bool {
        false
    }
}

impl UrlDecode {
    /// Decodes the request's `input`; the answer's `result`.
    pub fn execute(&self, req: TextInput) -> (r: Result<String, ToolError>)
        ensures
            req.input is None ==> (r matches Err(e) && is_invalid_input(e, missing_input_message())),
            req.input matches Some(s) ==> (url_decoded(s@) matches Ok(t) ==> r matches Ok(out) && out@ == t),
            req.input matches Some(s) ==> (url_decoded(s@) matches Err(m) ==> r matches Err(e) && is_invalid_input(e, m)),
    {
        let input = require_input(req.input)?;
        url_decode(input.as_str())
    }
}

proof fn lemma_encoded_front(b: Seq<u8>)
    requires
        b.len() > 0,
    ensures
        url_encoded(b) == encode_byte(b[0]) + url_encoded(b.drop_first()),
    decreases b.len(),
{
    if b.len() == 1 {
        assert(b.drop_last() =~= Seq::<u8>::empty());
        assert(b.drop_first() =~= Seq::<u8>::empty());
        assert(url_encoded(b.drop_last()) =~= Seq::<char>::empty());
        assert(url_encoded(b.drop_first()) =~= Seq::<char>::empty());
        assert(url_encoded(b) =~= encode_byte(b[0]));
    } else {
        lemma_encoded_front(b.drop_last());
        assert(b.drop_last().drop_first() =~= b.drop_first().drop_last());
        assert(b.drop_first().last() == b.last());
        assert(b.drop_last()[0] == b[0]);
    }
}

proof fn lemma_decode_encoded_byte(x: u8, rest: Seq<char>)
    ensures
        url_decoded_bytes(encode_byte(x) + rest) == prepend(seq![x], url_decoded_bytes(rest)),
{
    let s = encode_byte(x) + rest;
    if is_unreserved(x) {
        let c = x as char;
        assert(s[0] == c);
        assert((x as char) as u32 == x as u32);
        assert(s.drop_first() =~= rest);
        assert(is_ascii_chars(seq![c]));
        is_ascii_chars_encode_utf8(seq![c]);
        assert(seq![c][0] == c);
        assert(encode_utf8(seq![c]) =~= seq![x]);
    } else {
        let h1 = hex_digit_upper((x / 16) as int);
        let h2 = hex_digit_upper((x % 16) as int);
        assert(s[0] == '%');
        let hex = escape_digits(s, 0);
        assert(hex =~= seq![h1, h2]);
        assert(h1 as u32 == if x / 16 < 10 { 48 + x / 16 } else { 55 + x / 16 });
        assert(h2 as u32 == if x % 16 < 10 { 48 + x % 16 } else { 55 + x % 16 });
        assert(hex.drop_last() =~= seq![h1]);
        assert(seq![h1].drop_last() =~= Seq::<char>::empty());
        assert(utf8_width(h1) == 1);
        assert(utf8_width(h2) == 1);
        assert(utf8_len(Seq::<char>::empty()) == 0);
        assert(utf8_len(seq![h1]) == 1);
        assert(utf8_len(hex) == 2);
        assert(parse_hex_byte(hex) == Some(x));
        assert(s.skip(3) =~= rest);
    }
}

/// Decoding an encoding gives back exactly the bytes encoded.
pub proof fn law_decode_of_encode_bytes(b: Seq<u8>)
    ensures
        url_decoded_bytes(url_encoded(b)) == Ok::<Seq<u8>, Seq<char>>(b),
    decreases b.len(),
{
    if b.len() == 0 {
        assert(b =~= Seq::<u8>::empty());
    } else {
        lemma_encoded_front(b);
        law_decode_of_encode_bytes(b.drop_first());
        lemma_decode_encoded_byte(b[0], url_encoded(b.drop_first()));
        assert(seq![b[0]] + b.drop_first() =~= b);
    }
}

/// Every text survives percent-encoding and decoding unchanged.
pub proof fn law_url_roundtrip(s: Seq<char>)
    ensures
        url_decoded(url_encoded(encode_utf8(s))) == Ok::<Seq<char>, Seq<char>>(s),
{
    law_decode_of_encode_bytes(encode_utf8(s));
    encode_utf8_valid_utf8(s);
    encode_utf8_decode_utf8(s);
}

proof fn lemma_same_failures(s: Seq<char>)
    ensures
        url_decoded_bytes(s) is Err <==> url_decoded_chars(s) is Err,
        url_decoded_bytes(s) matches Err(m) ==> url_decoded_chars(s) == Err::<Seq<char>, Seq<char>>(m),
    decreases s.len(),
{
    if s.len() > 0 {
        if s[0] == '%' {
            let hex = escape_digits(s, 0);
            if utf8_len(hex) >= 2 && parse_hex_byte(hex) is Some {
                lemma_same_failures(s.skip(1 + hex.len() as int));
            }
        } else {
            lemma_same_failures(s.drop_first());
        }
    }
}

/// Decoding fails only on a malformed escape: exactly when the text, read
/// one character per escaped byte, fails, and with the same message. Any
/// well-formed text decodes, whether or not its bytes are UTF-8.
pub proof fn law_decode_fails_only_on_escapes(s: Seq<char>)
    ensures
        url_decoded(s) is Err <==> url_decoded_chars(s) is Err,
        url_decoded(s) matches Err(m) ==> url_decoded_chars(s) == Err::<Seq<char>, Seq<char>>(m),
{
    lemma_same_failures(s);
}

/// A hexadecimal digit for `n` (0 to 15), upper or lower case.
pub open spec fn hex_digit_in_case(n: int, upper: bool) -> char {
    if upper {
        hex_digit_upper(n)
    } else {
        hex_digit_lower(n)
    }
}

/// Every byte written as an escape `%XY`, with the hex digits in one case.
pub open spec fn escaped_in_case(b: Seq<u8>, upper: bool) -> Seq<char>
    decreases b.len(),
{
    if b.len() == 0 {
        Seq::empty()
    } else {
        escaped_in_case(b.drop_last(), upper) + seq![
            '%',
            hex_digit_in_case((b.last() / 16) as int, upper),
            hex_digit_in_case((b.last() % 16) as int, upper),
        ]
    }
}

proof fn lemma_escaped_front(b: Seq<u8>, upper: bool)
    requires
        b.len() > 0,
    ensures
        escaped_in_case(b, upper) == seq![
            '%',
            hex_digit_in_case((b[0] / 16) as int, upper),
            hex_digit_in_case((b[0] % 16) as int, upper),
        ] + escaped_in_case(b.drop_first(), upper),
    decreases b.len(),
{
    if b.len() == 1 {
        assert(b.drop_last() =~= Seq::<u8>::empty());
        assert(b.drop_first() =~= Seq::<u8>::empty());
        assert(escaped_in_case(b.drop_last(), upper) =~= Seq::<char>::empty());
        assert(escaped_in_case(b.drop_first(), upper) =~= Seq::<char>::empty());
        assert(b.last() == b[0]);
        assert(escaped_in_case(b, upper) =~= Seq::<char>::empty() + seq![
            '%',
            hex_digit_in_case((b[0] / 16) as int, upper),
            hex_digit_in_case((b[0] % 16) as int, upper),
        ]);
    } else {
        lemma_escaped_front(b.drop_last(), upper);
        assert(b.drop_last().drop_first() =~= b.drop_first().drop_last());
        assert(b.drop_first().last() == b.last());
        assert(b.drop_last()[0] == b[0]);
        let e = seq![
            '%',
            hex_digit_in_case((b[0] / 16) as int, upper),
            hex_digit_in_case((b[0] % 16) as int, upper),
        ];
        let l = seq![
            '%',
            hex_digit_in_case((b.last() / 16) as int, upper),
            hex_digit_in_case((b.last() % 16) as int, upper),
        ];
        assert(escaped_in_case(b, upper) == escaped_in_case(b.drop_last(), upper) + l);
        assert(escaped_in_case(b.drop_first(), upper) == escaped_in_case(b.drop_first().drop_last(), upper) + l);
        assert((e + escaped_in_case(b.drop_last().drop_first(), upper)) + l =~= e + (escaped_in_case(
            b.drop_last().drop_first(),
            upper,
        ) + l));
    }
}

proof fn lemma_decode_escape(x: u8, upper: bool, rest: Seq<char>)
    ensures
        url_decoded_bytes(seq!['%', hex_digit_in_case((x / 16) as int, upper), hex_digit_in_case((x % 16) as int, upper)]
            + rest) == prepend(seq![x], url_decoded_bytes(rest)),
{
    let h1 = hex_digit_in_case((x / 16) as int, upper);
    let h2 = hex_digit_in_case((x % 16) as int, upper);
    let s = seq!['%', h1, h2] + rest;
    assert(s[0] == '%');
    let hex = escape_digits(s, 0);
    assert(hex =~= seq![h1, h2]);
    if upper {
        assert(h1 as u32 == if x / 16 < 10 { 48 + x / 16 } else { 55 + x / 16 });
        assert(h2 as u32 == if x % 16 < 10 { 48 + x % 16 } else { 55 + x % 16 });
    } else {
        assert(h1 as u32 == if x / 16 < 10 { 48 + x / 16 } else { 87 + x / 16 });
        assert(h2 as u32 == if x % 16 < 10 { 48 + x % 16 } else { 87 + x % 16 });
    }
    assert(hex.drop_last() =~= seq![h1]);
    assert(seq![h1].drop_last() =~= Seq::<char>::empty());
    assert(utf8_width(h1) == 1);
    assert(utf8_width(h2) == 1);
    assert(utf8_len(Seq::<char>::empty()) == 0);
    assert(utf8_len(seq![h1]) == 1);
    assert(utf8_len(hex) == 2);
    assert(parse_hex_byte(hex) == Some(x));
    assert(s.skip(3) =~= rest);
}

/// Escapes read in either letter case: writing every byte as `%XY`, with
/// upper- or with lower-case hex digits, decodes back to exactly those
/// bytes.
pub proof fn law_escapes_in_either_case(b: Seq<u8>, upper: bool)
    ensures
        url_decoded_bytes(escaped_in_case(b, upper)) == Ok::<Seq<u8>, Seq<char>>(b),
    decreases b.len(),
{
    if b.len() == 0 {
        assert(b =~= Seq::<u8>::empty());
    } else {
        lemma_escaped_front(b, upper);
        law_escapes_in_either_case(b.drop_first(), upper);
        lemma_decode_escape(b[0], upper, escaped_in_case(b.drop_first(), upper));
        assert(seq![b[0]] + b.drop_first() =~= b);
    }
}

/// Any text, with each of its UTF-8 bytes escaped in either letter case,
/// decodes back to the text.
pub proof fn law_escaped_text_roundtrip(s: Seq<char>, upper: bool)
    ensures
        url_decoded(escaped_in_case(encode_utf8(s), upper)) == Ok::<Seq<char>, Seq<char>>(s),
{
    law_escapes_in_either_case(encode_utf8(s), upper);
    encode_utf8_valid_utf8(s);
    encode_utf8_decode_utf8(s);
}

} // verus!
