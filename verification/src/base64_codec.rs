//! The `base64-encode` and `base64-decode` tools (RFC 4648, standard
//! alphabet, with padding).

use vstd::prelude::*;
use vstd::utf8::{decode_utf8, encode_utf8, encode_utf8_decode_utf8, encode_utf8_valid_utf8, valid_utf8};
use crate::category::ToolCategory;
use crate::error::{ToolError, is_invalid_input};
use crate::request::{TextInput, missing_input_message, require_input};
use crate::text::{hex_lower, push_str, to_hex_lower, utf8_text};
use crate::tool::Tool;

verus! {

/// `base64::DecodeError`, the reason a text is not Base64.
#[verifier::external_type_specification]
#[verifier::external_body]
pub struct ExDecodeError(base64::DecodeError);

/// The Base64 digit for a 6-bit value (`A-Z a-z 0-9 + /`).
pub open spec fn base64_digit(v: int) -> char {
    if v < 26 {
        (65 + v) as char
    } else if v < 52 {
        (71 + v) as char
    } else if v < 62 {
        (v - 4) as char
    } else if v == 62 {
        '+'
    } else {
        '/'
    }
}

/// The standard Base64 encoding of `b`, three bytes to four digits, the last
/// group padded with `=`.
pub open spec fn base64_encoded(b: Seq<u8>) -> Seq<char>
    decreases b.len(),
{
    if b.len() == 0 {
        Seq::empty()
    } else {
        let x = b[0] as int;
        let y = if b.len() > 1 { b[1] as int } else { 0 };
        let z = if b.len() > 2 { b[2] as int } else { 0 };
        let d0 = base64_digit(x / 4);
        let d1 = base64_digit((x % 4) * 16 + y / 16);
        let d2 = base64_digit((y % 16) * 4 + z / 64);
        let d3 = base64_digit(z % 64);
        if b.len() == 1 {
            seq![d0, d1, '=', '=']
        } else if b.len() == 2 {
            seq![d0, d1, d2, '=']
        } else {
            seq![d0, d1, d2, d3] + base64_encoded(b.skip(3))
        }
    }
}

proof fn lemma_digit_injective(u: int, v: int)
    requires
        0 <= u < 64,
        0 <= v < 64,
        base64_digit(u) == base64_digit(v),
    ensures
        u == v,
{
    let cu = base64_digit(u) as u32;
    let cv = base64_digit(v) as u32;
    assert(cu == cv);
    if u < 26 {
        assert(cu == 65 + u);
    } else if u < 52 {
        assert(cu == 71 + u);
    } else if u < 62 {
        assert(cu == u - 4);
    }
    if v < 26 {
        assert(cv == 65 + v);
    } else if v < 52 {
        assert(cv == 71 + v);
    } else if v < 62 {
        assert(cv == v - 4);
    }
}

proof fn lemma_digit_not_pad(v: int)
    requires
        0 <= v < 64,
    ensures
        base64_digit(v) != '=',
{
    let c = base64_digit(v) as u32;
    if v < 26 {
        assert(c == 65 + v);
    } else if v < 52 {
        assert(c == 71 + v);
    } else if v < 62 {
        assert(c == v - 4);
    }
}

/// The encoding of `b` has four digits per started group of three bytes.
pub proof fn law_encoded_len(b: Seq<u8>)
    ensures
        base64_encoded(b).len() == if b.len() == 0 { 0 } else { 4 * ((b.len() - 1) / 3 + 1) },
    decreases b.len(),
{
    if b.len() > 2 {
        law_encoded_len(b.skip(3));
    }
}

proof fn lemma_first_group(b: Seq<u8>)
    requires
        b.len() > 0,
    ensures
        ({
            let e = base64_encoded(b);
            let x = b[0] as int;
            let y = if b.len() > 1 { b[1] as int } else { 0 };
            let z = if b.len() > 2 { b[2] as int } else { 0 };
            &&& e.len() >= 4
            &&& e[0] == base64_digit(x / 4)
            &&& e[1] == base64_digit((x % 4) * 16 + y / 16)
            &&& e[2] == if b.len() > 1 { base64_digit((y % 16) * 4 + z / 64) } else { '=' }
            &&& e[3] == if b.len() > 2 { base64_digit(z % 64) } else { '=' }
        }),
{
}

/// Different byte strings have different encodings.
pub proof fn lemma_encoding_injective(a: Seq<u8>, b: Seq<u8>)
    requires
        base64_encoded(a) == base64_encoded(b),
    ensures
        a == b,
    decreases a.len(),
{
    let ea = base64_encoded(a);
    let eb = base64_encoded(b);
    if a.len() == 0 || b.len() == 0 {
        law_encoded_len(a);
        law_encoded_len(b);
        if a.len() == 0 && b.len() == 0 {
            assert(a =~= b);
        }
        return;
    }
    let xa = a[0] as int;
    let ya = if a.len() > 1 { a[1] as int } else { 0 };
    let za = if a.len() > 2 { a[2] as int } else { 0 };
    let xb = b[0] as int;
    let yb = if b.len() > 1 { b[1] as int } else { 0 };
    let zb = if b.len() > 2 { b[2] as int } else { 0 };
    lemma_first_group(a);
    lemma_first_group(b);
    lemma_digit_injective(xa / 4, xb / 4);
    lemma_digit_injective((xa % 4) * 16 + ya / 16, (xb % 4) * 16 + yb / 16);
    assert(xa == xb);
    assert(ya / 16 == yb / 16);
    lemma_digit_not_pad((ya % 16) * 4 + za / 64);
    lemma_digit_not_pad((yb % 16) * 4 + zb / 64);
    lemma_digit_not_pad(za % 64);
    lemma_digit_not_pad(zb % 64);
    if a.len() == 1 || b.len() == 1 {
        assert(a.len() == 1 && b.len() == 1);
        assert(a =~= b);
        return;
    }
    lemma_digit_injective((ya % 16) * 4 + za / 64, (yb % 16) * 4 + zb / 64);
    assert(ya == yb);
    if a.len() == 2 || b.len() == 2 {
        assert(a.len() == 2 && b.len() == 2);
        assert(a =~= b);
        return;
    }
    lemma_digit_injective(za % 64, zb % 64);
    assert(za / 64 == zb / 64);
    assert(za == zb);
    assert(ea.skip(4) =~= base64_encoded(a.skip(3)));
    assert(eb.skip(4) =~= base64_encoded(b.skip(3)));
    lemma_encoding_injective(a.skip(3), b.skip(3));
    assert(a =~= seq![a[0], a[1], a[2]] + a.skip(3));
    assert(b =~= seq![b[0], b[1], b[2]] + b.skip(3));
}

/// `base64::engine::general_purpose::STANDARD.encode`: the standard,
/// padded Base64 encoding of `data`.
#[verifier::external_body]
fn base64_standard_encode(data: &[u8]) -> (r: String)
    ensures
        r@ == base64_encoded(data@),
{
    base64::Engine::encode(&base64::engine::general_purpose::STANDARD, data)
}

/// `base64::engine::general_purpose::STANDARD.decode`: this engine accepts
/// exactly the canonical padded encodings (padding required, no stray
/// trailing bits), and yields the bytes they encode.
#[verifier::external_body]
fn base64_standard_decode(text: &str) -> (r: Result<Vec<u8>, base64::DecodeError>)
    ensures
        r matches Ok(v) ==> base64_encoded(v@) == text@,
        r is Ok <==> is_base64(text@),
{
    base64::Engine::decode(&base64::engine::general_purpose::STANDARD, text)
}

/// `DecodeError`'s `Display` text (which byte or length was wrong). Nothing
/// is stated of the text.
#[verifier::external_body]
fn decode_error_text(e: &base64::DecodeError) -> String {
    format!("{}", e)
}


/// What decoding yields: text when the bytes are UTF-8, else their hex form.
pub enum Decoded {
    /// The `result` field: the decoded text.
    Text(String),
    /// The `result_hex` field: the decoded bytes in lower-case hex.
    Hex(String),
}

/// The answer to decoding `s`, when it is Base64 for the bytes `b`.
pub open spec fn decoded_answer(d: Decoded, b: Seq<u8>) -> bool {
    if valid_utf8(b) {
        d matches Decoded::Text(t) && t@ == decode_utf8(b)
    } else {
        d matches Decoded::Hex(h) && h@ == hex_lower(b)
    }
}

/// `s` is the Base64 encoding of some bytes.
pub open spec fn is_base64(s: Seq<char>) -> bool {
    exists|b: Seq<u8>| base64_encoded(b) == s
}

/// The `base64-encode` tool.
#[derive(Clone, Copy)]
pub struct Base64Encode;

/// The `base64-decode` tool.
#[derive(Clone, Copy)]
pub struct Base64Decode;

impl Tool for Base64Encode {
    open spec fn spec_id(&self) -> Seq<char> {
        "base64-encode"@
    }

    open spec fn spec_name(&self) -> Seq<char> {
        "Base64 编码"@
    }

    open spec fn spec_description(&self) -> Seq<char> {
        "将字符串或二进制数据编码为 Base64"@
    }

    open spec fn spec_category(&self) -> ToolCategory {
        ToolCategory::Crypto
    }

    open spec fn spec_cpu_intensive(&self) -> bool {
        false
    }

    fn id(&self) -> &'static str {
        "base64-encode"
    }

    fn name(&self) -> &'static str {
        "Base64 编码"
    }

    fn description(&self) -> &'static str {
        "将字符串或二进制数据编码为 Base64"
    }

    fn category(&self) -> ToolCategory {
        ToolCategory::Crypto
    }

    fn is_cpu_intensive(&self) -> bool {
        false
    }
}

impl Tool for Base64Decode {
    open spec fn spec_id(&self) -> Seq<char> {
        "base64-decode"@
    }

    open spec fn spec_name(&self) -> Seq<char> {
        "Base64 解码"@
    }

    open spec fn spec_description(&self) -> Seq<char> {
        "将 Base64 编码的字符串解码为原始文本"@
    }

    open spec fn spec_category(&self) -> ToolCategory {
        ToolCategory::Crypto
    }

    open spec fn spec_cpu_intensive(&self) -> bool {
        false
    }

    fn id(&self) -> &'static str {
        "base64-decode"
    }

    fn name(&self) -> &'static str {
        "Base64 解码"
    }

    fn description(&self) -> &'static str {
        "将 Base64 编码的字符串解码为原始文本"
    }

    fn category(&self) -> ToolCategory {
        ToolCategory::Crypto
    }

    fn is_cpu_intensive(&self) -> bool {
        false
    }
}

/// The error for text that is not Base64: `InvalidInput` whose message
/// starts with `Base64 解码失败: ` (followed by the decoder's reason).
pub open spec fn is_decode_failure(e: ToolError) -> bool {
    e matches ToolError::InvalidInput(m) && m@.take("Base64 解码失败: "@.len() as int) == "Base64 解码失败: "@
}

/// The Base64 encoding of a text's UTF-8 bytes.
pub fn base64_encode(input: &str) -> (r: String)
    ensures
        r@ == base64_encoded(encode_utf8(input@)),
{
    base64_standard_encode(input.as_bytes())
}

/// Decodes Base64 text: the text it encodes when that is UTF-8, else the
/// bytes in hex; `InvalidInput` when `input` is not Base64.
pub fn base64_decode(input: &str) -> (r: Result<Decoded, ToolError>)
    ensures
        r is Ok <==> is_base64(input@),
        r matches Ok(d) ==> exists|b: Seq<u8>| base64_encoded(b) == input@ && decoded_answer(d, b),
        r matches Err(e) ==> is_decode_failure(e),
{
    match base64_standard_decode(input) {
        Ok(bytes) => {
            proof {
                assert(base64_encoded(bytes@) == input@);
            }
            match utf8_text(bytes.as_slice()) {
                Some(text) => Ok(Decoded::Text(text)),
                None => Ok(Decoded::Hex(to_hex_lower(bytes.as_slice()))),
            }
        },
        Err(e) => {
            let mut msg = String::from_str("Base64 解码失败: ");
            let ghost head = msg@;
            let detail = decode_error_text(&e);
            push_str(&mut msg, detail.as_str());
            assert(msg@.take(head.len() as int) =~= head);
            Err(ToolError::InvalidInput(msg))
        },
    }
}

impl Base64Encode {
    /// Encodes the request's `input`; the answer's `result`.
    pub fn execute(&self, req: TextInput) -> (r: Result<String, ToolError>)
        ensures
            req.input is None ==> (r matches Err(e) && is_invalid_input(e, missing_input_message())),
            req.input matches Some(s) ==> r matches Ok(out) && out@ == base64_encoded(encode_utf8(s@)),
    {
        let input = require_input(req.input)?;
        Ok(base64_encode(input.as_str()))
    }
}

impl Base64Decode {
    /// Decodes the request's `input`.
    pub fn execute(&self, req: TextInput) -> (r: Result<Decoded, ToolError>)
        ensures
            req.input is None ==> (r matches Err(e) && is_invalid_input(e, missing_input_message())),
            req.input matches Some(s) ==> (r is Ok <==> is_base64(s@)),
            req.input matches Some(s) ==> (r matches Ok(d) ==> exists|b: Seq<u8>| base64_encoded(b) == s@ && decoded_answer(d, b)),
            req.input is Some ==> (r matches Err(e) ==> is_decode_failure(e)),
    {
        let input = require_input(req.input)?;
        base64_decode(input.as_str())
    }
}

/// Decoding what encoding a text produced gives that text back: whatever
/// `base64_decode` answers for `base64_encode(s)` is the text `s`.
pub proof fn law_decode_of_encode(s: Seq<char>, d: Decoded, b: Seq<u8>)
    requires
        base64_encoded(b) == base64_encoded(encode_utf8(s)),
        decoded_answer(d, b),
    ensures
        d matches Decoded::Text(t) && t@ == s,
{
    lemma_encoding_injective(b, encode_utf8(s));
    encode_utf8_valid_utf8(s);
    encode_utf8_decode_utf8(s);
}

} // verus!
