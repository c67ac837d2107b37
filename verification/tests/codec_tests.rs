use trove::base64_codec::{base64_decode, base64_encode, Base64Decode, Base64Encode, Decoded};
use trove::error::ToolError;
use trove::hash_tool::{blake3_text_digest, HashTool};
use trove::request::{require_input, TextInput};
use trove::text::{decimal_u64, to_hex_lower};
use trove::url_codec::{url_decode, url_encode, UrlDecode, UrlEncode};

fn text(s: &str) -> TextInput {
    TextInput { input: Some(s.to_string()) }
}

fn invalid_message(r: Result<String, ToolError>) -> String {
    match r {
        Err(ToolError::InvalidInput(m)) => m,
        Err(_) => panic!("expected InvalidInput"),
        Ok(v) => panic!("expected an error, got {}", v),
    }
}

#[test]
fn missing_input_is_invalid() {
    assert_eq!(invalid_message(require_input(None)), "缺少 input 字段");
    assert_eq!(require_input(Some("x".to_string())).unwrap(), "x");
    assert_eq!(invalid_message(UrlEncode.execute(TextInput { input: None })), "缺少 input 字段");
    assert_eq!(invalid_message(Base64Encode.execute(TextInput { input: None })), "缺少 input 字段");
    assert!(matches!(HashTool.execute(TextInput { input: None }), Err(ToolError::InvalidInput(_))));
}

#[test]
fn url_encode_keeps_unreserved_and_escapes_the_rest() {
    assert_eq!(url_encode("AZaz09-_.~"), "AZaz09-_.~");
    assert_eq!(url_encode("a b&c"), "a%20b%26c");
    assert_eq!(url_encode("é"), "%C3%A9");
    assert_eq!(url_encode("/?="), "%2F%3F%3D");
    assert_eq!(url_encode(""), "");
    assert_eq!(UrlEncode.execute(text("x y")).unwrap(), "x%20y");
}

#[test]
fn url_decode_plus_and_percent() {
    assert_eq!(url_decode("a+b%20c").unwrap(), "a b c");
    assert_eq!(url_decode("%41%62").unwrap(), "Ab");
    assert_eq!(url_decode("plain").unwrap(), "plain");
    // Escaped bytes are read as UTF-8.
    assert_eq!(url_decode("%C3%A9").unwrap(), "é");
    assert_eq!(url_decode("caf%C3%A9+%E4%BD%A0").unwrap(), "café 你");
    assert_eq!(url_decode("直接").unwrap(), "直接");
    // Bytes that are not UTF-8: each escaped byte is the character with that code.
    assert_eq!(url_decode("%FF").unwrap(), "\u{ff}");
    assert_eq!(url_decode("%C3").unwrap(), "\u{c3}");
    assert_eq!(url_decode("é%FF+x").unwrap(), "é\u{ff} x");
    assert_eq!(url_decode("a+b%41").unwrap(), "a bA");
    assert_eq!(UrlDecode.execute(text("%7E")).unwrap(), "~");
}

#[test]
fn url_decode_errors() {
    assert_eq!(invalid_message(url_decode("%2")), "不完整的百分号编码");
    assert_eq!(invalid_message(url_decode("abc%")), "不完整的百分号编码");
    assert_eq!(invalid_message(url_decode("%zz")), "无效的百分号编码: %zz");
    assert_eq!(invalid_message(url_decode("%-1")), "无效的百分号编码: %-1");
    // Two characters of more than two bytes in all pass the length check.
    assert_eq!(invalid_message(url_decode("%é")), "无效的百分号编码: %é");
    // `+` is not a hex digit.
    assert_eq!(invalid_message(url_decode("%+f")), "无效的百分号编码: %+f");
    assert_eq!(invalid_message(url_decode("%4")), "不完整的百分号编码");
    // A bad escape is reported before the bytes are read as text.
    assert_eq!(invalid_message(url_decode("%FF%zz")), "无效的百分号编码: %zz");
}

#[test]
fn url_round_trip() {
    for s in ["Hello, World! 100% ~ok_", "é", "你好, 世界 🦊", "a+b", ""] {
        assert_eq!(url_decode(&url_encode(s)).unwrap(), s);
    }
}

#[test]
fn base64_encode_examples() {
    assert_eq!(base64_encode("hello"), "aGVsbG8=");
    assert_eq!(base64_encode(""), "");
    assert_eq!(base64_encode("ab"), "YWI=");
    assert_eq!(base64_encode("你好"), "5L2g5aW9");
    assert_eq!(Base64Encode.execute(text("abc")).unwrap(), "YWJj");
}

#[test]
fn base64_decode_text_and_hex() {
    assert!(matches!(base64_decode("aGVsbG8="), Ok(Decoded::Text(t)) if t == "hello"));
    assert!(matches!(base64_decode("/w=="), Ok(Decoded::Hex(h)) if h == "ff"));
    assert!(matches!(base64_decode("AP8="), Ok(Decoded::Hex(h)) if h == "00ff"));
    assert!(matches!(base64_decode(""), Ok(Decoded::Text(t)) if t.is_empty()));
    assert!(matches!(Base64Decode.execute(text("5L2g5aW9")), Ok(Decoded::Text(t)) if t == "你好"));
}

#[test]
fn base64_decode_rejects_bad_input() {
    for bad in ["!!!", "aGVsbG8", "a===", "aGVsbG8=="] {
        match base64_decode(bad) {
            Err(ToolError::InvalidInput(m)) => assert!(m.starts_with("Base64 解码失败: "), "{}", m),
            _ => panic!("expected an error for {}", bad),
        }
    }
}

#[test]
fn base64_round_trip() {
    for s in ["", "a", "ab", "abc", "abcd", "The quick brown fox 🦊"] {
        assert!(matches!(base64_decode(&base64_encode(s)), Ok(Decoded::Text(t)) if t == s));
    }
}

#[test]
fn blake3_known_digests() {
    assert_eq!(
        blake3_text_digest(""),
        "af1349b9f5f9a1a6a0404dea36dcc9499bcb25c9adc112b7cc9a93cae41f3262"
    );
    assert_eq!(
        blake3_text_digest("abc"),
        "6437b3ac38465133ffb63b75273a8db548c558465d79db03fd359c6cd5bd9d85"
    );
    let out = HashTool.execute(text("abc")).unwrap();
    assert_eq!(out.result, "6437b3ac38465133ffb63b75273a8db548c558465d79db03fd359c6cd5bd9d85");
    assert_eq!(out.algorithm, "BLAKE3");
    assert_eq!(out.input_length, 3);
    assert_eq!(HashTool.execute(text("你")).unwrap().input_length, 3);
}

#[test]
fn hex_and_decimal_helpers() {
    assert_eq!(to_hex_lower(&[0u8, 15, 16, 255]), "000f10ff");
    assert_eq!(to_hex_lower(&[]), "");
    assert_eq!(decimal_u64(0), "0");
    assert_eq!(decimal_u64(1700000000), "1700000000");
    assert_eq!(decimal_u64(u64::MAX), "18446744073709551615");
}
