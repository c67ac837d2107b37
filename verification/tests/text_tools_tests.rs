use trove::error::ToolError;
use trove::json_formatter::{indent_of, reindent, JsonFormatInput, JsonFormatter};
use trove::json_validator::{depth_of, json_type_name, JsonValidateInput, JsonValidation, JsonValidator, JsonValue};
use trove::string_case::{
    capitalize, reverse_chars, string_case, to_camel_case, to_constant_case, to_kebab_case, to_pascal_case,
    to_snake_case, StringCase, StringCaseInput,
};
use trove::text::chars_of;
use trove::text_stats::{
    count_chars, count_lines, split_words, trim_punctuation, word_frequency, CharClass, TextStats, TextStatsInput,
};

fn chars(s: &str) -> Vec<char> {
    s.chars().collect()
}

#[test]
fn json_format_with_each_indent() {
    let src = "{\"a\":[1,2]}";
    let two = JsonFormatter.execute(JsonFormatInput { input: Some(src.to_string()), indent: None }).unwrap();
    assert_eq!(two, "{\n  \"a\": [\n    1,\n    2\n  ]\n}");
    let four = JsonFormatter.execute(JsonFormatInput { input: Some(src.to_string()), indent: Some(4) }).unwrap();
    assert_eq!(four, "{\n    \"a\": [\n        1,\n        2\n    ]\n}");
    let zero = JsonFormatter.execute(JsonFormatInput { input: Some(src.to_string()), indent: Some(-5) }).unwrap();
    assert_eq!(zero, "{\n\"a\": [\n1,\n2\n]\n}");
    let eight = JsonFormatter.execute(JsonFormatInput { input: Some("[1]".to_string()), indent: Some(99) }).unwrap();
    assert_eq!(eight, "[\n        1\n]");
}

#[test]
fn json_format_errors() {
    match JsonFormatter.execute(JsonFormatInput { input: Some("{".to_string()), indent: None }) {
        Err(ToolError::InvalidInput(m)) => assert!(m.starts_with("JSON 解析失败: "), "{}", m),
        _ => panic!("expected a parse error"),
    }
    match JsonFormatter.execute(JsonFormatInput { input: None, indent: Some(4) }) {
        Err(ToolError::InvalidInput(m)) => assert_eq!(m, "缺少 input 字段"),
        _ => panic!("expected a missing input error"),
    }
}

#[test]
fn indent_is_clamped() {
    assert_eq!(indent_of(None), 2);
    assert_eq!(indent_of(Some(-1)), 0);
    assert_eq!(indent_of(Some(3)), 3);
    assert_eq!(indent_of(Some(9)), 8);
}

#[test]
fn reindent_scales_leading_pairs() {
    assert_eq!(reindent("a\n  b\n    c", 3), "a\n   b\n      c");
    assert_eq!(reindent("   x", 4), "     x");
    assert_eq!(reindent("", 4), "");
    assert_eq!(reindent("a\n", 0), "a");
}

fn sample_object() -> JsonValue {
    JsonValue::Object(vec![
        ("a".to_string(), JsonValue::Array(vec![JsonValue::Number("1".to_string()), JsonValue::Array(vec![])])),
        ("b".to_string(), JsonValue::Null),
    ])
}

#[test]
fn depth_and_type_of_values() {
    assert_eq!(depth_of(&JsonValue::Null), 0);
    assert_eq!(depth_of(&JsonValue::Array(vec![])), 1);
    assert_eq!(depth_of(&sample_object()), 3);
    assert_eq!(json_type_name(&sample_object()), "object");
    assert_eq!(json_type_name(&JsonValue::Bool(true)), "boolean");
    assert_eq!(json_type_name(&JsonValue::Number("2.5".to_string())), "number");
    assert_eq!(json_type_name(&JsonValue::String("s".to_string())), "string");
    assert_eq!(json_type_name(&JsonValue::Array(vec![])), "array");
    assert_eq!(json_type_name(&JsonValue::Null), "null");
}

#[test]
fn json_validate_valid_and_invalid() {
    let text = "{\"a\":[1,[]],\"b\":null}".to_string();
    match JsonValidator.execute(JsonValidateInput { input: Some(text.clone()) }) {
        Ok(JsonValidation::Valid { size, depth, value_type }) => {
            assert_eq!(size, text.len());
            assert_eq!(depth, 3);
            assert_eq!(value_type, "object");
        }
        _ => panic!("expected a valid answer"),
    }
    match JsonValidator.execute(JsonValidateInput { input: Some("\"é\"".to_string()) }) {
        Ok(JsonValidation::Valid { size, depth, value_type }) => {
            assert_eq!((size, depth, value_type), (4, 0, "string"));
        }
        _ => panic!("expected a valid answer"),
    }
    match JsonValidator.execute(JsonValidateInput { input: Some("{".to_string()) }) {
        Ok(JsonValidation::Invalid { error, line, column }) => {
            assert_eq!(error, "EOF while parsing an object at line 1 column 1");
            assert_eq!((line, column), (1, 1));
        }
        _ => panic!("expected an invalid answer"),
    }
    match JsonValidator.execute(JsonValidateInput { input: Some("[1,\n 2,,]".to_string()) }) {
        Ok(JsonValidation::Invalid { line, .. }) => assert_eq!(line, 2),
        _ => panic!("expected an invalid answer"),
    }
    match JsonValidator.execute(JsonValidateInput { input: Some(String::new()) }) {
        Ok(JsonValidation::Invalid { line, column, .. }) => assert_eq!((line, column), (1, 0)),
        _ => panic!("expected an invalid answer"),
    }
    let deep = format!("{}{}", "[".repeat(200), "]".repeat(200));
    assert!(matches!(JsonValidator.execute(JsonValidateInput { input: Some(deep) }), Ok(JsonValidation::Invalid { .. })));
    assert!(matches!(JsonValidator.execute(JsonValidateInput { input: None }), Err(ToolError::InvalidInput(_))));
}

#[test]
fn case_conversions() {
    assert_eq!(to_camel_case("hello_world-foo bar"), "helloWorldFooBar");
    assert_eq!(to_camel_case("Hello"), "hello");
    assert_eq!(to_camel_case("HelloWorld"), "helloWorld");
    assert_eq!(to_camel_case("helloWorld"), "helloWorld");
    assert_eq!(to_camel_case("user_ID"), "userID");
    assert_eq!(to_pascal_case("helloWorld"), "HelloWorld");
    assert_eq!(to_pascal_case("HelloWorld"), "HelloWorld");
    assert_eq!(to_pascal_case("hello_world"), "HelloWorld");
    assert_eq!(to_pascal_case(""), "");
    assert_eq!(to_snake_case("helloWorld Test"), "hello_world__test");
    assert_eq!(to_snake_case("ABC"), "a_b_c");
    assert_eq!(to_kebab_case("helloWorld_x"), "hello-world-x");
    assert_eq!(to_constant_case("helloWorld"), "HELLO_WORLD");
    assert_eq!(capitalize("élan vital"), "Élan vital");
    assert_eq!(capitalize(""), "");
    assert_eq!(reverse_chars("ab你"), "你ba");
}

fn case_request(input: &str, to_case: Option<&str>, reverse: Option<bool>) -> StringCaseInput {
    StringCaseInput {
        input: Some(input.to_string()),
        to_case: to_case.map(|s| s.to_string()),
        reverse,
    }
}

#[test]
fn string_case_tool() {
    let out = StringCase.execute(case_request("abc", Some("uppercase"), Some(true))).unwrap();
    assert_eq!(out.result, "CBA");
    assert_eq!(out.original, "abc");
    assert_eq!(out.to_case, "uppercase");
    let out = StringCase.execute(case_request("ÀB", None, None)).unwrap();
    assert_eq!(out.result, "àb");
    assert_eq!(out.to_case, "lowercase");
    let out = string_case(case_request("Keep Me", Some("weird"), None)).unwrap();
    assert_eq!(out.result, "Keep Me");
    let out = string_case(case_request("ab_cd", Some("PascalCase"), Some(false))).unwrap();
    assert_eq!(out.result, "AbCd");
    let out = string_case(case_request("ab cd", Some("CONSTANT_CASE"), None)).unwrap();
    assert_eq!(out.result, "AB_CD");
    let out = string_case(case_request("straße", Some("uppercase"), None)).unwrap();
    assert_eq!(out.result, "STRASSE");
    let missing = StringCaseInput { input: None, to_case: None, reverse: None };
    assert!(matches!(StringCase.execute(missing), Err(ToolError::InvalidInput(m)) if m == "缺少 input 字段"));
}

#[test]
fn character_classes_and_lines() {
    let s = chars("Hello, world!\nHello 你好");
    assert_eq!(count_chars(&s, CharClass::NonSpace), 19);
    assert_eq!(count_chars(&s, CharClass::Space), 3);
    assert_eq!(count_chars(&s, CharClass::Letter), 15);
    assert_eq!(count_chars(&s, CharClass::Digit), 0);
    assert_eq!(count_chars(&s, CharClass::Punctuation), 2);
    assert_eq!(count_chars(&s, CharClass::Cjk), 2);
    assert_eq!(count_lines(&chars("")), 0);
    assert_eq!(count_lines(&chars("a")), 1);
    assert_eq!(count_lines(&chars("a\n")), 1);
    assert_eq!(count_lines(&chars("a\n\nb")), 3);
    assert_eq!(count_lines(&chars("a\r\nb")), 2);
    assert_eq!(count_lines(&chars("\n")), 1);
}

#[test]
fn words_split_on_whitespace() {
    let ws = split_words(&chars("  a\tbb \n c  "));
    let ws: Vec<String> = ws.iter().map(|w| w.iter().collect()).collect();
    assert_eq!(ws, vec!["a", "bb", "c"]);
    assert!(split_words(&chars("   ")).is_empty());
    let t: String = trim_punctuation(&chars("\"(hi!)\"")).iter().collect();
    assert_eq!(t, "hi");
    let t: String = trim_punctuation(&chars("...")).iter().collect();
    assert_eq!(t, "");
    let t: String = trim_punctuation(&chars("a.b")).iter().collect();
    assert_eq!(t, "a.b");
}

#[test]
fn text_stats_counts() {
    let out = TextStats
        .execute(TextStatsInput { input: Some("Hello, world!\nHello 你好".to_string()), show_word_freq: None })
        .unwrap();
    assert_eq!(out.char_count, 22);
    assert_eq!(out.char_count_no_space, 19);
    assert_eq!(out.word_count, 4);
    assert_eq!(out.line_count, 2);
    assert_eq!(out.byte_count, 26);
    assert_eq!(out.letter_count, 15);
    assert_eq!(out.digit_count, 0);
    assert_eq!(out.space_count, 3);
    assert_eq!(out.punctuation_count, 2);
    assert_eq!(out.cjk_char_count, 2);
    assert!(out.word_frequency.is_none());
}

#[test]
fn text_stats_word_frequency() {
    let out = TextStats
        .execute(TextStatsInput { input: Some("Hello, world!\nHello 你好".to_string()), show_word_freq: Some(true) })
        .unwrap();
    let freq = out.word_frequency.unwrap();
    assert_eq!(freq.len(), 3);
    assert_eq!((freq[0].word.as_str(), freq[0].count), ("Hello", 2));
    let mut rest: Vec<(String, usize)> = freq[1..].iter().map(|w| (w.word.clone(), w.count)).collect();
    rest.sort();
    assert_eq!(rest, vec![("world".to_string(), 1), ("你好".to_string(), 1)]);
    // No word: no frequencies even when asked for.
    let out = TextStats.execute(TextStatsInput { input: Some("   ".to_string()), show_word_freq: Some(true) }).unwrap();
    assert!(out.word_frequency.is_none());
    assert_eq!(out.word_count, 0);
    assert_eq!(out.line_count, 1);
    // Words made of punctuation only are not counted.
    let freq = word_frequency(&chars("!! a a b ?"));
    assert_eq!(freq.len(), 2);
    assert_eq!((freq[0].word.as_str(), freq[0].count), ("a", 2));
    assert_eq!((freq[1].word.as_str(), freq[1].count), ("b", 1));
}

#[test]
fn word_frequency_keeps_fifty() {
    let mut s = String::new();
    for i in 0..60 {
        s.push_str(&format!("w{} ", i));
    }
    s.push_str("w7 w7");
    let freq = word_frequency(&chars_of(&s));
    assert_eq!(freq.len(), 50);
    assert_eq!((freq[0].word.as_str(), freq[0].count), ("w7", 3));
    assert!(freq[1..].iter().all(|w| w.count == 1));
}

#[test]
fn empty_text_stats() {
    let out = TextStats.execute(TextStatsInput { input: Some(String::new()), show_word_freq: Some(true) }).unwrap();
    assert_eq!(out.char_count, 0);
    assert_eq!(out.line_count, 0);
    assert_eq!(out.byte_count, 0);
    assert!(out.word_frequency.is_none());
    assert!(matches!(
        TextStats.execute(TextStatsInput { input: None, show_word_freq: None }),
        Err(ToolError::InvalidInput(_))
    ));
}

#[test]
fn case_conversion_laws_on_examples() {
    for s in ["helloWorld Test", "ABC-def ghi", "already_snake", "", "x"] {
        let once = to_snake_case(s);
        assert_eq!(to_snake_case(&once), once);
        assert!(!to_camel_case(s).contains(|c| c == '_' || c == '-' || c == ' '));
        let kebab = to_kebab_case(s);
        assert!(!kebab.contains('_'));
        assert_eq!(kebab.chars().count(), once.chars().count());
        assert_eq!(reverse_chars(&reverse_chars(s)), s);
    }
}
