//! The `string-case` tool: letter case and identifier style conversion.

use vstd::prelude::*;
use crate::category::ToolCategory;
use crate::error::{ToolError, is_invalid_input};
use crate::tool::Tool;
use crate::text::{ascii_lower, ascii_upper, char_is_ascii_upper, char_to_ascii_lower, char_to_ascii_upper, chars_of, is_ascii_upper, push_char, str_equal, string_of, to_lowercase_unicode, to_uppercase_unicode, char_to_uppercase_unicode, unicode_lowercase, unicode_uppercase, unicode_char_uppercase};

verus! {

/// A word separator for camel and Pascal case: `_`, `-` or a space.
pub open spec fn is_separator(c: char) -> bool {
    c == '_' || c == '-' || c == ' '
}

/// camelCase: separators are dropped; the letter right after a separator is
/// upper-cased (ASCII); an ASCII capital that starts a word inside the text
/// stays a capital; every other character is lower-cased (ASCII). So
/// `HelloWorld` and `hello_world` both become `helloWorld`.
pub open spec fn camel_case(s: Seq<char>) -> Seq<char>
    decreases s.len(),
{
    if s.len() == 0 {
        Seq::empty()
    } else {
        let prev = camel_case(s.drop_last());
        let c = s.last();
        if is_separator(c) {
            prev
        } else if s.len() >= 2 && is_separator(s[s.len() - 2]) {
            prev.push(ascii_upper(c))
        } else if s.len() >= 2 && is_ascii_upper(c) {
            prev.push(c)
        } else {
            prev.push(ascii_lower(c))
        }
    }
}

/// What one character at position `i` becomes in snake_case.
pub open spec fn snake_piece(i: int, c: char) -> Seq<char> {
    if is_ascii_upper(c) && i > 0 {
        seq!['_', ascii_lower(c)]
    } else if c == '-' || c == ' ' {
        seq!['_']
    } else {
        seq![ascii_lower(c)]
    }
}

/// snake_case: an ASCII capital not at the start becomes `_` and its lower
/// case; `-` and spaces become `_`; everything else is lower-cased (ASCII).
pub open spec fn snake_case(s: Seq<char>) -> Seq<char>
    decreases s.len(),
{
    if s.len() == 0 {
        Seq::empty()
    } else {
        snake_case(s.drop_last()) + snake_piece(s.len() - 1, s.last())
    }
}

/// kebab-case: snake_case with every `_` replaced by `-`.
pub open spec fn kebab_case(s: Seq<char>) -> Seq<char> {
    snake_case(s).map_values(|c: char| if c == '_' { '-' } else { c })
}

/// CONSTANT_CASE: the Unicode upper case of snake_case.
pub open spec fn constant_case(s: Seq<char>) -> Seq<char> {
    unicode_uppercase(snake_case(s))
}

/// The first character upper-cased (Unicode), the rest unchanged.
pub open spec fn capitalized(s: Seq<char>) -> Seq<char> {
    if s.len() == 0 {
        Seq::empty()
    } else {
        unicode_char_uppercase(s[0]) + s.drop_first()
    }
}

/// PascalCase: camelCase with its first character capitalized.
pub open spec fn pascal_case(s: Seq<char>) -> Seq<char> {
    capitalized(camel_case(s))
}

/// The conversion named by `to_case`; an unknown name leaves `s` as it is.
pub open spec fn convert_case(s: Seq<char>, to_case: Seq<char>) -> Seq<char> {
    if to_case == "lowercase"@ {
        unicode_lowercase(s)
    } else if to_case == "uppercase"@ {
        unicode_uppercase(s)
    } else if to_case == "capitalize"@ {
        capitalized(s)
    } else if to_case == "camelCase"@ {
        camel_case(s)
    } else if to_case == "snake_case"@ {
        snake_case(s)
    } else if to_case == "PascalCase"@ {
        pascal_case(s)
    } else if to_case == "kebab-case"@ {
        kebab_case(s)
    } else if to_case == "CONSTANT_CASE"@ {
        constant_case(s)
    } else {
        s
    }
}

/// camelCase of a string.
pub fn to_camel_case(s: &str) -> (r: String)
    ensures
        r@ == camel_case(s@),
{
    let cs = chars_of(s);
    let mut out: Vec<char> = Vec::new();
    let mut capitalize_next = false;
    let mut i: usize = 0;
    while i < cs.len()
        invariant
            cs@ == s@,
            i <= cs.len(),
            out@ == camel_case(cs@.take(i as int)),
            capitalize_next == (i > 0 && is_separator(cs@[i - 1])),
        decreases cs.len() - i,
    {
        let c = cs[i];
        let ghost before = cs@.take(i as int);
        assert(cs@.take(i + 1).drop_last() =~= before);
        if c == '_' || c == '-' || c == ' ' {
            capitalize_next = true;
        } else if capitalize_next {
            out.push(char_to_ascii_upper(c));
            capitalize_next = false;
        } else if i > 0 && char_is_ascii_upper(c) {
            out.push(c);
        } else {
            out.push(char_to_ascii_lower(c));
        }
        i = i + 1;
    }
    assert(cs@.take(cs.len() as int) =~= cs@);
    string_of(&out)
}

/// PascalCase of a string.
pub fn to_pascal_case(s: &str) -> (r: String)
    ensures
        r@ == pascal_case(s@),
{
    let camel = to_camel_case(s);
    capitalize(camel.as_str())
}

/// The first character upper-cased, the rest unchanged.
pub fn capitalize(s: &str) -> (r: String)
    ensures
        r@ == capitalized(s@),
{
    let cs = chars_of(s);
    if cs.len() == 0 {
        return String::new();
    }
    let mut r = char_to_uppercase_unicode(cs[0]);
    let mut i: usize = 1;
    while i < cs.len()
        invariant
            cs@ == s@,
            1 <= i <= cs.len(),
            r@ == unicode_char_uppercase(cs@[0]) + cs@.subrange(1, i as int),
        decreases cs.len() - i,
    {
        push_char(&mut r, cs[i]);
        i = i + 1;
        assert(r@ =~= unicode_char_uppercase(cs@[0]) + cs@.subrange(1, i as int));
    }
    assert(cs@.subrange(1, cs.len() as int) =~= cs@.drop_first());
    r
}

/// snake_case of a string.
pub fn to_snake_case(s: &str) -> (r: String)
    ensures
        r@ == snake_case(s@),
{
    let cs = chars_of(s);
    let mut out: Vec<char> = Vec::new();
    let mut i: usize = 0;
    while i < cs.len()
        invariant
            cs@ == s@,
            i <= cs.len(),
            out@ == snake_case(cs@.take(i as int)),
        decreases cs.len() - i,
    {
        let c = cs[i];
        let ghost before = out@;
        assert(cs@.take(i + 1).drop_last() =~= cs@.take(i as int));
        if char_is_ascii_upper(c) && i > 0 {
            out.push('_');
            out.push(char_to_ascii_lower(c));
        } else if c == '-' || c == ' ' {
            out.push('_');
        } else {
            out.push(char_to_ascii_lower(c));
        }
        assert(out@ =~= before + snake_piece(i as int, c));
        i = i + 1;
    }
    assert(cs@.take(cs.len() as int) =~= cs@);
    string_of(&out)
}

/// kebab-case of a string.
pub fn to_kebab_case(s: &str) -> (r: String)
    ensures
        r@ == kebab_case(s@),
{
    let snake = to_snake_case(s);
    let cs = chars_of(snake.as_str());
    let mut out: Vec<char> = Vec::new();
    let mut i: usize = 0;
    while i < cs.len()
        invariant
            cs@ == snake_case(s@),
            i <= cs.len(),
            out@ == cs@.take(i as int).map_values(|c: char| if c == '_' { '-' } else { c }),
        decreases cs.len() - i,
    {
        let c = cs[i];
        if c == '_' {
            out.push('-');
        } else {
            out.push(c);
        }
        i = i + 1;
        assert(out@ =~= cs@.take(i as int).map_values(
            |c: char|
                if c == '_' {
                    '-'
                } else {
                    c
                },
        ));
    }
    assert(cs@.take(cs.len() as int) =~= cs@);
    string_of(&out)
}

/// CONSTANT_CASE of a string.
pub fn to_constant_case(s: &str) -> (r: String)
    ensures
        r@ == constant_case(s@),
{
    let snake = to_snake_case(s);
    to_uppercase_unicode(snake.as_str())
}

/// The characters of `s` in reverse order.
pub fn reverse_chars(s: &str) -> (r: String)
    ensures
        r@ == s@.reverse(),
{
    let cs = chars_of(s);
    let mut out: Vec<char> = Vec::new();
    let mut i: usize = cs.len();
    while i > 0
        invariant
            cs@ == s@,
            i <= cs.len(),
            out@ == cs@.subrange(i as int, cs.len() as int).reverse(),
        decreases i,
    {
        i = i - 1;
        out.push(cs[i]);
        assert(out@ =~= cs@.subrange(i as int, cs.len() as int).reverse());
    }
    assert(cs@.subrange(0, cs.len() as int) =~= cs@);
    string_of(&out)
}

/// The `string-case` tool's request, as read from its JSON input.
pub struct StringCaseInput {
    /// The `input` field, when it is a string.
    pub input: Option<String>,
    /// The `to_case` field, when it is a string (default `lowercase`).
    pub to_case: Option<String>,
    /// The `reverse` field, when it is a boolean (default `false`).
    pub reverse: Option<bool>,
}

/// The `string-case` tool's answer.
pub struct StringCaseOutput {
    /// The converted text.
    pub result: String,
    /// The text as given.
    pub original: String,
    /// The conversion that was asked for.
    pub to_case: String,
}

/// The conversion name that applies to a request.
pub open spec fn requested_case(req: StringCaseInput) -> Seq<char> {
    match req.to_case {
        Some(t) => t@,
        None => "lowercase"@,
    }
}

/// The text a request converts: the input, reversed when asked.
pub open spec fn case_source(input: Seq<char>, reverse: Option<bool>) -> Seq<char> {
    if reverse == Some(true) {
        input.reverse()
    } else {
        input
    }
}

/// Converts text between letter cases and identifier styles.
pub fn string_case(req: StringCaseInput) -> (r: Result<StringCaseOutput, ToolError>)
    ensures
        req.input is None <==> r is Err,
        r matches Err(e) ==> is_invalid_input(e, "缺少 input 字段"@),
        r matches Ok(out) ==> {
            &&& out.original@ == req.input->Some_0@
            &&& out.to_case@ == requested_case(req)
            &&& out.result@ == convert_case(
                case_source(req.input->Some_0@, req.reverse),
                requested_case(req),
            )
        },
{
    let input = match req.input {
        Some(s) => s,
        None => {
            return Err(ToolError::InvalidInput(String::from_str("缺少 input 字段")));
        },
    };
    let to_case = match req.to_case {
        Some(t) => t,
        None => String::from_str("lowercase"),
    };
    let should_reverse = match req.reverse {
        Some(b) => b,
        None => false,
    };
    let source = if should_reverse {
        reverse_chars(input.as_str())
    } else {
        input.clone()
    };
    let s = source.as_str();
    let t = to_case.as_str();
    proof {
        reveal_strlit("lowercase");
        reveal_strlit("uppercase");
        reveal_strlit("capitalize");
        reveal_strlit("camelCase");
        reveal_strlit("snake_case");
        reveal_strlit("PascalCase");
        reveal_strlit("kebab-case");
        reveal_strlit("CONSTANT_CASE");
    }
    let result = if str_equal(t, "lowercase") {
        to_lowercase_unicode(s)
    } else if str_equal(t, "uppercase") {
        to_uppercase_unicode(s)
    } else if str_equal(t, "capitalize") {
        capitalize(s)
    } else if str_equal(t, "camelCase") {
        to_camel_case(s)
    } else if str_equal(t, "snake_case") {
        to_snake_case(s)
    } else if str_equal(t, "PascalCase") {
        to_pascal_case(s)
    } else if str_equal(t, "kebab-case") {
        to_kebab_case(s)
    } else if str_equal(t, "CONSTANT_CASE") {
        to_constant_case(s)
    } else {
        source.clone()
    };
    Ok(StringCaseOutput { result, original: input, to_case })
}

/// The `string-case` tool.
#[derive(Clone, Copy)]
pub struct StringCase;

impl Tool for StringCase {
    open spec fn spec_id(&self) -> Seq<char> {
        "string-case"@
    }

    open spec fn spec_name(&self) -> Seq<char> {
        "字符串格式转换"@
    }

    open spec fn spec_description(&self) -> Seq<char> {
        "字符串大小写转换、驼峰/蛇形/帕斯卡命名格式互转"@
    }

    open spec fn spec_category(&self) -> ToolCategory {
        ToolCategory::Text
    }

    open spec fn spec_cpu_intensive(&self) -> bool {
        false
    }

    fn id(&self) -> &'static str {
        "string-case"
    }

    fn name(&self) -> &'static str {
        "字符串格式转换"
    }

    fn description(&self) -> &'static str {
        "字符串大小写转换、驼峰/蛇形/帕斯卡命名格式互转"
    }

    fn category(&self) -> ToolCategory {
        ToolCategory::Text
    }

    fn is_cpu_intensive(&self) -> bool {
        false
    }
}

impl StringCase {
    /// Converts the request's text (see [`string_case`]).
    pub fn execute(&self, req: StringCaseInput) -> (r: Result<StringCaseOutput, ToolError>)
        ensures
            req.input is None <==> r is Err,
            r matches Err(e) ==> is_invalid_input(e, "缺少 input 字段"@),
            r matches Ok(out) ==> {
                &&& out.original@ == req.input->Some_0@
                &&& out.to_case@ == requested_case(req)
                &&& out.result@ == convert_case(
                    case_source(req.input->Some_0@, req.reverse),
                    requested_case(req),
                )
            },
    {
        string_case(req)
    }
}

/// A character snake_case leaves as it is.
pub open spec fn snake_stable(c: char) -> bool {
    !is_ascii_upper(c) && c != '-' && c != ' '
}

proof fn lemma_snake_output(s: Seq<char>)
    ensures
        forall|i: int| 0 <= i < snake_case(s).len() ==> snake_stable(#[trigger] snake_case(s)[i]),
    decreases s.len(),
{
    if s.len() > 0 {
        lemma_snake_output(s.drop_last());
        let prev = snake_case(s.drop_last());
        let piece = snake_piece(s.len() - 1, s.last());
        let c = s.last();
        assert(ascii_lower(c) == c || (is_ascii_upper(c) && 'a' <= ascii_lower(c) <= 'z'));
        assert forall|i: int| 0 <= i < snake_case(s).len() implies snake_stable(#[trigger] snake_case(s)[i]) by {
            if i < prev.len() {
                assert(snake_case(s)[i] == prev[i]);
            } else {
                assert(snake_case(s)[i] == piece[i - prev.len()]);
            }
        }
    }
}

proof fn lemma_snake_fixes_stable(t: Seq<char>)
    requires
        forall|i: int| 0 <= i < t.len() ==> snake_stable(#[trigger] t[i]),
    ensures
        snake_case(t) == t,
    decreases t.len(),
{
    if t.len() > 0 {
        lemma_snake_fixes_stable(t.drop_last());
        assert(snake_stable(t[t.len() - 1]));
        assert(t.drop_last().push(t.last()) =~= t);
    }
}

/// snake_case is idempotent: converting a snake_case text again changes
/// nothing.
pub proof fn law_snake_idempotent(s: Seq<char>)
    ensures
        snake_case(snake_case(s)) == snake_case(s),
{
    lemma_snake_output(s);
    lemma_snake_fixes_stable(snake_case(s));
}

/// camelCase keeps no separator (`_`, `-`, space).
pub proof fn law_camel_has_no_separator(s: Seq<char>)
    ensures
        forall|i: int| 0 <= i < camel_case(s).len() ==> !is_separator(#[trigger] camel_case(s)[i]),
    decreases s.len(),
{
    if s.len() > 0 {
        law_camel_has_no_separator(s.drop_last());
        let prev = camel_case(s.drop_last());
        assert forall|i: int| 0 <= i < camel_case(s).len() implies !is_separator(#[trigger] camel_case(s)[i]) by {
            if i < prev.len() {
                assert(camel_case(s)[i] == prev[i]);
            }
        }
    }
}

/// kebab-case keeps no `_`, and has as many characters as snake_case.
pub proof fn law_kebab_has_no_underscore(s: Seq<char>)
    ensures
        kebab_case(s).len() == snake_case(s).len(),
        forall|i: int| 0 <= i < kebab_case(s).len() ==> #[trigger] kebab_case(s)[i] != '_',
{
}

/// Reversing twice gives the text back.
pub proof fn law_reverse_twice(s: Seq<char>)
    ensures
        case_source(case_source(s, Some(true)), Some(true)) == s,
{
    assert(s.reverse().reverse() =~= s);
}

proof fn lemma_camel_first(s: Seq<char>)
    requires
        s.len() > 0,
        !is_separator(s[0]),
    ensures
        camel_case(s).len() > 0,
        camel_case(s)[0] == ascii_lower(s[0]),
    decreases s.len(),
{
    if s.len() > 1 {
        let t = s.drop_last();
        assert(t[0] == s[0]);
        lemma_camel_first(t);
    } else {
        assert(s.drop_last().len() == 0);
        assert(camel_case(s.drop_last()) =~= Seq::<char>::empty());
    }
}

proof fn lemma_camel_of_lower(s: Seq<char>)
    requires
        forall|i: int| 0 <= i < s.len() ==> 'a' <= #[trigger] s[i] <= 'z',
    ensures
        camel_case(s) == s,
    decreases s.len(),
{
    if s.len() > 0 {
        let t = s.drop_last();
        assert forall|i: int| 0 <= i < t.len() implies 'a' <= #[trigger] t[i] <= 'z' by {
            assert(t[i] == s[i]);
        }
        lemma_camel_of_lower(t);
        assert(t.push(s.last()) =~= s);
    }
}

/// The camelCase conversion starts with the lower case of the text's first
/// character (when that is not a separator): `hello_world` and
/// `Hello_world` both start with `h`, never with a capital as PascalCase
/// does.
pub proof fn law_camel_starts_lower(s: Seq<char>)
    requires
        s.len() > 0,
        !is_separator(s[0]),
    ensures
        convert_case(s, "camelCase"@).len() > 0,
        convert_case(s, "camelCase"@)[0] == ascii_lower(s[0]),
{
    reveal_strlit("lowercase");
    reveal_strlit("uppercase");
    reveal_strlit("capitalize");
    reveal_strlit("camelCase");
    assert("camelCase"@[0] == 'c' && "lowercase"@[0] == 'l' && "uppercase"@[0] == 'u');
    assert("camelCase"@ != "lowercase"@);
    assert("camelCase"@ != "uppercase"@);
    assert("camelCase"@.len() == 9 && "capitalize"@.len() == 10);
    assert("camelCase"@ != "capitalize"@);
    lemma_camel_first(s);
}

/// A word of lower-case ASCII letters is already camelCase: converting it
/// changes nothing.
pub proof fn law_camel_keeps_lower_word(s: Seq<char>)
    requires
        forall|i: int| 0 <= i < s.len() ==> 'a' <= #[trigger] s[i] <= 'z',
    ensures
        convert_case(s, "camelCase"@) == s,
{
    reveal_strlit("lowercase");
    reveal_strlit("uppercase");
    reveal_strlit("capitalize");
    reveal_strlit("camelCase");
    assert("camelCase"@[0] == 'c' && "lowercase"@[0] == 'l' && "uppercase"@[0] == 'u');
    assert("camelCase"@ != "lowercase"@);
    assert("camelCase"@ != "uppercase"@);
    assert("camelCase"@.len() == 9 && "capitalize"@.len() == 10);
    assert("camelCase"@ != "capitalize"@);
    lemma_camel_of_lower(s);
}

} // verus!
