//! The `json-validate` tool: whether a text is JSON, and its shape.

use vstd::prelude::*;
use vstd::utf8::encode_utf8;
use crate::category::ToolCategory;
use crate::error::{ToolError, is_invalid_input};
use crate::request::missing_input_message;
use crate::tool::Tool;

verus! {

/// A JSON value, as the validator reads it.
pub enum JsonValue {
    Null,
    Bool(bool),
    /// A number, in its JSON text form.
    Number(String),
    String(String),
    Array(Vec<JsonValue>),
    /// An object's members in order.
    Object(Vec<(String, JsonValue)>),
}

/// The number of items (elements or member values) a value holds.
pub open spec fn item_count(v: JsonValue) -> nat {
    match v {
        JsonValue::Array(a) => a@.len(),
        JsonValue::Object(m) => m@.len(),
        _ => 0,
    }
}

/// The `k`-th item of a value (an element or a member's value).
pub open spec fn item(v: JsonValue, k: int) -> JsonValue {
    match v {
        JsonValue::Array(a) => a@[k],
        JsonValue::Object(m) => m@[k].1,
        _ => JsonValue::Null,
    }
}

/// The nesting depth: 0 for a scalar, one more than its deepest item for an
/// array or object.
pub open spec fn json_depth(v: JsonValue) -> nat
    decreases v, 1nat, 0nat,
{
    match v {
        JsonValue::Array(_) => 1 + deepest_item(v, item_count(v)),
        JsonValue::Object(_) => 1 + deepest_item(v, item_count(v)),
        _ => 0,
    }
}

/// The greatest depth among the first `n` items of `v` (0 for none).
pub open spec fn deepest_item(v: JsonValue, n: nat) -> nat
    decreases v, 0nat, n,
{
    if n == 0 || n > item_count(v) {
        0
    } else {
        let d = json_depth(item(v, n - 1));
        let rest = deepest_item(v, (n - 1) as nat);
        if d > rest {
            d
        } else {
            rest
        }
    }
}

proof fn lemma_deepest_bound(v: JsonValue, n: nat)
    requires
        n <= item_count(v),
        v is Array || v is Object,
    ensures
        deepest_item(v, n) <= deepest_item(v, item_count(v)),
        forall|k: int| 0 <= k < n ==> json_depth(#[trigger] item(v, k)) <= deepest_item(v, n),
    decreases item_count(v) - n,
{
    if n < item_count(v) {
        lemma_deepest_bound(v, n + 1);
    }
    lemma_deepest_items(v, n);
}

proof fn lemma_deepest_items(v: JsonValue, n: nat)
    requires
        n <= item_count(v),
    ensures
        forall|k: int| 0 <= k < n ==> json_depth(#[trigger] item(v, k)) <= deepest_item(v, n),
    decreases n,
{
    if n > 0 {
        lemma_deepest_items(v, (n - 1) as nat);
    }
}

/// The nesting depth of a value.
pub fn depth_of(v: &JsonValue) -> (r: u32)
    requires
        json_depth(*v) <= u32::MAX,
    ensures
        r == json_depth(*v),
    decreases v,
{
    match v {
        JsonValue::Array(a) => {
            let mut best: u32 = 0;
            let mut k: usize = 0;
            proof {
                lemma_deepest_bound(*v, 0);
            }
            while k < a.len()
                invariant
                    k <= a@.len(),
                    item_count(*v) == a@.len(),
                    *v == JsonValue::Array(*a),
                    best == deepest_item(*v, k as nat),
                    json_depth(*v) <= u32::MAX,
                    json_depth(*v) == 1 + deepest_item(*v, a@.len()),
                decreases a.len() - k,
            {
                proof {
                    lemma_deepest_bound(*v, (k + 1) as nat);
                    assert(item(*v, k as int) == a@[k as int]);
                }
                let d = depth_of(&a[k]);
                if d > best {
                    best = d;
                }
                k = k + 1;
            }
            best + 1
        },
        JsonValue::Object(m) => {
            let mut best: u32 = 0;
            let mut k: usize = 0;
            proof {
                lemma_deepest_bound(*v, 0);
            }
            while k < m.len()
                invariant
                    k <= m@.len(),
                    item_count(*v) == m@.len(),
                    *v == JsonValue::Object(*m),
                    best == deepest_item(*v, k as nat),
                    json_depth(*v) <= u32::MAX,
                    json_depth(*v) == 1 + deepest_item(*v, m@.len()),
                decreases m.len() - k,
            {
                proof {
                    lemma_deepest_bound(*v, (k + 1) as nat);
                    assert(item(*v, k as int) == m@[k as int].1);
                }
                let d = depth_of(&m[k].1);
                if d > best {
                    best = d;
                }
                k = k + 1;
            }
            best + 1
        },
        _ => 0,
    }
}

/// The name of a value's JSON type.
pub open spec fn json_type(v: JsonValue) -> Seq<char> {
    match v {
        JsonValue::Null => "null"@,
        JsonValue::Bool(_) => "boolean"@,
        JsonValue::Number(_) => "number"@,
        JsonValue::String(_) => "string"@,
        JsonValue::Array(_) => "array"@,
        JsonValue::Object(_) => "object"@,
    }
}

/// The name of a value's JSON type.
pub fn json_type_name(v: &JsonValue) -> (r: &'static str)
    ensures
        r@ == json_type(*v),
{
    match v {
        JsonValue::Null => "null",
        JsonValue::Bool(_) => "boolean",
        JsonValue::Number(_) => "number",
        JsonValue::String(_) => "string",
        JsonValue::Array(_) => "array",
        JsonValue::Object(_) => "object",
    }
}

/// Where and why a text is not JSON.
pub struct JsonSyntaxError {
    /// The parser's message.
    pub message: String,
    /// The line of the error (from 1).
    pub line: usize,
    /// The column of the error on its line, as the parser counts it (0 when
    /// the error comes before the line's first character).
    pub column: usize,
}

/// `serde_json::Value`, carried from the parser to the conversion below.
#[verifier::external_type_specification]
#[verifier::external_body]
pub struct ExJsonValue(serde_json::Value);

/// What `serde_json::from_str::<serde_json::Value>` reads from `text`: the
/// value in the library's form (numbers in their JSON text, object members
/// in the parsed map's order), or where and why the text is not JSON.
pub uninterp spec fn json_read(text: Seq<char>) -> Result<JsonValue, JsonSyntaxError>;

/// A `serde_json` value in the library's form, one variant for one variant.
/// Nothing is stated of it here; `parse_json` states what the two together
/// give.
#[verifier::external_body]
fn json_value_from(v: &serde_json::Value) -> JsonValue {
    match v {
        serde_json::Value::Null => JsonValue::Null,
        serde_json::Value::Bool(b) => JsonValue::Bool(*b),
        serde_json::Value::Number(n) => JsonValue::Number(n.to_string()),
        serde_json::Value::String(t) => JsonValue::String(t.clone()),
        serde_json::Value::Array(a) => JsonValue::Array(a.iter().map(json_value_from).collect()),
        serde_json::Value::Object(m) => JsonValue::Object(m.iter().map(|(k, x)| (k.clone(), json_value_from(x))).collect()),
    }
}

/// `serde_json::from_str::<serde_json::Value>(text)`: the value read, or the
/// error's message (`Display`), line and column. The parser refuses nesting
/// deeper than 128 levels, and its errors point at a line counted from 1.
#[verifier::external_body]
fn parse_json(text: &str) -> (r: Result<JsonValue, JsonSyntaxError>)
    ensures
        r == json_read(text@),
        r matches Ok(v) ==> json_depth(v) <= 128,
        r matches Err(e) ==> e.line >= 1,
{
    match serde_json::from_str::<serde_json::Value>(text) {
        Ok(v) => Ok(json_value_from(&v)),
        Err(e) => Err(JsonSyntaxError { message: e.to_string(), line: e.line(), column: e.column() }),
    }
}

/// The `json-validate` tool's request.
pub struct JsonValidateInput {
    /// The `input` field, when it is a string.
    pub input: Option<String>,
}

/// The `json-validate` tool's answer.
pub enum JsonValidation {
    /// The text is JSON.
    Valid {
        /// The text's length in bytes.
        size: usize,
        /// The value's nesting depth.
        depth: u32,
        /// The value's type name.
        value_type: &'static str,
    },
    /// The text is not JSON.
    Invalid { error: String, line: usize, column: usize },
}

/// The answer for text `t` that parsed as `p`.
pub open spec fn validation_of(t: Seq<char>, p: Result<JsonValue, JsonSyntaxError>, r: JsonValidation) -> bool {
    match p {
        Ok(v) => r matches JsonValidation::Valid { size, depth, value_type } && size == encode_utf8(t).len() as usize
            && depth == json_depth(v) && value_type@ == json_type(v),
        Err(e) => r matches JsonValidation::Invalid { error, line, column } && error@ == e.message@ && line
            == e.line && column == e.column,
    }
}

/// The `json-validate` tool.
#[derive(Clone, Copy)]
pub struct JsonValidator;

impl Tool for JsonValidator {
    open spec fn spec_id(&self) -> Seq<char> {
        "json-validate"@
    }

    open spec fn spec_name(&self) -> Seq<char> {
        "JSON 校验"@
    }

    open spec fn spec_description(&self) -> Seq<char> {
        "检查 JSON 字符串是否合法，并提供详细的错误信息"@
    }

    open spec fn spec_category(&self) -> ToolCategory {
        ToolCategory::Json
    }

    open spec fn spec_cpu_intensive(&self) -> bool {
        false
    }

    fn id(&self) -> &'static str {
        "json-validate"
    }

    fn name(&self) -> &'static str {
        "JSON 校验"
    }

    fn description(&self) -> &'static str {
        "检查 JSON 字符串是否合法，并提供详细的错误信息"
    }

    fn category(&self) -> ToolCategory {
        ToolCategory::Json
    }

    fn is_cpu_intensive(&self) -> bool {
        false
    }
}

impl JsonValidator {
    /// Reports whether the request's text is JSON: its size, depth and type
    /// when it is, the parser's message and position when it is not.
    pub fn execute(&self, req: JsonValidateInput) -> (r: Result<JsonValidation, ToolError>)
        ensures
            req.input is None ==> (r matches Err(e) && is_invalid_input(e, missing_input_message())),
            req.input matches Some(s) ==> r matches Ok(out) && validation_of(s@, json_read(s@), out),
            req.input matches Some(s) ==> r matches Ok(out) && (out is Valid <==> json_read(s@) is Ok),
            r matches Ok(JsonValidation::Invalid { line, .. }) ==> line >= 1,
    {
        match req.input {
            None => Err(ToolError::InvalidInput(String::from_str("缺少 input 字段"))),
            Some(text) => match parse_json(text.as_str()) {
                Ok(v) => Ok(
                    JsonValidation::Valid {
                        size: text.as_str().len(),
                        depth: depth_of(&v),
                        value_type: json_type_name(&v),
                    },
                ),
                Err(e) => Ok(JsonValidation::Invalid { error: e.message, line: e.line, column: e.column }),
            },
        }
    }
}

/// A scalar has depth 0; an array or object is one deeper than each of its
/// items.
pub proof fn law_depth_of_items(v: JsonValue, k: int)
    ensures
        !(v is Array || v is Object) ==> json_depth(v) == 0,
        (v is Array || v is Object) && 0 <= k < item_count(v) ==> json_depth(v) >= 1 + json_depth(item(v, k)),
{
    if (v is Array || v is Object) && 0 <= k < item_count(v) {
        lemma_deepest_bound(v, item_count(v));
    }
}

proof fn lemma_deepest_attained(v: JsonValue, n: nat)
    requires
        0 < n <= item_count(v),
    ensures
        exists|k: int| 0 <= k < n && deepest_item(v, n) == json_depth(#[trigger] item(v, k)),
    decreases n,
{
    if n > 1 {
        lemma_deepest_attained(v, (n - 1) as nat);
        let k0 = choose|k: int| 0 <= k < n - 1 && deepest_item(v, (n - 1) as nat) == json_depth(#[trigger] item(v, k));
        if json_depth(item(v, n - 1)) > deepest_item(v, (n - 1) as nat) {
            assert(deepest_item(v, n) == json_depth(item(v, n - 1)));
        } else {
            assert(deepest_item(v, n) == json_depth(item(v, k0)));
        }
    } else {
        assert(deepest_item(v, 0) == 0);
        assert(deepest_item(v, n) == json_depth(item(v, 0)));
    }
}

/// An array or object is exactly one deeper than its deepest item: no item
/// is deeper than its depth less one, and some item reaches it; an empty
/// array or object has depth 1.
pub proof fn law_depth_is_deepest_item_plus_one(v: JsonValue)
    requires
        v is Array || v is Object,
    ensures
        json_depth(v) >= 1,
        forall|k: int| 0 <= k < item_count(v) ==> json_depth(#[trigger] item(v, k)) + 1 <= json_depth(v),
        item_count(v) == 0 ==> json_depth(v) == 1,
        item_count(v) > 0 ==> exists|k: int| 0 <= k < item_count(v) && json_depth(v) == 1 + json_depth(#[trigger] item(v, k)),
{
    lemma_deepest_bound(v, item_count(v));
    if item_count(v) > 0 {
        lemma_deepest_attained(v, item_count(v));
    }
}

} // verus!
