//! The `hash` tool: the BLAKE3 digest of a text.

use vstd::prelude::*;
use vstd::utf8::encode_utf8;
use crate::category::ToolCategory;
use crate::error::{ToolError, is_invalid_input};
use crate::request::{TextInput, missing_input_message, require_input};
use crate::text::hex_lower;
use crate::tool::Tool;

verus! {

/// The 32-byte BLAKE3 digest of `data` (what `blake3::hash` returns).
pub uninterp spec fn blake3_digest(data: Seq<u8>) -> Seq<u8>;

/// `blake3::hash(data).to_hex()`: the 32-byte digest of `data` written in
/// lower-case hex.
#[verifier::external_body]
fn blake3_hex(data: &[u8]) -> (r: String)
    ensures
        r@ == hex_lower(blake3_digest(data@)),
        r@.len() == 64,
{
    blake3::hash(data).to_hex().to_string()
}

/// The `hash` tool's answer.
pub struct HashOutput {
    /// The digest in lower-case hex.
    pub result: String,
    /// Always `BLAKE3`.
    pub algorithm: String,
    /// The length of the input in bytes.
    pub input_length: usize,
}

/// The `hash` tool.
#[derive(Clone, Copy)]
pub struct HashTool;

impl Tool for HashTool {
    open spec fn spec_id(&self) -> Seq<char> {
        "hash"@
    }

    open spec fn spec_name(&self) -> Seq<char> {
        "Hash 计算"@
    }

    open spec fn spec_description(&self) -> Seq<char> {
        "计算字符串的 BLAKE3 哈希值"@
    }

    open spec fn spec_category(&self) -> ToolCategory {
        ToolCategory::Crypto
    }

    open spec fn spec_cpu_intensive(&self) -> bool {
        true
    }

    fn id(&self) -> &'static str {
        "hash"
    }

    fn name(&self) -> &'static str {
        "Hash 计算"
    }

    fn description(&self) -> &'static str {
        "计算字符串的 BLAKE3 哈希值"
    }

    fn category(&self) -> ToolCategory {
        ToolCategory::Crypto
    }

    fn is_cpu_intensive(&self) -> bool {
        true
    }
}

/// The BLAKE3 digest of a text's UTF-8 bytes, in lower-case hex.
pub fn blake3_text_digest(input: &str) -> (r: String)
    ensures
        r@ == hex_lower(blake3_digest(encode_utf8(input@))),
        r@.len() == 64,
{
    blake3_hex(input.as_bytes())
}

impl HashTool {
    /// Hashes the request's `input`.
    pub fn execute(&self, req: TextInput) -> (r: Result<HashOutput, ToolError>)
        ensures
            req.input is None ==> (r matches Err(e) && is_invalid_input(e, missing_input_message())),
            req.input matches Some(s) ==> r matches Ok(out) && {
                &&& out.result@ == hex_lower(blake3_digest(encode_utf8(s@)))
                &&& out.result@.len() == 64
                &&& out.algorithm@ == "BLAKE3"@
                &&& out.input_length == encode_utf8(s@).len() as usize
            },
    {
        let input = require_input(req.input)?;
        let result = blake3_text_digest(input.as_str());
        Ok(HashOutput {
            result,
            algorithm: String::from_str("BLAKE3"),
            input_length: input.as_str().len(),
        })
    }
}

} // verus!
