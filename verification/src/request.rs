//! The fields that tool requests share.

use vstd::prelude::*;
use crate::error::{ToolError, is_invalid_input};

verus! {

/// A request whose only field is the text `input`.
pub struct TextInput {
    /// The `input` field, when it is a string.
    pub input: Option<String>,
}

/// The error for a request without its `input` text.
pub open spec fn missing_input_message() -> Seq<char> {
    "缺少 input 字段"@
}

/// The `input` text of a request; `InvalidInput` when it is missing.
pub fn require_input(input: Option<String>) -> (r: Result<String, ToolError>)
    ensures
        input matches Some(s) ==> r == Ok::<String, ToolError>(s),
        input is None ==> (r matches Err(e) && is_invalid_input(e, missing_input_message())),
{
    match input {
        Some(s) => Ok(s),
        None => Err(ToolError::InvalidInput(String::from_str("缺少 input 字段"))),
    }
}

} // verus!
