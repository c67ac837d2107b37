//! The errors a tool can report, and how they are answered over HTTP.

use vstd::prelude::*;
use crate::text::{decimal_u64, nat_digits, push_str};

verus! {

/// `serde_json::Error`, carried by [`ToolError::JsonError`].
#[verifier::external_type_specification]
#[verifier::external_body]
pub struct ExJsonError(serde_json::Error);

/// Why a tool request failed.
#[derive(Debug)]
pub enum ToolError {
    /// No tool has the requested id.
    NotFound(String),
    /// The request's input is not acceptable (the text says why).
    InvalidInput(String),
    /// The tool ran longer than the limit (seconds).
    Timeout(u64),
    /// The input (size in bytes) is over the limit (bytes).
    InputTooLarge(usize, usize),
    /// The tool failed while running.
    ExecutionError(String),
    /// The tool's task failed unexpectedly.
    InternalError(String),
    /// A JSON (de)serialisation error.
    JsonError(serde_json::Error),
}

/// The error is `InvalidInput` with the text `msg`.
pub open spec fn is_invalid_input(e: ToolError, msg: Seq<char>) -> bool {
    e matches ToolError::InvalidInput(m) && m@ == msg
}

/// The HTTP status that answers an error.
pub open spec fn error_status(e: ToolError) -> u16 {
    match e {
        ToolError::NotFound(_) => 404,
        ToolError::InvalidInput(_) => 400,
        ToolError::Timeout(_) => 408,
        ToolError::InputTooLarge(_, _) => 413,
        ToolError::ExecutionError(_) => 500,
        ToolError::InternalError(_) => 500,
        ToolError::JsonError(_) => 400,
    }
}

/// The result of running a tool.
pub type ToolResult<T> = Result<T, ToolError>;

impl ToolError {
    /// The HTTP status code that answers this error.
    pub fn status_code(&self) -> (r: u16)
        ensures
            r == error_status(*self),
    {
        match self {
            ToolError::NotFound(_) => 404,
            ToolError::InvalidInput(_) => 400,
            ToolError::Timeout(_) => 408,
            ToolError::InputTooLarge(_, _) => 413,
            ToolError::ExecutionError(_) => 500,
            ToolError::InternalError(_) => 500,
            ToolError::JsonError(_) => 400,
        }
    }
}

/// Every error is answered with a client error (400, 404, 408, 413) or a
/// server error (500); only failures while running are server errors.
pub proof fn lemma_status_classes(e: ToolError)
    ensures
        error_status(e) == 400 || error_status(e) == 404 || error_status(e) == 408
            || error_status(e) == 413 || error_status(e) == 500,
        error_status(e) == 500 <==> (e is ExecutionError || e is InternalError),
{
}

/// The `Display` text of a `serde_json::Error` (its message, with the line
/// and column where it applies). Nothing is stated of the text.
#[verifier::external_body]
pub(crate) fn json_error_text(e: &serde_json::Error) -> String {
    format!("{}", e)
}

/// The message of an error whose text does not come from `serde_json`.
pub open spec fn error_text(e: ToolError) -> Seq<char> {
    match e {
        ToolError::NotFound(id) => "工具 '"@ + id@ + "' 未找到"@,
        ToolError::InvalidInput(m) => "输入参数错误: "@ + m@,
        ToolError::Timeout(s) => "工具执行超时 (限制: "@ + nat_digits(s as nat) + "s)"@,
        ToolError::InputTooLarge(size, max) => "输入大小 ("@ + nat_digits(size as nat) + " bytes) 超过限制 ("@
            + nat_digits(max as nat) + " bytes)"@,
        ToolError::ExecutionError(m) => "执行错误: "@ + m@,
        ToolError::InternalError(m) => "内部错误: "@ + m@,
        ToolError::JsonError(_) => "JSON 错误: "@,
    }
}

impl ToolError {
    /// The error's message: a prefix naming the kind of error, then its
    /// details. For `JsonError` the details are `serde_json`'s own text.
    pub fn message(&self) -> (r: String)
        ensures
            !(*self is JsonError) ==> r@ == error_text(*self),
            *self is JsonError ==> r@.take(error_text(*self).len() as int) == error_text(*self),
    {
        let mut r = String::new();
        match self {
            ToolError::NotFound(id) => {
                push_str(&mut r, "工具 '");
                push_str(&mut r, id.as_str());
                push_str(&mut r, "' 未找到");
            },
            ToolError::InvalidInput(m) => {
                push_str(&mut r, "输入参数错误: ");
                push_str(&mut r, m.as_str());
            },
            ToolError::Timeout(s) => {
                push_str(&mut r, "工具执行超时 (限制: ");
                let d = decimal_u64(*s);
                push_str(&mut r, d.as_str());
                push_str(&mut r, "s)");
            },
            ToolError::InputTooLarge(size, max) => {
                push_str(&mut r, "输入大小 (");
                let d = decimal_u64(*size as u64);
                push_str(&mut r, d.as_str());
                push_str(&mut r, " bytes) 超过限制 (");
                let d = decimal_u64(*max as u64);
                push_str(&mut r, d.as_str());
                push_str(&mut r, " bytes)");
            },
            ToolError::ExecutionError(m) => {
                push_str(&mut r, "执行错误: ");
                push_str(&mut r, m.as_str());
            },
            ToolError::InternalError(m) => {
                push_str(&mut r, "内部错误: ");
                push_str(&mut r, m.as_str());
            },
            ToolError::JsonError(e) => {
                push_str(&mut r, "JSON 错误: ");
                let ghost head = r@;
                let d = json_error_text(e);
                push_str(&mut r, d.as_str());
                assert(r@.take(head.len() as int) =~= head);
            },
        }
        r
    }
}

/// The body of an HTTP error answer.
pub struct ErrorResponse {
    /// The error's message.
    pub error: String,
    /// The HTTP status code.
    pub code: u16,
}

impl ErrorResponse {
    /// The answer to `err`: its message and its status code.
    pub fn for_error(err: &ToolError) -> (r: ErrorResponse)
        ensures
            r.code == error_status(*err),
            !(*err is JsonError) ==> r.error@ == error_text(*err),
    {
        ErrorResponse { error: err.message(), code: err.status_code() }
    }
}

} // verus!
