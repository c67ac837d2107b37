//! The execution rules around a tool run: finding the tool, the input size
//! limit, the time limit, and how a run's end becomes its result. Running
//! the tool (and timing it) is left to the caller.

use std::sync::Arc;
use vstd::prelude::*;
use crate::error::{ToolError, ToolResult};
use crate::registry::{ToolRegistry, has_id, is_first_with_id};
use crate::text::push_str;
use crate::tool::Tool;

verus! {

/// The default input size limit: 10 MiB.
pub const DEFAULT_MAX_INPUT_SIZE: usize = 10485760;

/// Runs registered tools within an input size limit.
pub struct ExecuteEngine<T: Tool> {
    registry: Arc<ToolRegistry<T>>,
    max_input_size: usize,
}

impl<T: Tool> ExecuteEngine<T> {
    /// The tools this engine runs.
    pub closed spec fn tools(&self) -> Seq<T> {
        self.registry.entries()
    }

    /// The input size limit in bytes.
    pub closed spec fn limit(&self) -> usize {
        self.max_input_size
    }

    /// An engine over `registry` with the default 10 MiB limit.
    pub fn new(registry: Arc<ToolRegistry<T>>) -> (r: Self)
        ensures
            r.tools() == registry.entries(),
            r.limit() == DEFAULT_MAX_INPUT_SIZE,
    {
        ExecuteEngine { registry, max_input_size: DEFAULT_MAX_INPUT_SIZE }
    }

    /// The same engine with another input size limit (bytes).
    pub fn with_max_input_size(self, size: usize) -> (r: Self)
        ensures
            r.tools() == self.tools(),
            r.limit() == size,
    {
        ExecuteEngine { registry: self.registry, max_input_size: size }
    }

    /// The registry.
    pub fn registry(&self) -> (r: &Arc<ToolRegistry<T>>)
        ensures
            r.entries() == self.tools(),
    {
        &self.registry
    }

    /// Checks a request before running it: the tool must exist (`NotFound`
    /// first), then the input (`input_size` bytes of JSON) must be within
    /// the limit (`InputTooLarge(size, limit)`).
    pub fn accept(&self, tool_id: &str, input_size: usize) -> (r: Result<&T, ToolError>)
        ensures
            !has_id(self.tools(), tool_id@) ==> (r matches Err(e) && e matches ToolError::NotFound(m) && m@ == tool_id@),
            has_id(self.tools(), tool_id@) && input_size > self.limit() ==> (r matches Err(e) && e == ToolError::InputTooLarge(input_size, self.limit())),
            has_id(self.tools(), tool_id@) && input_size <= self.limit() ==> (r matches Ok(t) && exists|k: int| is_first_with_id(self.tools(), tool_id@, k) && *t == self.tools()[k]),
    {
        let tool = self.registry.get(tool_id)?;
        if input_size > self.max_input_size {
            return Err(ToolError::InputTooLarge(input_size, self.max_input_size));
        }
        Ok(tool)
    }
}

/// The time limit of a run: none when `timeout_secs` is 0.
pub fn time_limit(timeout_secs: u64) -> (r: Option<u64>)
    ensures
        timeout_secs == 0 ==> r is None,
        timeout_secs != 0 ==> r == Some(timeout_secs),
{
    if timeout_secs == 0 {
        None
    } else {
        Some(timeout_secs)
    }
}

/// How a run ended.
pub enum RunOutcome<R> {
    /// The tool returned this.
    Finished(ToolResult<R>),
    /// The tool's task failed (panicked), with this message.
    Panicked(String),
    /// The time limit passed first.
    TimedOut,
}

/// The result of a run that ended as `outcome` under `timeout_secs`.
pub fn settle<R>(outcome: RunOutcome<R>, timeout_secs: u64) -> (r: ToolResult<R>)
    ensures
        outcome matches RunOutcome::Finished(x) ==> r == x,
        outcome matches RunOutcome::Panicked(m) ==> (r matches Err(e) && e matches ToolError::InternalError(t) && t@ == "任务 panicked: "@ + m@),
        outcome is TimedOut ==> (r matches Err(e) && e == ToolError::Timeout(timeout_secs)),
{
    match outcome {
        RunOutcome::Finished(x) => x,
        RunOutcome::Panicked(m) => {
            let mut t = String::from_str("任务 panicked: ");
            push_str(&mut t, m.as_str());
            Err(ToolError::InternalError(t))
        },
        RunOutcome::TimedOut => Err(ToolError::Timeout(timeout_secs)),
    }
}

} // verus!
