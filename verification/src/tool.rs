//! The description every tool gives of itself.

use vstd::prelude::*;
use crate::category::ToolCategory;

verus! {

/// What a tool listing shows of one tool.
#[derive(Debug, Clone, Copy)]
pub struct ToolMetadata {
    pub id: &'static str,
    pub name: &'static str,
    pub description: &'static str,
    pub category: ToolCategory,
    pub is_cpu_intensive: bool,
}

/// `m` is the listing entry of `t`.
pub open spec fn describes<T: Tool + ?Sized>(m: ToolMetadata, t: &T) -> bool {
    &&& m.id@ == t.spec_id()
    &&& m.name@ == t.spec_name()
    &&& m.description@ == t.spec_description()
    &&& m.category == t.spec_category()
    &&& m.is_cpu_intensive == t.spec_cpu_intensive()
}

/// A tool: an identifier (kebab-case, unique), a name, a description, a
/// category, and whether it is CPU-heavy (run apart from other requests).
pub trait Tool {
    /// The tool's identifier.
    spec fn spec_id(&self) -> Seq<char>;

    /// The tool's name.
    spec fn spec_name(&self) -> Seq<char>;

    /// The tool's description.
    spec fn spec_description(&self) -> Seq<char>;

    /// The tool's category.
    spec fn spec_category(&self) -> ToolCategory;

    /// Whether the tool is CPU-heavy.
    spec fn spec_cpu_intensive(&self) -> bool;

    fn id(&self) -> (r: &'static str)
        ensures
            r@ == self.spec_id(),
    ;

    fn name(&self) -> (r: &'static str)
        ensures
            r@ == self.spec_name(),
    ;

    fn description(&self) -> (r: &'static str)
        ensures
            r@ == self.spec_description(),
    ;

    fn category(&self) -> (r: ToolCategory)
        ensures
            r == self.spec_category(),
    ;

    fn is_cpu_intensive(&self) -> (r: bool)
        ensures
            r == self.spec_cpu_intensive(),
    ;

    /// The tool's listing entry.
    fn metadata(&self) -> (m: ToolMetadata)
        ensures
            m.id@ == self.spec_id(),
            m.name@ == self.spec_name(),
            m.description@ == self.spec_description(),
            m.category == self.spec_category(),
            m.is_cpu_intensive == self.spec_cpu_intensive(),
    {
        ToolMetadata {
            id: self.id(),
            name: self.name(),
            description: self.description(),
            category: self.category(),
            is_cpu_intensive: self.is_cpu_intensive(),
        }
    }
}

} // verus!
