//! The values that an analysis produces: changed files, line changes and
//! complexity metrics.

use vstd::prelude::*;

verus! {

/// Represents a code change in a file
#[derive(Debug, Clone)]
pub struct CodeChange {
    /// Path to the file that changed
    pub file_path: String,
    /// Original content of the file
    pub old_content: String,
    /// New content of the file
    pub new_content: String,
    /// Individual line changes
    pub line_changes: Vec<LineChange>,
    /// Complexity metrics
    pub complexity: ComplexityMetrics,
}

/// Represents a change to a specific line
#[derive(Debug, Clone)]
pub struct LineChange {
    /// Line number in the old version of the file
    pub line_a: Option<u32>,
    /// Line number in the new version of the file
    pub line_b: Option<u32>,
    /// Type of change (added, removed, modified)
    pub change_type: ChangeType,
    /// Content of the line
    pub content: String,
}

/// Type of change made to a line
#[derive(Debug, Clone, Copy, PartialEq, Eq, Structural)]
pub enum ChangeType {
    /// Line was added
    Added,
    /// Line was removed
    Removed,
    /// Line was modified
    Modified,
    /// Line was unchanged
    Equal,
}

/// Contextual information about a line change
#[derive(Debug, Clone)]
pub struct LineContext {
    /// Function or method name containing this line
    pub function_name: Option<String>,
    /// Class or struct name containing this line
    pub class_name: Option<String>,
    /// Import statements or dependencies affected
    pub imports_affected: Vec<String>,
}

impl Default for LineContext {
    fn default() -> (c: Self)
        ensures
            c.function_name is None,
            c.class_name is None,
            c.imports_affected@.len() == 0,
    {
        LineContext { function_name: None, class_name: None, imports_affected: Vec::new() }
    }
}

/// Code complexity metrics
#[derive(Debug, Clone, Copy, PartialEq, Eq, Structural)]
pub struct ComplexityMetrics {
    /// Cyclomatic complexity
    pub cyclomatic_complexity: u32,
    /// Number of lines of code
    pub lines_of_code: u32,
    /// Number of functions/methods
    pub function_count: u32,
    /// Nesting depth
    pub max_nesting_depth: u32,
}

impl Default for ComplexityMetrics {
    fn default() -> (m: Self)
        ensures
            m == (ComplexityMetrics {
                cyclomatic_complexity: 0,
                lines_of_code: 0,
                function_count: 0,
                max_nesting_depth: 0,
            }),
    {
        ComplexityMetrics {
            cyclomatic_complexity: 0,
            lines_of_code: 0,
            function_count: 0,
            max_nesting_depth: 0,
        }
    }
}

/// What a line change states: its two line numbers, its type and its content.
pub type LineChangeView = (Option<u32>, Option<u32>, ChangeType, Seq<char>);

impl View for LineChange {
    type V = LineChangeView;

    open spec fn view(&self) -> LineChangeView {
        (self.line_a, self.line_b, self.change_type, self.content@)
    }
}

} // verus!
