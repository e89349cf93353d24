//! The values that agent detection passes around.
use vstd::prelude::*;

verus! {

/// Which test functions a rule is asked about; a condition that is `None` holds always.
#[derive(Debug, Clone)]
pub struct PrefilterConfig {
    pub min_assertions: Option<usize>,
    pub max_assertions: Option<usize>,
    pub has_conditional: Option<bool>,
    pub has_sleep: Option<bool>,
    pub min_lines: Option<usize>,
}

impl Default for PrefilterConfig {
    fn default() -> (r: Self)
        ensures
            r.min_assertions is None,
            r.max_assertions is None,
            r.has_conditional is None,
            r.has_sleep is None,
            r.min_lines is None,
    {
        PrefilterConfig {
            min_assertions: None,
            max_assertions: None,
            has_conditional: None,
            has_sleep: None,
            min_lines: None,
        }
    }
}

/// A rule of agent detection.
#[derive(Debug, Clone)]
pub struct AgentRule {
    pub name: String,
    pub description: String,
    pub severity: u8,
    pub prefilter: PrefilterConfig,
    /// The command that runs the model for this rule, when it has its own.
    pub llm_command: Option<String>,
    /// The prompt; `{{input}}` stands for the function's description.
    pub prompt_template: String,
}

/// What the model is told about one test function.
#[derive(Debug, Clone)]
pub struct AgentInput {
    pub file_path: String,
    pub function_name: String,
    pub line: usize,
    pub language: String,
    pub body_source: String,
    pub metadata: AgentInputMetadata,
}

/// The facts the front end found, sent along with the function.
#[derive(Debug, Clone)]
pub struct AgentInputMetadata {
    pub assertion_count: usize,
    pub has_conditional: bool,
    pub has_sleep: bool,
    pub has_print: bool,
    pub is_ignored: bool,
}

} // verus!
