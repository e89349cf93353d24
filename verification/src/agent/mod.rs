//! Detection by rules written in Markdown and judged by a language model:
//! the rule format, which functions a rule is asked about, what the model is
//! sent, and how its answer is found in what it prints.
pub mod types;
pub mod prefilter;
pub mod rules;
pub mod runner;
