//! Which test functions a rule is asked about.
use vstd::prelude::*;
use crate::agent::types::PrefilterConfig;
use crate::model::smell::{FunctionView, TestFunction};
use crate::text::{chars_of, lines, lines_of};

verus! {

/// Whether function `f` meets every condition of `c`: the assertion count
/// within the bounds, the conditional and sleep flags as required, and at
/// least the minimum number of body lines.
pub open spec fn passes_prefilter(c: PrefilterConfig, f: FunctionView) -> bool {
    &&& (c.min_assertions matches Some(m) ==> f.assertion_count >= m)
    &&& (c.max_assertions matches Some(m) ==> f.assertion_count <= m)
    &&& (c.has_conditional matches Some(b) ==> f.has_conditional == b)
    &&& (c.has_sleep matches Some(b) ==> f.has_sleep == b)
    &&& (c.min_lines matches Some(m) ==> lines(f.body_source).len() >= m)
}

/// Whether `func` is to be sent to the model under `config`.
pub fn apply_prefilter(config: &PrefilterConfig, func: &TestFunction) -> (r: bool)
    ensures
        r == passes_prefilter(*config, func@),
{
    if let Some(min) = config.min_assertions {
        if func.assertion_count < min {
            return false;
        }
    }
    if let Some(max) = config.max_assertions {
        if func.assertion_count > max {
            return false;
        }
    }
    if let Some(required) = config.has_conditional {
        if func.has_conditional != required {
            return false;
        }
    }
    if let Some(required) = config.has_sleep {
        if func.has_sleep != required {
            return false;
        }
    }
    if let Some(min_lines) = config.min_lines {
        let body = chars_of(func.body_source.as_str());
        let ls = lines_of(&body);
        proof {
            assert(ls@.len() == lines(func.body_source@).len()) by {
                assert(ls@.map_values(|l: Vec<char>| l@).len() == ls@.len());
            }
        }
        if ls.len() < min_lines {
            return false;
        }
    }
    true
}

/// A prefilter without conditions lets every function through.
pub proof fn lemma_open_prefilter_passes_all(f: FunctionView)
    ensures
        passes_prefilter(
            PrefilterConfig {
                min_assertions: None,
                max_assertions: None,
                has_conditional: None,
                has_sleep: None,
                min_lines: None,
            },
            f,
        ),
{
}

/// Loosening a prefilter never drops a function: dropping any of its
/// conditions keeps every function it let through.
pub proof fn lemma_prefilter_conditions_only_narrow(c: PrefilterConfig, f: FunctionView)
    requires
        passes_prefilter(c, f),
    ensures
        passes_prefilter(PrefilterConfig { min_assertions: None, ..c }, f),
        passes_prefilter(PrefilterConfig { max_assertions: None, ..c }, f),
        passes_prefilter(PrefilterConfig { has_conditional: None, ..c }, f),
        passes_prefilter(PrefilterConfig { has_sleep: None, ..c }, f),
        passes_prefilter(PrefilterConfig { min_lines: None, ..c }, f),
{
}

} // verus!
