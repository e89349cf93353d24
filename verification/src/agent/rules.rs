//! The rule file format: YAML frontmatter between `---` lines, then the prompt.
use vstd::prelude::*;
use crate::agent::types::AgentRule;
use crate::text::{chars_of, find, find_exec, slice_chars, starts_with, starts_with_str, string_of, trim, trim_chars};

verus! {

/// The frontmatter and the prompt of a rule file's text, or the error that
/// the text gives: no `---` at the start (after white space), no `\n---`
/// closing the frontmatter, or nothing but white space after it.
pub open spec fn frontmatter_parts(content: Seq<char>) -> Result<(Seq<char>, Seq<char>), Seq<char>> {
    let c = trim(content);
    if !starts_with(c, "---"@) {
        Err("No YAML frontmatter found (expected '---' at start)"@)
    } else {
        let after = c.subrange(3, c.len() as int);
        match find(after, "\n---"@) {
            None => Err("YAML frontmatter closing '---' not found"@),
            Some(e) => {
                let prompt = trim(after.subrange(e + 4, after.len() as int));
                if prompt.len() == 0 {
                    Err("Prompt template is empty (content after frontmatter is required)"@)
                } else {
                    Ok((after.subrange(0, e), prompt))
                }
            },
        }
    }
}

/// The view of a pair of strings or an error string.
pub open spec fn parts_view(r: Result<(String, String), String>) -> Result<(Seq<char>, Seq<char>), Seq<char>> {
    match r {
        Ok((a, b)) => Ok((a@, b@)),
        Err(e) => Err(e@),
    }
}

/// Splits a rule file's text into its YAML frontmatter and its prompt.
pub fn split_frontmatter(content: &str) -> (r: Result<(String, String), String>)
    ensures
        parts_view(r) == frontmatter_parts(content@),
{
    let all = chars_of(content);
    let c = trim_chars(&all);
    if !starts_with_str(&c, "---") {
        return Err(String::from_str("No YAML frontmatter found (expected '---' at start)"));
    }
    proof {
        reveal_strlit("---");
    }
    let after = slice_chars(&c, 3, c.len());
    let close = chars_of("\n---");
    match find_exec(&after, &close) {
        None => Err(String::from_str("YAML frontmatter closing '---' not found")),
        Some(e) => {
            proof {
                reveal_strlit("\n---");
                assert(e + 4 <= after@.len());
            }
            let rest = slice_chars(&after, e + 4, after.len());
            let prompt = trim_chars(&rest);
            if prompt.len() == 0 {
                Err(String::from_str("Prompt template is empty (content after frontmatter is required)"))
            } else {
                let yaml = slice_chars(&after, 0, e);
                Ok((string_of(&yaml), string_of(&prompt)))
            }
        },
    }
}

impl AgentRule {
    /// The command that runs the model for this rule: its own, or `default`.
    pub fn command_or(&self, default: &str) -> (r: String)
        ensures
            r@ == match self.llm_command {
                Some(c) => c@,
                None => default@,
            },
    {
        match &self.llm_command {
            Some(c) => crate::model::smell::copy_string(c),
            None => String::from_str(default),
        }
    }
}

} // verus!
