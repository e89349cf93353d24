use savanna_smell_detector::agent::prefilter::apply_prefilter;
use savanna_smell_detector::agent::rules::split_frontmatter;
use savanna_smell_detector::agent::runner::{
    agent_candidates, agent_input, command_parts, extract_json, render_prompt,
};
use savanna_smell_detector::agent::types::{AgentRule, PrefilterConfig};
use savanna_smell_detector::model::smell::{TestFile, TestFunction};

fn function(name: &str, assertion_count: usize, has_sleep: bool, body: &str) -> TestFunction {
    TestFunction {
        name: name.to_string(),
        line: 4,
        body_source: body.to_string(),
        is_ignored: false,
        has_assertion: assertion_count > 0,
        has_sleep,
        has_conditional: false,
        has_branching: false,
        has_for_loop: false,
        has_while_loop: false,
        has_assertion_in_loop: false,
        has_print: false,
        is_empty: false,
        assertion_count,
        assert_only_count: 0,
        assertions_without_message: 0,
        assert_only_without_message: 0,
        magic_numbers: vec![],
        has_early_return: false,
        has_timeout_dependency: false,
        body_line_count: 1,
    }
}

fn rule(name: &str, prefilter: PrefilterConfig) -> AgentRule {
    AgentRule {
        name: name.to_string(),
        description: String::new(),
        severity: 3,
        prefilter,
        llm_command: None,
        prompt_template: "Check {{input}} now".to_string(),
    }
}

#[test]
fn prefilter_checks_each_condition() {
    let f = function("t", 3, true, "a\nb\nc");
    assert!(apply_prefilter(&PrefilterConfig::default(), &f));
    let mut c = PrefilterConfig::default();
    c.min_assertions = Some(4);
    assert!(!apply_prefilter(&c, &f));
    c.min_assertions = Some(3);
    c.max_assertions = Some(3);
    assert!(apply_prefilter(&c, &f));
    c.has_sleep = Some(false);
    assert!(!apply_prefilter(&c, &f));
    c.has_sleep = Some(true);
    c.min_lines = Some(4);
    assert!(!apply_prefilter(&c, &f));
    c.min_lines = Some(3);
    assert!(apply_prefilter(&c, &f));
    c.has_conditional = Some(true);
    assert!(!apply_prefilter(&c, &f));
}

#[test]
fn frontmatter_splits_yaml_and_prompt() {
    let (yaml, prompt) = split_frontmatter("\n---\nname: x\nseverity: 2\n---\n\nAsk {{input}}\n").unwrap();
    assert_eq!(yaml, "\nname: x\nseverity: 2");
    assert_eq!(prompt, "Ask {{input}}");
}

#[test]
fn frontmatter_errors() {
    assert_eq!(
        split_frontmatter("name: x").unwrap_err(),
        "No YAML frontmatter found (expected '---' at start)"
    );
    assert_eq!(split_frontmatter("---\nname: x\n").unwrap_err(), "YAML frontmatter closing '---' not found");
    assert_eq!(
        split_frontmatter("---\nname: x\n---\n   \n").unwrap_err(),
        "Prompt template is empty (content after frontmatter is required)"
    );
}

#[test]
fn extract_json_prefers_fenced_json() {
    let out = "Here:\n```json\n{\"is_smell\": true}\n```\nand {\"other\": 1}";
    assert_eq!(extract_json(out).as_deref(), Some("{\"is_smell\": true}"));
}

#[test]
fn extract_json_plain_fence_needs_a_brace() {
    assert_eq!(extract_json("```\n{\"a\": 1}\n```").as_deref(), Some("{\"a\": 1}"));
    assert_eq!(extract_json("```\nnot json\n``` then {\"b\": {\"c\": 2}} tail").as_deref(), Some("{\"b\": {\"c\": 2}}"));
}

#[test]
fn extract_json_balanced_braces_or_none() {
    assert_eq!(extract_json("x {\"a\": {\"b\": 1}} y }").as_deref(), Some("{\"a\": {\"b\": 1}}"));
    assert_eq!(extract_json("no braces here"), None);
    assert_eq!(extract_json("unclosed { {"), None);
}

#[test]
fn prompt_replaces_every_placeholder() {
    assert_eq!(render_prompt("A {{input}} B {{input}}", "{\"x\":1}"), "A {\"x\":1} B {\"x\":1}");
    assert_eq!(render_prompt("no placeholder", "j"), "no placeholder");
    assert_eq!(render_prompt("{{input}}}", "J"), "J}");
}

#[test]
fn command_line_splits_on_white_space() {
    assert_eq!(command_parts("  llm   -p\t--fast ").unwrap(), vec!["llm", "-p", "--fast"]);
    assert_eq!(command_parts("   ").unwrap_err(), "Empty LLM command");
}

#[test]
fn candidates_follow_rules_files_and_functions() {
    let mut only_sleepy = PrefilterConfig::default();
    only_sleepy.has_sleep = Some(true);
    let rules = vec![rule("all", PrefilterConfig::default()), rule("sleepy", only_sleepy)];
    let files = vec![
        TestFile {
            path: "a.rs".to_string(),
            language: "rust".to_string(),
            test_functions: vec![function("t1", 1, false, "x"), function("t2", 1, true, "y")],
            source: None,
            flavor: None,
        },
        TestFile {
            path: "b.rs".to_string(),
            language: "rust".to_string(),
            test_functions: vec![function("t3", 0, true, "z")],
            source: None,
            flavor: None,
        },
    ];
    let c = agent_candidates(&rules, &files);
    assert_eq!(c, vec![(0, 0, 0), (0, 0, 1), (0, 1, 0), (1, 0, 1), (1, 1, 0)]);
    let input = agent_input(&files[0], &files[0].test_functions[1]);
    assert_eq!(input.function_name, "t2");
    assert_eq!(input.file_path, "a.rs");
    assert!(input.metadata.has_sleep);
    assert_eq!(rules[0].command_or("llm -p"), "llm -p");
}
