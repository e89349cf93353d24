use savanna_smell_detector::model::smell::{SmellType, TestSmell};
use savanna_smell_detector::reporters::{decimal_exec, markdown_report, AgentLine};

#[test]
fn markdown_report_lists_both_sections() {
    let smells = vec![
        TestSmell::new(SmellType::EmptyTest, "tests/a.rs", 12, Some("test_a".to_string()))
            .with_message("empty"),
        TestSmell::new(SmellType::NoTest, "tests/b.rs", 1, None).with_message("none"),
    ];
    let agent = vec![AgentLine {
        rule_name: "eager-test".to_string(),
        file_path: "tests/c.py".to_string(),
        line: 7,
        function_name: "test_c".to_string(),
        confidence_pct: 85,
        reason: "tests two things".to_string(),
        suggestion: Some("split it".to_string()),
    }];
    let report = markdown_report("tests", "2024-01-01T00:00:00+00:00", &smells, &agent);
    let expected = "# Savanna Smell Report\n\n\
Generated: 2024-01-01T00:00:00+00:00\n\
Target: tests\n\
Smells: 3 (AST: 2, Agent: 1)\n\
\n## AST Detection\n\n\
- **Empty Test** `tests/a.rs:12` in test_a (severity: 5)\n  > empty\n\n\
- **No Test** `tests/b.rs:1` (severity: 5)\n  > none\n\n\
## Agent Detection\n\n\
- **eager-test** `tests/c.py:7` in test_c (confidence: 85%)\n  > tests two things\n  > 💡 split it\n\n";
    assert_eq!(report, expected);
}

#[test]
fn markdown_report_with_nothing_found() {
    let report = markdown_report("src", "now", &[], &[]);
    assert_eq!(
        report,
        "# Savanna Smell Report\n\nGenerated: now\nTarget: src\nSmells: 0 (AST: 0, Agent: 0)\n\n## AST Detection\n\nNo AST smells detected.\n## Agent Detection\n\nNo Agent smells detected.\n"
    );
}

#[test]
fn decimal_writes_digits() {
    let s: String = decimal_exec(1070).into_iter().collect();
    assert_eq!(s, "1070");
    let z: String = decimal_exec(0).into_iter().collect();
    assert_eq!(z, "0");
}
