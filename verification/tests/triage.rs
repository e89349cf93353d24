use savanna_smell_detector::model::smell::{SmellType, TestFile, TestFunction, TestSmell};
use savanna_smell_detector::model::triage::{suppression_of, triage};

fn function(name: &str, line: usize, body_line_count: usize) -> TestFunction {
    TestFunction {
        name: name.to_string(),
        line,
        body_source: String::new(),
        is_ignored: false,
        has_assertion: true,
        has_sleep: false,
        has_conditional: false,
        has_branching: false,
        has_for_loop: false,
        has_while_loop: false,
        has_assertion_in_loop: false,
        has_print: false,
        is_empty: false,
        assertion_count: 1,
        assert_only_count: 0,
        assertions_without_message: 0,
        assert_only_without_message: 0,
        magic_numbers: vec![],
        has_early_return: false,
        has_timeout_dependency: false,
        body_line_count,
    }
}

fn file(path: &str, source: &str, fns: Vec<TestFunction>) -> TestFile {
    TestFile {
        path: path.to_string(),
        language: "rust".to_string(),
        test_functions: fns,
        source: Some(source.to_string()),
        flavor: None,
    }
}

const SOURCE: &str = "// smell-allow: sleepy-test — waits for a real process\n#[test]\nfn test_wait() {\n    std::thread::sleep(d);\n}\n// smell-allow: commented-out-test -- kept for reference\n// #[test]\n";

#[test]
fn triage_sets_aside_covered_smells_with_their_reason() {
    let files = vec![file("a.rs", SOURCE, vec![function("test_wait", 3, 3)])];
    let smells = vec![
        TestSmell::new(SmellType::SleepyTest, "a.rs", 3, Some("test_wait".to_string())),
        TestSmell::new(SmellType::MagicNumberTest, "a.rs", 3, Some("test_wait".to_string())),
        TestSmell::new(SmellType::CommentedOutTest, "a.rs", 7, None),
    ];
    let (kept, aside) = triage(&smells, &files, 1);
    assert_eq!(kept.len(), 1);
    assert_eq!(kept[0].smell_type, SmellType::MagicNumberTest);
    assert_eq!(aside.len(), 2);
    assert_eq!(aside[0].smell_type, SmellType::SleepyTest);
    assert_eq!(aside[0].reason.as_deref(), Some("waits for a real process"));
    assert_eq!(aside[1].smell_type, SmellType::CommentedOutTest);
    assert_eq!(aside[1].reason.as_deref(), Some("kept for reference"));
}

#[test]
fn triage_drops_smells_below_the_minimum_severity() {
    let files = vec![file("a.rs", "", vec![])];
    let smells = vec![
        TestSmell::new(SmellType::EmptyTest, "a.rs", 1, None),
        TestSmell::new(SmellType::RedundantPrint, "a.rs", 2, None),
    ];
    let (kept, aside) = triage(&smells, &files, 3);
    assert_eq!(kept.len(), 1);
    assert_eq!(kept[0].smell_type, SmellType::EmptyTest);
    assert!(aside.is_empty());
}

#[test]
fn triage_keeps_smells_of_unknown_files() {
    let smells = vec![TestSmell::new(SmellType::SleepyTest, "other.rs", 3, Some("test_wait".to_string()))];
    let files = vec![file("a.rs", SOURCE, vec![function("test_wait", 3, 3)])];
    let (kept, aside) = triage(&smells, &files, 1);
    assert_eq!(kept.len(), 1);
    assert!(aside.is_empty());
    assert_eq!(suppression_of(&smells[0], &files), None);
}
