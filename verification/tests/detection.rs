use savanna_smell_detector::detectors::{build_registry, default_registry};
use savanna_smell_detector::languages::python::{is_python_test_path, PythonParser};
use savanna_smell_detector::languages::swift::SwiftParser;
use savanna_smell_detector::languages::LanguageParser;
use savanna_smell_detector::model::smell::{SmellType, TestFile, TestSmell};
use savanna_smell_detector::pattern::word_pattern;

fn kinds(smells: &[TestSmell]) -> Vec<SmellType> {
    smells.iter().map(|s| s.smell_type).collect()
}

fn python_file(source: &str) -> TestFile {
    PythonParser.parse("tests/test_sample.py", source).unwrap()
}

#[test]
fn registry_reports_each_smell_of_a_python_file() {
    let source = "import time\n\ndef test_empty():\n    pass\n\ndef test_sleepy():\n    time.sleep(1)\n    assert 1 == 1\n\ndef test_magic():\n    assert compute() == 86400\n";
    let tf = python_file(source);
    assert_eq!(tf.test_functions.len(), 3);
    let smells = default_registry().detect_all(&[tf]);
    let ks = kinds(&smells);
    assert!(ks.contains(&SmellType::EmptyTest));
    assert!(ks.contains(&SmellType::SleepyTest));
    assert!(ks.contains(&SmellType::MagicNumberTest));
    assert!(!ks.contains(&SmellType::NoTest));
    let empty = smells.iter().find(|s| s.smell_type == SmellType::EmptyTest).unwrap();
    assert_eq!(empty.function_name.as_deref(), Some("test_empty"));
    assert_eq!(empty.line, 3);
    assert_eq!(empty.message, SmellType::EmptyTest.roar());
}

#[test]
fn whitelisted_numbers_are_not_magic() {
    let tf = python_file("def test_magic():\n    assert compute() == 86400\n");
    let smells = build_registry(vec![86400], 2).detect_all(&[tf]);
    assert!(!kinds(&smells).contains(&SmellType::MagicNumberTest));
}

#[test]
fn a_file_without_tests_is_a_no_test_smell() {
    let tf = python_file("def helper():\n    return 1\n");
    assert!(tf.test_functions.is_empty());
    let smells = default_registry().detect_all(&[tf]);
    assert_eq!(kinds(&smells), vec![SmellType::NoTest]);
    assert_eq!(smells[0].line, 1);
}

#[test]
fn disabled_kinds_are_never_reported() {
    let tf = python_file("def test_empty():\n    pass\n");
    let registry = default_registry().disable(SmellType::EmptyTest);
    let smells = registry.detect_all(&[tf]);
    assert!(!kinds(&smells).contains(&SmellType::EmptyTest));
}

#[test]
fn enable_only_restricts_the_report() {
    let tf = python_file("import time\ndef test_sleepy():\n    time.sleep(1)\n");
    let registry = default_registry().enable_only(vec![SmellType::SleepyTest]);
    let smells = registry.detect_all(&[tf]);
    assert_eq!(kinds(&smells), vec![SmellType::SleepyTest]);
}

#[test]
fn python_test_path_uses_the_lowercased_file_name() {
    assert!(is_python_test_path("pkg/TEST_api.py"));
    assert!(!is_python_test_path("tests_dir/api.py"));
}

#[test]
fn word_pattern_escapes_the_word() {
    assert_eq!(word_pattern("a.b"), "\\ba\\.b\\b");
}

#[test]
fn kebab_names_round_trip() {
    let all = [
        SmellType::EmptyTest,
        SmellType::MissingAssertion,
        SmellType::SleepyTest,
        SmellType::ConditionalTestLogic,
        SmellType::IgnoredTest,
        SmellType::RedundantPrint,
        SmellType::AssertionRoulette,
        SmellType::AssertionRouletteStrict,
        SmellType::MagicNumberTest,
        SmellType::NoTest,
        SmellType::SilentSkip,
        SmellType::FragileTest,
        SmellType::GiantTest,
        SmellType::CommentedOutTest,
    ];
    for t in all {
        let name: Vec<char> = t.kebab_name().chars().collect();
        assert_eq!(SmellType::from_kebab_name(&name), Some(t));
    }
    let unknown: Vec<char> = "sleepy".chars().collect();
    assert_eq!(SmellType::from_kebab_name(&unknown), None);
}

#[test]
fn xcuitest_sleep_message_names_the_waiting_calls() {
    let source = "import XCTest\n\nfinal class FlowUITests: XCTestCase {\n    func testFlow() {\n        let app = XCUIApplication()\n        Thread.sleep(forTimeInterval: 2)\n        XCTAssertTrue(app.buttons[\"ok\"].exists)\n    }\n}\n";
    let tf = SwiftParser.parse("FlowUITests.swift", source).unwrap();
    let smells = default_registry().detect_all(&[tf]);
    let sleepy = smells.iter().find(|s| s.smell_type == SmellType::SleepyTest).unwrap();
    assert!(sleepy.message.contains("waitForExistence(timeout:)"));
    assert_ne!(sleepy.message, SmellType::SleepyTest.roar());
}

#[test]
fn swift_silent_skip_message_names_swift_skips() {
    let source = "import Testing\n\n@Test func skipsSilently() {\n    guard ready else { return }\n    #expect(true)\n}\n";
    let tf = SwiftParser.parse("FooTests.swift", source).unwrap();
    let smells = default_registry().detect_all(&[tf]);
    let skip = smells.iter().find(|s| s.smell_type == SmellType::SilentSkip).unwrap();
    assert!(skip.message.contains("XCTSkip"));
    let py = python_file("def test_x():\n    if not ready:\n        return\n    assert True\n");
    let smells = default_registry().detect_all(&[py]);
    let skip = smells.iter().find(|s| s.smell_type == SmellType::SilentSkip).unwrap();
    assert_eq!(skip.message, SmellType::SilentSkip.roar());
}

#[test]
fn giant_test_means_more_than_the_limit() {
    let body_of = |n: usize| (0..n).map(|i| format!("    x{} = {}\n", i, 1)).collect::<String>();
    let at_limit = python_file(&format!("def test_long():\n{}    assert True\n", body_of(49)));
    assert_eq!(at_limit.test_functions[0].body_line_count, 50);
    let smells = default_registry().detect_all(&[at_limit]);
    assert!(!kinds(&smells).contains(&SmellType::GiantTest));
    let over = python_file(&format!("def test_long():\n{}    assert True\n", body_of(50)));
    assert_eq!(over.test_functions[0].body_line_count, 51);
    let smells = default_registry().detect_all(&[over]);
    assert!(kinds(&smells).contains(&SmellType::GiantTest));
}

#[test]
fn disabling_a_kind_keeps_the_rest_in_order() {
    let source = "import time\n\ndef test_empty():\n    pass\n\ndef test_sleepy():\n    time.sleep(1)\n    assert 1 == 1\n";
    let all = default_registry().detect_all(&[python_file(source)]);
    let filtered = default_registry().disable(SmellType::EmptyTest).detect_all(&[python_file(source)]);
    let expected: Vec<SmellType> = kinds(&all).into_iter().filter(|k| *k != SmellType::EmptyTest).collect();
    assert_eq!(kinds(&filtered), expected);
    assert!(kinds(&all).contains(&SmellType::EmptyTest));
}
