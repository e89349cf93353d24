use savanna_smell_detector::settings::{parser_for, pick_setting};

fn table() -> Vec<(Vec<&'static str>, &'static str)> {
    vec![
        (vec!["rs"], "rust"),
        (vec!["sh", "bash", "bats"], "shell"),
        (vec!["go"], "go"),
        (vec!["py"], "python"),
        (vec!["swift"], "swift"),
    ]
}

#[test]
fn command_line_beats_project_file_beats_default() {
    assert_eq!(pick_setting(true, 3u8, Some(5u8)), 3);
    assert_eq!(pick_setting(false, 1u8, Some(5u8)), 5);
    assert_eq!(pick_setting(false, 1u8, None), 1);
}

#[test]
fn parser_chosen_by_extension() {
    let t = table();
    assert_eq!(parser_for("src/lib.rs", None, &t), Some(0));
    assert_eq!(parser_for("tests/run.bats", None, &t), Some(1));
    assert_eq!(parser_for("pkg/a_test.go", None, &t), Some(2));
    assert_eq!(parser_for("README.md", None, &t), None);
    assert_eq!(parser_for("Makefile", None, &t), None);
}

#[test]
fn parser_choice_respects_the_language_filter() {
    let t = table();
    assert_eq!(parser_for("src/lib.rs", Some("go"), &t), None);
    assert_eq!(parser_for("pkg/a_test.go", Some("go"), &t), Some(2));
    assert_eq!(parser_for("Tests/FooTests.swift", Some("swift"), &t), Some(4));
}
