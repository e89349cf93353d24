use savanna_smell_detector::languages::shell::{extract_test_functions, ShellParser};
use savanna_smell_detector::languages::LanguageParser;

#[test]
fn test_bats_function_extraction() {
    let source = r#"
@test "addition works" {
    result=$((2 + 2))
    [ "$result" -eq 4 ]
}
"#;
    let fns = extract_test_functions(source);
    assert_eq!(fns.len(), 1);
    assert_eq!(fns[0].name, "addition works");
    assert!(fns[0].has_assertion);
    assert!(!fns[0].is_empty);
}

#[test]
fn test_shunit2_function_extraction() {
    let source = r#"
test_addition() {
    result=$((2 + 2))
    assertEquals 4 "$result"
}

testSubtraction() {
    result=$((5 - 3))
    assertEquals 2 "$result"
}
"#;
    let fns = extract_test_functions(source);
    assert_eq!(fns.len(), 2);
    assert_eq!(fns[0].name, "test_addition");
    assert_eq!(fns[1].name, "testSubtraction");
    assert!(fns[0].has_assertion);
    assert!(fns[1].has_assertion);
}

#[test]
fn test_function_keyword_syntax() {
    let source = r#"
function test_something {
    echo "testing"
    [ 1 -eq 1 ]
}
"#;
    let fns = extract_test_functions(source);
    assert_eq!(fns.len(), 1);
    assert_eq!(fns[0].name, "test_something");
    assert!(fns[0].has_print);
    assert!(fns[0].has_assertion);
}

#[test]
fn shell_test_empty_test_detection() {
    let source = r#"
@test "empty test" {
}
"#;
    let fns = extract_test_functions(source);
    assert_eq!(fns.len(), 1);
    assert!(fns[0].is_empty);
}

#[test]
fn shell_test_missing_assertion() {
    let source = r#"
test_no_assert() {
    result=$(some_command)
    echo "$result"
}
"#;
    let fns = extract_test_functions(source);
    assert_eq!(fns.len(), 1);
    assert!(!fns[0].has_assertion);
    assert!(fns[0].has_print);
}

#[test]
fn shell_test_sleepy_test() {
    let source = r#"
@test "sleepy" {
    sleep 2
    [ "$status" -eq 0 ]
}
"#;
    let fns = extract_test_functions(source);
    assert_eq!(fns.len(), 1);
    assert!(fns[0].has_sleep);
}

#[test]
fn shell_test_conditional_logic() {
    let source = r#"
test_with_if() {
    if [ -f /tmp/test ]; then
        assertEquals "exists" "exists"
    fi
}
"#;
    let fns = extract_test_functions(source);
    assert_eq!(fns.len(), 1);
    assert!(fns[0].has_conditional);
    assert!(fns[0].has_branching);
}

#[test]
fn test_ignored_with_skip() {
    let source = r#"
@test "skipped test" {
    skip "not ready yet"
    [ 1 -eq 1 ]
}
"#;
    let fns = extract_test_functions(source);
    assert_eq!(fns.len(), 1);
    assert!(fns[0].is_ignored);
}

#[test]
fn test_exit_code_assertion() {
    let source = r#"
test_exit_code() {
    some_command
    if [ $? -ne 0 ]; then
        fail "command failed"
    fi
}
"#;
    let fns = extract_test_functions(source);
    assert_eq!(fns.len(), 1);
    assert!(fns[0].has_assertion); // $? check counts as assertion
}

#[test]
fn shell_test_line_numbers() {
    let source = r#"#!/bin/bash

@test "first" {
    [ 1 -eq 1 ]
}

@test "second" {
    [ 2 -eq 2 ]
}
"#;
    let fns = extract_test_functions(source);
    assert_eq!(fns.len(), 2);
    assert_eq!(fns[0].line, 3); // 1-indexed
    assert_eq!(fns[1].line, 7);
}

#[test]
fn test_nested_braces() {
    let source = r#"
test_nested() {
    if [ 1 -eq 1 ]; then
        for i in 1 2 3; do
            echo "$i"
        done
    fi
    [ "$?" -eq 0 ]
}
"#;
    let fns = extract_test_functions(source);
    assert_eq!(fns.len(), 1);
    assert!(fns[0].has_assertion);
    assert!(fns[0].has_conditional);
}

#[test]
fn shell_test_comment_only_body() {
    let source = r#"
test_comments_only() {
    # TODO: implement this test
    # another comment
}
"#;
    let fns = extract_test_functions(source);
    assert_eq!(fns.len(), 1);
    assert!(fns[0].is_empty); // comments-only is empty
}

#[test]
fn shell_parser_reads_any_shell_file() {
    let parser = ShellParser;
    let tf = parser.parse("scripts/check.bats", "@test \"x\" {\n  [ 1 -eq 1 ]\n}\n").unwrap();
    assert_eq!(tf.language, "shell");
    assert_eq!(tf.path, "scripts/check.bats");
    assert_eq!(tf.test_functions.len(), 1);
    assert_eq!(parser.language_name(), "shell");
    assert_eq!(parser.extensions(), vec!["sh", "bash", "bats"]);
}

#[test]
fn shell_one_line_function_body() {
    let fns = extract_test_functions("test_inline() { assertEquals 1 1; }\n");
    assert_eq!(fns.len(), 1);
    assert_eq!(fns[0].body_source, "assertEquals 1 1;");
    assert!(fns[0].has_assertion);
    assert_eq!(fns[0].line, 1);
}

#[test]
fn shell_magic_numbers_on_assertion_lines() {
    let source = "@test \"big\" {\n    run thing 99999\n    [ \"$output\" -eq 12345 ]\n    [ \"$x\" -eq 7 ]\n}\n";
    let fns = extract_test_functions(source);
    assert_eq!(fns.len(), 1);
    assert_eq!(fns[0].magic_numbers, vec![(12345, 2)]);
    assert_eq!(fns[0].assertion_count, 2);
    assert_eq!(fns[0].assert_only_count, 2);
}

#[test]
fn shell_heredoc_braces_do_not_close_the_body() {
    let source = "test_heredoc() {\n    cat <<EOF\n}\nEOF\n    assertTrue true\n}\n";
    let fns = extract_test_functions(source);
    assert_eq!(fns.len(), 1);
    assert_eq!(fns[0].body_line_count, 4);
    assert!(fns[0].has_assertion);
}

#[test]
fn shell_quoted_braces_are_skipped() {
    let source = "test_quotes() {\n    echo \"}\" '}'\n    assertTrue true\n}\n";
    let fns = extract_test_functions(source);
    assert_eq!(fns.len(), 1);
    assert_eq!(fns[0].body_line_count, 2);
}

#[test]
fn shell_assertion_inside_for_loop() {
    let source = "test_loop() {\n    for i in 1 2 3; do\n        assertTrue \"$i\"\n    done\n}\n";
    let fns = extract_test_functions(source);
    assert!(fns[0].has_assertion_in_loop);
    assert!(fns[0].has_for_loop);
    assert!(!fns[0].has_branching);
}

#[test]
fn shell_early_exit_and_timeout() {
    let source = "test_exit() {\n    exit 0\n    timeout 5 cmd\n    assertTrue true\n}\n";
    let fns = extract_test_functions(source);
    assert!(fns[0].has_early_return);
    assert!(fns[0].has_timeout_dependency);
}
