use savanna_smell_detector::languages::python::PythonParser;
use savanna_smell_detector::languages::LanguageParser;
use savanna_smell_detector::model::smell::TestFunction;

fn parse(source: &str) -> Vec<TestFunction> {
    PythonParser
        .parse("test_sample.py", source)
        .map(|tf| tf.test_functions)
        .unwrap_or_default()
}

#[test]
fn test_pytest_function_extraction() {
    let source = r#"
def test_addition():
    result = 2 + 2
    assert result == 4
"#;
    let fns = parse(source);
    assert_eq!(fns.len(), 1);
    assert_eq!(fns[0].name, "test_addition");
    assert!(fns[0].has_assertion);
    assert!(!fns[0].is_empty);
}

#[test]
fn test_non_test_file_returns_none() {
    let source = "def test_foo():\n    assert True\n";
    assert!(PythonParser.parse("utils.py", source).is_none());
    assert!(PythonParser.parse("test_utils.py", source).is_some());
    assert!(PythonParser.parse("utils_test.py", source).is_some());
}

#[test]
fn test_unittest_class_methods() {
    let source = r#"
import unittest

class TestMath(unittest.TestCase):
    def test_addition(self):
        self.assertEqual(2 + 2, 4)

    def test_with_message(self):
        self.assertEqual(2 + 2, 4, "addition should work")

    def helper_method(self):
        pass
"#;
    let fns = parse(source);
    assert_eq!(fns.len(), 2);
    assert_eq!(fns[0].name, "test_addition");
    assert!(fns[0].has_assertion);
    assert_eq!(fns[0].assertions_without_message, 1);
    assert_eq!(fns[1].assertions_without_message, 0);
}

#[test]
fn test_async_function() {
    let source = r#"
import asyncio

async def test_async_thing():
    await asyncio.sleep(1)
    assert True
"#;
    let fns = parse(source);
    assert_eq!(fns.len(), 1);
    assert_eq!(fns[0].name, "test_async_thing");
    assert!(fns[0].has_sleep);
    assert!(fns[0].has_assertion);
}

#[test]
fn python_test_empty_test_detection() {
    let source = r#"
def test_empty():
    pass

def test_ellipsis():
    ...

def test_docstring_only():
    """This test does nothing."""
    pass
"#;
    let fns = parse(source);
    assert_eq!(fns.len(), 3);
    assert!(fns.iter().all(|f| f.is_empty));
}

#[test]
fn python_test_missing_assertion() {
    let source = r#"
def test_no_assert():
    result = compute()
    print(result)
"#;
    let fns = parse(source);
    assert_eq!(fns.len(), 1);
    assert!(!fns[0].has_assertion);
    assert!(fns[0].has_print);
}

#[test]
fn python_test_sleepy_test() {
    let source = r#"
import time

def test_sleepy():
    time.sleep(2)
    assert server.is_up()
"#;
    let fns = parse(source);
    assert_eq!(fns.len(), 1);
    assert!(fns[0].has_sleep);
}

#[test]
fn test_bare_sleep_import() {
    let source = r#"
from time import sleep

def test_sleepy():
    sleep(1)
    assert True
"#;
    let fns = parse(source);
    assert!(fns[0].has_sleep);
}

#[test]
fn test_skip_decorators() {
    let source = r#"
import unittest
import pytest

@unittest.skip("not ready")
def test_skipped_unittest():
    assert True

@pytest.mark.skip(reason="wip")
def test_skipped_pytest():
    assert True

@pytest.mark.skipif(True, reason="conditional")
def test_skipif():
    assert True

def test_not_skipped():
    assert True
"#;
    let fns = parse(source);
    assert_eq!(fns.len(), 4);
    assert!(fns[0].is_ignored);
    assert!(fns[1].is_ignored);
    assert!(fns[2].is_ignored);
    assert!(!fns[3].is_ignored);
}

#[test]
fn test_skip_in_body() {
    let source = r#"
import pytest

def test_skip_call():
    pytest.skip("runtime skip")
    assert True

class TestFoo:
    def test_skip_method(self):
        self.skipTest("skip me")
"#;
    let fns = parse(source);
    assert_eq!(fns.len(), 2);
    assert!(fns[0].is_ignored);
    assert!(fns[1].is_ignored);
}

#[test]
fn test_class_level_skip() {
    let source = r#"
import unittest

@unittest.skip("whole class")
class TestSkipped(unittest.TestCase):
    def test_inside(self):
        self.assertTrue(True)
"#;
    let fns = parse(source);
    assert_eq!(fns.len(), 1);
    assert!(fns[0].is_ignored);
}

#[test]
fn python_test_conditional_logic() {
    let source = r#"
def test_with_if():
    if condition:
        assert foo == 1
    else:
        assert foo == 2

def test_with_for():
    for i in range(3):
        assert i < 3

def test_with_while():
    while not done():
        pass
    assert done()
"#;
    let fns = parse(source);
    assert_eq!(fns.len(), 3);
    assert!(fns[0].has_conditional);
    assert!(fns[0].has_branching);
    assert!(fns[1].has_conditional);
    assert!(!fns[1].has_branching);
    assert!(fns[1].has_for_loop);
    assert!(fns[1].has_assertion_in_loop);
    assert!(fns[2].has_conditional);
}

#[test]
fn test_pytest_raises() {
    let source = r#"
import pytest

def test_raises():
    with pytest.raises(ValueError):
        int("not a number")
"#;
    let fns = parse(source);
    assert_eq!(fns.len(), 1);
    assert!(fns[0].has_assertion);
}

#[test]
fn test_mock_assertions() {
    let source = r#"
def test_mock_called():
    do_something(mock)
    mock.assert_called_once_with(42)
"#;
    let fns = parse(source);
    assert_eq!(fns.len(), 1);
    assert!(fns[0].has_assertion);
}

#[test]
fn python_test_assertion_roulette() {
    let source = r#"
def test_many_bare_asserts():
    assert a == 1
    assert b == 2

def test_asserts_with_messages():
    assert a == 1, "a should be 1"
    assert b == 2, "b should be 2"
"#;
    let fns = parse(source);
    assert_eq!(fns.len(), 2);
    assert_eq!(fns[0].assertions_without_message, 2);
    assert_eq!(fns[1].assertions_without_message, 0);
}

#[test]
fn python_test_magic_numbers() {
    let source = r#"
def test_magic():
    assert calculate() == 12345
"#;
    let fns = parse(source);
    assert_eq!(fns.len(), 1);
    assert_eq!(fns[0].magic_numbers.len(), 1);
    assert_eq!(fns[0].magic_numbers[0].0, 12345);
}

#[test]
fn test_magic_number_in_string_not_counted() {
    let source = r#"
def test_string_number():
    assert name == "user12345"
"#;
    let fns = parse(source);
    assert_eq!(fns[0].magic_numbers.len(), 0);
}

#[test]
fn python_test_timeout_dependency() {
    let source = r#"
import time

def test_timing():
    start = time.time()
    run_task()
    assert time.time() - start < 5
"#;
    let fns = parse(source);
    assert!(fns[0].has_timeout_dependency);
}

#[test]
fn test_early_return() {
    let source = r#"
def test_early_return():
    if not available():
        return
    assert compute() == 1
"#;
    let fns = parse(source);
    assert!(fns[0].has_early_return);
}

#[test]
fn python_test_line_numbers() {
    let source = r#"# comment line

def test_first():
    assert True

def test_second():
    assert True
"#;
    let fns = parse(source);
    assert_eq!(fns.len(), 2);
    assert_eq!(fns[0].line, 3);
    assert_eq!(fns[1].line, 6);
}

#[test]
fn test_decorated_line_number_points_to_def() {
    let source = r#"
import pytest

@pytest.mark.parametrize("x", [1, 2])
def test_parametrized(x):
    assert x > 0
"#;
    let fns = parse(source);
    assert_eq!(fns.len(), 1);
    assert_eq!(fns[0].line, 5); // def の行（デコレーターではなく）
}

#[test]
fn test_docstring_excluded_from_line_count() {
    let source = r#"
def test_with_docstring():
    """This is a
    multi-line
    docstring."""
    assert True
"#;
    let fns = parse(source);
    assert_eq!(fns.len(), 1);
    assert_eq!(fns[0].body_line_count, 1); // assert の1行のみ
}

#[test]
fn test_numpy_style_assertion_helper() {
    let source = r#"
from numpy.testing import assert_array_equal

def test_array():
    assert_array_equal(result, expected)
"#;
    let fns = parse(source);
    assert!(fns[0].has_assertion);
}

#[test]
fn test_raise_assertion_error() {
    let source = r#"
def test_manual_assert():
    if result != expected:
        raise AssertionError("mismatch")
"#;
    let fns = parse(source);
    assert!(fns[0].has_assertion);
}

#[test]
fn test_nested_class() {
    let source = r#"
class TestOuter:
    class TestInner:
        def test_deep(self):
            assert True

    def test_outer(self):
        assert True
"#;
    let fns = parse(source);
    assert_eq!(fns.len(), 2);
}
