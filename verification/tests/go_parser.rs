use savanna_smell_detector::languages::go::{extract_test_functions, GoParser};
use savanna_smell_detector::languages::LanguageParser;

#[test]
fn test_basic_test_function() {
    let source = r#"
package foo_test

import "testing"

func TestAdd(t *testing.T) {
    result := Add(2, 3)
    if result != 5 {
        t.Errorf("expected 5, got %d", result)
    }
}
"#;
    let fns = extract_test_functions(source);
    assert_eq!(fns.len(), 1);
    assert_eq!(fns[0].name, "TestAdd");
    assert!(fns[0].has_assertion);
    assert!(!fns[0].is_empty);
    assert!(fns[0].has_branching); // if
}

#[test]
fn test_testify_assertions() {
    let source = r#"
package foo_test

import (
    "testing"
    "github.com/stretchr/testify/assert"
)

func TestWithTestify(t *testing.T) {
    result := Add(2, 3)
    assert.Equal(t, 5, result)
    assert.NoError(t, nil)
}
"#;
    let fns = extract_test_functions(source);
    assert_eq!(fns.len(), 1);
    assert!(fns[0].has_assertion);
    assert_eq!(fns[0].assertion_count, 2);
}

#[test]
fn go_test_empty_test() {
    let source = r#"
package foo_test

import "testing"

func TestEmpty(t *testing.T) {
}
"#;
    let fns = extract_test_functions(source);
    assert_eq!(fns.len(), 1);
    assert!(fns[0].is_empty);
}

#[test]
fn go_test_missing_assertion() {
    let source = r#"
package foo_test

import "testing"

func TestNoAssert(t *testing.T) {
    result := Add(2, 3)
    _ = result
}
"#;
    let fns = extract_test_functions(source);
    assert_eq!(fns.len(), 1);
    assert!(!fns[0].has_assertion);
}

#[test]
fn go_test_sleepy_test() {
    let source = r#"
package foo_test

import (
    "testing"
    "time"
)

func TestSleepy(t *testing.T) {
    time.Sleep(2 * time.Second)
    if result != expected {
        t.Fatal("mismatch")
    }
}
"#;
    let fns = extract_test_functions(source);
    assert_eq!(fns.len(), 1);
    assert!(fns[0].has_sleep);
}

#[test]
fn test_skip_detection() {
    let source = r#"
package foo_test

import "testing"

func TestSkipped(t *testing.T) {
    t.Skip("not ready yet")
    if 1 != 1 {
        t.Fatal("impossible")
    }
}
"#;
    let fns = extract_test_functions(source);
    assert_eq!(fns.len(), 1);
    assert!(fns[0].is_ignored);
}

#[test]
fn test_table_driven_test() {
    let source = r#"
package foo_test

import "testing"

func TestTableDriven(t *testing.T) {
    tests := []struct {
        input    int
        expected int
    }{
        {1, 2},
        {2, 4},
        {3, 6},
    }
    for _, tt := range tests {
        t.Run("", func(t *testing.T) {
            if got := Double(tt.input); got != tt.expected {
                t.Errorf("Double(%d) = %d, want %d", tt.input, got, tt.expected)
            }
        })
    }
}
"#;
    let fns = extract_test_functions(source);
    assert_eq!(fns.len(), 1);
    assert!(fns[0].has_for_loop);
    assert!(fns[0].has_assertion_in_loop);
}

#[test]
fn test_benchmark_function() {
    let source = r#"
package foo_test

import "testing"

func BenchmarkAdd(b *testing.B) {
    for i := 0; i < b.N; i++ {
        Add(2, 3)
    }
}
"#;
    let fns = extract_test_functions(source);
    assert_eq!(fns.len(), 1);
    assert_eq!(fns[0].name, "BenchmarkAdd");
}

#[test]
fn test_print_detection() {
    let source = r#"
package foo_test

import (
    "fmt"
    "testing"
)

func TestWithPrint(t *testing.T) {
    result := Add(2, 3)
    fmt.Println("debug:", result)
    t.Log("also debug")
    if result != 5 {
        t.Error("wrong")
    }
}
"#;
    let fns = extract_test_functions(source);
    assert_eq!(fns.len(), 1);
    assert!(fns[0].has_print);
}

#[test]
fn go_test_conditional_logic() {
    let source = r#"
package foo_test

import "testing"

func TestWithSwitch(t *testing.T) {
    switch runtime.GOOS {
    case "linux":
        t.Error("linux only")
    default:
        t.Skip("unsupported")
    }
}
"#;
    let fns = extract_test_functions(source);
    assert_eq!(fns.len(), 1);
    assert!(fns[0].has_conditional);
    assert!(fns[0].has_branching);
}

#[test]
fn go_test_line_numbers() {
    let source = r#"package foo_test

import "testing"

func TestFirst(t *testing.T) {
    t.Error("fail")
}

func TestSecond(t *testing.T) {
    t.Error("fail")
}
"#;
    let fns = extract_test_functions(source);
    assert_eq!(fns.len(), 2);
    assert_eq!(fns[0].line, 5); // 1-indexed
    assert_eq!(fns[1].line, 9);
}

#[test]
fn go_test_timeout_dependency() {
    let source = r#"
package foo_test

import (
    "context"
    "testing"
    "time"
)

func TestTimeout(t *testing.T) {
    ctx, cancel := context.WithTimeout(context.Background(), 5*time.Second)
    defer cancel()
    result := DoSomething(ctx)
    if result != expected {
        t.Fatal("timeout or wrong result")
    }
}
"#;
    let fns = extract_test_functions(source);
    assert_eq!(fns.len(), 1);
    assert!(fns[0].has_timeout_dependency);
}

#[test]
fn go_test_comment_only_body() {
    let source = r#"
package foo_test

import "testing"

func TestCommentsOnly(t *testing.T) {
    // TODO: implement this test
    // another comment
}
"#;
    let fns = extract_test_functions(source);
    assert_eq!(fns.len(), 1);
    assert!(fns[0].is_empty);
}

#[test]
fn test_non_test_file_rejected() {
    let parser = GoParser;
    let source = r#"
package foo

func Add(a, b int) int {
    return a + b
}
"#;
    // 非テストファイルはパースしない
    assert!(parser.parse("foo.go", source).is_none());
    // テストファイルはパースする
    assert!(parser.parse("foo_test.go", source).is_some());
}

#[test]
fn test_example_function() {
    let source = r#"
package foo_test

import "fmt"

func ExampleAdd() {
    fmt.Println(Add(2, 3))
    // Output: 5
}
"#;
    let fns = extract_test_functions(source);
    assert_eq!(fns.len(), 1);
    assert_eq!(fns[0].name, "ExampleAdd");
}

#[test]
fn test_fuzz_function() {
    let source = r#"
package foo_test

import "testing"

func FuzzAdd(f *testing.F) {
    f.Add(1, 2)
    f.Fuzz(func(t *testing.T, a, b int) {
        result := Add(a, b)
        if result != a+b {
            t.Errorf("Add(%d, %d) = %d", a, b, result)
        }
    })
}
"#;
    let fns = extract_test_functions(source);
    assert_eq!(fns.len(), 1);
    assert_eq!(fns[0].name, "FuzzAdd");
}

#[test]
fn test_gomega_assertions() {
    let source = r#"
package foo_test

import (
    "testing"
    . "github.com/onsi/gomega"
)

func TestGomega(t *testing.T) {
    RegisterTestingT(t)
    Expect(Add(2, 3)).To(Equal(5))
    Ω(Subtract(5, 3)).Should(Equal(2))
}
"#;
    let fns = extract_test_functions(source);
    assert_eq!(fns.len(), 1);
    assert!(fns[0].has_assertion);
    assert_eq!(fns[0].assertion_count, 2);
}

#[test]
fn go_table_definitions_do_not_count_as_body_lines() {
    let source = "package foo_test\n\nfunc TestTable(t *testing.T) {\n    cases := []struct {\n        in  int\n        out int\n    }{\n        {1, 2},\n        {2, 4},\n    }\n    for _, c := range cases {\n        if Double(c.in) != c.out {\n            t.Errorf(\"bad %d\", c.in)\n        }\n    }\n}\n";
    let fns = extract_test_functions(source);
    assert_eq!(fns.len(), 1);
    assert_eq!(fns[0].body_line_count, 12 - 7);
}

#[test]
fn go_t_log_is_not_a_print() {
    let source = "package foo_test\n\nfunc TestLog(t *testing.T) {\n    t.Log(\"step\")\n    t.Logf(\"n=%d\", 1)\n    if Add(1, 1) != 2 {\n        t.Fatal(\"x\")\n    }\n}\n";
    let fns = extract_test_functions(source);
    assert!(!fns[0].has_print);
}

#[test]
fn go_custom_helpers_count_as_assertions() {
    let source = "package foo_test\n\nfunc TestHelpers(t *testing.T) {\n    v := mustParse(t, \"1\")\n    assertEqual(t, v, 1)\n    checkResult(t, v)\n}\n";
    let fns = extract_test_functions(source);
    assert!(fns[0].has_assertion);
    assert_eq!(fns[0].assertion_count, 3);
}
