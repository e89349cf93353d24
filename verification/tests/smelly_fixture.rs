// Sample tests with typical smells, kept as runnable tests.

// 1. Empty Test
#[test]
fn test_empty() {
}

// 2. Missing Assertion
#[test]
fn test_no_assertion() {
    let x = 1 + 1;
    let _y = x * 2;
}

// 4. Conditional Test Logic
#[test]
fn test_conditional() {
    let x = 42;
    if x > 0 {
        assert!(true);
    } else {
        assert!(false);
    }
}

// 6. Redundant Print
#[test]
fn test_with_print() {
    println!("debug: calculating...");
    let result = 2 + 2;
    println!("{:?}", result);
    assert_eq!(result, 4);
}

// 7. Assertion Roulette
#[test]
fn smelly_tests_test_assertion_roulette() {
    let x = 42;
    assert!(x > 0);
    assert_eq!(x, 42);
    assert_ne!(x, 0);
}

// 8. Magic Number Test
#[test]
fn test_magic_number() {
    let result = compute();
    assert_eq!(result, 86400);
    assert_eq!(result % 3600, 0);
}

fn compute() -> i64 { 86400 }

// 9. A clean test
#[test]
fn test_clean() {
    let result = 2 + 2;
    assert_eq!(result, 4);
}
