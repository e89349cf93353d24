use savanna_smell_detector::model::smell::SmellType;
use savanna_smell_detector::model::smell_allow::{
    get_allows_for_function, is_line_suppressed, parse_smell_allows, SmellAllow,
};

#[test]
fn test_parse_smell_allows_basic() {
    let source = "// smell-allow: sleepy-test — 実プロセスの応答待ち\n#[test]\nfn foo() {}";
    let allows = parse_smell_allows(source);
    assert_eq!(allows.len(), 1);
    assert_eq!(allows[0].line, 1);
    assert_eq!(allows[0].smell_types, vec![SmellType::SleepyTest]);
    assert_eq!(allows[0].reason.as_deref(), Some("実プロセスの応答待ち"));
}

#[test]
fn test_parse_smell_allows_multiple_types() {
    let source = "// smell-allow: magic-number, sleepy-test -- 複数";
    let allows = parse_smell_allows(source);
    assert_eq!(allows.len(), 1);
    assert_eq!(allows[0].smell_types.len(), 2);
}

#[test]
fn test_parse_smell_allows_no_reason() {
    let source = "// smell-allow: empty-test";
    let allows = parse_smell_allows(source);
    assert_eq!(allows.len(), 1);
    assert!(allows[0].reason.is_none());
}

#[test]
fn test_get_allows_for_function() {
    let allows = vec![
        SmellAllow {
            line: 2,
            smell_types: vec![SmellType::SleepyTest],
            reason: None,
        },
    ];
    // func_line=3 → 直前2行以内
    let result = get_allows_for_function(&allows, 3, 5);
    assert_eq!(result.len(), 1);
}

#[test]
fn test_is_line_suppressed() {
    let allows = vec![
        SmellAllow {
            line: 5,
            smell_types: vec![SmellType::CommentedOutTest],
            reason: None,
        },
    ];
    assert!(is_line_suppressed(&allows, SmellType::CommentedOutTest, 5));
    assert!(is_line_suppressed(&allows, SmellType::CommentedOutTest, 6));
    assert!(!is_line_suppressed(&allows, SmellType::CommentedOutTest, 7));
}
