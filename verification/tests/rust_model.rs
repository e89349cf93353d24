use savanna_smell_detector::languages::LanguageParser;
use savanna_smell_detector::languages::rust::{
    RustAttr, RustExpr, RustFnItem, RustMacro, RustParser, RustStmt, RustToken,
};

fn attr(segs: &[&str], path_only: bool) -> RustAttr {
    RustAttr {
        segments: segs.iter().map(|s| s.to_string()).collect(),
        is_plain_ident: segs.len() == 1,
        path_only,
    }
}

fn mac(name: &str, tokens: Vec<RustToken>) -> RustMacro {
    RustMacro { name: name.to_string(), tokens }
}

fn item(name: &str, attrs: Vec<RustAttr>, stmts: Vec<RustStmt>, body: &str) -> RustFnItem {
    RustFnItem { name: name.to_string(), attrs, stmts, body_source: body.to_string() }
}

fn ident() -> RustToken {
    RustToken::Other
}

fn comma() -> RustToken {
    RustToken::Punct(',')
}

fn lit(s: &str) -> RustToken {
    RustToken::Literal(s.to_string())
}

const SOURCE: &str = "mod tests {\n    #[test]\n    fn test_magic() {\n    }\n    fn helper() {}\n    #[test]\n    #[ignore]\n    fn test_skipped() {}\n}\n";

#[test]
fn rust_only_test_attributed_functions_are_kept() {
    let fns = vec![
        item("test_magic", vec![attr(&["test"], true)], vec![], "{ }"),
        item("helper", vec![], vec![], "{ }"),
        item("test_skipped", vec![attr(&["test"], true), attr(&["ignore"], true)], vec![], "{ }"),
    ];
    let tf = RustParser.from_items("src/lib.rs", SOURCE, &fns);
    assert_eq!(tf.language, "rust");
    assert_eq!(tf.test_functions.len(), 2);
    assert_eq!(tf.test_functions[0].name, "test_magic");
    assert_eq!(tf.test_functions[0].line, 3);
    assert!(tf.test_functions[0].is_empty);
    assert!(!tf.test_functions[0].is_ignored);
    assert_eq!(tf.test_functions[1].line, 8);
    assert!(tf.test_functions[1].is_ignored);
}

#[test]
fn rust_ignore_with_reason_is_not_ignored() {
    let fns = vec![item(
        "test_gui",
        vec![attr(&["tokio", "test"], true), attr(&["ignore"], false)],
        vec![RustStmt::Macro(mac("assert_eq", vec![lit("1"), comma(), lit("1")]))],
        "{ assert_eq ! (1 , 1) ; }",
    )];
    let tf = RustParser.from_items("a.rs", "fn test_gui() {}\n", &fns);
    assert_eq!(tf.test_functions.len(), 1);
    assert!(!tf.test_functions[0].is_ignored);
    assert!(tf.test_functions[0].has_assertion);
    assert_eq!(tf.test_functions[0].line, 1);
}

#[test]
fn rust_assertion_messages_and_magic_numbers() {
    let stmts = vec![
        RustStmt::Local(Some(RustExpr::Call(Some(vec!["compute".to_string()])))),
        RustStmt::Macro(mac("assert_eq", vec![ident(), comma(), lit("86400")])),
        RustStmt::Macro(mac("assert_eq", vec![ident(), comma(), lit("3600"), comma(), lit("\"msg\"")])),
        RustStmt::Macro(mac("assert", vec![ident()])),
        RustStmt::Macro(mac("assert", vec![ident(), comma(), lit("\"why\"")])),
    ];
    let fns = vec![item("test_magic", vec![attr(&["test"], true)], stmts, "{\n a\n b\n}")];
    let tf = RustParser.from_items("a.rs", "", &fns);
    let f = &tf.test_functions[0];
    assert_eq!(f.assertion_count, 4);
    assert_eq!(f.assertions_without_message, 1);
    assert_eq!(f.assert_only_count, 2);
    assert_eq!(f.assert_only_without_message, 1);
    assert_eq!(f.magic_numbers, vec![(86400, 0), (3600, 0)]);
    assert_eq!(f.body_line_count, 4);
    assert_eq!(f.line, 1);
}

#[test]
fn rust_loops_branches_and_early_return() {
    let for_loop = RustExpr::ForLoop(vec![RustStmt::Macro(mac("assert_eq", vec![ident(), comma(), ident()]))]);
    let early = RustExpr::If(vec![RustStmt::Expr(RustExpr::Return)], None);
    let stmts = vec![RustStmt::Expr(early), RustStmt::Expr(for_loop)];
    let fns = vec![item("test_table", vec![attr(&["test"], true)], stmts, "{}")];
    let tf = RustParser.from_items("a.rs", "", &fns);
    let f = &tf.test_functions[0];
    assert!(f.has_early_return);
    assert!(f.has_for_loop);
    assert!(f.has_assertion_in_loop);
    assert!(f.has_conditional);
    assert!(f.has_branching);
}

#[test]
fn rust_return_after_three_statements_is_not_early() {
    let early = RustExpr::If(vec![RustStmt::Expr(RustExpr::Return)], None);
    let stmts = vec![RustStmt::Other, RustStmt::Other, RustStmt::Other, RustStmt::Expr(early)];
    let fns = vec![item("test_late", vec![attr(&["test"], true)], stmts, "{}")];
    let tf = RustParser.from_items("a.rs", "", &fns);
    assert!(!tf.test_functions[0].has_early_return);
}

#[test]
fn rust_sleep_time_and_print() {
    let sleep_call = RustExpr::Call(Some(vec!["thread".to_string(), "sleep".to_string()]));
    let timer = RustExpr::Call(Some(vec!["std".to_string(), "time".to_string(), "Instant".to_string(), "now".to_string()]));
    let stmts = vec![
        RustStmt::Expr(sleep_call),
        RustStmt::Local(Some(timer)),
        RustStmt::Macro(mac("println", vec![lit("\"hi\"")])),
        RustStmt::Expr(RustExpr::While(vec![])),
    ];
    let fns = vec![item("test_slow", vec![attr(&["test"], true)], stmts, "{}")];
    let tf = RustParser.from_items("a.rs", "", &fns);
    let f = &tf.test_functions[0];
    assert!(f.has_sleep);
    assert!(f.has_timeout_dependency);
    assert!(f.has_print);
    assert!(!f.has_assertion);
    assert!(f.has_conditional);
    assert!(!f.has_branching);
    assert!(f.has_while_loop);
}

#[test]
fn rust_method_sleep_and_match_arms() {
    let recv = RustExpr::MethodCall("sleep".to_string(), Box::new(RustExpr::Other));
    let m = RustExpr::Match(vec![RustExpr::Macro(mac("panic", vec![]))]);
    let fns = vec![item(
        "test_m",
        vec![attr(&["test"], true)],
        vec![RustStmt::Expr(recv), RustStmt::Expr(m)],
        "{}",
    )];
    let tf = RustParser.from_items("a.rs", "", &fns);
    let f = &tf.test_functions[0];
    assert!(f.has_sleep);
    assert!(f.has_branching);
    assert_eq!(f.assertion_count, 1);
    assert_eq!(RustParser.language_name(), "rust");
    assert_eq!(RustParser.extensions(), vec!["rs"]);
}
