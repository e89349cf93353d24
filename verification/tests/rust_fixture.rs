// The sample of smelly Rust tests, described as the front end sees it, run
// through the default detectors.
use savanna_smell_detector::detectors::default_registry;
use savanna_smell_detector::languages::rust::{
    RustAttr, RustExpr, RustFnItem, RustMacro, RustParser, RustStmt, RustToken,
};
use savanna_smell_detector::languages::LanguageParser;
use savanna_smell_detector::model::smell::{SmellType, TestSmell};

const SOURCE: &str = "mod tests {
    #[test]
    fn test_empty() {
    }

    #[test]
    fn test_no_assertion() {
        let x = 1 + 1;
        let _y = x * 2;
    }

    #[test]
    fn test_sleepy() {
        thread::sleep(Duration::from_secs(2));
        assert_eq!(1, 1);
    }

    #[test]
    fn test_conditional() {
        let x = 42;
        if x > 0 {
            assert!(true);
        } else {
            assert!(false);
        }
    }

    #[test]
    #[ignore]
    fn test_ignored() {
        assert_eq!(1, 1);
    }

    #[test]
    fn test_magic_number() {
        let result = compute();
        assert_eq!(result, 86400);
        assert_eq!(result % 3600, 0);
    }

    #[test]
    fn test_clean() {
        let result = 2 + 2;
        assert_eq!(result, 4);
    }
}

// #[test]
// fn test_commented_out() {
//     assert_eq!(1, 1);
// }
";

fn test_attr() -> RustAttr {
    RustAttr { segments: vec!["test".to_string()], is_plain_ident: true, path_only: true }
}

fn ignore_attr() -> RustAttr {
    RustAttr { segments: vec!["ignore".to_string()], is_plain_ident: true, path_only: true }
}

fn mac(name: &str, tokens: Vec<RustToken>) -> RustMacro {
    RustMacro { name: name.to_string(), tokens }
}

fn eq_mac(a: RustToken, b: RustToken) -> RustStmt {
    RustStmt::Macro(mac("assert_eq", vec![a, RustToken::Punct(','), b]))
}

fn lit(s: &str) -> RustToken {
    RustToken::Literal(s.to_string())
}

fn item(name: &str, attrs: Vec<RustAttr>, stmts: Vec<RustStmt>) -> RustFnItem {
    RustFnItem { name: name.to_string(), attrs, stmts, body_source: "{ }".to_string() }
}

fn smells_of(name: &str, smells: &[TestSmell]) -> Vec<SmellType> {
    smells
        .iter()
        .filter(|s| s.function_name.as_deref() == Some(name))
        .map(|s| s.smell_type)
        .collect()
}

#[test]
fn fixture_smells_are_found_where_expected() {
    let conditional = RustExpr::If(
        vec![RustStmt::Macro(mac("assert", vec![RustToken::Other]))],
        Some(Box::new(RustExpr::Block(vec![RustStmt::Macro(mac("assert", vec![RustToken::Other]))]))),
    );
    let items = vec![
        item("test_empty", vec![test_attr()], vec![]),
        item("test_no_assertion", vec![test_attr()], vec![RustStmt::Local(Some(RustExpr::Other)), RustStmt::Local(Some(RustExpr::Other))]),
        item(
            "test_sleepy",
            vec![test_attr()],
            vec![
                RustStmt::Expr(RustExpr::Call(Some(vec!["thread".to_string(), "sleep".to_string()]))),
                eq_mac(lit("1"), lit("1")),
            ],
        ),
        item("test_conditional", vec![test_attr()], vec![RustStmt::Local(Some(RustExpr::Other)), RustStmt::Expr(conditional)]),
        item("test_ignored", vec![test_attr(), ignore_attr()], vec![eq_mac(lit("1"), lit("1"))]),
        item(
            "test_magic_number",
            vec![test_attr()],
            vec![
                RustStmt::Local(Some(RustExpr::Call(Some(vec!["compute".to_string()])))),
                eq_mac(RustToken::Other, lit("86400")),
                RustStmt::Macro(mac(
                    "assert_eq",
                    vec![RustToken::Other, RustToken::Punct('%'), lit("3600"), RustToken::Punct(','), lit("0")],
                )),
            ],
        ),
        item("test_clean", vec![test_attr()], vec![RustStmt::Local(Some(RustExpr::Other)), eq_mac(RustToken::Other, lit("4"))]),
        item("compute", vec![], vec![]),
    ];
    let tf = RustParser.from_items("tests/fixtures/smelly_tests.rs", SOURCE, &items);
    assert_eq!(tf.test_functions.len(), 7);
    assert_eq!(tf.test_functions[0].line, 3);
    let smells = default_registry().detect_all(&[tf]);
    assert_eq!(smells_of("test_empty", &smells), vec![SmellType::EmptyTest]);
    assert_eq!(smells_of("test_no_assertion", &smells), vec![SmellType::MissingAssertion]);
    assert!(smells_of("test_sleepy", &smells).contains(&SmellType::SleepyTest));
    assert!(smells_of("test_conditional", &smells).contains(&SmellType::ConditionalTestLogic));
    assert!(smells_of("test_conditional", &smells).contains(&SmellType::AssertionRouletteStrict));
    assert!(smells_of("test_ignored", &smells).contains(&SmellType::IgnoredTest));
    assert!(smells_of("test_magic_number", &smells).contains(&SmellType::MagicNumberTest));
    let magic = &smells
        .iter()
        .find(|s| s.smell_type == SmellType::MagicNumberTest)
        .unwrap();
    assert_eq!(magic.line, 35);
    assert!(smells_of("test_magic_number", &smells).contains(&SmellType::AssertionRoulette));
    assert_eq!(smells_of("test_clean", &smells), Vec::<SmellType>::new());
    let commented: Vec<&TestSmell> = smells.iter().filter(|s| s.smell_type == SmellType::CommentedOutTest).collect();
    assert_eq!(commented.len(), 1);
    assert_eq!(commented[0].line, 48);
}

#[test]
fn fixture_read_through_syn() {
    let tf = RustParser.parse("tests/fixtures/smelly_tests.rs", SOURCE).unwrap();
    assert_eq!(tf.language, "rust");
    assert_eq!(tf.test_functions.len(), 7);
    assert_eq!(tf.test_functions[0].name, "test_empty");
    assert_eq!(tf.test_functions[0].line, 3);
    let smells = default_registry().detect_all(&[tf]);
    assert_eq!(smells_of("test_empty", &smells), vec![SmellType::EmptyTest]);
    assert_eq!(smells_of("test_no_assertion", &smells), vec![SmellType::MissingAssertion]);
    assert!(smells_of("test_sleepy", &smells).contains(&SmellType::SleepyTest));
    assert!(smells_of("test_conditional", &smells).contains(&SmellType::ConditionalTestLogic));
    assert!(smells_of("test_ignored", &smells).contains(&SmellType::IgnoredTest));
    assert!(smells_of("test_magic_number", &smells).contains(&SmellType::MagicNumberTest));
    assert_eq!(smells_of("test_clean", &smells), Vec::<SmellType>::new());
}

#[test]
fn source_syn_cannot_read_gives_none() {
    assert!(RustParser.parse("a.rs", "fn broken( {").is_none());
}

#[test]
fn nested_test_functions_are_found_in_modules() {
    let source = "#[cfg(test)]\nmod tests {\n    #[test]\n    #[ignore]\n    fn test_gui() {\n        assert!(true);\n    }\n}\n";
    let tf = RustParser.parse("src/lib.rs", source).unwrap();
    assert_eq!(tf.test_functions.len(), 1);
    assert_eq!(tf.test_functions[0].name, "test_gui");
    assert!(tf.test_functions[0].is_ignored);
    assert_eq!(tf.test_functions[0].line, 5);
}
