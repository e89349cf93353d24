use savanna_smell_detector::languages::swift::SwiftParser;
use savanna_smell_detector::languages::LanguageParser;
use savanna_smell_detector::model::smell::TestFunction;

fn parse(source: &str) -> Vec<TestFunction> {
    SwiftParser
        .parse("FooTests.swift", source)
        .map(|tf| tf.test_functions)
        .unwrap_or_default()
}

#[test]
fn test_path_detection() {
    let source = "import Testing\n@Test func a() { #expect(true) }\n";
    assert!(SwiftParser.parse("FooTests.swift", source).is_some());
    assert!(SwiftParser.parse("FooTest.swift", source).is_some());
    assert!(SwiftParser.parse("Sources/Tests/Foo.swift", source).is_some());
    assert!(SwiftParser.parse("Sources/Model/Reminder.swift", source).is_none());
}

#[test]
fn test_swift_testing_attribute_not_name_prefix() {
    // @Test が付いていれば test で始まらない名前でも拾う
    let source = r#"
import Testing

@Test("22:00 の毎日リマインダーは 22:01 に催促対象")
func nudgesAfterScheduledTime() {
    #expect(shouldNudge == true)
}

func helperNotATest() {
    #expect(true)
}
"#;
    let fns = parse(source);
    assert_eq!(fns.len(), 1);
    assert_eq!(fns[0].name, "nudgesAfterScheduledTime");
    assert!(fns[0].has_assertion);
}

#[test]
fn test_line_points_to_func_not_attribute() {
    let source = r#"
import Testing

@MainActor
@Test("説明")
func something() {
    #expect(true)
}
"#;
    let fns = parse(source);
    assert_eq!(fns[0].line, 6); // func の行（属性の行ではない）
}

#[test]
fn test_nested_in_struct_and_extension() {
    let source = r#"
import Testing

struct SuiteA {
    @Test func inStruct() { #expect(true) }
}

extension SuiteA {
    @Test func inExtension() { #expect(true) }
}
"#;
    let fns = parse(source);
    assert_eq!(fns.len(), 2);
}

#[test]
fn test_xctest_class_methods() {
    let source = r#"
import XCTest

final class LegacyTests: XCTestCase {
    func testAssertions() {
        XCTAssertTrue(flag)
    }

    func helperNotATest() {
        XCTAssertTrue(true)
    }
}
"#;
    let fns = parse(source);
    assert_eq!(fns.len(), 1);
    assert_eq!(fns[0].name, "testAssertions");
}

#[test]
fn test_helper_class_in_test_file_is_ignored() {
    // テストファイルに同居するモックのメソッドを巻き込まない
    let source = r#"
import XCTest

final class RealTests: XCTestCase {
    func testReal() { XCTAssertTrue(true) }
}

final class MockURLProtocol: URLProtocol {
    func startLoading() { print("mock") }
    func stopLoading() {}
}
"#;
    let fns = parse(source);
    assert_eq!(fns.len(), 1);
    assert_eq!(fns[0].name, "testReal");
}

#[test]
fn test_xctest_convention_requires_xctest_import() {
    // XCTest を使っていないファイルでは test 始まりの func だけでは拾わない
    let source = r#"
import Foundation

final class Helper {
    func testLooksLikeATest() { print("nope") }
}
"#;
    let fns = parse(source);
    assert_eq!(fns.len(), 0);
}

#[test]
fn swift_test_empty_test() {
    let source = r#"
import Testing

@Test func empty() {
}

@Test func notEmpty() { #expect(true) }
"#;
    let fns = parse(source);
    assert_eq!(fns.len(), 2);
    assert!(fns[0].is_empty);
    assert!(!fns[1].is_empty);
}

#[test]
fn swift_test_missing_assertion() {
    let source = r#"
import Testing

@Test func noAssertion() {
    let vm = makeViewModel()
    vm.load()
}
"#;
    let fns = parse(source);
    assert!(!fns[0].has_assertion);
}

#[test]
fn test_assertion_variants() {
    let source = r#"
import Testing
import XCTest

@Test func swiftTesting() throws {
    #expect(a == 1)
    let x = try #require(b)
    Issue.record("boom")
}

final class XCTests: XCTestCase {
    func testXCTest() throws {
        XCTAssertEqual(a, b)
        XCTFail("nope")
        let v = try XCTUnwrap(opt)
    }
}
"#;
    let fns = parse(source);
    assert_eq!(fns.len(), 2);
    assert_eq!(fns[0].assertion_count, 3);
    assert_eq!(fns[1].assertion_count, 3);
}

#[test]
fn test_assertion_message_classification() {
    let source = r#"
import XCTest

final class T: XCTestCase {
    func testBooleanWithoutMessage() {
        XCTAssertTrue(a)
        XCTAssertTrue(b)
    }

    func testBooleanWithMessage() {
        XCTAssertTrue(a, "a should hold")
        XCTAssertTrue(b, "b should hold")
    }

    func testEqualWithoutMessage() {
        XCTAssertEqual(a, b)
        XCTAssertEqual(c, d)
    }

    func testEqualComparingStringLiteral() {
        XCTAssertEqual(name, "expected")
        XCTAssertEqual(other, "expected")
    }
}
"#;
    let fns = parse(source);
    assert_eq!(fns[0].assert_only_without_message, 2);
    assert_eq!(fns[1].assert_only_without_message, 0);
    assert_eq!(fns[2].assertions_without_message, 2);
    // 第2引数が文字列でも XCTAssertEqual の値引数なのでメッセージ扱いしない
    assert_eq!(fns[3].assertions_without_message, 2);
}

#[test]
fn test_expect_with_comment_counts_as_message() {
    let source = r#"
import Testing

@Test func bare() {
    #expect(a == 1)
    #expect(b == 2)
}

@Test func commented() {
    #expect(a == 1, "a は 1 のはず")
    #expect(b == 2, "b は 2 のはず")
}
"#;
    let fns = parse(source);
    assert_eq!(fns[0].assertions_without_message, 2);
    assert_eq!(fns[1].assertions_without_message, 0);
}

#[test]
fn test_sleepy_variants() {
    let source = r#"
import Testing

@Test func threadSleep() {
    Thread.sleep(forTimeInterval: 0.5)
    #expect(true)
}

@Test func taskSleep() async throws {
    try await Task.sleep(nanoseconds: 500_000_000)
    #expect(true)
}

@Test func uSleep() {
    usleep(1000)
    #expect(true)
}

@Test func noSleep() {
    #expect(true)
}
"#;
    let fns = parse(source);
    assert!(fns[0].has_sleep);
    assert!(fns[1].has_sleep);
    assert!(fns[2].has_sleep);
    assert!(!fns[3].has_sleep);
}

#[test]
fn test_ignored_variants() {
    let source = r#"
import Testing
import XCTest

@Test(.disabled("wip"))
func disabledTest() { #expect(true) }

@Test func activeTest() { #expect(true) }

final class T: XCTestCase {
    func testSkipped() throws {
        throw XCTSkip("not ready")
    }
}
"#;
    let fns = parse(source);
    assert_eq!(fns.len(), 3);
    assert!(fns[0].is_ignored);
    assert!(!fns[1].is_ignored);
    assert!(fns[2].is_ignored);
}

#[test]
fn test_suite_level_disabled() {
    let source = r#"
import Testing

@Suite(.disabled("まとめて止めている"))
struct DisabledSuite {
    @Test func inner() { #expect(true) }
}
"#;
    let fns = parse(source);
    assert_eq!(fns.len(), 1);
    assert!(fns[0].is_ignored);
}

#[test]
fn test_silent_skip_via_guard() {
    let source = r#"
import Testing

@Test func skipsSilently() {
    guard calendar.isDate(oneHourLater, inSameDayAs: Date()) else { return }
    #expect(true)
}

@Test func noSkip() {
    let value = compute()
    #expect(value == 1)
}

@Test func skipsProperly() throws {
    guard let id = makeFixture() else { throw XCTSkip("深夜帯はスキップ") }
    #expect(id.isEmpty == false)
}

@Test func returnInClosureIsNotASkip() {
    let mapped = items.map { item -> Int in
        if item.isEmpty { return 0 }
        return item.count
    }
    #expect(mapped.count == 3)
}
"#;
    let fns = parse(source);
    assert!(fns[0].has_early_return);
    assert!(!fns[1].has_early_return);
    // throw XCTSkip は正しいスキップ。条件付き（guard の中）なので
    // Silent Skip でも Ignored Test でもない
    assert!(!fns[2].has_early_return);
    assert!(!fns[2].is_ignored);
    // クロージャ内の return は脱出ではない
    assert!(!fns[3].has_early_return);
}

#[test]
fn test_conditional_skip_is_not_ignored() {
    let source = r#"
import XCTest

final class T: XCTestCase {
    // 無条件の throw XCTSkip = 常にスキップされる（無視されたテスト）
    func testAlwaysSkipped() throws {
        throw XCTSkip("not ready")
        XCTAssertTrue(true)
    }

    // guard の中の XCTSkip = 環境次第で実行される正当な条件付きスキップ
    func testConditionallySkipped() throws {
        guard let id = makeFixture() else {
            throw XCTSkip("深夜帯はスキップ")
        }
        XCTAssertEqual(id, "expected", "フィクスチャの ID が一致するべき")
    }

    // XCTSkipIf は条件付きが前提の API なので無視扱いにしない
    func testSkipIf() throws {
        try XCTSkipIf(isCI, "CI ではスキップ")
        XCTAssertTrue(flag, "flag が立つべき")
    }
}
"#;
    let fns = parse(source);
    assert_eq!(fns.len(), 3);
    assert!(fns[0].is_ignored);
    assert!(!fns[1].is_ignored);
    assert!(!fns[2].is_ignored);
}

#[test]
fn test_branching_in_callback_closure_is_not_counted() {
    // completion handler の中のレスポンスパース分岐はテスト本流の分岐ではない (#16)
    let source = r#"
import XCTest

final class T: XCTestCase {
    func testCallbackParsing() {
        var completedFound = false
        let expectation = expectation(description: "verify")
        URLSession.shared.dataTask(with: request) { data, _, _ in
            if let data,
               let array = try? JSONSerialization.jsonObject(with: data) as? [[String: Any]] {
                completedFound = array.isEmpty == false
            }
            expectation.fulfill()
        }.resume()
        wait(for: [expectation], timeout: 15)
        XCTAssertTrue(completedFound, "完了が反映されるべき")
    }
}
"#;
    let fns = parse(source);
    assert!(!fns[0].has_branching);
    assert!(!fns[0].has_conditional);
    // コールバックの中でもアサーションは数える
    assert!(fns[0].has_assertion);
}

#[test]
fn test_branching_in_sync_closure_is_counted() {
    let source = r#"
import Testing

@Test func forEachWithIf() {
    items.forEach { item in
        if !item.isEmpty {
            #expect(item.isValid)
        }
    }
}

@Test func nestedCallbackWins() {
    URLSession.shared.dataTask(with: request) { data, _, _ in
        items.forEach { item in
            if item.isEmpty { count += 1 }
        }
    }.resume()
    #expect(count == 0)
}
"#;
    let fns = parse(source);
    // forEach はその場で同期実行される = 本流の分岐として数える
    assert!(fns[0].has_branching);
    // コールバックの中の forEach は外側のコールバック扱いが勝つ
    assert!(!fns[1].has_branching);
}

#[test]
fn test_silent_skip_detected_anywhere_in_body() {
    // 先頭の3文に限らず、本文の後ろにある guard-else-return も拾う
    let source = r#"
import Testing

@Test func lateGuard() {
    let vm = makeViewModel()
    vm.name = "散歩"
    vm.load()
    #expect(vm.isReady)
    guard calendar.isDate(later, inSameDayAs: Date()) else { return }
    #expect(vm.fireAt != nil)
}
"#;
    let fns = parse(source);
    assert!(fns[0].has_early_return);
}

#[test]
fn swift_test_conditional_logic() {
    let source = r#"
import Testing

@Test func withIf() {
    if cond { #expect(a) } else { #expect(b) }
}

@Test func withFor() {
    for item in items { #expect(item.isValid) }
}

@Test func withWhile() {
    while !done { poll() }
    #expect(done)
}

@Test func withSwitch() {
    switch mode {
    case .a: #expect(true)
    default: #expect(false)
    }
}

@Test func withGuardOnly() {
    guard let x = opt else { Issue.record("nil"); return }
    #expect(x == 1)
}
"#;
    let fns = parse(source);
    assert!(fns[0].has_branching);
    assert!(!fns[0].has_while_loop);
    assert!(fns[1].has_for_loop);
    assert!(fns[1].has_assertion_in_loop);
    assert!(fns[2].has_conditional);
    assert!(fns[2].has_while_loop);
    assert!(fns[3].has_branching);
    // guard は条件分岐に数えない
    assert!(!fns[4].has_conditional);
}

#[test]
fn test_redundant_print() {
    let source = r#"
import Testing

@Test func printy() {
    print("hi")
    #expect(true)
}

@Test func quiet() {
    #expect(true)
}
"#;
    let fns = parse(source);
    assert!(fns[0].has_print);
    assert!(!fns[1].has_print);
}

#[test]
fn swift_test_magic_numbers() {
    let source = r#"
import Testing

@Test func magic() {
    #expect(calculate() == 12345)
}

@Test func smallNumbers() {
    #expect(count == 3)
}
"#;
    let fns = parse(source);
    assert_eq!(fns[0].magic_numbers.len(), 1);
    assert_eq!(fns[0].magic_numbers[0].0, 12345);
    assert_eq!(fns[1].magic_numbers.len(), 0);
}

#[test]
fn test_timeout_label_is_not_magic_number() {
    let source = r#"
import XCTest

final class UITests: XCTestCase {
    func testWaits() {
        XCTAssertTrue(app.buttons["ok"].waitForExistence(timeout: 30))
    }
}
"#;
    let fns = parse(source);
    assert_eq!(fns[0].magic_numbers.len(), 0);
}

#[test]
fn test_bare_date_is_not_timeout_dependency() {
    let source = r#"
import Testing

@Test func fixtureDates() {
    let r = Reminder(createdAt: Date(), updatedAt: Date())
    #expect(r.isActive)
}

@Test func timeArithmetic() {
    let later = Date().addingTimeInterval(3600)
    #expect(later > Date())
}
"#;
    let fns = parse(source);
    assert!(!fns[0].has_timeout_dependency);
    assert!(fns[1].has_timeout_dependency);
}

#[test]
fn test_xcuitest_flavor() {
    let ui = r#"
import XCTest

final class FlowUITests: XCTestCase {
    func testFlow() {
        let app = XCUIApplication()
        XCTAssertTrue(app.buttons["ok"].exists)
    }
}
"#;
    let tf = SwiftParser.parse("FlowUITests.swift", ui).unwrap();
    assert_eq!(tf.flavor.as_deref(), Some("xcuitest"));

    let unit = "import Testing\n@Test func a() { #expect(true) }\n";
    let tf = SwiftParser.parse("FooTests.swift", unit).unwrap();
    assert_eq!(tf.flavor, None);
}

#[test]
fn test_body_line_count() {
    let source = r#"
import Testing

@Test func short() {
    #expect(true)
}
"#;
    let fns = parse(source);
    assert_eq!(fns[0].body_line_count, 3);
}
