//! Swift front end (Swift Testing `@Test` and XCTest `func testXxx()`),
//! over a tree-sitter tree.
use vstd::prelude::*;
use crate::languages::LanguageParser;
use crate::host::{components_of, file_name, file_name_of, lowercase, lowercase_of, path_components};
use crate::languages::python::{
    row_span, row_span_exec, strip_ats, strip_ats_exec, text_chars,
};
use crate::model::smell::{bump, bump_exec, opt_view, FunctionView, TestFile, TestFunction};
use crate::syntax::{agrees, child_of_kind, lemma_child_smaller, lemma_kind_child_smaller, node_size, SyntaxNode};
use crate::text::{
    chars_of, contains, contains_str, ends_with, ends_with_str, equals_str, one_of, one_of_exec,
    parse_i64, parse_i64_exec, remove_char, remove_char_exec, rfind_char, rfind_char_exec,
    slice_chars, starts_with, starts_with_str, string_of, trim, trim_chars,
};
use crate::ts_bridge::{parse_tree, swift_tree_of, Grammar};

verus! {

/// Node kinds whose insides run at another time: closures and nested functions.
pub const OTHER_SCOPES: [&'static str; 2] = ["lambda_literal", "function_declaration"];

/// Node kinds an `XCTSkip` search does not enter.
pub const SKIP_SEARCH_STOPS: [&'static str; 8] = [
    "lambda_literal",
    "function_declaration",
    "if_statement",
    "guard_statement",
    "switch_statement",
    "while_statement",
    "repeat_while_statement",
    "for_statement",
];

/// Statement kinds whose contents run only under a condition.
pub const CONDITIONAL_STATEMENTS: [&'static str; 7] = [
    "if_statement",
    "guard_statement",
    "switch_statement",
    "while_statement",
    "repeat_while_statement",
    "for_statement",
    "do_statement",
];

/// String literal kinds, whose contents are never magic numbers.
pub const STRING_LITERALS: [&'static str; 3] = [
    "line_string_literal",
    "multi_line_string_literal",
    "raw_string_literal",
];

/// Argument labels whose numbers configure waiting rather than state expectations.
pub const NON_MAGIC_LABELS: [&'static str; 8] = [
    "timeout",
    "forTimeInterval",
    "nanoseconds",
    "microseconds",
    "milliseconds",
    "seconds",
    "until",
    "deadline",
];

/// Methods known to run the closure they are given at once, in the caller's flow.
pub const SYNC_CLOSURE_METHODS: [&'static str; 18] = [
    "forEach",
    "map",
    "compactMap",
    "flatMap",
    "filter",
    "reduce",
    "sorted",
    "contains",
    "allSatisfy",
    "first",
    "firstIndex",
    "min",
    "max",
    "partition",
    "withKnownIssue",
    "confirmation",
    "measure",
    "runActivity",
];

/// XCTest assertions that take one value and report only true or false.
pub const BOOLEAN_ASSERTS: [&'static str; 8] = [
    "XCTAssert",
    "XCTAssertTrue",
    "XCTAssertFalse",
    "XCTAssertNil",
    "XCTAssertNotNil",
    "XCTAssertThrowsError",
    "XCTAssertNoThrow",
    "XCTUnwrap",
];

/// XCTest assertions that compare two values and show both on failure.
pub const COMPARING_ASSERTS: [&'static str; 8] = [
    "XCTAssertEqual",
    "XCTAssertNotEqual",
    "XCTAssertIdentical",
    "XCTAssertNotIdentical",
    "XCTAssertGreaterThan",
    "XCTAssertGreaterThanOrEqual",
    "XCTAssertLessThan",
    "XCTAssertLessThanOrEqual",
];

/// Calls that print.
pub const PRINT_CALLS: [&'static str; 5] = ["print", "debugPrint", "dump", "NSLog", "os_log"];

/// Calls that take part in time arithmetic.
pub const TIME_ARITHMETIC: [&'static str; 5] = [
    "addingTimeInterval",
    "timeIntervalSince",
    "timeIntervalSinceNow",
    "timeIntervalSince1970",
    "distance",
];

/// How an XCTest assertion reports a failure.
pub enum AssertStyle {
    /// It shows the expected and the actual value.
    ShowsValues,
    /// It shows only that a condition failed.
    BooleanOnly,
}

/// The shape of an XCTest assertion: its value arguments (a message may
/// follow them) and its style.
pub struct AssertKind {
    pub value_args: usize,
    pub style: AssertStyle,
}

/// The XCTest assertion that `method` names, if any.
pub open spec fn xctest_kind(method: Seq<char>) -> Option<AssertKind> {
    if method == "XCTFail"@ {
        Some(AssertKind { value_args: 0, style: AssertStyle::BooleanOnly })
    } else if one_of(method, BOOLEAN_ASSERTS@) {
        Some(AssertKind { value_args: 1, style: AssertStyle::BooleanOnly })
    } else if one_of(method, COMPARING_ASSERTS@) {
        Some(AssertKind { value_args: 2, style: AssertStyle::ShowsValues })
    } else if method == "XCTAssertEqualWithAccuracy"@ {
        Some(AssertKind { value_args: 3, style: AssertStyle::ShowsValues })
    } else {
        None
    }
}

/// The method a callee's text names: the part after its last `.`, trimmed.
pub open spec fn method_of(callee: Seq<char>) -> Seq<char> {
    trim(
        match rfind_char(callee, '.') {
            Some(i) => callee.subrange(i + 1, callee.len() as int),
            None => callee,
        },
    )
}

/// The text of the callee of a call (its first child), if it has one.
pub open spec fn callee_of(call: SyntaxNode) -> Option<Seq<char>> {
    if call.children@.len() > 0 {
        Some(call.children@[0].text@)
    } else {
        None
    }
}

/// The number of nodes of kind `kind` among `cs`.
pub open spec fn count_kind(cs: Seq<SyntaxNode>, kind: Seq<char>) -> nat
    decreases cs.len(),
{
    if cs.len() == 0 {
        0
    } else {
        count_kind(cs.drop_last(), kind) + if cs.last().kind@ == kind {
            1nat
        } else {
            0nat
        }
    }
}

/// The argument list of a call or macro: `value_arguments` under `call_suffix`.
pub open spec fn value_arguments(n: SyntaxNode) -> Option<SyntaxNode> {
    match child_of_kind(n, "call_suffix"@) {
        Some(s) => child_of_kind(s, "value_arguments"@),
        None => None,
    }
}

/// The number of arguments of a call or macro.
pub open spec fn argument_count(n: SyntaxNode) -> nat {
    match value_arguments(n) {
        Some(a) => count_kind(a.children@, "value_argument"@),
        None => 0,
    }
}

/// The label of an argument, if it has one.
pub open spec fn argument_label(arg: SyntaxNode) -> Option<Seq<char>> {
    match child_of_kind(arg, "value_argument_label"@) {
        Some(l) => Some(l.text@),
        None => None,
    }
}

/// Whether a call passes an argument labelled `label`.
pub open spec fn has_argument_label(call: SyntaxNode, label: Seq<char>) -> bool {
    match value_arguments(call) {
        Some(a) => exists|i: int|
            0 <= i < a.children@.len() && (#[trigger] a.children@[i]).kind@ == "value_argument"@
                && argument_label(a.children@[i]) == Some(label),
        None => false,
    }
}

/// The magic number an integer literal holds, if it is one: its value, with
/// `_` separators removed, outside -10..=10, with its 1-based line.
pub open spec fn magic_of_literal(n: SyntaxNode) -> Seq<(i64, usize)> {
    match parse_i64(remove_char(n.text@, '_')) {
        Some(v) => if -10 <= v <= 10 {
            Seq::empty()
        } else {
            seq![(v, bump(n.start_row))]
        },
        None => Seq::empty(),
    }
}

/// Whether node `n` is an argument whose label says it configures waiting.
pub open spec fn is_wait_argument(n: SyntaxNode) -> bool {
    n.kind@ == "value_argument"@ && match argument_label(n) {
        Some(l) => one_of(l, NON_MAGIC_LABELS@),
        None => false,
    }
}

/// The magic numbers in the tree at `n`, in order; string literals and
/// waiting arguments are not searched.
pub open spec fn magic_of(n: SyntaxNode) -> Seq<(i64, usize)>
    decreases node_size(n), n.children@.len() + 1,
{
    if one_of(n.kind@, STRING_LITERALS@) || is_wait_argument(n) {
        Seq::empty()
    } else if n.kind@ == "integer_literal"@ {
        magic_of_literal(n)
    } else {
        magic_kids(n, n.children@.len() as int)
    }
}

/// The magic numbers in the trees of the first `k` children of `n`.
pub open spec fn magic_kids(n: SyntaxNode, k: int) -> Seq<(i64, usize)>
    decreases node_size(n), k,
{
    if k <= 0 || k > n.children@.len() {
        Seq::empty()
    } else {
        proof {
            lemma_child_smaller(n, k - 1);
        }
        magic_kids(n, k - 1) + magic_of(n.children@[k - 1])
    }
}

/// What the scan of a function body has found so far.
pub struct SwInfo {
    pub assertion_count: usize,
    pub assert_only_count: usize,
    pub assertions_without_message: usize,
    pub assert_only_without_message: usize,
    pub has_sleep: bool,
    pub has_print: bool,
    pub has_if: bool,
    pub has_switch: bool,
    pub has_for: bool,
    pub has_while: bool,
    pub has_explicit_wait: bool,
    pub has_clock_read: bool,
    pub has_time_arithmetic: bool,
    pub has_assertion_in_loop: bool,
    pub magic_numbers: Seq<(i64, usize)>,
}

/// The scan state before anything is found.
pub open spec fn fresh_info() -> SwInfo {
    SwInfo {
        assertion_count: 0,
        assert_only_count: 0,
        assertions_without_message: 0,
        assert_only_without_message: 0,
        has_sleep: false,
        has_print: false,
        has_if: false,
        has_switch: false,
        has_for: false,
        has_while: false,
        has_explicit_wait: false,
        has_clock_read: false,
        has_time_arithmetic: false,
        has_assertion_in_loop: false,
        magic_numbers: Seq::empty(),
    }
}

/// `info` after one more assertion, found inside a loop when `in_loop`.
pub open spec fn note_assert(info: SwInfo, in_loop: bool) -> SwInfo {
    SwInfo {
        assertion_count: bump(info.assertion_count),
        has_assertion_in_loop: info.has_assertion_in_loop || in_loop,
        ..info
    }
}

/// The effect of an XCTest assertion of kind `kind` with `args` arguments.
pub open spec fn xctest_effect(kind: AssertKind, args: nat, call: SyntaxNode, info: SwInfo, in_loop: bool) -> SwInfo {
    let i1 = note_assert(info, in_loop);
    let has_message = args > kind.value_args;
    let i2 = match kind.style {
        AssertStyle::BooleanOnly => {
            let j = SwInfo { assert_only_count: bump(i1.assert_only_count), ..i1 };
            if !has_message {
                SwInfo { assert_only_without_message: bump(j.assert_only_without_message), ..j }
            } else {
                j
            }
        },
        AssertStyle::ShowsValues => if !has_message {
            SwInfo { assertions_without_message: bump(i1.assertions_without_message), ..i1 }
        } else {
            i1
        },
    };
    SwInfo { magic_numbers: i2.magic_numbers + magic_of(call), ..i2 }
}

/// The effect of a call that is not an XCTest assertion, by its method.
pub open spec fn other_call_effect(
    callee: Seq<char>,
    method: Seq<char>,
    call: SyntaxNode,
    info: SwInfo,
    in_loop: bool,
) -> SwInfo {
    if method == "record"@ && starts_with(callee, "Issue."@) {
        let i1 = note_assert(info, in_loop);
        SwInfo { assert_only_count: bump(i1.assert_only_count), ..i1 }
    } else if method == "withKnownIssue"@ || method == "confirmation"@ {
        note_assert(info, in_loop)
    } else if method == "sleep"@ || method == "usleep"@ {
        SwInfo { has_sleep: true, ..info }
    } else if method == "run"@ && contains(callee, "RunLoop"@) {
        SwInfo { has_sleep: true, has_explicit_wait: true, ..info }
    } else if one_of(method, PRINT_CALLS@) {
        SwInfo { has_print: true, ..info }
    } else if method == "waitForExistence"@ || method == "waitForNonExistence"@ {
        SwInfo { has_explicit_wait: true, ..info }
    } else if method == "wait"@ || method == "waitForExpectations"@ || method == "fulfillment"@ {
        if has_argument_label(call, "timeout"@) {
            SwInfo { has_explicit_wait: true, ..info }
        } else {
            info
        }
    } else if method == "now"@ && (starts_with(callee, "DispatchTime"@) || starts_with(callee, "Date"@)) {
        SwInfo { has_clock_read: true, ..info }
    } else if method == "CFAbsoluteTimeGetCurrent"@ {
        SwInfo { has_clock_read: true, ..info }
    } else if method == "Date"@ {
        if argument_count(call) == 0 {
            SwInfo { has_clock_read: true, ..info }
        } else {
            info
        }
    } else if one_of(method, TIME_ARITHMETIC@) {
        SwInfo { has_time_arithmetic: true, ..info }
    } else {
        info
    }
}

/// The effect of a call node on the scan.
pub open spec fn call_effect(call: SyntaxNode, info: SwInfo, in_loop: bool) -> SwInfo {
    match callee_of(call) {
        None => info,
        Some(callee) => {
            let method = method_of(callee);
            match xctest_kind(method) {
                Some(kind) => xctest_effect(kind, argument_count(call), call, info, in_loop),
                None => other_call_effect(callee, method, call, info, in_loop),
            }
        },
    }
}

/// The name of a macro invocation (`expect` for `#expect(...)`), if any.
pub open spec fn macro_name(n: SyntaxNode) -> Option<Seq<char>> {
    match child_of_kind(n, "simple_identifier"@) {
        Some(id) => Some(id.text@),
        None => None,
    }
}

/// The effect of a macro invocation on the scan: `#expect` and `#require` assert.
pub open spec fn macro_effect(n: SyntaxNode, info: SwInfo, in_loop: bool) -> SwInfo {
    match macro_name(n) {
        Some(name) => if name == "expect"@ || name == "require"@ {
            let i1 = note_assert(info, in_loop);
            let i2 = if argument_count(n) < 2 {
                SwInfo { assertions_without_message: bump(i1.assertions_without_message), ..i1 }
            } else {
                i1
            };
            SwInfo { magic_numbers: i2.magic_numbers + magic_of(n), ..i2 }
        } else {
            info
        },
        None => info,
    }
}

/// Whether a call runs the closure it is given at once.
pub open spec fn is_sync_closure_call(call: SyntaxNode) -> bool {
    match callee_of(call) {
        Some(callee) => one_of(method_of(callee), SYNC_CLOSURE_METHODS@),
        None => false,
    }
}

/// Where the scan stands: inside a loop, inside a callback closure, and
/// whether the next closure met is a callback.
#[derive(Clone, Copy)]
pub struct WalkCtx {
    pub in_loop: bool,
    pub in_callback: bool,
    pub lambda_is_callback: bool,
}

/// The scan context at the top of a function body.
pub open spec fn body_ctx() -> WalkCtx {
    WalkCtx { in_loop: false, in_callback: false, lambda_is_callback: true }
}

/// The scan of node `c`: branches and loops are noted outside callbacks,
/// assertions and other calls everywhere.
pub open spec fn walk_node(c: SyntaxNode, info: SwInfo, ctx: WalkCtx) -> SwInfo
    decreases node_size(c), c.children@.len() + 1,
{
    let k = c.children@.len() as int;
    let outside = !ctx.in_callback;
    if c.kind@ == "if_statement"@ {
        walk_kids(c, k, SwInfo { has_if: info.has_if || outside, ..info }, ctx)
    } else if c.kind@ == "switch_statement"@ {
        walk_kids(c, k, SwInfo { has_switch: info.has_switch || outside, ..info }, ctx)
    } else if c.kind@ == "for_statement"@ {
        walk_kids(
            c,
            k,
            SwInfo { has_for: info.has_for || outside, ..info },
            WalkCtx { in_loop: ctx.in_loop || outside, ..ctx },
        )
    } else if c.kind@ == "while_statement"@ || c.kind@ == "repeat_while_statement"@ {
        walk_kids(
            c,
            k,
            SwInfo { has_while: info.has_while || outside, ..info },
            WalkCtx { in_loop: ctx.in_loop || outside, ..ctx },
        )
    } else if c.kind@ == "macro_invocation"@ {
        walk_kids(c, k, macro_effect(c, info, ctx.in_loop), ctx)
    } else if c.kind@ == "call_expression"@ {
        walk_kids(
            c,
            k,
            call_effect(c, info, ctx.in_loop),
            WalkCtx { lambda_is_callback: !is_sync_closure_call(c), ..ctx },
        )
    } else if c.kind@ == "lambda_literal"@ {
        walk_kids(
            c,
            k,
            info,
            WalkCtx {
                in_loop: ctx.in_loop,
                in_callback: ctx.in_callback || ctx.lambda_is_callback,
                lambda_is_callback: true,
            },
        )
    } else {
        walk_kids(c, k, info, ctx)
    }
}

/// The scan over the first `k` children of `n`.
pub open spec fn walk_kids(n: SyntaxNode, k: int, info: SwInfo, ctx: WalkCtx) -> SwInfo
    decreases node_size(n), k,
{
    if k <= 0 || k > n.children@.len() {
        info
    } else {
        proof {
            lemma_child_smaller(n, k - 1);
        }
        walk_node(n.children@[k - 1], walk_kids(n, k - 1, info, ctx), ctx)
    }
}

/// Whether two scan states agree on the branch and loop flags.
pub open spec fn same_branches(a: SwInfo, b: SwInfo) -> bool {
    a.has_if == b.has_if && a.has_switch == b.has_switch && a.has_for == b.has_for && a.has_while
        == b.has_while
}

/// Inside a callback closure no branch or loop is noted: the scan of any
/// node there leaves the branch and loop flags as they were.
#[verifier::rlimit(80)]
pub proof fn lemma_callback_adds_no_branches(c: SyntaxNode, info: SwInfo, ctx: WalkCtx)
    requires
        ctx.in_callback,
    ensures
        same_branches(walk_node(c, info, ctx), info),
    decreases node_size(c), c.children@.len() + 1,
{
    let k = c.children@.len() as int;
    let outside = !ctx.in_callback;
    if c.kind@ == "if_statement"@ {
        let i1 = SwInfo { has_if: info.has_if || outside, ..info };
        lemma_callback_kids_add_no_branches(c, k, i1, ctx);
    } else if c.kind@ == "switch_statement"@ {
        let i1 = SwInfo { has_switch: info.has_switch || outside, ..info };
        lemma_callback_kids_add_no_branches(c, k, i1, ctx);
    } else if c.kind@ == "for_statement"@ {
        let i1 = SwInfo { has_for: info.has_for || outside, ..info };
        lemma_callback_kids_add_no_branches(c, k, i1, WalkCtx { in_loop: ctx.in_loop || outside, ..ctx });
    } else if c.kind@ == "while_statement"@ || c.kind@ == "repeat_while_statement"@ {
        let i1 = SwInfo { has_while: info.has_while || outside, ..info };
        lemma_callback_kids_add_no_branches(c, k, i1, WalkCtx { in_loop: ctx.in_loop || outside, ..ctx });
    } else if c.kind@ == "macro_invocation"@ {
        let i1 = macro_effect(c, info, ctx.in_loop);
        lemma_macro_effect_keeps_branches(c, info, ctx.in_loop);
        lemma_callback_kids_add_no_branches(c, k, i1, ctx);
    } else if c.kind@ == "call_expression"@ {
        let i1 = call_effect(c, info, ctx.in_loop);
        lemma_call_effect_keeps_branches(c, info, ctx.in_loop);
        lemma_callback_kids_add_no_branches(
            c,
            k,
            i1,
            WalkCtx { lambda_is_callback: !is_sync_closure_call(c), ..ctx },
        );
    } else if c.kind@ == "lambda_literal"@ {
        lemma_callback_kids_add_no_branches(
            c,
            k,
            info,
            WalkCtx {
                in_loop: ctx.in_loop,
                in_callback: ctx.in_callback || ctx.lambda_is_callback,
                lambda_is_callback: true,
            },
        );
    } else {
        lemma_callback_kids_add_no_branches(c, k, info, ctx);
    }
}

proof fn lemma_macro_effect_keeps_branches(n: SyntaxNode, info: SwInfo, in_loop: bool)
    ensures
        same_branches(macro_effect(n, info, in_loop), info),
{
}

proof fn lemma_call_effect_keeps_branches(call: SyntaxNode, info: SwInfo, in_loop: bool)
    ensures
        same_branches(call_effect(call, info, in_loop), info),
{
    if let Some(callee) = callee_of(call) {
        let method = method_of(callee);
        if let Some(kind) = xctest_kind(method) {
            assert(same_branches(xctest_effect(kind, argument_count(call), call, info, in_loop), info));
        } else {
            assert(same_branches(other_call_effect(callee, method, call, info, in_loop), info));
        }
    }
}

proof fn lemma_callback_kids_add_no_branches(n: SyntaxNode, k: int, info: SwInfo, ctx: WalkCtx)
    requires
        ctx.in_callback,
    ensures
        same_branches(walk_kids(n, k, info, ctx), info),
    decreases node_size(n), k,
{
    if 0 < k <= n.children@.len() {
        lemma_child_smaller(n, k - 1);
        lemma_callback_kids_add_no_branches(n, k - 1, info, ctx);
        lemma_callback_adds_no_branches(n.children@[k - 1], walk_kids(n, k - 1, info, ctx), ctx);
    }
}

/// Whether the tree at `n` holds a `return` outside closures and nested functions.
pub open spec fn returns_in(n: SyntaxNode) -> bool
    decreases node_size(n), n.children@.len() + 1,
{
    if n.kind@ == "control_transfer_statement"@ {
        exists|i: int| 0 <= i < n.children@.len() && (#[trigger] n.children@[i]).kind@ == "return"@
    } else {
        returns_kids(n, n.children@.len() as int)
    }
}

/// Whether one of the first `k` children of `n` (not a closure or nested
/// function) holds a `return`.
pub open spec fn returns_kids(n: SyntaxNode, k: int) -> bool
    decreases node_size(n), k,
{
    if k <= 0 || k > n.children@.len() {
        false
    } else {
        proof {
            lemma_child_smaller(n, k - 1);
        }
        let c = n.children@[k - 1];
        returns_kids(n, k - 1) || (!one_of(c.kind@, OTHER_SCOPES@) && returns_in(c))
    }
}

/// Whether node `n` itself reports a test failure: `#expect`, `#require`,
/// an `XCTAssert…`, `XCTFail`, `XCTUnwrap` or `Issue.record`.
pub open spec fn reports_here(n: SyntaxNode) -> bool {
    if n.kind@ == "macro_invocation"@ {
        match macro_name(n) {
            Some(name) => name == "expect"@ || name == "require"@,
            None => false,
        }
    } else if n.kind@ == "call_expression"@ {
        match callee_of(n) {
            Some(callee) => {
                let m = method_of(callee);
                starts_with(m, "XCTAssert"@) || m == "XCTFail"@ || m == "XCTUnwrap"@ || (m
                    == "record"@ && starts_with(callee, "Issue."@))
            },
            None => false,
        }
    } else {
        false
    }
}

/// Whether the tree at `n` reports a test failure outside closures and nested functions.
pub open spec fn fails_in(n: SyntaxNode) -> bool
    decreases node_size(n), n.children@.len() + 1,
{
    reports_here(n) || fails_kids(n, n.children@.len() as int)
}

/// Whether one of the first `k` children of `n` (not a closure or nested
/// function) reports a test failure.
pub open spec fn fails_kids(n: SyntaxNode, k: int) -> bool
    decreases node_size(n), k,
{
    if k <= 0 || k > n.children@.len() {
        false
    } else {
        proof {
            lemma_child_smaller(n, k - 1);
        }
        let c = n.children@[k - 1];
        fails_kids(n, k - 1) || (!one_of(c.kind@, OTHER_SCOPES@) && fails_in(c))
    }
}

/// Whether the tree at `n` calls `XCTSkip` outside branches, loops, closures
/// and nested functions.
pub open spec fn skip_in(n: SyntaxNode) -> bool
    decreases node_size(n), n.children@.len() + 1,
{
    (n.kind@ == "call_expression"@ && match callee_of(n) {
        Some(callee) => method_of(callee) == "XCTSkip"@,
        None => false,
    }) || skip_kids(n, n.children@.len() as int)
}

/// Whether one of the first `k` children of `n` that the search enters calls `XCTSkip`.
pub open spec fn skip_kids(n: SyntaxNode, k: int) -> bool
    decreases node_size(n), k,
{
    if k <= 0 || k > n.children@.len() {
        false
    } else {
        proof {
            lemma_child_smaller(n, k - 1);
        }
        let c = n.children@[k - 1];
        skip_kids(n, k - 1) || (!one_of(c.kind@, SKIP_SEARCH_STOPS@) && skip_in(c))
    }
}

/// Whether a statement list has an unconditional `throw XCTSkip(...)`: a
/// statement outside any branch or loop that calls `XCTSkip`.
pub open spec fn unconditional_skip(statements: SyntaxNode) -> bool {
    exists|i: int|
        0 <= i < statements.children@.len() && !one_of(
            (#[trigger] statements.children@[i]).kind@,
            CONDITIONAL_STATEMENTS@,
        ) && skip_in(statements.children@[i])
}

/// Whether node `c` leaves the test silently: a `guard` or `if` that returns
/// without reporting a failure, at any depth outside closures and nested functions.
pub open spec fn silent_node(c: SyntaxNode) -> bool
    decreases node_size(c), c.children@.len() + 1,
{
    if one_of(c.kind@, OTHER_SCOPES@) {
        false
    } else if c.kind@ == "guard_statement"@ || c.kind@ == "if_statement"@ {
        (returns_in(c) && !fails_in(c)) || silent_kids(c, c.children@.len() as int)
    } else {
        silent_kids(c, c.children@.len() as int)
    }
}

/// Whether one of the first `k` children of `n` leaves the test silently.
pub open spec fn silent_kids(n: SyntaxNode, k: int) -> bool
    decreases node_size(n), k,
{
    if k <= 0 || k > n.children@.len() {
        false
    } else {
        proof {
            lemma_child_smaller(n, k - 1);
        }
        silent_kids(n, k - 1) || silent_node(n.children@[k - 1])
    }
}

/// Whether a child of a statement list is a statement: named, and not a comment.
pub open spec fn is_statement(c: SyntaxNode) -> bool {
    c.is_named && c.kind@ != "comment"@ && c.kind@ != "multiline_comment"@
}

/// The facts of the test function `name` declared at `line` with body
/// `body`, ignored by an attribute when `ignored_by_attribute`.
pub open spec fn analyze_function(
    name: Seq<char>,
    line: usize,
    body: SyntaxNode,
    ignored_by_attribute: bool,
) -> FunctionView {
    let st = child_of_kind(body, "statements"@);
    let info = match st {
        Some(s) => walk_kids(s, s.children@.len() as int, fresh_info(), body_ctx()),
        None => fresh_info(),
    };
    FunctionView {
        name,
        line,
        body_source: body.text@,
        is_ignored: ignored_by_attribute || match st {
            Some(s) => unconditional_skip(s),
            None => false,
        },
        has_assertion: info.assertion_count > 0,
        has_sleep: info.has_sleep,
        has_conditional: info.has_if || info.has_switch || info.has_for || info.has_while,
        has_branching: info.has_if || info.has_switch,
        has_for_loop: info.has_for,
        has_while_loop: info.has_while,
        has_assertion_in_loop: info.has_assertion_in_loop,
        has_print: info.has_print,
        is_empty: match st {
            Some(s) => forall|i: int| 0 <= i < s.children@.len() ==> !is_statement(#[trigger] s.children@[i]),
            None => true,
        },
        assertion_count: info.assertion_count,
        assert_only_count: info.assert_only_count,
        assertions_without_message: info.assertions_without_message,
        assert_only_without_message: info.assert_only_without_message,
        magic_numbers: info.magic_numbers,
        has_early_return: match st {
            Some(s) => silent_kids(s, s.children@.len() as int),
            None => false,
        },
        has_timeout_dependency: info.has_explicit_wait || (info.has_clock_read
            && info.has_time_arithmetic),
        body_line_count: row_span(body),
    }
}

/// Whether `c` separates an attribute's name from what follows it.
pub open spec fn is_attr_sep(c: char) -> bool {
    c == '(' || c == ' ' || c == '\n'
}

/// The index of the first separator in `s`, or `s.len()`.
pub open spec fn sep_index(s: Seq<char>) -> int
    decreases s.len(),
{
    if s.len() == 0 {
        0
    } else if is_attr_sep(s[0]) {
        0
    } else {
        1 + sep_index(s.drop_first())
    }
}

/// The name of an attribute: `Test` for `@Test("…")`.
pub open spec fn attr_name(attr: Seq<char>) -> Seq<char> {
    let t = strip_ats(attr);
    t.take(sep_index(t))
}

/// Whether a declaration carries an attribute whose text satisfies `p`.
pub open spec fn has_attribute(decl: SyntaxNode, p: spec_fn(Seq<char>) -> bool) -> bool {
    match child_of_kind(decl, "modifiers"@) {
        Some(m) => exists|i: int|
            0 <= i < m.children@.len() && (#[trigger] m.children@[i]).kind@ == "attribute"@ && p(
                m.children@[i].text@,
            ),
        None => false,
    }
}

/// Whether a declaration carries `@Test`.
pub open spec fn has_test_attribute(decl: SyntaxNode) -> bool {
    has_attribute(decl, |a: Seq<char>| attr_name(a) == "Test"@)
}

/// Whether a declaration carries a `.disabled` trait (`@Test(.disabled(…))`, `@Suite(.disabled)`).
pub open spec fn has_disabled_attribute(decl: SyntaxNode) -> bool {
    has_attribute(decl, |a: Seq<char>| contains(a, ".disabled"@))
}

/// The test function that declaration `decl` declares, if it is one: it
/// carries `@Test`, or it is an XCTest method (in a type of a file that uses
/// XCTest, named `test…`, without parameters); and it has a body.
pub open spec fn function_of(
    decl: SyntaxNode,
    has_xctest: bool,
    type_ignored: bool,
    in_type: bool,
) -> Seq<FunctionView> {
    match child_of_kind(decl, "simple_identifier"@) {
        None => Seq::empty(),
        Some(id) => {
            let name = id.text@;
            let is_swift_testing = has_test_attribute(decl);
            let is_xctest = has_xctest && in_type && starts_with(name, "test"@) && child_of_kind(
                decl,
                "parameter"@,
            ) is None;
            if !is_swift_testing && !is_xctest {
                Seq::empty()
            } else {
                match child_of_kind(decl, "function_body"@) {
                    None => Seq::empty(),
                    Some(body) => {
                        let line = match child_of_kind(decl, "func"@) {
                            Some(f) => bump(f.start_row),
                            None => bump(decl.start_row),
                        };
                        seq![
                            analyze_function(
                                name,
                                line,
                                body,
                                type_ignored || has_disabled_attribute(decl),
                            ),
                        ]
                    },
                }
            }
        },
    }
}

/// The test functions declared by node `c` of a file or type body.
pub open spec fn collect_node(c: SyntaxNode, has_xctest: bool, type_ignored: bool, in_type: bool) -> Seq<
    FunctionView,
>
    decreases node_size(c), c.children@.len() + 1,
{
    if c.kind@ == "function_declaration"@ {
        function_of(c, has_xctest, type_ignored, in_type)
    } else if c.kind@ == "class_declaration"@ || c.kind@ == "protocol_declaration"@ {
        let ignored = type_ignored || has_disabled_attribute(c);
        proof {
            lemma_kind_child_smaller(c, "class_body"@);
        }
        match child_of_kind(c, "class_body"@) {
            Some(b) => collect_kids(b, b.children@.len() as int, has_xctest, ignored, true),
            None => Seq::empty(),
        }
    } else {
        Seq::empty()
    }
}

/// The test functions declared by the first `k` children of `n`.
pub open spec fn collect_kids(
    n: SyntaxNode,
    k: int,
    has_xctest: bool,
    type_ignored: bool,
    in_type: bool,
) -> Seq<FunctionView>
    decreases node_size(n), k,
{
    if k <= 0 || k > n.children@.len() {
        Seq::empty()
    } else {
        proof {
            lemma_child_smaller(n, k - 1);
        }
        collect_kids(n, k - 1, has_xctest, type_ignored, in_type) + collect_node(
            n.children@[k - 1],
            has_xctest,
            type_ignored,
            in_type,
        )
    }
}

/// The test functions of a file whose syntax tree is `root`; `has_xctest`
/// tells whether the file uses XCTest.
pub open spec fn file_tests(root: SyntaxNode, has_xctest: bool) -> Seq<FunctionView> {
    collect_kids(root, root.children@.len() as int, has_xctest, false, false)
}

/// Whether a path names a Swift test file: its file name contains `test`,
/// or one of its components is `tests` or `test` or ends with `tests`, case ignored.
pub open spec fn is_test_path(path: Seq<char>) -> bool {
    let base = lowercase_of(
        match file_name_of(path) {
            Some(n) => n,
            None => Seq::empty(),
        },
    );
    contains(base, "test"@) || exists|i: int|
        0 <= i < components_of(path).len() && {
            let c = lowercase_of(#[trigger] components_of(path)[i]);
            c == "tests"@ || c == "test"@ || ends_with(c, "tests"@)
        }
}

/// The flavour of a Swift test file: `xcuitest` when it drives an app's UI.
pub open spec fn flavor_of(source: Seq<char>) -> Option<Seq<char>> {
    if contains(source, "XCUIApplication"@) || contains(source, "XCUIElement"@) {
        Some("xcuitest"@)
    } else {
        None
    }
}

} // verus!

verus! {

/// The scan state of one function body.
struct SwFacts {
    assertion_count: usize,
    assert_only_count: usize,
    assertions_without_message: usize,
    assert_only_without_message: usize,
    has_sleep: bool,
    has_print: bool,
    has_if: bool,
    has_switch: bool,
    has_for: bool,
    has_while: bool,
    has_explicit_wait: bool,
    has_clock_read: bool,
    has_time_arithmetic: bool,
    has_assertion_in_loop: bool,
    magic_numbers: Vec<(i64, usize)>,
}

impl View for SwFacts {
    type V = SwInfo;

    closed spec fn view(&self) -> SwInfo {
        SwInfo {
            assertion_count: self.assertion_count,
            assert_only_count: self.assert_only_count,
            assertions_without_message: self.assertions_without_message,
            assert_only_without_message: self.assert_only_without_message,
            has_sleep: self.has_sleep,
            has_print: self.has_print,
            has_if: self.has_if,
            has_switch: self.has_switch,
            has_for: self.has_for,
            has_while: self.has_while,
            has_explicit_wait: self.has_explicit_wait,
            has_clock_read: self.has_clock_read,
            has_time_arithmetic: self.has_time_arithmetic,
            has_assertion_in_loop: self.has_assertion_in_loop,
            magic_numbers: self.magic_numbers@,
        }
    }
}

fn fresh_facts() -> (r: SwFacts)
    ensures
        r@ == fresh_info(),
{
    let r = SwFacts {
        assertion_count: 0,
        assert_only_count: 0,
        assertions_without_message: 0,
        assert_only_without_message: 0,
        has_sleep: false,
        has_print: false,
        has_if: false,
        has_switch: false,
        has_for: false,
        has_while: false,
        has_explicit_wait: false,
        has_clock_read: false,
        has_time_arithmetic: false,
        has_assertion_in_loop: false,
        magic_numbers: Vec::new(),
    };
    proof {
        assert(r@.magic_numbers =~= Seq::<(i64, usize)>::empty());
    }
    r
}

fn note_assert_exec(info: &mut SwFacts, in_loop: bool)
    ensures
        final(info)@ == note_assert(old(info)@, in_loop),
{
    info.assertion_count = bump_exec(info.assertion_count);
    info.has_assertion_in_loop = info.has_assertion_in_loop || in_loop;
}

/// The method a callee's text names.
fn method_of_exec(callee: &[char]) -> (r: Vec<char>)
    ensures
        r@ == method_of(callee@),
{
    match rfind_char_exec(callee, '.') {
        Some(i) => {
            let n = callee.len();
            proof {
                assert(i < n);
            }
            let tail = slice_chars(callee, i + 1, n);
            trim_chars(&tail)
        },
        None => trim_chars(callee),
    }
}

/// The text of the callee of a call, if it has one.
fn callee_text(call: &SyntaxNode) -> (r: Option<Vec<char>>)
    ensures
        crate::pattern::opt_chars(r) == callee_of(*call),
{
    if call.children.len() > 0 {
        Some(text_chars(&call.children[0]))
    } else {
        None
    }
}

/// Whether the kind of `n` is one of `kinds`.
fn kind_one_of(n: &SyntaxNode, kinds: &[&str]) -> (r: bool)
    ensures
        r == one_of(n.kind@, kinds@),
{
    let k = chars_of(n.kind.as_str());
    one_of_exec(&k, kinds)
}

/// The number of children of `n` of kind `kind`.
fn count_kind_exec(n: &SyntaxNode, kind: &str) -> (r: usize)
    ensures
        r == count_kind(n.children@, kind@),
{
    let mut c: usize = 0;
    let mut i: usize = 0;
    while i < n.children.len()
        invariant
            i <= n.children@.len(),
            c == count_kind(n.children@.take(i as int), kind@),
            c <= i,
        decreases n.children.len() - i,
    {
        proof {
            assert(n.children@.take(i as int + 1).drop_last() =~= n.children@.take(i as int));
        }
        if n.children[i].is_kind(kind) {
            c += 1;
        }
        i += 1;
    }
    proof {
        assert(n.children@.take(n.children@.len() as int) =~= n.children@);
    }
    c
}

/// The argument list of a call or macro.
fn value_arguments_exec(n: &SyntaxNode) -> (r: Option<&SyntaxNode>)
    ensures
        match r {
            Some(a) => value_arguments(*n) == Some(*a),
            None => value_arguments(*n) is None,
        },
{
    match n.find_child("call_suffix") {
        Some(s) => s.find_child("value_arguments"),
        None => None,
    }
}

/// The number of arguments of a call or macro.
fn argument_count_exec(n: &SyntaxNode) -> (r: usize)
    ensures
        r == argument_count(*n),
{
    match value_arguments_exec(n) {
        Some(a) => count_kind_exec(a, "value_argument"),
        None => 0,
    }
}

/// The label of an argument, if it has one.
fn argument_label_exec(arg: &SyntaxNode) -> (r: Option<Vec<char>>)
    ensures
        crate::pattern::opt_chars(r) == argument_label(*arg),
{
    match arg.find_child("value_argument_label") {
        Some(l) => Some(text_chars(l)),
        None => None,
    }
}

/// Whether a call passes an argument labelled `label`.
fn has_argument_label_exec(call: &SyntaxNode, label: &str) -> (r: bool)
    ensures
        r == has_argument_label(*call, label@),
{
    let a = match value_arguments_exec(call) {
        Some(a) => a,
        None => return false,
    };
    let mut i: usize = 0;
    while i < a.children.len()
        invariant
            i <= a.children@.len(),
            value_arguments(*call) == Some(*a),
            forall|j: int|
                0 <= j < i ==> !((#[trigger] a.children@[j]).kind@ == "value_argument"@
                    && argument_label(a.children@[j]) == Some(label@)),
        decreases a.children.len() - i,
    {
        let c = &a.children[i];
        if c.is_kind("value_argument") {
            match argument_label_exec(c) {
                Some(l) => {
                    if equals_str(&l, label) {
                        proof {
                            assert(a.children@[i as int] == *c);
                        }
                        return true;
                    }
                },
                None => {},
            }
        }
        i += 1;
    }
    false
}

/// Whether node `n` is an argument whose label says it configures waiting.
fn is_wait_argument_exec(n: &SyntaxNode) -> (r: bool)
    ensures
        r == is_wait_argument(*n),
{
    if !n.is_kind("value_argument") {
        return false;
    }
    match argument_label_exec(n) {
        Some(l) => one_of_exec(&l, &NON_MAGIC_LABELS),
        None => false,
    }
}

/// Appends the magic numbers in the tree at `n` to `out`.
fn magic_into(n: &SyntaxNode, out: &mut Vec<(i64, usize)>)
    ensures
        final(out)@ == old(out)@ + magic_of(*n),
    decreases node_size(*n),
{
    let ghost start = out@;
    if kind_one_of(n, &STRING_LITERALS) || is_wait_argument_exec(n) {
        proof {
            assert(start + Seq::<(i64, usize)>::empty() =~= start);
        }
        return ;
    }
    if n.is_kind("integer_literal") {
        let t = text_chars(n);
        let digits = remove_char_exec(&t, '_');
        match parse_i64_exec(&digits) {
            Some(v) => {
                if !(-10 <= v && v <= 10) {
                    out.push((v, bump_exec(n.start_row)));
                }
            },
            None => {},
        }
        proof {
            assert(out@ =~= start + magic_of_literal(*n));
        }
        return ;
    }
    let mut i: usize = 0;
    proof {
        assert(start + Seq::<(i64, usize)>::empty() =~= start);
    }
    while i < n.children.len()
        invariant
            i <= n.children@.len(),
            out@ == start + magic_kids(*n, i as int),
        decreases n.children.len() - i,
    {
        proof {
            lemma_child_smaller(*n, i as int);
        }
        magic_into(&n.children[i], out);
        proof {
            assert(out@ =~= start + magic_kids(*n, i as int + 1));
        }
        i += 1;
    }
}

/// The XCTest assertion that `method` names, if any.
fn xctest_kind_exec(method: &[char]) -> (r: Option<AssertKind>)
    ensures
        r == xctest_kind(method@),
{
    if equals_str(method, "XCTFail") {
        Some(AssertKind { value_args: 0, style: AssertStyle::BooleanOnly })
    } else if one_of_exec(method, &BOOLEAN_ASSERTS) {
        Some(AssertKind { value_args: 1, style: AssertStyle::BooleanOnly })
    } else if one_of_exec(method, &COMPARING_ASSERTS) {
        Some(AssertKind { value_args: 2, style: AssertStyle::ShowsValues })
    } else if equals_str(method, "XCTAssertEqualWithAccuracy") {
        Some(AssertKind { value_args: 3, style: AssertStyle::ShowsValues })
    } else {
        None
    }
}

fn xctest_effect_exec(kind: &AssertKind, args: usize, call: &SyntaxNode, info: &mut SwFacts, in_loop: bool)
    ensures
        final(info)@ == xctest_effect(*kind, args as nat, *call, old(info)@, in_loop),
{
    note_assert_exec(info, in_loop);
    let has_message = args > kind.value_args;
    match kind.style {
        AssertStyle::BooleanOnly => {
            info.assert_only_count = bump_exec(info.assert_only_count);
            if !has_message {
                info.assert_only_without_message = bump_exec(info.assert_only_without_message);
            }
        },
        AssertStyle::ShowsValues => {
            if !has_message {
                info.assertions_without_message = bump_exec(info.assertions_without_message);
            }
        },
    }
    magic_into(call, &mut info.magic_numbers);
}

#[verifier::rlimit(50)]
fn other_call_effect_exec(
    callee: &[char],
    method: &[char],
    call: &SyntaxNode,
    info: &mut SwFacts,
    in_loop: bool,
)
    ensures
        final(info)@ == other_call_effect(callee@, method@, *call, old(info)@, in_loop),
{
    if equals_str(method, "record") && starts_with_str(callee, "Issue.") {
        note_assert_exec(info, in_loop);
        info.assert_only_count = bump_exec(info.assert_only_count);
    } else if equals_str(method, "withKnownIssue") || equals_str(method, "confirmation") {
        note_assert_exec(info, in_loop);
    } else if equals_str(method, "sleep") || equals_str(method, "usleep") {
        info.has_sleep = true;
    } else if equals_str(method, "run") && contains_str(callee, "RunLoop") {
        info.has_sleep = true;
        info.has_explicit_wait = true;
    } else if one_of_exec(method, &PRINT_CALLS) {
        info.has_print = true;
    } else if equals_str(method, "waitForExistence") || equals_str(method, "waitForNonExistence") {
        info.has_explicit_wait = true;
    } else if equals_str(method, "wait") || equals_str(method, "waitForExpectations") || equals_str(
        method,
        "fulfillment",
    ) {
        if has_argument_label_exec(call, "timeout") {
            info.has_explicit_wait = true;
        }
    } else if equals_str(method, "now") && (starts_with_str(callee, "DispatchTime") || starts_with_str(
        callee,
        "Date",
    )) {
        info.has_clock_read = true;
    } else if equals_str(method, "CFAbsoluteTimeGetCurrent") {
        info.has_clock_read = true;
    } else if equals_str(method, "Date") {
        if argument_count_exec(call) == 0 {
            info.has_clock_read = true;
        }
    } else if one_of_exec(method, &TIME_ARITHMETIC) {
        info.has_time_arithmetic = true;
    }
}

fn call_effect_exec(call: &SyntaxNode, info: &mut SwFacts, in_loop: bool)
    ensures
        final(info)@ == call_effect(*call, old(info)@, in_loop),
{
    let callee = match callee_text(call) {
        Some(c) => c,
        None => return ,
    };
    let method = method_of_exec(&callee);
    match xctest_kind_exec(&method) {
        Some(kind) => {
            let args = argument_count_exec(call);
            xctest_effect_exec(&kind, args, call, info, in_loop);
        },
        None => other_call_effect_exec(&callee, &method, call, info, in_loop),
    }
}

/// The name of a macro invocation, if any.
fn macro_name_exec(n: &SyntaxNode) -> (r: Option<Vec<char>>)
    ensures
        crate::pattern::opt_chars(r) == macro_name(*n),
{
    match n.find_child("simple_identifier") {
        Some(id) => Some(text_chars(id)),
        None => None,
    }
}

fn macro_effect_exec(n: &SyntaxNode, info: &mut SwFacts, in_loop: bool)
    ensures
        final(info)@ == macro_effect(*n, old(info)@, in_loop),
{
    let name = match macro_name_exec(n) {
        Some(nm) => nm,
        None => return ,
    };
    if !(equals_str(&name, "expect") || equals_str(&name, "require")) {
        return ;
    }
    note_assert_exec(info, in_loop);
    if argument_count_exec(n) < 2 {
        info.assertions_without_message = bump_exec(info.assertions_without_message);
    }
    magic_into(n, &mut info.magic_numbers);
}

/// Whether a call runs the closure it is given at once.
fn is_sync_closure_call_exec(call: &SyntaxNode) -> (r: bool)
    ensures
        r == is_sync_closure_call(*call),
{
    match callee_text(call) {
        Some(callee) => {
            let m = method_of_exec(&callee);
            one_of_exec(&m, &SYNC_CLOSURE_METHODS)
        },
        None => false,
    }
}

/// The scan over all children of `n`.
fn walk_statements(n: &SyntaxNode, info: &mut SwFacts, ctx: WalkCtx)
    ensures
        final(info)@ == walk_kids(*n, n.children@.len() as int, old(info)@, ctx),
    decreases node_size(*n), 0nat,
{
    let ghost start = info@;
    let mut i: usize = 0;
    while i < n.children.len()
        invariant
            i <= n.children@.len(),
            info@ == walk_kids(*n, i as int, start, ctx),
        decreases n.children.len() - i,
    {
        proof {
            lemma_child_smaller(*n, i as int);
        }
        walk_statement(&n.children[i], info, ctx);
        i += 1;
    }
}

#[verifier::rlimit(50)]
fn walk_statement(c: &SyntaxNode, info: &mut SwFacts, ctx: WalkCtx)
    ensures
        final(info)@ == walk_node(*c, old(info)@, ctx),
    decreases node_size(*c), 1nat,
{
    let outside = !ctx.in_callback;
    if c.is_kind("if_statement") {
        info.has_if = info.has_if || outside;
        walk_statements(c, info, ctx);
    } else if c.is_kind("switch_statement") {
        info.has_switch = info.has_switch || outside;
        walk_statements(c, info, ctx);
    } else if c.is_kind("for_statement") {
        info.has_for = info.has_for || outside;
        walk_statements(c, info, WalkCtx { in_loop: ctx.in_loop || outside, ..ctx });
    } else if c.is_kind("while_statement") || c.is_kind("repeat_while_statement") {
        info.has_while = info.has_while || outside;
        walk_statements(c, info, WalkCtx { in_loop: ctx.in_loop || outside, ..ctx });
    } else if c.is_kind("macro_invocation") {
        macro_effect_exec(c, info, ctx.in_loop);
        walk_statements(c, info, ctx);
    } else if c.is_kind("call_expression") {
        call_effect_exec(c, info, ctx.in_loop);
        let sync = is_sync_closure_call_exec(c);
        walk_statements(c, info, WalkCtx { lambda_is_callback: !sync, ..ctx });
    } else if c.is_kind("lambda_literal") {
        walk_statements(
            c,
            info,
            WalkCtx {
                in_loop: ctx.in_loop,
                in_callback: ctx.in_callback || ctx.lambda_is_callback,
                lambda_is_callback: true,
            },
        );
    } else {
        walk_statements(c, info, ctx);
    }
}

} // verus!

verus! {

/// Whether the tree at `n` holds a `return` outside closures and nested functions.
fn returns_in_exec(n: &SyntaxNode) -> (r: bool)
    ensures
        r == returns_in(*n),
    decreases node_size(*n),
{
    if n.is_kind("control_transfer_statement") {
        let mut i: usize = 0;
        while i < n.children.len()
            invariant
                i <= n.children@.len(),
                n.kind@ == "control_transfer_statement"@,
                forall|j: int| 0 <= j < i ==> (#[trigger] n.children@[j]).kind@ != "return"@,
            decreases n.children.len() - i,
        {
            if n.children[i].is_kind("return") {
                proof {
                    assert(n.children@[i as int].kind@ == "return"@);
                }
                return true;
            }
            i += 1;
        }
        return false;
    }
    let mut found = false;
    let mut i: usize = 0;
    while i < n.children.len()
        invariant
            i <= n.children@.len(),
            found == returns_kids(*n, i as int),
        decreases n.children.len() - i,
    {
        proof {
            lemma_child_smaller(*n, i as int);
        }
        if !found {
            let c = &n.children[i];
            found = !kind_one_of(c, &OTHER_SCOPES) && returns_in_exec(c);
        }
        i += 1;
    }
    found
}

/// Whether node `n` itself reports a test failure.
fn reports_here_exec(n: &SyntaxNode) -> (r: bool)
    ensures
        r == reports_here(*n),
{
    if n.is_kind("macro_invocation") {
        match macro_name_exec(n) {
            Some(name) => equals_str(&name, "expect") || equals_str(&name, "require"),
            None => false,
        }
    } else if n.is_kind("call_expression") {
        match callee_text(n) {
            Some(callee) => {
                let m = method_of_exec(&callee);
                starts_with_str(&m, "XCTAssert") || equals_str(&m, "XCTFail") || equals_str(
                    &m,
                    "XCTUnwrap",
                ) || (equals_str(&m, "record") && starts_with_str(&callee, "Issue."))
            },
            None => false,
        }
    } else {
        false
    }
}

/// Whether the tree at `n` reports a test failure outside closures and nested functions.
fn fails_in_exec(n: &SyntaxNode) -> (r: bool)
    ensures
        r == fails_in(*n),
    decreases node_size(*n),
{
    if reports_here_exec(n) {
        return true;
    }
    let mut found = false;
    let mut i: usize = 0;
    while i < n.children.len()
        invariant
            i <= n.children@.len(),
            found == fails_kids(*n, i as int),
        decreases n.children.len() - i,
    {
        proof {
            lemma_child_smaller(*n, i as int);
        }
        if !found {
            let c = &n.children[i];
            found = !kind_one_of(c, &OTHER_SCOPES) && fails_in_exec(c);
        }
        i += 1;
    }
    found
}

/// Whether the tree at `n` calls `XCTSkip` outside branches, loops, closures
/// and nested functions.
fn skip_in_exec(n: &SyntaxNode) -> (r: bool)
    ensures
        r == skip_in(*n),
    decreases node_size(*n),
{
    if n.is_kind("call_expression") {
        match callee_text(n) {
            Some(callee) => {
                let m = method_of_exec(&callee);
                if equals_str(&m, "XCTSkip") {
                    return true;
                }
            },
            None => {},
        }
    }
    let mut found = false;
    let mut i: usize = 0;
    while i < n.children.len()
        invariant
            i <= n.children@.len(),
            found == skip_kids(*n, i as int),
        decreases n.children.len() - i,
    {
        proof {
            lemma_child_smaller(*n, i as int);
        }
        if !found {
            let c = &n.children[i];
            found = !kind_one_of(c, &SKIP_SEARCH_STOPS) && skip_in_exec(c);
        }
        i += 1;
    }
    found
}

/// Whether a statement list has an unconditional `XCTSkip`.
fn unconditional_skip_exec(s: &SyntaxNode) -> (r: bool)
    ensures
        r == unconditional_skip(*s),
{
    let mut i: usize = 0;
    while i < s.children.len()
        invariant
            i <= s.children@.len(),
            forall|j: int|
                0 <= j < i ==> !(!one_of((#[trigger] s.children@[j]).kind@, CONDITIONAL_STATEMENTS@)
                    && skip_in(s.children@[j])),
        decreases s.children.len() - i,
    {
        let c = &s.children[i];
        if !kind_one_of(c, &CONDITIONAL_STATEMENTS) && skip_in_exec(c) {
            proof {
                assert(s.children@[i as int] == *c);
            }
            return true;
        }
        i += 1;
    }
    false
}

/// Whether a child of `n` leaves the test silently.
fn silent_kids_exec(n: &SyntaxNode) -> (r: bool)
    ensures
        r == silent_kids(*n, n.children@.len() as int),
    decreases node_size(*n),
{
    let mut found = false;
    let mut i: usize = 0;
    while i < n.children.len()
        invariant
            i <= n.children@.len(),
            found == silent_kids(*n, i as int),
        decreases n.children.len() - i,
    {
        proof {
            lemma_child_smaller(*n, i as int);
        }
        if !found {
            let c = &n.children[i];
            found = if kind_one_of(c, &OTHER_SCOPES) {
                false
            } else if c.is_kind("guard_statement") || c.is_kind("if_statement") {
                (returns_in_exec(c) && !fails_in_exec(c)) || silent_kids_exec(c)
            } else {
                silent_kids_exec(c)
            };
            proof {
                assert(found == silent_node(*c));
                assert(n.children@[i as int] == *c);
            }
        }
        i += 1;
    }
    found
}

/// Whether no child of a statement list is a statement.
fn no_statements(s: &SyntaxNode) -> (r: bool)
    ensures
        r == forall|i: int| 0 <= i < s.children@.len() ==> !is_statement(#[trigger] s.children@[i]),
{
    let mut i: usize = 0;
    while i < s.children.len()
        invariant
            i <= s.children@.len(),
            forall|j: int| 0 <= j < i ==> !is_statement(#[trigger] s.children@[j]),
        decreases s.children.len() - i,
    {
        let c = &s.children[i];
        if c.is_named && !c.is_kind("comment") && !c.is_kind("multiline_comment") {
            proof {
                assert(s.children@[i as int] == *c);
            }
            return false;
        }
        i += 1;
    }
    true
}

/// The facts of the test function `name` declared at `line` with body
/// `body`, ignored by an attribute when `ignored_by_attribute`.
pub fn analyze_swift_function(
    name: &[char],
    line: usize,
    body: &SyntaxNode,
    ignored_by_attribute: bool,
) -> (r: TestFunction)
    ensures
        r@ == analyze_function(name@, line, *body, ignored_by_attribute),
{
    let mut info = fresh_facts();
    let st = body.find_child("statements");
    let (skipped, empty, silent) = match st {
        Some(s) => {
            walk_statements(s, &mut info, WalkCtx { in_loop: false, in_callback: false, lambda_is_callback: true });
            (unconditional_skip_exec(s), no_statements(s), silent_kids_exec(s))
        },
        None => (false, true, false),
    };
    TestFunction {
        name: string_of(name),
        line,
        body_source: crate::model::smell::copy_string(&body.text),
        is_ignored: ignored_by_attribute || skipped,
        has_assertion: info.assertion_count > 0,
        has_sleep: info.has_sleep,
        has_conditional: info.has_if || info.has_switch || info.has_for || info.has_while,
        has_branching: info.has_if || info.has_switch,
        has_for_loop: info.has_for,
        has_while_loop: info.has_while,
        has_assertion_in_loop: info.has_assertion_in_loop,
        has_print: info.has_print,
        is_empty: empty,
        assertion_count: info.assertion_count,
        assert_only_count: info.assert_only_count,
        assertions_without_message: info.assertions_without_message,
        assert_only_without_message: info.assert_only_without_message,
        magic_numbers: info.magic_numbers,
        has_early_return: silent,
        has_timeout_dependency: info.has_explicit_wait || (info.has_clock_read
            && info.has_time_arithmetic),
        body_line_count: row_span_exec(body),
    }
}

} // verus!

verus! {

/// The name of an attribute: `Test` for `@Test("…")`.
pub fn attribute_name(attr: &[char]) -> (r: Vec<char>)
    ensures
        r@ == attr_name(attr@),
{
    let t = strip_ats_exec(attr);
    let mut i: usize = 0;
    proof {
        assert(t@.skip(0) =~= t@);
    }
    while i < t.len() && !(t[i] == '(' || t[i] == ' ' || t[i] == '\n')
        invariant
            i <= t@.len(),
            sep_index(t@) == i + sep_index(t@.skip(i as int)),
        decreases t.len() - i,
    {
        proof {
            assert(t@.skip(i as int).drop_first() =~= t@.skip(i as int + 1));
        }
        i += 1;
    }
    proof {
        assert(sep_index(t@) == i);
    }
    slice_chars(&t, 0, i)
}

/// Whether a declaration carries `@Test`.
fn has_test_attribute_exec(decl: &SyntaxNode) -> (r: bool)
    ensures
        r == has_test_attribute(*decl),
{
    let m = match decl.find_child("modifiers") {
        Some(m) => m,
        None => return false,
    };
    let mut i: usize = 0;
    while i < m.children.len()
        invariant
            i <= m.children@.len(),
            child_of_kind(*decl, "modifiers"@) == Some(*m),
            forall|j: int|
                0 <= j < i ==> !((#[trigger] m.children@[j]).kind@ == "attribute"@ && attr_name(
                    m.children@[j].text@,
                ) == "Test"@),
        decreases m.children.len() - i,
    {
        let c = &m.children[i];
        if c.is_kind("attribute") {
            let t = text_chars(c);
            let nm = attribute_name(&t);
            if equals_str(&nm, "Test") {
                proof {
                    assert(m.children@[i as int] == *c);
                    assert((|a: Seq<char>| attr_name(a) == "Test"@)(m.children@[i as int].text@));
                }
                return true;
            }
        }
        i += 1;
    }
    false
}

/// Whether a declaration carries a `.disabled` trait.
fn has_disabled_attribute_exec(decl: &SyntaxNode) -> (r: bool)
    ensures
        r == has_disabled_attribute(*decl),
{
    let m = match decl.find_child("modifiers") {
        Some(m) => m,
        None => return false,
    };
    let mut i: usize = 0;
    while i < m.children.len()
        invariant
            i <= m.children@.len(),
            child_of_kind(*decl, "modifiers"@) == Some(*m),
            forall|j: int|
                0 <= j < i ==> !((#[trigger] m.children@[j]).kind@ == "attribute"@ && contains(
                    m.children@[j].text@,
                    ".disabled"@,
                )),
        decreases m.children.len() - i,
    {
        let c = &m.children[i];
        if c.is_kind("attribute") {
            let t = text_chars(c);
            if contains_str(&t, ".disabled") {
                proof {
                    assert(m.children@[i as int] == *c);
                    assert((|a: Seq<char>| contains(a, ".disabled"@))(m.children@[i as int].text@));
                }
                return true;
            }
        }
        i += 1;
    }
    false
}

fn push_function(
    decl: &SyntaxNode,
    has_xctest: bool,
    type_ignored: bool,
    in_type: bool,
    out: &mut Vec<TestFunction>,
)
    ensures
        final(out)@.map_values(|f: TestFunction| f@) == old(out)@.map_values(|f: TestFunction| f@)
            + function_of(*decl, has_xctest, type_ignored, in_type),
{
    let ghost before = out@.map_values(|f: TestFunction| f@);
    proof {
        assert(before + Seq::<FunctionView>::empty() =~= before);
    }
    let id = match decl.find_child("simple_identifier") {
        Some(id) => id,
        None => return ,
    };
    let name = text_chars(id);
    let is_swift_testing = has_test_attribute_exec(decl);
    let is_xctest = has_xctest && in_type && starts_with_str(&name, "test") && decl.find_child(
        "parameter",
    ).is_none();
    if !is_swift_testing && !is_xctest {
        return ;
    }
    let body = match decl.find_child("function_body") {
        Some(b) => b,
        None => return ,
    };
    let line = match decl.find_child("func") {
        Some(f) => bump_exec(f.start_row),
        None => bump_exec(decl.start_row),
    };
    let ignored = type_ignored || has_disabled_attribute_exec(decl);
    let f = analyze_swift_function(&name, line, body, ignored);
    out.push(f);
    proof {
        assert(out@.map_values(|x: TestFunction| x@) =~= before.push(f@));
    }
}

/// Appends the test functions declared by the children of `n`.
fn collect_into(
    n: &SyntaxNode,
    has_xctest: bool,
    type_ignored: bool,
    in_type: bool,
    out: &mut Vec<TestFunction>,
)
    ensures
        final(out)@.map_values(|f: TestFunction| f@) == old(out)@.map_values(|f: TestFunction| f@)
            + collect_kids(*n, n.children@.len() as int, has_xctest, type_ignored, in_type),
    decreases node_size(*n), 0nat,
{
    let ghost start = out@.map_values(|f: TestFunction| f@);
    let mut i: usize = 0;
    proof {
        assert(start + Seq::<FunctionView>::empty() =~= start);
    }
    while i < n.children.len()
        invariant
            i <= n.children@.len(),
            out@.map_values(|f: TestFunction| f@) == start + collect_kids(
                *n,
                i as int,
                has_xctest,
                type_ignored,
                in_type,
            ),
        decreases n.children.len() - i,
    {
        proof {
            lemma_child_smaller(*n, i as int);
        }
        let ghost mid = out@.map_values(|f: TestFunction| f@);
        collect_from(&n.children[i], has_xctest, type_ignored, in_type, out);
        proof {
            assert(mid + collect_node(n.children@[i as int], has_xctest, type_ignored, in_type)
                =~= start + collect_kids(*n, i as int + 1, has_xctest, type_ignored, in_type));
        }
        i += 1;
    }
}

/// Appends the test functions declared by node `c`.
fn collect_from(
    c: &SyntaxNode,
    has_xctest: bool,
    type_ignored: bool,
    in_type: bool,
    out: &mut Vec<TestFunction>,
)
    ensures
        final(out)@.map_values(|f: TestFunction| f@) == old(out)@.map_values(|f: TestFunction| f@)
            + collect_node(*c, has_xctest, type_ignored, in_type),
    decreases node_size(*c), 1nat,
{
    let ghost before = out@.map_values(|f: TestFunction| f@);
    proof {
        assert(before + Seq::<FunctionView>::empty() =~= before);
    }
    if c.is_kind("function_declaration") {
        push_function(c, has_xctest, type_ignored, in_type, out);
    } else if c.is_kind("class_declaration") || c.is_kind("protocol_declaration") {
        let ignored = type_ignored || has_disabled_attribute_exec(c);
        proof {
            lemma_kind_child_smaller(*c, "class_body"@);
        }
        match c.find_child("class_body") {
            Some(b) => collect_into(b, has_xctest, ignored, true, out),
            None => {},
        }
    }
}

/// The test functions of the file whose syntax tree is `root`, in source
/// order; `has_xctest` tells whether the file uses XCTest.
pub fn swift_file_tests(root: &SyntaxNode, has_xctest: bool) -> (r: Vec<TestFunction>)
    ensures
        r@.map_values(|f: TestFunction| f@) == file_tests(*root, has_xctest),
{
    let mut out: Vec<TestFunction> = Vec::new();
    proof {
        assert(out@.map_values(|f: TestFunction| f@) =~= Seq::<FunctionView>::empty());
    }
    collect_into(root, has_xctest, false, false, &mut out);
    proof {
        assert(Seq::<FunctionView>::empty() + file_tests(*root, has_xctest) =~= file_tests(
            *root,
            has_xctest,
        ));
    }
    out
}

/// Whether `path` names a Swift test file.
pub fn is_swift_test_path(path: &str) -> (r: bool)
    ensures
        r == is_test_path(path@),
{
    let base = match file_name(path) {
        Some(n) => n,
        None => String::new(),
    };
    let lower = lowercase(base.as_str());
    let lc = chars_of(lower.as_str());
    if contains_str(&lc, "test") {
        return true;
    }
    let comps = path_components(path);
    let ghost cv = comps@.map_values(|c: String| c@);
    let mut i: usize = 0;
    while i < comps.len()
        invariant
            i <= comps@.len(),
            cv == comps@.map_values(|c: String| c@),
            cv == components_of(path@),
            forall|j: int|
                0 <= j < i ==> {
                    let c = lowercase_of(#[trigger] cv[j]);
                    !(c == "tests"@ || c == "test"@ || ends_with(c, "tests"@))
                },
        decreases comps.len() - i,
    {
        let low = lowercase(comps[i].as_str());
        let l = chars_of(low.as_str());
        proof {
            assert(cv[i as int] == comps@[i as int]@);
        }
        if equals_str(&l, "tests") || equals_str(&l, "test") || ends_with_str(&l, "tests") {
            return true;
        }
        i += 1;
    }
    false
}

/// The flavour of a Swift test file.
fn flavor_exec(source: &[char]) -> (r: Option<String>)
    ensures
        opt_view(r) == flavor_of(source@),
{
    if contains_str(source, "XCUIApplication") || contains_str(source, "XCUIElement") {
        Some(String::from_str("xcuitest"))
    } else {
        None
    }
}

/// The file built from a Swift file's syntax tree.
pub fn swift_test_file(path: &str, source: &str, root: &SyntaxNode) -> (r: TestFile)
    ensures
        r.path@ == path@,
        r.language@ == "swift"@,
        r.test_functions@.map_values(|f: TestFunction| f@) == file_tests(
            *root,
            contains(source@, "XCTest"@),
        ),
        opt_view(r.source) == Some(source@),
        opt_view(r.flavor) == flavor_of(source@),
{
    let chars = chars_of(source);
    let has_xctest = contains_str(&chars, "XCTest");
    TestFile {
        path: String::from_str(path),
        language: String::from_str("swift"),
        test_functions: swift_file_tests(root, has_xctest),
        source: Some(String::from_str(source)),
        flavor: flavor_exec(&chars),
    }
}

/// Parses Swift test files (Swift Testing and XCTest).
pub struct SwiftParser;

impl LanguageParser for SwiftParser {
    /// The file extensions this front end reads.
    fn extensions(&self) -> (r: Vec<&'static str>)
        ensures
            r@.map_values(|e: &str| e@) == seq!["swift"@],
    {
        let v = vec!["swift"];
        proof {
            assert(v@.map_values(|e: &str| e@) =~= seq!["swift"@]);
        }
        v
    }

    /// The language name.
    fn language_name(&self) -> (r: &'static str)
        ensures
            r@ == "swift"@,
    {
        "swift"
    }

    /// Parses `source` when `path` names a test file: `None` for any other
    /// file; otherwise (tree-sitter always builds a tree) the file
    /// with the test functions of a copy of the tree tree-sitter built, which
    /// agrees with it node by node (`swift_test_file`).
    fn parse(&self, path: &str, source: &str) -> (r: Option<TestFile>)
        ensures
            !is_test_path(path@) ==> r is None,
            is_test_path(path@) ==> r is Some && swift_tree_of(source@) is Some,
            r matches Some(tf) ==> {
                &&& is_test_path(path@)
                &&& tf.path@ == path@
                &&& tf.language@ == "swift"@
                &&& opt_view(tf.source) == Some(source@)
                &&& opt_view(tf.flavor) == flavor_of(source@)
                &&& exists|root: SyntaxNode|
                    agrees(root, swift_tree_of(source@)->0) && tf.test_functions@.map_values(
                        |f: TestFunction| f@,
                    ) == file_tests(
                        root,
                        contains(source@, "XCTest"@),
                    )
            },
    {
        if !is_swift_test_path(path) {
            return None;
        }
        let root = parse_tree(Grammar::Swift, source)?;
        Some(swift_test_file(path, source, &root))
    }
}

} // verus!
