//! Python front end (pytest and unittest conventions), over a tree-sitter tree.
use vstd::prelude::*;
use crate::languages::LanguageParser;
use crate::host::{file_name, file_name_of, lowercase, lowercase_of};
use crate::model::smell::{bump, bump_exec, opt_view, FunctionView, TestFile, TestFunction};
use crate::syntax::{
    agrees, child_by_field, has_kind, lemma_child_smaller, lemma_field_child_smaller, named_count,
    named_only, node_size, SyntaxNode,
};
use crate::text::{
    chars_of, contains, contains_str, ends_with, ends_with_str, equals_str, parse_i64,
    parse_i64_exec, starts_with, starts_with_str, string_of, trim, trim_chars,
};
use crate::ts_bridge::{parse_tree, python_tree_of, Grammar};

verus! {

/// What the body scan has found so far.
pub struct PyInfo {
    pub assertion_count: usize,
    pub assertions_without_message: usize,
    pub has_skip: bool,
    pub has_sleep: bool,
    pub has_print: bool,
    pub has_if: bool,
    pub has_match: bool,
    pub has_for: bool,
    pub has_while: bool,
    pub has_timeout_dependency: bool,
    pub has_assertion_in_loop: bool,
    pub magic_numbers: Seq<(i64, usize)>,
}

/// The scan state before anything is found.
pub open spec fn fresh_info() -> PyInfo {
    PyInfo {
        assertion_count: 0,
        assertions_without_message: 0,
        has_skip: false,
        has_sleep: false,
        has_print: false,
        has_if: false,
        has_match: false,
        has_for: false,
        has_while: false,
        has_timeout_dependency: false,
        has_assertion_in_loop: false,
        magic_numbers: Seq::empty(),
    }
}

/// `info` after one more assertion, found inside a loop when `in_loop`.
pub open spec fn note_assert(info: PyInfo, in_loop: bool) -> PyInfo {
    PyInfo {
        assertion_count: bump(info.assertion_count),
        has_assertion_in_loop: info.has_assertion_in_loop || in_loop,
        ..info
    }
}

/// `info` after one more assertion without a message.
pub open spec fn note_no_message(info: PyInfo) -> PyInfo {
    PyInfo { assertions_without_message: bump(info.assertions_without_message), ..info }
}

/// The magic number that integer node `c` holds, if it is one: an integer
/// literal outside -10..=10, with its 1-based line.
pub open spec fn magic_of_integer(c: SyntaxNode) -> Seq<(i64, usize)> {
    match parse_i64(c.text@) {
        Some(v) => if -10 <= v <= 10 {
            Seq::empty()
        } else {
            seq![(v, bump(c.start_row))]
        },
        None => Seq::empty(),
    }
}

/// The magic numbers below `n` (not counting `n` itself), in order; string
/// literals are not searched.
pub open spec fn magic_in(n: SyntaxNode) -> Seq<(i64, usize)>
    decreases node_size(n), n.children@.len() + 1,
{
    magic_children(n, n.children@.len() as int)
}

/// The magic numbers found through the first `k` children of `n`.
pub open spec fn magic_children(n: SyntaxNode, k: int) -> Seq<(i64, usize)>
    decreases node_size(n), k,
{
    if k <= 0 || k > n.children@.len() {
        Seq::empty()
    } else {
        let c = n.children@[k - 1];
        proof {
            lemma_child_smaller(n, k - 1);
        }
        magic_children(n, k - 1) + if c.kind@ == "integer"@ {
            magic_of_integer(c)
        } else if c.kind@ != "string"@ {
            magic_in(c)
        } else {
            Seq::empty()
        }
    }
}

/// The text of the child of `n` under field `name`, or the empty text.
pub open spec fn field_text(n: SyntaxNode, name: Seq<char>) -> Seq<char> {
    match child_by_field(n, name) {
        Some(c) => c.text@,
        None => Seq::empty(),
    }
}

/// Whether a node of `args` is a `msg=` keyword argument.
pub open spec fn has_msg_keyword(args: Seq<SyntaxNode>) -> bool {
    exists|i: int|
        0 <= i < args.len() && (#[trigger] args[i]).kind@ == "keyword_argument"@ && field_text(
            args[i],
            "name"@,
        ) == "msg"@
}

/// Whether call `call` passes a message: a `msg=` keyword, or at least three
/// arguments of which the last is a string literal.
pub open spec fn has_message_argument(call: SyntaxNode) -> bool {
    match child_by_field(call, "arguments"@) {
        None => false,
        Some(args) => {
            let named = named_only(args.children@);
            has_msg_keyword(named) || (named.len() >= 3 && named.last().kind@ == "string"@)
        },
    }
}

/// The number of arguments (keyword arguments included) of call `call`.
pub open spec fn argument_count(call: SyntaxNode) -> nat {
    match child_by_field(call, "arguments"@) {
        Some(args) => named_count(args.children@),
        None => 0,
    }
}

/// The effect of a method call `obj.method(...)` on the scan.
pub open spec fn attribute_call(
    obj: Seq<char>,
    method: Seq<char>,
    call: SyntaxNode,
    info: PyInfo,
    in_loop: bool,
) -> PyInfo {
    if obj == "self"@ {
        if starts_with(method, "assert"@) {
            let i1 = note_assert(info, in_loop);
            let i2 = if !has_message_argument(call) {
                note_no_message(i1)
            } else {
                i1
            };
            PyInfo { magic_numbers: i2.magic_numbers + magic_in(call), ..i2 }
        } else if method == "fail"@ {
            let i1 = note_assert(info, in_loop);
            if argument_count(call) == 0 {
                note_no_message(i1)
            } else {
                i1
            }
        } else if method == "skipTest"@ {
            PyInfo { has_skip: true, ..info }
        } else {
            info
        }
    } else if obj == "pytest"@ {
        if method == "skip"@ || method == "xfail"@ || method == "importorskip"@ {
            PyInfo { has_skip: true, ..info }
        } else if method == "fail"@ || method == "raises"@ || method == "warns"@ || method
            == "deprecated_call"@ {
            note_assert(info, in_loop)
        } else {
            info
        }
    } else if obj == "time"@ {
        if method == "sleep"@ {
            PyInfo { has_sleep: true, ..info }
        } else if method == "time"@ || method == "monotonic"@ || method == "perf_counter"@
            || method == "time_ns"@ || method == "monotonic_ns"@ {
            PyInfo { has_timeout_dependency: true, ..info }
        } else {
            info
        }
    } else if obj == "asyncio"@ && method == "sleep"@ {
        PyInfo { has_sleep: true, ..info }
    } else if (obj == "datetime"@ || ends_with(obj, ".datetime"@) || obj == "date"@) && (method
        == "now"@ || method == "utcnow"@ || method == "today"@) {
        PyInfo { has_timeout_dependency: true, ..info }
    } else if starts_with(method, "assert"@) {
        note_assert(info, in_loop)
    } else {
        info
    }
}

/// Whether a plain function name reads as an assertion helper: it mentions
/// `assert` or starts with `expect`, `check` or `verify` (case ignored).
pub open spec fn helper_name(name: Seq<char>) -> bool {
    let lower = lowercase_of(name);
    contains(lower, "assert"@) || starts_with(lower, "expect"@) || starts_with(lower, "check"@)
        || starts_with(lower, "verify"@)
}

/// The effect of a call node on the scan.
pub open spec fn call_effect(call: SyntaxNode, info: PyInfo, in_loop: bool) -> PyInfo {
    match child_by_field(call, "function"@) {
        None => info,
        Some(f) => if f.kind@ == "attribute"@ {
            attribute_call(field_text(f, "object"@), field_text(f, "attribute"@), call, info, in_loop)
        } else if f.kind@ == "identifier"@ {
            let name = f.text@;
            if name == "print"@ || name == "pprint"@ {
                PyInfo { has_print: true, ..info }
            } else if name == "sleep"@ {
                PyInfo { has_sleep: true, ..info }
            } else if name == "raises"@ {
                note_assert(info, in_loop)
            } else if helper_name(name) {
                let i1 = note_assert(info, in_loop);
                PyInfo { magic_numbers: i1.magic_numbers + magic_in(call), ..i1 }
            } else {
                info
            }
        } else {
            info
        },
    }
}

/// Helper law: a call of a plain function whose name, case ignored, starts
/// with `expect`, `check` or `verify`, or mentions `assert`, counts as one
/// more assertion (the names the scan treats on their own, `print`,
/// `pprint`, `sleep` and `raises`, aside).
pub proof fn lemma_helper_call_is_assertion(
    call: SyntaxNode,
    f: SyntaxNode,
    info: PyInfo,
    in_loop: bool,
)
    requires
        child_by_field(call, "function"@) == Some(f),
        f.kind@ == "identifier"@,
        f.text@ != "print"@,
        f.text@ != "pprint"@,
        f.text@ != "sleep"@,
        f.text@ != "raises"@,
        starts_with(lowercase_of(f.text@), "expect"@) || starts_with(lowercase_of(f.text@), "check"@)
            || starts_with(lowercase_of(f.text@), "verify"@) || contains(
            lowercase_of(f.text@),
            "assert"@,
        ),
        info.assertion_count < usize::MAX,
    ensures
        call_effect(call, info, in_loop).assertion_count == info.assertion_count + 1,
{
    reveal_strlit("identifier");
    reveal_strlit("attribute");
    assert(f.kind@ != "attribute"@) by {
        assert(f.kind@.len() != "attribute"@.len());
    }
    assert(helper_name(f.text@));
}

/// The scan of the calls in expression node `c`: a call is classified and
/// then searched for nested calls; nested blocks are left alone.
pub open spec fn calls_node(c: SyntaxNode, info: PyInfo, in_loop: bool) -> PyInfo
    decreases node_size(c), c.children@.len() + 1,
{
    if c.kind@ == "call"@ {
        calls_children(c, c.children@.len() as int, call_effect(c, info, in_loop), in_loop)
    } else if c.kind@ != "block"@ {
        calls_children(c, c.children@.len() as int, info, in_loop)
    } else {
        info
    }
}

/// The call scan over the first `k` children of `n`.
pub open spec fn calls_children(n: SyntaxNode, k: int, info: PyInfo, in_loop: bool) -> PyInfo
    decreases node_size(n), k,
{
    if k <= 0 || k > n.children@.len() {
        info
    } else {
        proof {
            lemma_child_smaller(n, k - 1);
        }
        calls_node(n.children@[k - 1], calls_children(n, k - 1, info, in_loop), in_loop)
    }
}

/// Whether `kind` is a compound statement or clause scanned as statements.
pub open spec fn is_statement_container(kind: Seq<char>) -> bool {
    kind == "block"@ || kind == "with_statement"@ || kind == "try_statement"@ || kind
        == "elif_clause"@ || kind == "else_clause"@ || kind == "except_clause"@ || kind
        == "finally_clause"@ || kind == "case_clause"@
}

/// The statement scan of node `c`.
pub open spec fn walk_node(c: SyntaxNode, info: PyInfo, in_loop: bool) -> PyInfo
    decreases node_size(c), c.children@.len() + 1,
{
    let k = c.children@.len() as int;
    if c.kind@ == "if_statement"@ {
        walk_children(c, k, PyInfo { has_if: true, ..info }, in_loop)
    } else if c.kind@ == "match_statement"@ {
        walk_children(c, k, PyInfo { has_match: true, ..info }, in_loop)
    } else if c.kind@ == "for_statement"@ {
        walk_children(c, k, PyInfo { has_for: true, ..info }, true)
    } else if c.kind@ == "while_statement"@ {
        walk_children(c, k, PyInfo { has_while: true, ..info }, true)
    } else if c.kind@ == "assert_statement"@ {
        let i1 = note_assert(info, in_loop);
        let i2 = if named_count(c.children@) < 2 {
            note_no_message(i1)
        } else {
            i1
        };
        PyInfo { magic_numbers: i2.magic_numbers + magic_in(c), ..i2 }
    } else if c.kind@ == "raise_statement"@ {
        if contains(c.text@, "SkipTest"@) {
            PyInfo { has_skip: true, ..info }
        } else if contains(c.text@, "AssertionError"@) {
            note_assert(info, in_loop)
        } else {
            info
        }
    } else if is_statement_container(c.kind@) {
        walk_children(c, k, info, in_loop)
    } else {
        calls_children(c, k, info, in_loop)
    }
}

/// The statement scan over the first `k` children of `n`.
pub open spec fn walk_children(n: SyntaxNode, k: int, info: PyInfo, in_loop: bool) -> PyInfo
    decreases node_size(n), k,
{
    if k <= 0 || k > n.children@.len() {
        info
    } else {
        proof {
            lemma_child_smaller(n, k - 1);
        }
        walk_node(n.children@[k - 1], walk_children(n, k - 1, info, in_loop), in_loop)
    }
}

/// The children of a block other than comments, in order.
pub open spec fn non_comment(cs: Seq<SyntaxNode>) -> Seq<SyntaxNode>
    decreases cs.len(),
{
    if cs.len() == 0 {
        Seq::empty()
    } else {
        non_comment(cs.drop_last()) + if cs.last().kind@ != "comment"@ {
            seq![cs.last()]
        } else {
            Seq::empty()
        }
    }
}

/// Whether statement `s` is a docstring: an expression statement holding
/// one string literal.
pub open spec fn is_docstring(s: SyntaxNode) -> bool {
    s.kind@ == "expression_statement"@ && named_count(s.children@) == 1 && s.children@.len() > 0
        && s.children@[0].kind@ == "string"@
}

/// The number of rows node `n` spans.
pub open spec fn row_span(n: SyntaxNode) -> usize {
    if n.end_row >= n.start_row {
        bump((n.end_row - n.start_row) as usize)
    } else {
        0
    }
}

/// Whether statement `s` does nothing: `pass` or `...`.
pub open spec fn is_noop(s: SyntaxNode) -> bool {
    s.kind@ == "pass_statement"@ || (s.kind@ == "expression_statement"@ && s.children@.len() > 0
        && s.children@[0].kind@ == "ellipsis"@)
}

/// The facts of a test function `name` declared at `line` with body `body`.
pub open spec fn analyze_function(
    name: Seq<char>,
    line: usize,
    body: SyntaxNode,
    ignored_by_decorator: bool,
) -> FunctionView {
    let statements = non_comment(body.children@);
    let has_doc = statements.len() > 0 && is_docstring(statements[0]);
    let doc_lines = if has_doc {
        row_span(statements[0])
    } else {
        0
    };
    let raw = row_span(body);
    let skip: int = if has_doc {
        1
    } else {
        0
    };
    let info = walk_children(body, body.children@.len() as int, fresh_info(), false);
    FunctionView {
        name,
        line,
        body_source: body.text@,
        is_ignored: ignored_by_decorator || info.has_skip,
        has_assertion: info.assertion_count > 0,
        has_sleep: info.has_sleep,
        has_conditional: info.has_if || info.has_match || info.has_for || info.has_while,
        has_branching: info.has_if || info.has_match,
        has_for_loop: info.has_for,
        has_while_loop: info.has_while,
        has_assertion_in_loop: info.has_assertion_in_loop,
        has_print: info.has_print,
        is_empty: forall|i: int| skip <= i < statements.len() ==> is_noop(#[trigger] statements[i]),
        assertion_count: info.assertion_count,
        assert_only_count: 0,
        assertions_without_message: info.assertions_without_message,
        assert_only_without_message: 0,
        magic_numbers: info.magic_numbers,
        has_early_return: exists|i: int|
            0 <= i < statements.len() && i < 3 && has_kind(
                #[trigger] statements[i],
                "return_statement"@,
            ),
        has_timeout_dependency: info.has_timeout_dependency,
        body_line_count: if raw >= doc_lines {
            (raw - doc_lines) as usize
        } else {
            0
        },
    }
}

/// A test whose body holds a docstring and nothing else (comments aside) is
/// an empty test, and its docstring does not count toward its length.
pub proof fn lemma_docstring_only_is_empty(name: Seq<char>, line: usize, body: SyntaxNode, ignored: bool)
    requires
        non_comment(body.children@).len() == 1,
        is_docstring(non_comment(body.children@)[0]),
    ensures
        analyze_function(name, line, body, ignored).is_empty,
        analyze_function(name, line, body, ignored).body_line_count == if row_span(body) >= row_span(
            non_comment(body.children@)[0],
        ) {
            (row_span(body) - row_span(non_comment(body.children@)[0])) as usize
        } else {
            0
        },
{
}

/// `s` with all leading `@` removed.
pub open spec fn strip_ats(s: Seq<char>) -> Seq<char>
    decreases s.len(),
{
    if s.len() > 0 && s[0] == '@' {
        strip_ats(s.drop_first())
    } else {
        s
    }
}

/// Whether a decorator's text is a skip marker: `unittest.skip`,
/// `pytest.mark.skip`(`if`), `pytest.mark.xfail`, `skip`, `skipIf`,
/// `skipUnless`, `expectedFailure` or `unittest.expectedFailure`.
pub open spec fn is_skip_decorator_text(text: Seq<char>) -> bool {
    let t = trim(strip_ats(text));
    starts_with(t, "unittest.skip"@) || starts_with(t, "pytest.mark.skip"@) || starts_with(
        t,
        "pytest.mark.xfail"@,
    ) || starts_with(t, "skip"@) || starts_with(t, "skipIf"@) || starts_with(t, "skipUnless"@)
        || starts_with(t, "expectedFailure"@) || starts_with(t, "unittest.expectedFailure"@)
}

/// Whether some decorator among `cs` is a skip marker.
pub open spec fn any_skip_decorator(cs: Seq<SyntaxNode>) -> bool {
    exists|i: int|
        0 <= i < cs.len() && (#[trigger] cs[i]).kind@ == "decorator"@ && is_skip_decorator_text(
            cs[i].text@,
        )
}

/// The test function that definition `def` declares, if it is one: its
/// name starts with `test` and it has a body.
pub open spec fn test_function_of(def: SyntaxNode, skipped: bool) -> Seq<FunctionView> {
    match (child_by_field(def, "name"@), child_by_field(def, "body"@)) {
        (Some(n), Some(body)) => if starts_with(n.text@, "test"@) {
            seq![analyze_function(n.text@, bump(def.start_row), body, skipped)]
        } else {
            Seq::empty()
        },
        _ => Seq::empty(),
    }
}

/// The test functions declared by node `c` of a module or class body.
pub open spec fn collect_node(c: SyntaxNode, class_ignored: bool) -> Seq<FunctionView>
    decreases node_size(c), c.children@.len() + 1,
{
    if c.kind@ == "function_definition"@ {
        test_function_of(c, class_ignored)
    } else if c.kind@ == "decorated_definition"@ {
        let skip = any_skip_decorator(c.children@);
        proof {
            lemma_field_child_smaller(c, "definition"@);
        }
        match child_by_field(c, "definition"@) {
            Some(def) => if def.kind@ == "function_definition"@ {
                test_function_of(def, class_ignored || skip)
            } else if def.kind@ == "class_definition"@ {
                proof {
                    lemma_field_child_smaller(def, "body"@);
                }
                match child_by_field(def, "body"@) {
                    Some(b) => collect_children(b, b.children@.len() as int, class_ignored || skip),
                    None => Seq::empty(),
                }
            } else {
                Seq::empty()
            },
            None => Seq::empty(),
        }
    } else if c.kind@ == "class_definition"@ {
        proof {
            lemma_field_child_smaller(c, "body"@);
        }
        match child_by_field(c, "body"@) {
            Some(b) => collect_children(b, b.children@.len() as int, class_ignored),
            None => Seq::empty(),
        }
    } else {
        Seq::empty()
    }
}

/// The test functions declared by the first `k` children of `n`.
pub open spec fn collect_children(n: SyntaxNode, k: int, class_ignored: bool) -> Seq<FunctionView>
    decreases node_size(n), k,
{
    if k <= 0 || k > n.children@.len() {
        Seq::empty()
    } else {
        proof {
            lemma_child_smaller(n, k - 1);
        }
        collect_children(n, k - 1, class_ignored) + collect_node(n.children@[k - 1], class_ignored)
    }
}

/// The test functions of a module whose syntax tree is `root`.
pub open spec fn module_tests(root: SyntaxNode) -> Seq<FunctionView> {
    collect_children(root, root.children@.len() as int, false)
}

/// Whether a path names a Python test file: its file name contains `test`,
/// case ignored.
pub open spec fn is_test_file_name(path: Seq<char>) -> bool {
    contains(
        lowercase_of(
            match file_name_of(path) {
                Some(n) => n,
                None => Seq::empty(),
            },
        ),
        "test"@,
    )
}

} // verus!

verus! {

/// The scan state of one function body.
struct PyFacts {
    assertion_count: usize,
    assertions_without_message: usize,
    has_skip: bool,
    has_sleep: bool,
    has_print: bool,
    has_if: bool,
    has_match: bool,
    has_for: bool,
    has_while: bool,
    has_timeout_dependency: bool,
    has_assertion_in_loop: bool,
    magic_numbers: Vec<(i64, usize)>,
}

impl View for PyFacts {
    type V = PyInfo;

    closed spec fn view(&self) -> PyInfo {
        PyInfo {
            assertion_count: self.assertion_count,
            assertions_without_message: self.assertions_without_message,
            has_skip: self.has_skip,
            has_sleep: self.has_sleep,
            has_print: self.has_print,
            has_if: self.has_if,
            has_match: self.has_match,
            has_for: self.has_for,
            has_while: self.has_while,
            has_timeout_dependency: self.has_timeout_dependency,
            has_assertion_in_loop: self.has_assertion_in_loop,
            magic_numbers: self.magic_numbers@,
        }
    }
}

fn fresh_facts() -> (r: PyFacts)
    ensures
        r@ == fresh_info(),
{
    let r = PyFacts {
        assertion_count: 0,
        assertions_without_message: 0,
        has_skip: false,
        has_sleep: false,
        has_print: false,
        has_if: false,
        has_match: false,
        has_for: false,
        has_while: false,
        has_timeout_dependency: false,
        has_assertion_in_loop: false,
        magic_numbers: Vec::new(),
    };
    proof {
        assert(r@.magic_numbers =~= Seq::<(i64, usize)>::empty());
    }
    r
}

fn note_assert_exec(info: &mut PyFacts, in_loop: bool)
    ensures
        final(info)@ == note_assert(old(info)@, in_loop),
{
    info.assertion_count = bump_exec(info.assertion_count);
    info.has_assertion_in_loop = info.has_assertion_in_loop || in_loop;
}

fn note_no_message_exec(info: &mut PyFacts)
    ensures
        final(info)@ == note_no_message(old(info)@),
{
    info.assertions_without_message = bump_exec(info.assertions_without_message);
}

/// The text of a node as characters.
pub(crate) fn text_chars(n: &SyntaxNode) -> (r: Vec<char>)
    ensures
        r@ == n.text@,
{
    chars_of(n.text.as_str())
}

/// Appends the magic numbers below `n` to `out`.
fn magic_into(n: &SyntaxNode, out: &mut Vec<(i64, usize)>)
    ensures
        final(out)@ == old(out)@ + magic_in(*n),
    decreases node_size(*n),
{
    let ghost start = out@;
    let mut i: usize = 0;
    while i < n.children.len()
        invariant
            i <= n.children@.len(),
            out@ == start + magic_children(*n, i as int),
        decreases n.children.len() - i,
    {
        let c = &n.children[i];
        proof {
            lemma_child_smaller(*n, i as int);
        }
        if c.is_kind("integer") {
            let t = text_chars(c);
            match parse_i64_exec(&t) {
                Some(v) => {
                    if !(-10 <= v && v <= 10) {
                        out.push((v, bump_exec(c.start_row)));
                    }
                },
                None => {},
            }
            proof {
                assert(out@ =~= start + magic_children(*n, i as int + 1));
            }
        } else if !c.is_kind("string") {
            magic_into(c, out);
            proof {
                assert(out@ =~= start + magic_children(*n, i as int + 1));
            }
        } else {
            proof {
                assert(out@ =~= start + magic_children(*n, i as int + 1));
            }
        }
        i += 1;
    }
}

/// The text of the child of `n` under field `name`, or the empty text.
fn field_text_exec(n: &SyntaxNode, name: &str) -> (r: Vec<char>)
    ensures
        r@ == field_text(*n, name@),
{
    match n.child_by_field_name(name) {
        Some(c) => text_chars(c),
        None => Vec::new(),
    }
}

/// The named children of `n`, in order.
fn named_children(n: &SyntaxNode) -> (r: Vec<&SyntaxNode>)
    ensures
        r@.map_values(|x: &SyntaxNode| *x) == named_only(n.children@),
{
    let mut out: Vec<&SyntaxNode> = Vec::new();
    let mut i: usize = 0;
    while i < n.children.len()
        invariant
            i <= n.children@.len(),
            out@.map_values(|x: &SyntaxNode| *x) == named_only(n.children@.take(i as int)),
        decreases n.children.len() - i,
    {
        let ghost before = out@.map_values(|x: &SyntaxNode| *x);
        proof {
            assert(n.children@.take(i as int + 1).drop_last() =~= n.children@.take(i as int));
        }
        if n.children[i].is_named {
            out.push(&n.children[i]);
            proof {
                assert(out@.map_values(|x: &SyntaxNode| *x) =~= before.push(n.children@[i as int]));
            }
        } else {
            proof {
                assert(before + Seq::<SyntaxNode>::empty() =~= before);
            }
        }
        i += 1;
    }
    proof {
        assert(n.children@.take(n.children@.len() as int) =~= n.children@);
    }
    out
}

fn has_message_argument_exec(call: &SyntaxNode) -> (r: bool)
    ensures
        r == has_message_argument(*call),
{
    let args = match call.child_by_field_name("arguments") {
        Some(a) => a,
        None => return false,
    };
    let named = named_children(args);
    let ghost nv = named@.map_values(|x: &SyntaxNode| *x);
    let mut i: usize = 0;
    while i < named.len()
        invariant
            i <= named@.len(),
            nv == named@.map_values(|x: &SyntaxNode| *x),
            nv == named_only(args.children@),
            child_by_field(*call, "arguments"@) == Some(*args),
            forall|j: int|
                0 <= j < i ==> !((#[trigger] nv[j]).kind@ == "keyword_argument"@ && field_text(
                    nv[j],
                    "name"@,
                ) == "msg"@),
        decreases named.len() - i,
    {
        let a = named[i];
        if a.is_kind("keyword_argument") {
            let nm = field_text_exec(a, "name");
            if equals_str(&nm, "msg") {
                proof {
                    assert(nv[i as int] == *a);
                    assert(nv[i as int].kind@ == "keyword_argument"@ && field_text(
                        nv[i as int],
                        "name"@,
                    ) == "msg"@);
                    assert(has_msg_keyword(nv));
                }
                return true;
            }
        }
        i += 1;
    }
    if named.len() >= 3 {
        let last = named[named.len() - 1];
        proof {
            assert(nv.last() == *last);
        }
        return last.is_kind("string");
    }
    false
}

fn argument_count_exec(call: &SyntaxNode) -> (r: usize)
    ensures
        r == argument_count(*call),
{
    match call.child_by_field_name("arguments") {
        Some(a) => a.named_child_count(),
        None => 0,
    }
}

fn is_one_of(s: &[char], a: &str, b: &str, c: &str) -> (r: bool)
    ensures
        r == (s@ == a@ || s@ == b@ || s@ == c@),
{
    equals_str(s, a) || equals_str(s, b) || equals_str(s, c)
}

fn attribute_call_exec(
    obj: &[char],
    method: &[char],
    call: &SyntaxNode,
    info: &mut PyFacts,
    in_loop: bool,
)
    ensures
        final(info)@ == attribute_call(obj@, method@, *call, old(info)@, in_loop),
{
    if equals_str(obj, "self") {
        if starts_with_str(method, "assert") {
            note_assert_exec(info, in_loop);
            if !has_message_argument_exec(call) {
                note_no_message_exec(info);
            }
            magic_into(call, &mut info.magic_numbers);
        } else if equals_str(method, "fail") {
            note_assert_exec(info, in_loop);
            if argument_count_exec(call) == 0 {
                note_no_message_exec(info);
            }
        } else if equals_str(method, "skipTest") {
            info.has_skip = true;
        }
    } else if equals_str(obj, "pytest") {
        if is_one_of(method, "skip", "xfail", "importorskip") {
            info.has_skip = true;
        } else if is_one_of(method, "fail", "raises", "warns") || equals_str(
            method,
            "deprecated_call",
        ) {
            note_assert_exec(info, in_loop);
        }
    } else if equals_str(obj, "time") {
        if equals_str(method, "sleep") {
            info.has_sleep = true;
        } else if is_one_of(method, "time", "monotonic", "perf_counter") || equals_str(
            method,
            "time_ns",
        ) || equals_str(method, "monotonic_ns") {
            info.has_timeout_dependency = true;
        }
    } else if equals_str(obj, "asyncio") && equals_str(method, "sleep") {
        info.has_sleep = true;
    } else if (equals_str(obj, "datetime") || ends_with_str(obj, ".datetime") || equals_str(
        obj,
        "date",
    )) && is_one_of(method, "now", "utcnow", "today") {
        info.has_timeout_dependency = true;
    } else if starts_with_str(method, "assert") {
        note_assert_exec(info, in_loop);
    }
}

fn call_effect_exec(call: &SyntaxNode, info: &mut PyFacts, in_loop: bool)
    ensures
        final(info)@ == call_effect(*call, old(info)@, in_loop),
{
    let f = match call.child_by_field_name("function") {
        Some(f) => f,
        None => return ,
    };
    if f.is_kind("attribute") {
        let obj = field_text_exec(f, "object");
        let method = field_text_exec(f, "attribute");
        attribute_call_exec(&obj, &method, call, info, in_loop);
    } else if f.is_kind("identifier") {
        let name = text_chars(f);
        if equals_str(&name, "print") || equals_str(&name, "pprint") {
            info.has_print = true;
        } else if equals_str(&name, "sleep") {
            info.has_sleep = true;
        } else if equals_str(&name, "raises") {
            note_assert_exec(info, in_loop);
        } else {
            let lower_s = lowercase(f.text.as_str());
            let lower = chars_of(lower_s.as_str());
            if contains_str(&lower, "assert") || starts_with_str(&lower, "expect")
                || starts_with_str(&lower, "check") || starts_with_str(&lower, "verify") {
                note_assert_exec(info, in_loop);
                magic_into(call, &mut info.magic_numbers);
            }
        }
    }
}

/// The call scan over all children of `n`.
fn scan_calls(n: &SyntaxNode, info: &mut PyFacts, in_loop: bool)
    ensures
        final(info)@ == calls_children(*n, n.children@.len() as int, old(info)@, in_loop),
    decreases node_size(*n), 0nat,
{
    let ghost start = info@;
    let mut i: usize = 0;
    while i < n.children.len()
        invariant
            i <= n.children@.len(),
            info@ == calls_children(*n, i as int, start, in_loop),
        decreases n.children.len() - i,
    {
        proof {
            lemma_child_smaller(*n, i as int);
        }
        scan_call_node(&n.children[i], info, in_loop);
        i += 1;
    }
}

fn scan_call_node(c: &SyntaxNode, info: &mut PyFacts, in_loop: bool)
    ensures
        final(info)@ == calls_node(*c, old(info)@, in_loop),
    decreases node_size(*c), 1nat,
{
    if c.is_kind("call") {
        call_effect_exec(c, info, in_loop);
        scan_calls(c, info, in_loop);
    } else if !c.is_kind("block") {
        scan_calls(c, info, in_loop);
    }
}

fn is_statement_container_exec(c: &SyntaxNode) -> (r: bool)
    ensures
        r == is_statement_container(c.kind@),
{
    let k = chars_of(c.kind.as_str());
    is_one_of(&k, "block", "with_statement", "try_statement") || is_one_of(
        &k,
        "elif_clause",
        "else_clause",
        "except_clause",
    ) || equals_str(&k, "finally_clause") || equals_str(&k, "case_clause")
}

/// The statement scan over all children of `n`.
fn walk_statements(n: &SyntaxNode, info: &mut PyFacts, in_loop: bool)
    ensures
        final(info)@ == walk_children(*n, n.children@.len() as int, old(info)@, in_loop),
    decreases node_size(*n), 0nat,
{
    let ghost start = info@;
    let mut i: usize = 0;
    while i < n.children.len()
        invariant
            i <= n.children@.len(),
            info@ == walk_children(*n, i as int, start, in_loop),
        decreases n.children.len() - i,
    {
        proof {
            lemma_child_smaller(*n, i as int);
        }
        walk_statement(&n.children[i], info, in_loop);
        i += 1;
    }
}

#[verifier::rlimit(50)]
fn walk_statement(c: &SyntaxNode, info: &mut PyFacts, in_loop: bool)
    ensures
        final(info)@ == walk_node(*c, old(info)@, in_loop),
    decreases node_size(*c), 1nat,
{
    if c.is_kind("if_statement") {
        info.has_if = true;
        walk_statements(c, info, in_loop);
    } else if c.is_kind("match_statement") {
        info.has_match = true;
        walk_statements(c, info, in_loop);
    } else if c.is_kind("for_statement") {
        info.has_for = true;
        walk_statements(c, info, true);
    } else if c.is_kind("while_statement") {
        info.has_while = true;
        walk_statements(c, info, true);
    } else if c.is_kind("assert_statement") {
        note_assert_exec(info, in_loop);
        if c.named_child_count() < 2 {
            note_no_message_exec(info);
        }
        magic_into(c, &mut info.magic_numbers);
    } else if c.is_kind("raise_statement") {
        let t = text_chars(c);
        if contains_str(&t, "SkipTest") {
            info.has_skip = true;
        } else if contains_str(&t, "AssertionError") {
            note_assert_exec(info, in_loop);
        }
    } else if is_statement_container_exec(c) {
        walk_statements(c, info, in_loop);
    } else {
        scan_calls(c, info, in_loop);
    }
}

} // verus!

verus! {

/// The children of `n` other than comments, in order.
fn non_comment_children(n: &SyntaxNode) -> (r: Vec<&SyntaxNode>)
    ensures
        r@.map_values(|x: &SyntaxNode| *x) == non_comment(n.children@),
{
    let mut out: Vec<&SyntaxNode> = Vec::new();
    let mut i: usize = 0;
    while i < n.children.len()
        invariant
            i <= n.children@.len(),
            out@.map_values(|x: &SyntaxNode| *x) == non_comment(n.children@.take(i as int)),
        decreases n.children.len() - i,
    {
        let ghost before = out@.map_values(|x: &SyntaxNode| *x);
        proof {
            assert(n.children@.take(i as int + 1).drop_last() =~= n.children@.take(i as int));
        }
        if !n.children[i].is_kind("comment") {
            out.push(&n.children[i]);
            proof {
                assert(out@.map_values(|x: &SyntaxNode| *x) =~= before.push(n.children@[i as int]));
            }
        } else {
            proof {
                assert(before + Seq::<SyntaxNode>::empty() =~= before);
            }
        }
        i += 1;
    }
    proof {
        assert(n.children@.take(n.children@.len() as int) =~= n.children@);
    }
    out
}

fn is_docstring_exec(s: &SyntaxNode) -> (r: bool)
    ensures
        r == is_docstring(*s),
{
    s.is_kind("expression_statement") && s.named_child_count() == 1 && s.children.len() > 0
        && s.children[0].is_kind("string")
}

pub(crate) fn row_span_exec(n: &SyntaxNode) -> (r: usize)
    ensures
        r == row_span(*n),
{
    if n.end_row >= n.start_row {
        bump_exec(n.end_row - n.start_row)
    } else {
        0
    }
}

fn is_noop_exec(s: &SyntaxNode) -> (r: bool)
    ensures
        r == is_noop(*s),
{
    s.is_kind("pass_statement") || (s.is_kind("expression_statement") && s.children.len() > 0
        && s.children[0].is_kind("ellipsis"))
}

/// Whether every statement of `statements` from index `skip` on does nothing.
fn all_noop_from(statements: &Vec<&SyntaxNode>, skip: usize) -> (r: bool)
    ensures
        r == forall|j: int|
            skip <= j < statements@.len() ==> is_noop(*#[trigger] statements@[j]),
{
    let ghost sv = statements@.map_values(|x: &SyntaxNode| *x);
    let mut i = skip;
    while i < statements.len()
        invariant
            skip <= i,
            sv == statements@.map_values(|x: &SyntaxNode| *x),
            forall|j: int| skip <= j < i && j < statements@.len() ==> is_noop(*#[trigger] statements@[j]),
        decreases statements.len() - i,
    {
        if !is_noop_exec(statements[i]) {
            return false;
        }
        i += 1;
    }
    true
}

/// Whether one of the first three statements holds a `return`.
fn early_return_in(statements: &Vec<&SyntaxNode>) -> (r: bool)
    ensures
        r == exists|j: int|
            0 <= j < statements@.len() && j < 3 && has_kind(
                *#[trigger] statements@[j],
                "return_statement"@,
            ),
{
    let ghost sv = statements@.map_values(|x: &SyntaxNode| *x);
    let mut k: usize = 0;
    while k < statements.len() && k < 3
        invariant
            k <= 3,
            sv == statements@.map_values(|x: &SyntaxNode| *x),
            forall|j: int|
                0 <= j < k && j < statements@.len() ==> !has_kind(
                    *#[trigger] statements@[j],
                    "return_statement"@,
                ),
        decreases 3 - k,
    {
        if statements[k].contains_kind("return_statement") {
            return true;
        }
        k += 1;
    }
    false
}

/// The facts of the test function `name` declared at `line` with body
/// `body`, skipped by a decorator when `ignored_by_decorator`.
pub fn analyze_python_function(
    name: &[char],
    line: usize,
    body: &SyntaxNode,
    ignored_by_decorator: bool,
) -> (r: TestFunction)
    ensures
        r@ == analyze_function(name@, line, *body, ignored_by_decorator),
{
    let statements = non_comment_children(body);
    let ghost sv = statements@.map_values(|x: &SyntaxNode| *x);
    let has_doc = statements.len() > 0 && is_docstring_exec(statements[0]);
    let doc_lines = if has_doc {
        row_span_exec(statements[0])
    } else {
        0
    };
    let raw = row_span_exec(body);
    let skip: usize = if has_doc {
        1
    } else {
        0
    };
    let is_empty = all_noop_from(&statements, skip);
    let has_early_return = early_return_in(&statements);
    proof {
        assert(is_empty == forall|j: int| skip <= j < sv.len() ==> is_noop(#[trigger] sv[j])) by {
            if is_empty {
                assert forall|j: int| skip <= j < sv.len() implies is_noop(#[trigger] sv[j]) by {
                    assert(sv[j] == *statements@[j]);
                }
            } else {
                let j = choose|j: int| skip <= j < statements@.len() && !is_noop(*statements@[j]);
                assert(sv[j] == *statements@[j]);
            }
        }
        assert(has_early_return == exists|j: int|
            0 <= j < sv.len() && j < 3 && has_kind(#[trigger] sv[j], "return_statement"@)) by {
            if has_early_return {
                let j = choose|j: int|
                    0 <= j < statements@.len() && j < 3 && has_kind(
                        *#[trigger] statements@[j],
                        "return_statement"@,
                    );
                assert(sv[j] == *statements@[j]);
            } else {
                assert forall|j: int| 0 <= j < sv.len() && j < 3 implies !has_kind(
                    #[trigger] sv[j],
                    "return_statement"@,
                ) by {
                    assert(sv[j] == *statements@[j]);
                }
            }
        }
    }
    let mut info = fresh_facts();
    walk_statements(body, &mut info, false);
    let body_line_count = if raw >= doc_lines {
        raw - doc_lines
    } else {
        0
    };
    TestFunction {
        name: string_of(name),
        line,
        body_source: crate::model::smell::copy_string(&body.text),
        is_ignored: ignored_by_decorator || info.has_skip,
        has_assertion: info.assertion_count > 0,
        has_sleep: info.has_sleep,
        has_conditional: info.has_if || info.has_match || info.has_for || info.has_while,
        has_branching: info.has_if || info.has_match,
        has_for_loop: info.has_for,
        has_while_loop: info.has_while,
        has_assertion_in_loop: info.has_assertion_in_loop,
        has_print: info.has_print,
        is_empty,
        assertion_count: info.assertion_count,
        assert_only_count: 0,
        assertions_without_message: info.assertions_without_message,
        assert_only_without_message: 0,
        magic_numbers: info.magic_numbers,
        has_early_return,
        has_timeout_dependency: info.has_timeout_dependency,
        body_line_count,
    }
}

/// `s` with all leading `@` removed.
pub(crate) fn strip_ats_exec(s: &[char]) -> (r: Vec<char>)
    ensures
        r@ == strip_ats(s@),
{
    let mut i: usize = 0;
    proof {
        assert(s@.subrange(0, s@.len() as int) =~= s@);
    }
    while i < s.len() && s[i] == '@'
        invariant
            i <= s@.len(),
            strip_ats(s@) == strip_ats(s@.subrange(i as int, s@.len() as int)),
        decreases s.len() - i,
    {
        proof {
            assert(s@.subrange(i as int, s@.len() as int).drop_first() =~= s@.subrange(
                i as int + 1,
                s@.len() as int,
            ));
        }
        i += 1;
    }
    crate::text::slice_chars(s, i, s.len())
}

/// Whether a decorator's text is a skip marker.
pub fn is_skip_decorator(text: &[char]) -> (r: bool)
    ensures
        r == is_skip_decorator_text(text@),
{
    let stripped = strip_ats_exec(text);
    let t = trim_chars(&stripped);
    starts_with_str(&t, "unittest.skip") || starts_with_str(&t, "pytest.mark.skip")
        || starts_with_str(&t, "pytest.mark.xfail") || starts_with_str(&t, "skip")
        || starts_with_str(&t, "skipIf") || starts_with_str(&t, "skipUnless") || starts_with_str(
        &t,
        "expectedFailure",
    ) || starts_with_str(&t, "unittest.expectedFailure")
}

fn any_skip_decorator_exec(n: &SyntaxNode) -> (r: bool)
    ensures
        r == any_skip_decorator(n.children@),
{
    let mut i: usize = 0;
    while i < n.children.len()
        invariant
            i <= n.children@.len(),
            forall|j: int|
                0 <= j < i ==> !((#[trigger] n.children@[j]).kind@ == "decorator"@
                    && is_skip_decorator_text(n.children@[j].text@)),
        decreases n.children.len() - i,
    {
        let c = &n.children[i];
        if c.is_kind("decorator") {
            let t = text_chars(c);
            if is_skip_decorator(&t) {
                proof {
                    assert(n.children@[i as int] == *c);
                }
                return true;
            }
        }
        i += 1;
    }
    false
}

fn push_test_function(def: &SyntaxNode, skipped: bool, out: &mut Vec<TestFunction>)
    ensures
        final(out)@.map_values(|f: TestFunction| f@) == old(out)@.map_values(|f: TestFunction| f@)
            + test_function_of(*def, skipped),
{
    let ghost before = out@.map_values(|f: TestFunction| f@);
    let name = match def.child_by_field_name("name") {
        Some(n) => n,
        None => {
            proof {
                assert(before + Seq::<FunctionView>::empty() =~= before);
            }
            return ;
        },
    };
    let body = match def.child_by_field_name("body") {
        Some(b) => b,
        None => {
            proof {
                assert(before + Seq::<FunctionView>::empty() =~= before);
            }
            return ;
        },
    };
    let nm = text_chars(name);
    if !starts_with_str(&nm, "test") {
        proof {
            assert(before + Seq::<FunctionView>::empty() =~= before);
        }
        return ;
    }
    let f = analyze_python_function(&nm, bump_exec(def.start_row), body, skipped);
    out.push(f);
    proof {
        assert(out@.map_values(|x: TestFunction| x@) =~= before.push(f@));
    }
}

/// Appends the test functions declared by the children of `n`.
fn collect_into(n: &SyntaxNode, class_ignored: bool, out: &mut Vec<TestFunction>)
    ensures
        final(out)@.map_values(|f: TestFunction| f@) == old(out)@.map_values(|f: TestFunction| f@)
            + collect_children(*n, n.children@.len() as int, class_ignored),
    decreases node_size(*n), 0nat,
{
    let ghost start = out@.map_values(|f: TestFunction| f@);
    let mut i: usize = 0;
    proof {
        assert(start + Seq::<FunctionView>::empty() =~= start);
    }
    while i < n.children.len()
        invariant
            i <= n.children@.len(),
            out@.map_values(|f: TestFunction| f@) == start + collect_children(
                *n,
                i as int,
                class_ignored,
            ),
        decreases n.children.len() - i,
    {
        proof {
            lemma_child_smaller(*n, i as int);
        }
        let ghost mid = out@.map_values(|f: TestFunction| f@);
        collect_from(&n.children[i], class_ignored, out);
        proof {
            assert(mid + collect_node(n.children@[i as int], class_ignored) =~= start
                + collect_children(*n, i as int + 1, class_ignored));
        }
        i += 1;
    }
}

/// Appends the test functions declared by node `c`.
fn collect_from(c: &SyntaxNode, class_ignored: bool, out: &mut Vec<TestFunction>)
    ensures
        final(out)@.map_values(|f: TestFunction| f@) == old(out)@.map_values(|f: TestFunction| f@)
            + collect_node(*c, class_ignored),
    decreases node_size(*c), 1nat,
{
    let ghost before = out@.map_values(|f: TestFunction| f@);
    if c.is_kind("function_definition") {
        push_test_function(c, class_ignored, out);
    } else if c.is_kind("decorated_definition") {
        let skip = any_skip_decorator_exec(c);
        proof {
            lemma_field_child_smaller(*c, "definition"@);
        }
        match c.child_by_field_name("definition") {
            Some(def) => {
                if def.is_kind("function_definition") {
                    push_test_function(def, class_ignored || skip, out);
                } else if def.is_kind("class_definition") {
                    proof {
                        lemma_field_child_smaller(*def, "body"@);
                    }
                    match def.child_by_field_name("body") {
                        Some(b) => collect_into(b, class_ignored || skip, out),
                        None => {
                            proof {
                                assert(before + Seq::<FunctionView>::empty() =~= before);
                            }
                        },
                    }
                } else {
                    proof {
                        assert(before + Seq::<FunctionView>::empty() =~= before);
                    }
                }
            },
            None => {
                proof {
                    assert(before + Seq::<FunctionView>::empty() =~= before);
                }
            },
        }
    } else if c.is_kind("class_definition") {
        proof {
            lemma_field_child_smaller(*c, "body"@);
        }
        match c.child_by_field_name("body") {
            Some(b) => collect_into(b, class_ignored, out),
            None => {
                proof {
                    assert(before + Seq::<FunctionView>::empty() =~= before);
                }
            },
        }
    } else {
        proof {
            assert(before + Seq::<FunctionView>::empty() =~= before);
        }
    }
}

/// The test functions of the module whose syntax tree is `root`, in source order.
pub fn python_module_tests(root: &SyntaxNode) -> (r: Vec<TestFunction>)
    ensures
        r@.map_values(|f: TestFunction| f@) == module_tests(*root),
{
    let mut out: Vec<TestFunction> = Vec::new();
    proof {
        assert(out@.map_values(|f: TestFunction| f@) =~= Seq::<FunctionView>::empty());
    }
    collect_into(root, false, &mut out);
    proof {
        assert(Seq::<FunctionView>::empty() + module_tests(*root) =~= module_tests(*root));
    }
    out
}

/// Whether `path` names a Python test file: its file name contains `test`, case ignored.
pub fn is_python_test_path(path: &str) -> (r: bool)
    ensures
        r == is_test_file_name(path@),
{
    let base = match file_name(path) {
        Some(n) => n,
        None => String::new(),
    };
    let lower = lowercase(base.as_str());
    let lc = chars_of(lower.as_str());
    contains_str(&lc, "test")
}

/// The file built from a Python module's syntax tree.
pub fn python_test_file(path: &str, source: &str, root: &SyntaxNode) -> (r: TestFile)
    ensures
        r.path@ == path@,
        r.language@ == "python"@,
        r.test_functions@.map_values(|f: TestFunction| f@) == module_tests(*root),
        opt_view(r.source) == Some(source@),
        r.flavor is None,
{
    TestFile {
        path: String::from_str(path),
        language: String::from_str("python"),
        test_functions: python_module_tests(root),
        source: Some(String::from_str(source)),
        flavor: None,
    }
}

/// Parses Python test files (pytest and unittest conventions).
pub struct PythonParser;

impl LanguageParser for PythonParser {
    /// The file extensions this front end reads.
    fn extensions(&self) -> (r: Vec<&'static str>)
        ensures
            r@.map_values(|e: &str| e@) == seq!["py"@],
    {
        let v = vec!["py"];
        proof {
            assert(v@.map_values(|e: &str| e@) =~= seq!["py"@]);
        }
        v
    }

    /// The language name.
    fn language_name(&self) -> (r: &'static str)
        ensures
            r@ == "python"@,
    {
        "python"
    }

    /// Parses `source` when `path` names a test file: `None` for any other
    /// file; otherwise (tree-sitter always builds a tree) the file
    /// with the test functions of a copy of the tree tree-sitter built, which
    /// agrees with it node by node (`python_test_file`).
    fn parse(&self, path: &str, source: &str) -> (r: Option<TestFile>)
        ensures
            !is_test_file_name(path@) ==> r is None,
            is_test_file_name(path@) ==> r is Some && python_tree_of(source@) is Some,
            r matches Some(tf) ==> {
                &&& is_test_file_name(path@)
                &&& tf.path@ == path@
                &&& tf.language@ == "python"@
                &&& opt_view(tf.source) == Some(source@)
                &&& tf.flavor is None
                &&& exists|root: SyntaxNode|
                    agrees(root, python_tree_of(source@)->0) && tf.test_functions@.map_values(
                        |f: TestFunction| f@,
                    ) == module_tests(root)
            },
    {
        if !is_python_test_path(path) {
            return None;
        }
        let root = parse_tree(Grammar::Python, source)?;
        Some(python_test_file(path, source, &root))
    }
}

} // verus!
