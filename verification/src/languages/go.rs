//! Go front end: `func TestXxx` / `BenchmarkXxx` / `FuzzXxx` / `ExampleXxx`
//! in `_test.go` files, found line by line.
use vstd::prelude::*;
use crate::languages::LanguageParser;
use crate::languages::line_rules::{
    any_flagged, any_line, contains_any, count_flagged, count_lines, keyword_line, lines_view,
    matches_any, strs_view, ContainsAny, KeywordLine, MatchesAny,
};
use crate::model::detector::LineRule;
use crate::model::smell::{bump, bump_exec, opt_view, FunctionView, TestFile, TestFunction};
use crate::pattern::{
    compile, pattern_group1, pattern_group1_all, re_group1, re_group1_all, re_match, regex_compiles,
};
use crate::text::{
    chars_of, contains, contains_str, count_char, count_char_exec, ends_with, ends_with_str,
    equals_str, join_lines, lines, lines_of, parse_i64, parse_i64_exec, starts_with,
    starts_with_str, string_of, trim, trim_chars,
};

verus! {

/// A test, benchmark, fuzz target or example declaration; group 1 is its name.
pub const GO_TEST_FUNC: &'static str =
    "^\\s*func\\s+((?:Test|Benchmark|Fuzz|Example)[A-Za-z0-9_]*)\\s*\\([^)]*\\)\\s*\\{";

/// A testify assertion (`assert.X(` / `require.X(`).
pub const GO_TESTIFY: &'static str = "\\b(?:assert|require)\\.\\w+\\(";

/// A gomega assertion (`Expect(` / `Ω(`).
pub const GO_GOMEGA: &'static str = "(?:Expect|Ω)\\s*\\(";

/// `t.Fail()` / `t.FailNow()` and the like, which carry no message.
pub const GO_NO_MESSAGE: &'static str = "\\b[tbf]\\.(Fail|FailNow)\\s*\\(\\s*\\)";

/// A whole decimal number; group 1 is its digits.
pub const NUMBER: &'static str = "\\b(\\d+)\\b";

/// A line that asserts or compares with a number.
pub const GO_ASSERT_LINE: &'static str =
    "(?:assert\\.|require\\.|t\\.Error|t\\.Fatal|t\\.Fail|Expect|Ω|==\\s*\\d|!=\\s*\\d)";

/// Calls that skip a test.
pub const GO_SKIPS: [&'static str; 5] = ["t.Skip(", "t.SkipNow(", "t.Skipf(", "b.Skip(", "b.SkipNow("];

/// Standard-library failure reports.
pub const GO_STD_ASSERTS: [&'static str; 16] = [
    "t.Error(",
    "t.Errorf(",
    "t.Fatal(",
    "t.Fatalf(",
    "t.Fail(",
    "t.FailNow(",
    "b.Error(",
    "b.Errorf(",
    "b.Fatal(",
    "b.Fatalf(",
    "b.Fail(",
    "b.FailNow(",
    "f.Error(",
    "f.Errorf(",
    "f.Fatal(",
    "f.Fatalf(",
];

/// Sleeping.
pub const GO_SLEEPS: [&'static str; 1] = ["time.Sleep("];

/// Printing; `t.Log`/`t.Logf` are not among them, as `go test` shows their
/// output only with `-v`.
pub const GO_PRINTS: [&'static str; 7] = [
    "fmt.Print(",
    "fmt.Println(",
    "fmt.Printf(",
    "log.Print(",
    "log.Println(",
    "log.Printf(",
    "println(",
];

/// A call of a custom assertion helper, such as `assertEqual(`, `mustParse(`,
/// `checkResult(`, `expectError(` or `verifyOutput(`.
pub const GO_HELPER: &'static str = "\\b(?:assert|must|check|expect|verify)[A-Z]\\w*\\s*\\(";

/// Timers, deadlines and clock reads.
pub const GO_TIMEOUTS: [&'static str; 8] = [
    "time.After(",
    "time.NewTimer(",
    "time.NewTicker(",
    "time.AfterFunc(",
    "context.WithTimeout(",
    "context.WithDeadline(",
    "time.Now()",
    "time.Since(",
];

/// Assertion tokens looked for inside loops.
pub const GO_LOOP_ASSERTS: [&'static str; 7] = [
    "t.Error",
    "t.Fatal",
    "t.Fail",
    "assert.",
    "require.",
    "Expect(",
    "Ω(",
];

/// `d + 1`, saturating.
pub open spec fn inc_depth(d: i64) -> i64 {
    if d < i64::MAX {
        (d + 1) as i64
    } else {
        d
    }
}

/// `d - 1`, saturating.
pub open spec fn dec_depth(d: i64) -> i64 {
    if d > i64::MIN {
        (d - 1) as i64
    } else {
        d
    }
}

/// `d + n - m`, clamped to the `i64` range.
pub open spec fn shift_depth(d: i64, n: nat, m: nat) -> i64 {
    let v = d + n - m;
    if v > i64::MAX {
        i64::MAX
    } else if v < i64::MIN {
        i64::MIN
    } else {
        v as i64
    }
}

/// Where the brace scan of a Go line stands.
pub enum GoMode {
    Code,
    Str,
    Rune,
    Raw,
}

/// The end of a line scan: the function's closing brace was met, or the
/// scan goes on with this depth.
pub enum Scan {
    Closed,
    Open(i64),
}

/// The brace scan of Go line `cs` from index `j`: string, rune and raw
/// string literals and `//` comments are skipped; strings and runes end with
/// the line.
pub open spec fn go_scan(cs: Seq<char>, j: int, depth: i64, mode: GoMode) -> Scan
    decreases cs.len() + 2 - j,
{
    if j < 0 || j >= cs.len() {
        Scan::Open(depth)
    } else {
        let ch = cs[j];
        match mode {
            GoMode::Raw => if ch == '`' {
                go_scan(cs, j + 1, depth, GoMode::Code)
            } else {
                go_scan(cs, j + 1, depth, GoMode::Raw)
            },
            GoMode::Str => if ch == '\\' {
                go_scan(cs, j + 2, depth, GoMode::Str)
            } else if ch == '"' {
                go_scan(cs, j + 1, depth, GoMode::Code)
            } else {
                go_scan(cs, j + 1, depth, GoMode::Str)
            },
            GoMode::Rune => if ch == '\\' {
                go_scan(cs, j + 2, depth, GoMode::Rune)
            } else if ch == '\'' {
                go_scan(cs, j + 1, depth, GoMode::Code)
            } else {
                go_scan(cs, j + 1, depth, GoMode::Rune)
            },
            GoMode::Code => if ch == '"' {
                go_scan(cs, j + 1, depth, GoMode::Str)
            } else if ch == '\'' {
                go_scan(cs, j + 1, depth, GoMode::Rune)
            } else if ch == '`' {
                go_scan(cs, j + 1, depth, GoMode::Raw)
            } else if ch == '/' && j + 1 < cs.len() && cs[j + 1] == '/' {
                Scan::Open(depth)
            } else if ch == '{' {
                go_scan(cs, j + 1, inc_depth(depth), GoMode::Code)
            } else if ch == '}' {
                if dec_depth(depth) == 0 {
                    Scan::Closed
                } else {
                    go_scan(cs, j + 1, dec_depth(depth), GoMode::Code)
                }
            } else {
                go_scan(cs, j + 1, depth, GoMode::Code)
            },
        }
    }
}

/// The body of the function declared on line `start`, scanning from line
/// `i` at brace depth `depth` with the body lines `acc` seen so far: the
/// lines strictly between the declaration and the line of the closing
/// brace, joined with newlines, and the index of that line.
pub open spec fn go_body(ls: Seq<Seq<char>>, start: int, i: int, depth: i64, acc: Seq<Seq<char>>) -> Option<
    (Seq<char>, int),
>
    decreases ls.len() - i,
{
    if i < 0 || i >= ls.len() {
        None
    } else {
        match go_scan(ls[i], 0, depth, GoMode::Code) {
            Scan::Closed => Some(
                (
                    if i == start {
                        Seq::empty()
                    } else {
                        join_lines(acc)
                    },
                    i,
                ),
            ),
            Scan::Open(d) => go_body(
                ls,
                start,
                i + 1,
                d,
                if i > start {
                    acc.push(ls[i])
                } else {
                    acc
                },
            ),
        }
    }
}

pub proof fn lemma_go_body_end(ls: Seq<Seq<char>>, start: int, i: int, depth: i64, acc: Seq<Seq<char>>)
    ensures
        go_body(ls, start, i, depth, acc) matches Some((_, e)) ==> i <= e < ls.len(),
    decreases ls.len() - i,
{
    if 0 <= i < ls.len() {
        match go_scan(ls[i], 0, depth, GoMode::Code) {
            Scan::Closed => {},
            Scan::Open(d) => {
                lemma_go_body_end(
                    ls,
                    start,
                    i + 1,
                    d,
                    if i > start {
                        acc.push(ls[i])
                    } else {
                        acc
                    },
                );
            },
        }
    }
}

/// The numbers outside -10..=10 among the digit strings `gs`, each with `line`.
pub open spec fn numbers_at(gs: Seq<Seq<char>>, line: usize) -> Seq<(i64, usize)>
    decreases gs.len(),
{
    if gs.len() == 0 {
        Seq::empty()
    } else {
        numbers_at(gs.drop_last(), line) + match parse_i64(gs.last()) {
            Some(n) => if -10 <= n <= 10 {
                Seq::empty()
            } else {
                seq![(n, line)]
            },
            None => Seq::empty(),
        }
    }
}

/// The magic numbers of Go line `l`, numbered `line`: the numbers on a
/// non-comment line that asserts or compares.
pub open spec fn go_line_magic(l: Seq<char>, line: usize) -> Seq<(i64, usize)> {
    let t = trim(l);
    if !starts_with(t, "//"@) && re_match(GO_ASSERT_LINE@, t) {
        numbers_at(re_group1_all(NUMBER@, t), line)
    } else {
        Seq::empty()
    }
}

/// The magic numbers of the first `k` lines of `ls`, in order.
pub open spec fn go_magic(ls: Seq<Seq<char>>, k: int) -> Seq<(i64, usize)>
    decreases k,
{
    if k <= 0 || k > ls.len() {
        Seq::empty()
    } else {
        go_magic(ls, k - 1) + go_line_magic(ls[k - 1], k as usize)
    }
}

/// Whether a line holds an assertion token looked for in loops.
pub open spec fn has_loop_assert(t: Seq<char>) -> bool {
    exists|k: int| 0 <= k < GO_LOOP_ASSERTS@.len() && contains(t, #[trigger] GO_LOOP_ASSERTS@[k]@)
}

/// Whether a trimmed line opens a `for` loop.
pub open spec fn opens_for(t: Seq<char>) -> bool {
    starts_with(t, "for "@) || starts_with(t, "for{"@) || t == "for"@
}

/// Whether an assertion stands inside a `for` loop, scanning the lines `ls`
/// with the loop state `in_for` and brace depth `depth`.
pub open spec fn go_loop_assert(ls: Seq<Seq<char>>, in_for: bool, depth: i64) -> bool
    decreases ls.len(),
{
    if ls.len() == 0 {
        false
    } else {
        let t = trim(ls[0]);
        if starts_with(t, "//"@) {
            go_loop_assert(ls.drop_first(), in_for, depth)
        } else {
            let opened = opens_for(t);
            let in1 = in_for || opened;
            let d1 = if opened {
                0i64
            } else {
                depth
            };
            if in1 {
                let d2 = shift_depth(d1, count_char(t, '{'), count_char(t, '}'));
                if has_loop_assert(t) {
                    true
                } else {
                    go_loop_assert(ls.drop_first(), d2 > 0, d2)
                }
            } else {
                go_loop_assert(ls.drop_first(), false, d1)
            }
        }
    }
}

/// Whether one of the first three code lines (neither blank nor comment) starts with `return`.
pub open spec fn go_early_return(ls: Seq<Seq<char>>, budget: nat) -> bool
    decreases ls.len(),
{
    if ls.len() == 0 || budget == 0 {
        false
    } else {
        let t = trim(ls[0]);
        if t.len() == 0 || starts_with(t, "//"@) {
            go_early_return(ls.drop_first(), budget)
        } else {
            starts_with(t, "return"@) || go_early_return(ls.drop_first(), (budget - 1) as nat)
        }
    }
}

/// Whether line `l` holds code: it is neither blank nor a `//` comment.
pub open spec fn is_code_line(l: Seq<char>) -> bool {
    trim(l).len() > 0 && !starts_with(trim(l), "//"@)
}

/// The lines of `ls` that hold code, in order.
pub open spec fn code_lines(ls: Seq<Seq<char>>) -> Seq<Seq<char>> {
    ls.filter(|l: Seq<char>| is_code_line(l))
}

proof fn lemma_early_return_budget(ls: Seq<Seq<char>>, budget: nat)
    ensures
        go_early_return(ls, budget) <==> exists|i: int|
            0 <= i < budget && i < code_lines(ls).len() && #[trigger] starts_with(
                trim(code_lines(ls)[i]),
                "return"@,
            ),
    decreases ls.len(),
{
    let pred = |l: Seq<char>| is_code_line(l);
    if ls.len() > 0 {
        let rest = ls.drop_first();
        lemma_early_return_budget(rest, budget);
        if budget > 0 {
            lemma_early_return_budget(rest, (budget - 1) as nat);
        }
        assert(ls =~= seq![ls[0]] + rest);
        Seq::filter_distributes_over_add(seq![ls[0]], rest, pred);
        reveal_with_fuel(Seq::filter, 2);
        assert(seq![ls[0]].drop_last() =~= Seq::<Seq<char>>::empty());
        let fr = code_lines(rest);
        if pred(ls[0]) {
            assert(seq![ls[0]].filter(pred) =~= seq![ls[0]]);
            let fl = seq![ls[0]] + fr;
            assert(code_lines(ls) == fl);
            if budget > 0 {
                if go_early_return(ls, budget) {
                    if starts_with(trim(ls[0]), "return"@) {
                        assert(fl[0] == ls[0]);
                    } else {
                        let k = choose|k: int|
                            0 <= k < budget - 1 && k < fr.len() && #[trigger] starts_with(
                                trim(fr[k]),
                                "return"@,
                            );
                        assert(fl[k + 1] == fr[k]);
                    }
                }
                if exists|i: int|
                    0 <= i < budget && i < fl.len() && #[trigger] starts_with(trim(fl[i]), "return"@)
                {
                    let i = choose|i: int|
                        0 <= i < budget && i < fl.len() && #[trigger] starts_with(trim(fl[i]), "return"@);
                    if i > 0 {
                        assert(fl[i] == fr[i - 1]);
                        assert(starts_with(trim(fr[i - 1]), "return"@));
                    }
                }
            }
        } else {
            assert(seq![ls[0]].filter(pred) =~= Seq::<Seq<char>>::empty());
            assert(code_lines(ls) =~= fr);
        }
    }
}

/// Early-return law: a Go test returns early exactly when one of the first
/// three lines of its body that hold code, trimmed, starts with `return`;
/// blank lines and comments are passed over.
pub proof fn lemma_early_return_first_three(ls: Seq<Seq<char>>)
    ensures
        go_early_return(ls, 3) <==> exists|i: int|
            0 <= i < 3 && i < code_lines(ls).len() && #[trigger] starts_with(
                trim(code_lines(ls)[i]),
                "return"@,
            ),
{
    lemma_early_return_budget(ls, 3);
}

/// The saturating sum of three counts.
pub open spec fn sum4(a: nat, b: nat, c: nat, d: nat) -> usize {
    if a + b + c + d > usize::MAX {
        usize::MAX
    } else {
        (a + b + c + d) as usize
    }
}

/// The index of the line, from line `j` on with brace depth `depth`, where
/// the braces of a table literal balance out, if they do.
pub open spec fn table_end(ls: Seq<Seq<char>>, j: int, depth: i64) -> Option<int>
    decreases ls.len() - j,
{
    if j < 0 || j >= ls.len() {
        None
    } else {
        let t = trim(ls[j]);
        let d = shift_depth(depth, count_char(t, '{'), count_char(t, '}'));
        if d <= 0 {
            Some(j)
        } else {
            table_end(ls, j + 1, d)
        }
    }
}

pub proof fn lemma_table_end(ls: Seq<Seq<char>>, j: int, depth: i64)
    ensures
        table_end(ls, j, depth) matches Some(e) ==> j <= e < ls.len(),
    decreases ls.len() - j,
{
    if 0 <= j < ls.len() {
        let t = trim(ls[j]);
        let d = shift_depth(depth, count_char(t, '{'), count_char(t, '}'));
        if d > 0 {
            lemma_table_end(ls, j + 1, d);
        }
    }
}

/// Whether a line opens a table definition (`[]struct`), outside a comment.
pub open spec fn opens_table(l: Seq<char>) -> bool {
    let t = trim(l);
    !starts_with(t, "//"@) && contains(t, "[]struct"@)
}

/// The number of lines, from line `i` on, of table definitions that span
/// five lines or more.
pub open spec fn table_lines(ls: Seq<Seq<char>>, i: int) -> nat
    decreases ls.len() - i,
{
    if i < 0 || i >= ls.len() {
        0
    } else if opens_table(ls[i]) {
        proof {
            lemma_table_end(ls, i, 0);
        }
        match table_end(ls, i, 0) {
            Some(e) => (if e - i + 1 >= 5 {
                (e - i + 1) as nat
            } else {
                0nat
            }) + table_lines(ls, e + 1),
            None => table_lines(ls, i + 1),
        }
    } else {
        table_lines(ls, i + 1)
    }
}

/// The facts of Go test function `name` declared at `line` with body `body`.
pub open spec fn analyze_go(name: Seq<char>, line: usize, body: Seq<char>) -> FunctionView {
    let ls = lines(body);
    let std_count = count_flagged(ls, |l: Seq<char>| contains_any(l, "//"@, strs_view(GO_STD_ASSERTS@)));
    let testify = count_flagged(ls, |l: Seq<char>| matches_any(l, "//"@, seq![GO_TESTIFY@]));
    let gomega = count_flagged(ls, |l: Seq<char>| matches_any(l, "//"@, seq![GO_GOMEGA@]));
    let helpers = count_flagged(ls, |l: Seq<char>| matches_any(l, "//"@, seq![GO_HELPER@]));
    let total = sum4(std_count, testify, gomega, helpers);
    let has_if = any_flagged(ls, |l: Seq<char>| keyword_line(l, "//"@, "if"@, "("@));
    let has_switch = any_flagged(ls, |l: Seq<char>| keyword_line(l, "//"@, "switch"@, "{"@));
    let has_select = any_flagged(ls, |l: Seq<char>| keyword_line(l, "//"@, "select"@, "{"@));
    let has_for = any_flagged(ls, |l: Seq<char>| keyword_line(l, "//"@, "for"@, "{"@));
    FunctionView {
        name,
        line,
        body_source: body,
        is_ignored: any_flagged(ls, |l: Seq<char>| contains_any(l, "//"@, strs_view(GO_SKIPS@))),
        has_assertion: total > 0,
        has_sleep: any_flagged(ls, |l: Seq<char>| contains_any(l, "//"@, strs_view(GO_SLEEPS@))),
        has_conditional: has_if || has_switch || has_select || has_for,
        has_branching: has_if || has_switch || has_select,
        has_for_loop: has_for,
        has_while_loop: false,
        has_assertion_in_loop: go_loop_assert(ls, false, 0),
        has_print: any_flagged(ls, |l: Seq<char>| contains_any(l, "//"@, strs_view(GO_PRINTS@))),
        is_empty: forall|i: int|
            0 <= i < ls.len() ==> (trim(#[trigger] ls[i]).len() == 0 || starts_with(
                trim(ls[i]),
                "//"@,
            )),
        assertion_count: total,
        assert_only_count: 0,
        assertions_without_message: count_flagged(
            ls,
            |l: Seq<char>| matches_any(l, "//"@, seq![GO_NO_MESSAGE@]),
        ) as usize,
        assert_only_without_message: 0,
        magic_numbers: go_magic(ls, ls.len() as int),
        has_early_return: go_early_return(ls, 3),
        has_timeout_dependency: any_flagged(
            ls,
            |l: Seq<char>| contains_any(l, "//"@, strs_view(GO_TIMEOUTS@)),
        ),
        body_line_count: if table_lines(ls, 0) <= ls.len() {
            (ls.len() - table_lines(ls, 0)) as usize
        } else {
            0
        },
    }
}

/// The test functions declared in the lines `ls` from line `i` on, in order.
pub open spec fn go_functions(ls: Seq<Seq<char>>, i: int) -> Seq<FunctionView>
    decreases ls.len() - i,
{
    if i < 0 || i >= ls.len() {
        Seq::empty()
    } else {
        match re_group1(GO_TEST_FUNC@, ls[i]) {
            None => go_functions(ls, i + 1),
            Some(name) => {
                proof {
                    lemma_go_body_end(ls, i, i, 0, Seq::empty());
                }
                match go_body(ls, i, i, 0, Seq::empty()) {
                    Some((body, end)) => seq![analyze_go(name, bump(i as usize), body)]
                        + go_functions(ls, end + 1),
                    None => go_functions(ls, i + 1),
                }
            },
        }
    }
}

} // verus!

verus! {

pub fn inc_depth_exec(d: i64) -> (r: i64)
    ensures
        r == inc_depth(d),
{
    if d < i64::MAX {
        d + 1
    } else {
        d
    }
}

pub fn dec_depth_exec(d: i64) -> (r: i64)
    ensures
        r == dec_depth(d),
{
    if d > i64::MIN {
        d - 1
    } else {
        d
    }
}

pub fn shift_depth_exec(d: i64, n: usize, m: usize) -> (r: i64)
    ensures
        r == shift_depth(d, n as nat, m as nat),
{
    let v: i128 = d as i128 + n as i128 - m as i128;
    if v > i64::MAX as i128 {
        i64::MAX
    } else if v < i64::MIN as i128 {
        i64::MIN
    } else {
        v as i64
    }
}

/// The brace scan of one Go line from brace depth `depth`.
pub fn go_scan_line(cs: &[char], depth: i64) -> (r: Scan)
    ensures
        r == go_scan(cs@, 0, depth, GoMode::Code),
{
    let mut j: usize = 0;
    let mut d = depth;
    let mut mode = GoMode::Code;
    while j < cs.len()
        invariant
            j <= cs@.len(),
            go_scan(cs@, 0, depth, GoMode::Code) == go_scan(cs@, j as int, d, mode),
        decreases cs.len() - j,
    {
        let ch = cs[j];
        match mode {
            GoMode::Raw => {
                if ch == '`' {
                    mode = GoMode::Code;
                }
                j += 1;
            },
            GoMode::Str => {
                if ch == '\\' {
                    if cs.len() - j < 2 {
                        proof {
                            assert(go_scan(cs@, j as int + 2, d, mode) == Scan::Open(d));
                        }
                        return Scan::Open(d);
                    }
                    j += 2;
                } else {
                    if ch == '"' {
                        mode = GoMode::Code;
                    }
                    j += 1;
                }
            },
            GoMode::Rune => {
                if ch == '\\' {
                    if cs.len() - j < 2 {
                        proof {
                            assert(go_scan(cs@, j as int + 2, d, mode) == Scan::Open(d));
                        }
                        return Scan::Open(d);
                    }
                    j += 2;
                } else {
                    if ch == '\'' {
                        mode = GoMode::Code;
                    }
                    j += 1;
                }
            },
            GoMode::Code => {
                if ch == '"' {
                    mode = GoMode::Str;
                } else if ch == '\'' {
                    mode = GoMode::Rune;
                } else if ch == '`' {
                    mode = GoMode::Raw;
                } else if ch == '/' && j + 1 < cs.len() && cs[j + 1] == '/' {
                    return Scan::Open(d);
                } else if ch == '{' {
                    d = inc_depth_exec(d);
                } else if ch == '}' {
                    d = dec_depth_exec(d);
                    if d == 0 {
                        return Scan::Closed;
                    }
                }
                j += 1;
            },
        }
    }
    Scan::Open(d)
}

/// Copies a line.
pub fn copy_line(l: &Vec<char>) -> (r: Vec<char>)
    ensures
        r@ == l@,
{
    let r = crate::text::slice_chars(l, 0, l.len());
    proof {
        assert(r@ =~= l@);
    }
    r
}

/// The body of the function declared on line `start`, and the index of the
/// line of its closing brace.
pub fn go_body_exec(ls: &Vec<Vec<char>>, start: usize) -> (r: Option<(Vec<char>, usize)>)
    ensures
        start >= ls@.len() ==> r is None,
        match r {
            Some((b, e)) => go_body(lines_view(ls@), start as int, start as int, 0, Seq::empty())
                == Some((b@, e as int)),
            None => go_body(lines_view(ls@), start as int, start as int, 0, Seq::empty()) is None,
        },
{
    let ghost lv = lines_view(ls@);
    let mut acc: Vec<Vec<char>> = Vec::new();
    let mut depth: i64 = 0;
    let mut i = start;
    proof {
        assert(lines_view(acc@) =~= Seq::<Seq<char>>::empty());
    }
    while i < ls.len()
        invariant
            start <= i,
            i <= ls@.len() || i == start,
            lv.len() == ls@.len(),
            lv == lines_view(ls@),
            go_body(lv, start as int, start as int, 0, Seq::empty()) == go_body(
                lv,
                start as int,
                i as int,
                depth,
                lines_view(acc@),
            ),
        decreases ls.len() - i,
    {
        proof {
            assert(lv[i as int] == ls@[i as int]@);
        }
        match go_scan_line(&ls[i], depth) {
            Scan::Closed => {
                let body = if i == start {
                    Vec::new()
                } else {
                    crate::text::join_lines_exec(&acc)
                };
                proof {
                    if i == start {
                        assert(body@ =~= Seq::<char>::empty());
                    }
                }
                return Some((body, i));
            },
            Scan::Open(d) => {
                if i > start {
                    let ghost before = lines_view(acc@);
                    acc.push(copy_line(&ls[i]));
                    proof {
                        assert(lines_view(acc@) =~= before.push(lv[i as int]));
                    }
                }
                depth = d;
            },
        }
        i += 1;
    }
    None
}

/// The numbers outside -10..=10 among `gs`, each with `line`.
pub fn numbers_at_exec(gs: &Vec<Vec<char>>, line: usize, out: &mut Vec<(i64, usize)>)
    ensures
        final(out)@ == old(out)@ + numbers_at(lines_view(gs@), line),
{
    let ghost gv = lines_view(gs@);
    let ghost start = out@;
    let mut i: usize = 0;
    while i < gs.len()
        invariant
            i <= gs@.len(),
            gv == lines_view(gs@),
            out@ == start + numbers_at(gv.take(i as int), line),
        decreases gs.len() - i,
    {
        proof {
            assert(gv.take(i as int + 1).drop_last() =~= gv.take(i as int));
            assert(gv.take(i as int + 1).last() == gs@[i as int]@);
        }
        match parse_i64_exec(&gs[i]) {
            Some(n) => {
                if !(-10 <= n && n <= 10) {
                    out.push((n, line));
                }
            },
            None => {},
        }
        proof {
            assert(out@ =~= start + numbers_at(gv.take(i as int + 1), line));
        }
        i += 1;
    }
    proof {
        assert(gv.take(gv.len() as int) =~= gv);
    }
}

/// The magic numbers of the Go body lines `ls`.
fn go_magic_exec(ls: &Vec<Vec<char>>) -> (r: Vec<(i64, usize)>)
    ensures
        r@ == go_magic(lines_view(ls@), ls@.len() as int),
{
    let ghost lv = lines_view(ls@);
    let assert_re = compile(GO_ASSERT_LINE);
    let num_re = compile(NUMBER);
    let mut out: Vec<(i64, usize)> = Vec::new();
    let mut i: usize = 0;
    while i < ls.len()
        invariant
            i <= ls@.len(),
            lv == lines_view(ls@),
            assert_re is Some <==> regex_compiles(GO_ASSERT_LINE@),
            assert_re matches Some(p) ==> p.source() == GO_ASSERT_LINE@,
            num_re is Some <==> regex_compiles(NUMBER@),
            num_re matches Some(p) ==> p.source() == NUMBER@,
            out@ == go_magic(lv, i as int),
        decreases ls.len() - i,
    {
        let t = trim_chars(&ls[i]);
        proof {
            assert(lv[i as int] == ls@[i as int]@);
        }
        let is_assert_line = !starts_with_str(&t, "//") && match &assert_re {
            Some(p) => crate::pattern::pattern_matches(p, &t),
            None => false,
        };
        if is_assert_line {
            let gs = match &num_re {
                Some(p) => pattern_group1_all(p, &t),
                None => Vec::new(),
            };
            proof {
                if num_re is None {
                    assert(lines_view(gs@) =~= Seq::<Seq<char>>::empty());
                }
            }
            numbers_at_exec(&gs, i + 1, &mut out);
        } else {
            proof {
                assert(out@ + Seq::<(i64, usize)>::empty() =~= out@);
            }
        }
        i += 1;
    }
    out
}

/// Whether the trimmed line holds an assertion token looked for in loops.
fn has_loop_assert_exec(t: &[char]) -> (r: bool)
    ensures
        r == has_loop_assert(t@),
{
    let toks = GO_LOOP_ASSERTS;
    let mut k: usize = 0;
    while k < 7
        invariant
            k <= 7,
            toks@ == GO_LOOP_ASSERTS@,
            forall|j: int| 0 <= j < k ==> !contains(t@, #[trigger] GO_LOOP_ASSERTS@[j]@),
        decreases 7 - k,
    {
        if contains_str(t, toks[k]) {
            return true;
        }
        k += 1;
    }
    false
}

/// Whether an assertion stands inside a `for` loop of the Go body lines `ls`.
fn go_loop_assert_exec(ls: &Vec<Vec<char>>) -> (r: bool)
    ensures
        r == go_loop_assert(lines_view(ls@), false, 0),
{
    let ghost lv = lines_view(ls@);
    let mut in_for = false;
    let mut depth: i64 = 0;
    let mut i: usize = 0;
    proof {
        assert(lv.skip(0) =~= lv);
    }
    while i < ls.len()
        invariant
            i <= ls@.len(),
            lv == lines_view(ls@),
            go_loop_assert(lv, false, 0) == go_loop_assert(lv.skip(i as int), in_for, depth),
        decreases ls.len() - i,
    {
        let t = trim_chars(&ls[i]);
        proof {
            assert(lv.skip(i as int)[0] == ls@[i as int]@);
            assert(lv.skip(i as int).drop_first() =~= lv.skip(i as int + 1));
        }
        if !starts_with_str(&t, "//") {
            let opened = starts_with_str(&t, "for ") || starts_with_str(&t, "for{") || equals_str(
                &t,
                "for",
            );
            if opened {
                in_for = true;
                depth = 0;
            }
            if in_for {
                depth = shift_depth_exec(depth, count_char_exec(&t, '{'), count_char_exec(&t, '}'));
                if has_loop_assert_exec(&t) {
                    return true;
                }
                in_for = depth > 0;
            }
        }
        i += 1;
    }
    false
}

/// Whether one of the first three code lines starts with `return`.
fn go_early_return_exec(ls: &Vec<Vec<char>>) -> (r: bool)
    ensures
        r == go_early_return(lines_view(ls@), 3),
{
    let ghost lv = lines_view(ls@);
    let mut budget: usize = 3;
    let mut i: usize = 0;
    proof {
        assert(lv.skip(0) =~= lv);
    }
    while i < ls.len() && budget > 0
        invariant
            i <= ls@.len(),
            lv == lines_view(ls@),
            go_early_return(lv, 3) == go_early_return(lv.skip(i as int), budget as nat),
        decreases ls.len() - i,
    {
        let t = trim_chars(&ls[i]);
        proof {
            assert(lv.skip(i as int)[0] == ls@[i as int]@);
            assert(lv.skip(i as int).drop_first() =~= lv.skip(i as int + 1));
        }
        if !(t.len() == 0 || starts_with_str(&t, "//")) {
            if starts_with_str(&t, "return") {
                return true;
            }
            budget -= 1;
        }
        i += 1;
    }
    false
}

/// The number of lines of `ls` in table definitions of five lines or more.
fn table_lines_exec(ls: &Vec<Vec<char>>) -> (r: usize)
    ensures
        r == table_lines(lines_view(ls@), 0),
        r <= ls@.len(),
{
    let ghost lv = lines_view(ls@);
    let mut r: usize = 0;
    let mut i: usize = 0;
    while i < ls.len()
        invariant
            i <= ls@.len(),
            lv == lines_view(ls@),
            r <= i,
            r + table_lines(lv, i as int) == table_lines(lv, 0),
        decreases ls.len() - i,
    {
        let t = trim_chars(&ls[i]);
        proof {
            assert(lv[i as int] == ls@[i as int]@);
        }
        if !starts_with_str(&t, "//") && contains_str(&t, "[]struct") {
            proof {
                lemma_table_end(lv, i as int, 0);
            }
            let mut j = i;
            let mut depth: i64 = 0;
            let mut end: Option<usize> = None;
            while j < ls.len()
                invariant_except_break
                    end is None,
                    table_end(lv, i as int, 0) == table_end(lv, j as int, depth),
                invariant
                    i <= j <= ls@.len(),
                    lv == lines_view(ls@),
                ensures
                    match end {
                        Some(e) => table_end(lv, i as int, 0) == Some(e as int),
                        None => table_end(lv, i as int, 0) is None,
                    },
                decreases ls.len() - j,
            {
                let tj = trim_chars(&ls[j]);
                proof {
                    assert(lv[j as int] == ls@[j as int]@);
                }
                depth = shift_depth_exec(depth, count_char_exec(&tj, '{'), count_char_exec(&tj, '}'));
                if depth <= 0 {
                    end = Some(j);
                    break;
                }
                j += 1;
            }
            match end {
                Some(e) => {
                    let span = e - i + 1;
                    if span >= 5 {
                        r = r + span;
                    }
                    i = e + 1;
                },
                None => {
                    i += 1;
                },
            }
        } else {
            i += 1;
        }
    }
    r
}

/// The facts of Go test function `name` declared at `line` with body `body`.
pub fn analyze_go_function(name: &[char], line: usize, body: &[char]) -> (r: TestFunction)
    ensures
        r@ == analyze_go(name@, line, body@),
{
    let ls = lines_of(body);
    let ghost lv = lines_view(ls@);
    proof {
        assert(lv == lines(body@));
    }
    let r_std = ContainsAny::new("//", &GO_STD_ASSERTS);
    let r_testify = MatchesAny::single("//", GO_TESTIFY);
    let r_gomega = MatchesAny::single("//", GO_GOMEGA);
    let r_helper = MatchesAny::single("//", GO_HELPER);
    let r_nomsg = MatchesAny::single("//", GO_NO_MESSAGE);
    let r_skip = ContainsAny::new("//", &GO_SKIPS);
    let r_sleep = ContainsAny::new("//", &GO_SLEEPS);
    let r_print = ContainsAny::new("//", &GO_PRINTS);
    let r_timeout = ContainsAny::new("//", &GO_TIMEOUTS);
    let k_if = KeywordLine { comment: "//", kw: "if", next: "(" };
    let k_switch = KeywordLine { comment: "//", kw: "switch", next: "{" };
    let k_select = KeywordLine { comment: "//", kw: "select", next: "{" };
    let k_for = KeywordLine { comment: "//", kw: "for", next: "{" };
    proof {
        assert((|l: Seq<char>| r_std.flags(l)) =~= (|l: Seq<char>| contains_any(l, "//"@, strs_view(GO_STD_ASSERTS@))));
        assert((|l: Seq<char>| r_testify.flags(l)) =~= (|l: Seq<char>| matches_any(l, "//"@, seq![GO_TESTIFY@])));
        assert((|l: Seq<char>| r_gomega.flags(l)) =~= (|l: Seq<char>| matches_any(l, "//"@, seq![GO_GOMEGA@])));
        assert((|l: Seq<char>| r_helper.flags(l)) =~= (|l: Seq<char>| matches_any(l, "//"@, seq![GO_HELPER@])));
        assert((|l: Seq<char>| r_nomsg.flags(l)) =~= (|l: Seq<char>| matches_any(l, "//"@, seq![GO_NO_MESSAGE@])));
        assert((|l: Seq<char>| r_skip.flags(l)) =~= (|l: Seq<char>| contains_any(l, "//"@, strs_view(GO_SKIPS@))));
        assert((|l: Seq<char>| r_sleep.flags(l)) =~= (|l: Seq<char>| contains_any(l, "//"@, strs_view(GO_SLEEPS@))));
        assert((|l: Seq<char>| r_print.flags(l)) =~= (|l: Seq<char>| contains_any(l, "//"@, strs_view(GO_PRINTS@))));
        assert((|l: Seq<char>| r_timeout.flags(l)) =~= (|l: Seq<char>| contains_any(l, "//"@, strs_view(GO_TIMEOUTS@))));
        assert((|l: Seq<char>| k_if.flags(l)) =~= (|l: Seq<char>| keyword_line(l, "//"@, "if"@, "("@)));
        assert((|l: Seq<char>| k_switch.flags(l)) =~= (|l: Seq<char>| keyword_line(l, "//"@, "switch"@, "{"@)));
        assert((|l: Seq<char>| k_select.flags(l)) =~= (|l: Seq<char>| keyword_line(l, "//"@, "select"@, "{"@)));
        assert((|l: Seq<char>| k_for.flags(l)) =~= (|l: Seq<char>| keyword_line(l, "//"@, "for"@, "{"@)));
    }
    let std_count = count_lines(&ls, &r_std);
    let testify = count_lines(&ls, &r_testify);
    let gomega = count_lines(&ls, &r_gomega);
    let helpers = count_lines(&ls, &r_helper);
    let sum: u128 = std_count as u128 + testify as u128 + gomega as u128 + helpers as u128;
    let total: usize = if sum > usize::MAX as u128 {
        usize::MAX
    } else {
        sum as usize
    };
    let has_if = any_line(&ls, &k_if);
    let has_switch = any_line(&ls, &k_switch);
    let has_select = any_line(&ls, &k_select);
    let has_for = any_line(&ls, &k_for);
    let is_empty = all_blank_or_comment(&ls);
    let without_message = count_lines(&ls, &r_nomsg);
    TestFunction {
        name: string_of(name),
        line,
        body_source: string_of(body),
        is_ignored: any_line(&ls, &r_skip),
        has_assertion: total > 0,
        has_sleep: any_line(&ls, &r_sleep),
        has_conditional: has_if || has_switch || has_select || has_for,
        has_branching: has_if || has_switch || has_select,
        has_for_loop: has_for,
        has_while_loop: false,
        has_assertion_in_loop: go_loop_assert_exec(&ls),
        has_print: any_line(&ls, &r_print),
        is_empty,
        assertion_count: total,
        assert_only_count: 0,
        assertions_without_message: without_message,
        assert_only_without_message: 0,
        magic_numbers: go_magic_exec(&ls),
        has_early_return: go_early_return_exec(&ls),
        has_timeout_dependency: any_line(&ls, &r_timeout),
        body_line_count: ls.len() - table_lines_exec(&ls),
    }
}

/// Whether every line is blank or a `//` comment.
fn all_blank_or_comment(ls: &Vec<Vec<char>>) -> (r: bool)
    ensures
        r == forall|i: int|
            0 <= i < ls@.len() ==> (trim(#[trigger] lines_view(ls@)[i]).len() == 0 || starts_with(
                trim(lines_view(ls@)[i]),
                "//"@,
            )),
{
    let ghost lv = lines_view(ls@);
    let mut i: usize = 0;
    while i < ls.len()
        invariant
            i <= ls@.len(),
            lv == lines_view(ls@),
            forall|j: int| 0 <= j < i ==> (trim(#[trigger] lv[j]).len() == 0 || starts_with(trim(lv[j]), "//"@)),
        decreases ls.len() - i,
    {
        let t = trim_chars(&ls[i]);
        proof {
            assert(lv[i as int] == ls@[i as int]@);
        }
        if !(t.len() == 0 || starts_with_str(&t, "//")) {
            return false;
        }
        i += 1;
    }
    true
}

} // verus!

verus! {

/// The test functions of Go source `source`, in order.
pub fn extract_test_functions(source: &str) -> (r: Vec<TestFunction>)
    ensures
        r@.map_values(|f: TestFunction| f@) == go_functions(lines(source@), 0),
{
    let chars = chars_of(source);
    let ls = lines_of(&chars);
    let ghost lv = lines_view(ls@);
    let func_re = compile(GO_TEST_FUNC);
    let mut out: Vec<TestFunction> = Vec::new();
    let mut i: usize = 0;
    proof {
        assert(out@.map_values(|f: TestFunction| f@) + go_functions(lv, 0) =~= go_functions(lv, 0));
    }
    while i < ls.len()
        invariant
            i <= ls@.len(),
            lv == lines_view(ls@),
            lv == lines(source@),
            func_re is Some <==> regex_compiles(GO_TEST_FUNC@),
            func_re matches Some(p) ==> p.source() == GO_TEST_FUNC@,
            out@.map_values(|f: TestFunction| f@) + go_functions(lv, i as int) == go_functions(lv, 0),
        decreases ls.len() - i,
    {
        proof {
            assert(lv[i as int] == ls@[i as int]@);
        }
        let name = match &func_re {
            Some(p) => pattern_group1(p, &ls[i]),
            None => None,
        };
        let ghost before = out@.map_values(|f: TestFunction| f@);
        match name {
            None => {
                i += 1;
            },
            Some(nm) => {
                proof {
                    lemma_go_body_end(lv, i as int, i as int, 0, Seq::empty());
                }
                match go_body_exec(&ls, i) {
                    Some((body, end)) => {
                        let f = analyze_go_function(&nm, bump_exec(i), &body);
                        out.push(f);
                        proof {
                            assert(out@.map_values(|x: TestFunction| x@) =~= before.push(f@));
                            assert(before.push(f@) + go_functions(lv, end + 1) =~= before + (seq![f@]
                                + go_functions(lv, end + 1)));
                        }
                        i = end + 1;
                    },
                    None => {
                        i += 1;
                    },
                }
            },
        }
    }
    proof {
        assert(out@.map_values(|f: TestFunction| f@) + Seq::<FunctionView>::empty() =~= out@.map_values(
            |f: TestFunction| f@,
        ));
    }
    out
}

/// Whether a path names a Go test file (`*_test.go`).
pub open spec fn is_go_test_path(path: Seq<char>) -> bool {
    ends_with(path, "_test.go"@)
}

/// Parses Go test files.
pub struct GoParser;

impl LanguageParser for GoParser {
    /// The file extensions this front end reads.
    fn extensions(&self) -> (r: Vec<&'static str>)
        ensures
            r@.map_values(|e: &str| e@) == seq!["go"@],
    {
        let v = vec!["go"];
        proof {
            assert(v@.map_values(|e: &str| e@) =~= seq!["go"@]);
        }
        v
    }

    /// The language name.
    fn language_name(&self) -> (r: &'static str)
        ensures
            r@ == "go"@,
    {
        "go"
    }

    /// Parses `source` when `path` names a `_test.go` file, and gives `None`
    /// for any other file.
    fn parse(&self, path: &str, source: &str) -> (r: Option<TestFile>)
        ensures
            r is Some <==> is_go_test_path(path@),
            r matches Some(tf) ==> {
                &&& tf.path@ == path@
                &&& tf.language@ == "go"@
                &&& tf.test_functions@.map_values(|f: TestFunction| f@) == go_functions(
                    lines(source@),
                    0,
                )
                &&& opt_view(tf.source) == Some(source@)
                &&& tf.flavor is None
            },
    {
        let p = chars_of(path);
        if !ends_with_str(&p, "_test.go") {
            return None;
        }
        Some(
            TestFile {
                path: String::from_str(path),
                language: String::from_str("go"),
                test_functions: extract_test_functions(source),
                source: Some(String::from_str(source)),
                flavor: None,
            },
        )
    }
}

} // verus!
