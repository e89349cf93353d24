//! Rust front end: `#[test]` functions, analysed over a plain model of the
//! statements and expressions the analysis reads.
use vstd::prelude::*;
use crate::languages::LanguageParser;
use crate::languages::rust_syntax::{rust_items, rust_items_of};
use crate::model::smell::{bump, bump_exec, opt_view, FunctionView, TestFile, TestFunction};
use crate::text::{
    chars_of, concat_chars, contains, contains_exec, ends_with, ends_with_str, equals_str, lines,
    lines_of, one_of, one_of_exec, parse_i64, parse_i64_exec, string_of,
};

verus! {

/// A token at the top level of a macro's arguments.
pub enum RustToken {
    /// A punctuation character, such as `,`.
    Punct(char),
    /// A literal, by its source text (`86400`, `"msg"`).
    Literal(String),
    /// Any other token: an identifier or a delimited group.
    Other,
}

/// A macro invocation: the last segment of its path and its top-level tokens.
pub struct RustMacro {
    pub name: String,
    pub tokens: Vec<RustToken>,
}

/// An expression, as far as the analysis reads it.
pub enum RustExpr {
    Macro(RustMacro),
    /// A call; the segments of the callee's path when the callee is a path.
    Call(Option<Vec<String>>),
    /// `if`: the statements of the `then` block and the `else` branch, if any.
    If(Vec<RustStmt>, Option<Box<RustExpr>>),
    /// `match`: the body of each arm.
    Match(Vec<RustExpr>),
    ForLoop(Vec<RustStmt>),
    While(Vec<RustStmt>),
    Loop(Vec<RustStmt>),
    Block(Vec<RustStmt>),
    /// A method call: the method's name and the receiver.
    MethodCall(String, Box<RustExpr>),
    Return,
    Other,
}

/// A statement, as far as the analysis reads it.
pub enum RustStmt {
    Expr(RustExpr),
    /// `let`, with its initialiser if it has one.
    Local(Option<RustExpr>),
    Macro(RustMacro),
    Other,
}

/// An attribute: the segments of its path, whether the path is a bare
/// identifier, and whether the attribute is that path alone (`#[ignore]`,
/// not `#[ignore = "…"]`).
pub struct RustAttr {
    pub segments: Vec<String>,
    pub is_plain_ident: bool,
    pub path_only: bool,
}

/// A function item: its name, attributes, the statements of its body and
/// the body's text.
pub struct RustFnItem {
    pub name: String,
    pub attrs: Vec<RustAttr>,
    pub stmts: Vec<RustStmt>,
    pub body_source: String,
}

/// Macros that assert.
pub const ASSERTION_MACROS: [&'static str; 7] = [
    "assert",
    "assert_eq",
    "assert_ne",
    "debug_assert",
    "debug_assert_eq",
    "debug_assert_ne",
    "panic",
];

/// Assertion macros that compare two values and show them on failure.
pub const COMPARING_MACROS: [&'static str; 4] = [
    "assert_eq",
    "assert_ne",
    "debug_assert_eq",
    "debug_assert_ne",
];

/// Macros that print.
pub const PRINT_MACROS: [&'static str; 5] = ["print", "println", "eprint", "eprintln", "dbg"];

/// Macros whose literal arguments are searched for magic numbers.
pub const MAGIC_MACROS: [&'static str; 3] = ["assert_eq", "assert_ne", "assert"];

/// Call paths that read the clock or build durations.
pub const TIME_CALLS: [&'static str; 6] = [
    "Duration::from_secs",
    "Duration::from_millis",
    "Duration::from_micros",
    "Duration::from_nanos",
    "Instant::now",
    "SystemTime::now",
];

/// What the scan of a function body has found so far.
pub struct RsInfo {
    pub has_assertion: bool,
    pub has_sleep: bool,
    pub has_conditional: bool,
    pub has_branching: bool,
    pub has_for_loop: bool,
    pub has_while: bool,
    pub has_assertion_in_loop: bool,
    pub has_print: bool,
    pub assertion_count: usize,
    pub assert_only_count: usize,
    pub assertions_without_message: usize,
    pub assert_only_without_message: usize,
    pub magic_numbers: Seq<(i64, usize)>,
    pub has_timeout_dependency: bool,
}

/// The scan state before anything is found.
pub open spec fn fresh_info() -> RsInfo {
    RsInfo {
        has_assertion: false,
        has_sleep: false,
        has_conditional: false,
        has_branching: false,
        has_for_loop: false,
        has_while: false,
        has_assertion_in_loop: false,
        has_print: false,
        assertion_count: 0,
        assert_only_count: 0,
        assertions_without_message: 0,
        assert_only_without_message: 0,
        magic_numbers: Seq::empty(),
        has_timeout_dependency: false,
    }
}

/// The number of top-level commas among `ts`.
pub open spec fn comma_count(ts: Seq<RustToken>) -> nat
    decreases ts.len(),
{
    if ts.len() == 0 {
        0
    } else {
        comma_count(ts.drop_last()) + if ts.last() == RustToken::Punct(',') {
            1nat
        } else {
            0nat
        }
    }
}

/// The magic numbers among the literal tokens `ts`: integers outside
/// -10..=10, each with line 0.
pub open spec fn literal_magic(ts: Seq<RustToken>) -> Seq<(i64, usize)>
    decreases ts.len(),
{
    if ts.len() == 0 {
        Seq::empty()
    } else {
        literal_magic(ts.drop_last()) + match ts.last() {
            RustToken::Literal(s) => match parse_i64(s@) {
                Some(v) => if -10 <= v <= 10 {
                    Seq::empty()
                } else {
                    seq![(v, 0usize)]
                },
                None => Seq::empty(),
            },
            _ => Seq::empty(),
        }
    }
}

/// The effect of a macro invocation on the scan.
pub open spec fn macro_effect(m: RustMacro, info: RsInfo, in_loop: bool) -> RsInfo {
    let name = m.name@;
    let commas = comma_count(m.tokens@);
    let i1 = if one_of(name, ASSERTION_MACROS@) {
        RsInfo {
            has_assertion: true,
            assertion_count: bump(info.assertion_count),
            has_assertion_in_loop: info.has_assertion_in_loop || in_loop,
            ..info
        }
    } else {
        info
    };
    let i2 = if name == "assert"@ || name == "debug_assert"@ {
        let j = RsInfo { assert_only_count: bump(i1.assert_only_count), ..i1 };
        if commas == 0 {
            RsInfo { assert_only_without_message: bump(j.assert_only_without_message), ..j }
        } else {
            j
        }
    } else {
        i1
    };
    let i3 = if one_of(name, COMPARING_MACROS@) && commas < 2 {
        RsInfo { assertions_without_message: bump(i2.assertions_without_message), ..i2 }
    } else {
        i2
    };
    let i4 = if one_of(name, PRINT_MACROS@) {
        RsInfo { has_print: true, ..i3 }
    } else {
        i3
    };
    if one_of(name, MAGIC_MACROS@) {
        RsInfo { magic_numbers: i4.magic_numbers + literal_magic(m.tokens@), ..i4 }
    } else {
        i4
    }
}

/// The segments of a path joined with `::`.
pub open spec fn join_path(segs: Seq<Seq<char>>) -> Seq<char>
    decreases segs.len(),
{
    if segs.len() == 0 {
        Seq::empty()
    } else if segs.len() == 1 {
        segs[0]
    } else {
        join_path(segs.drop_last()) + "::"@ + segs.last()
    }
}

/// The views of a list of strings.
pub open spec fn strings_view(ss: Seq<String>) -> Seq<Seq<char>> {
    ss.map_values(|s: String| s@)
}

/// The effect of a call of the function at path `segs` on the scan.
pub open spec fn call_effect(segs: Seq<Seq<char>>, info: RsInfo) -> RsInfo {
    let full = join_path(segs);
    let i1 = if segs.len() > 0 && segs.last() == "sleep"@ {
        RsInfo { has_sleep: true, ..info }
    } else {
        info
    };
    if exists|k: int| 0 <= k < TIME_CALLS@.len() && ends_with(full, (#[trigger] TIME_CALLS@[k])@) {
        RsInfo { has_timeout_dependency: true, ..i1 }
    } else {
        i1
    }
}

/// `info` on entering a loop: a `for` loop when `is_for`, a `while` loop when `is_while`.
pub open spec fn loop_entered(info: RsInfo, is_for: bool, is_while: bool) -> RsInfo {
    RsInfo {
        has_conditional: true,
        has_for_loop: info.has_for_loop || is_for,
        has_while: info.has_while || is_while,
        ..info
    }
}

/// The scan of expression `e`.
pub open spec fn expr_scan(e: RustExpr, info: RsInfo, in_loop: bool) -> RsInfo
    decreases e,
{
    match e {
        RustExpr::Macro(m) => macro_effect(m, info, in_loop),
        RustExpr::Call(p) => match p {
            Some(segs) => call_effect(strings_view(segs@), info),
            None => info,
        },
        RustExpr::If(then_b, else_b) => {
            let i1 = RsInfo { has_conditional: true, has_branching: true, ..info };
            let i2 = stmts_scan(then_b@, i1, in_loop);
            match else_b {
                Some(b) => expr_scan(*b, i2, in_loop),
                None => i2,
            }
        },
        RustExpr::Match(arms) => exprs_scan(
            arms@,
            RsInfo { has_conditional: true, has_branching: true, ..info },
            in_loop,
        ),
        RustExpr::ForLoop(body) => stmts_scan(body@, loop_entered(info, true, false), true),
        RustExpr::While(body) => stmts_scan(body@, loop_entered(info, false, true), true),
        RustExpr::Loop(body) => stmts_scan(body@, loop_entered(info, false, false), true),
        RustExpr::Block(body) => stmts_scan(body@, info, in_loop),
        RustExpr::MethodCall(method, receiver) => expr_scan(
            *receiver,
            if method@ == "sleep"@ {
                RsInfo { has_sleep: true, ..info }
            } else {
                info
            },
            in_loop,
        ),
        RustExpr::Return => info,
        RustExpr::Other => info,
    }
}

/// The scan of the expressions `es`, in order.
pub open spec fn exprs_scan(es: Seq<RustExpr>, info: RsInfo, in_loop: bool) -> RsInfo
    decreases es,
{
    if es.len() == 0 {
        info
    } else {
        expr_scan(es.last(), exprs_scan(es.drop_last(), info, in_loop), in_loop)
    }
}

/// The scan of statement `s`.
pub open spec fn stmt_scan(s: RustStmt, info: RsInfo, in_loop: bool) -> RsInfo
    decreases s,
{
    match s {
        RustStmt::Expr(e) => expr_scan(e, info, in_loop),
        RustStmt::Local(init) => match init {
            Some(e) => expr_scan(e, info, in_loop),
            None => info,
        },
        RustStmt::Macro(m) => macro_effect(m, info, in_loop),
        RustStmt::Other => info,
    }
}

/// The scan of the statements `ss`, in order.
pub open spec fn stmts_scan(ss: Seq<RustStmt>, info: RsInfo, in_loop: bool) -> RsInfo
    decreases ss,
{
    if ss.len() == 0 {
        info
    } else {
        stmt_scan(ss.last(), stmts_scan(ss.drop_last(), info, in_loop), in_loop)
    }
}

/// Whether statement `s` is an `if` whose `then` block has a `return` statement.
pub open spec fn returns_early(s: RustStmt) -> bool {
    match s {
        RustStmt::Expr(RustExpr::If(then_b, _)) => exists|i: int|
            0 <= i < then_b@.len() && (#[trigger] then_b@[i]) == RustStmt::Expr(RustExpr::Return),
        _ => false,
    }
}

/// Whether an attribute marks a test: the last segment of its path is `test`.
pub open spec fn is_test_attr(a: RustAttr) -> bool {
    a.segments@.len() > 0 && a.segments@.last()@ == "test"@
}

/// Whether an attribute is `#[ignore]` without a reason.
pub open spec fn is_bare_ignore(a: RustAttr) -> bool {
    a.is_plain_ident && a.segments@.len() == 1 && a.segments@[0]@ == "ignore"@ && a.path_only
}

/// The 1-based number of the first line of `ls` from index `i` on that
/// contains `p`, or 1 when none does.
pub open spec fn first_line_with(ls: Seq<Seq<char>>, p: Seq<char>, i: int) -> usize
    decreases ls.len() - i,
{
    if i < 0 || i >= ls.len() {
        1
    } else if contains(ls[i], p) {
        bump(i as usize)
    } else {
        first_line_with(ls, p, i + 1)
    }
}

/// The line of the declaration of function `name` in `source`: the first
/// line containing `fn <name>`, or 1.
pub open spec fn fn_line(source: Seq<char>, name: Seq<char>) -> usize {
    first_line_with(lines(source), "fn "@ + name, 0)
}

/// The facts of function `f`, declared in `source`.
pub open spec fn analyze_fn(source: Seq<char>, f: RustFnItem) -> FunctionView {
    let ss = f.stmts@;
    let info = stmts_scan(ss, fresh_info(), false);
    FunctionView {
        name: f.name@,
        line: fn_line(source, f.name@),
        body_source: f.body_source@,
        is_ignored: exists|i: int| 0 <= i < f.attrs@.len() && is_bare_ignore(#[trigger] f.attrs@[i]),
        has_assertion: info.has_assertion,
        has_sleep: info.has_sleep,
        has_conditional: info.has_conditional,
        has_branching: info.has_branching,
        has_for_loop: info.has_for_loop,
        has_while_loop: info.has_while,
        has_assertion_in_loop: info.has_assertion_in_loop,
        has_print: info.has_print,
        is_empty: ss.len() == 0,
        assertion_count: info.assertion_count,
        assert_only_count: info.assert_only_count,
        assertions_without_message: info.assertions_without_message,
        assert_only_without_message: info.assert_only_without_message,
        magic_numbers: info.magic_numbers,
        has_early_return: exists|i: int| 0 <= i < ss.len() && i < 3 && returns_early(#[trigger] ss[i]),
        has_timeout_dependency: info.has_timeout_dependency,
        body_line_count: lines(f.body_source@).len() as usize,
    }
}

/// Whether function `f` carries a test attribute.
pub open spec fn is_test_fn(f: RustFnItem) -> bool {
    exists|i: int| 0 <= i < f.attrs@.len() && is_test_attr(#[trigger] f.attrs@[i])
}

/// The test functions among the first `k` function items `fs` of `source`, in order.
pub open spec fn test_fns(source: Seq<char>, fs: Seq<RustFnItem>, k: int) -> Seq<FunctionView>
    decreases k,
{
    if k <= 0 || k > fs.len() {
        Seq::empty()
    } else {
        test_fns(source, fs, k - 1) + if is_test_fn(fs[k - 1]) {
            seq![analyze_fn(source, fs[k - 1])]
        } else {
            Seq::empty()
        }
    }
}

} // verus!

verus! {

/// The scan state of one function body.
struct RsFacts {
    has_assertion: bool,
    has_sleep: bool,
    has_conditional: bool,
    has_branching: bool,
    has_for_loop: bool,
    has_while: bool,
    has_assertion_in_loop: bool,
    has_print: bool,
    assertion_count: usize,
    assert_only_count: usize,
    assertions_without_message: usize,
    assert_only_without_message: usize,
    magic_numbers: Vec<(i64, usize)>,
    has_timeout_dependency: bool,
}

impl View for RsFacts {
    type V = RsInfo;

    closed spec fn view(&self) -> RsInfo {
        RsInfo {
            has_assertion: self.has_assertion,
            has_sleep: self.has_sleep,
            has_conditional: self.has_conditional,
            has_branching: self.has_branching,
            has_for_loop: self.has_for_loop,
            has_while: self.has_while,
            has_assertion_in_loop: self.has_assertion_in_loop,
            has_print: self.has_print,
            assertion_count: self.assertion_count,
            assert_only_count: self.assert_only_count,
            assertions_without_message: self.assertions_without_message,
            assert_only_without_message: self.assert_only_without_message,
            magic_numbers: self.magic_numbers@,
            has_timeout_dependency: self.has_timeout_dependency,
        }
    }
}

fn fresh_facts() -> (r: RsFacts)
    ensures
        r@ == fresh_info(),
{
    let r = RsFacts {
        has_assertion: false,
        has_sleep: false,
        has_conditional: false,
        has_branching: false,
        has_for_loop: false,
        has_while: false,
        has_assertion_in_loop: false,
        has_print: false,
        assertion_count: 0,
        assert_only_count: 0,
        assertions_without_message: 0,
        assert_only_without_message: 0,
        magic_numbers: Vec::new(),
        has_timeout_dependency: false,
    };
    proof {
        assert(r@.magic_numbers =~= Seq::<(i64, usize)>::empty());
    }
    r
}

/// The number of top-level commas among `ts`.
fn comma_count_exec(ts: &Vec<RustToken>) -> (r: usize)
    ensures
        r == comma_count(ts@),
{
    let mut n: usize = 0;
    let mut i: usize = 0;
    while i < ts.len()
        invariant
            i <= ts@.len(),
            n == comma_count(ts@.take(i as int)),
            n <= i,
        decreases ts.len() - i,
    {
        proof {
            assert(ts@.take(i as int + 1).drop_last() =~= ts@.take(i as int));
        }
        match &ts[i] {
            RustToken::Punct(c) => {
                if *c == ',' {
                    n += 1;
                }
            },
            _ => {},
        }
        i += 1;
    }
    proof {
        assert(ts@.take(ts@.len() as int) =~= ts@);
    }
    n
}

/// Appends the magic numbers among the literal tokens `ts` to `out`.
fn literal_magic_into(ts: &Vec<RustToken>, out: &mut Vec<(i64, usize)>)
    ensures
        final(out)@ == old(out)@ + literal_magic(ts@),
{
    let ghost start = out@;
    let mut i: usize = 0;
    proof {
        assert(start + Seq::<(i64, usize)>::empty() =~= start);
    }
    while i < ts.len()
        invariant
            i <= ts@.len(),
            out@ == start + literal_magic(ts@.take(i as int)),
        decreases ts.len() - i,
    {
        proof {
            assert(ts@.take(i as int + 1).drop_last() =~= ts@.take(i as int));
        }
        match &ts[i] {
            RustToken::Literal(s) => {
                let cs = chars_of(s.as_str());
                match parse_i64_exec(&cs) {
                    Some(v) => {
                        if !(-10 <= v && v <= 10) {
                            out.push((v, 0));
                        }
                    },
                    None => {},
                }
            },
            _ => {},
        }
        proof {
            assert(out@ =~= start + literal_magic(ts@.take(i as int + 1)));
        }
        i += 1;
    }
    proof {
        assert(ts@.take(ts@.len() as int) =~= ts@);
    }
}

fn macro_effect_exec(m: &RustMacro, info: &mut RsFacts, in_loop: bool)
    ensures
        final(info)@ == macro_effect(*m, old(info)@, in_loop),
{
    let name = chars_of(m.name.as_str());
    let commas = comma_count_exec(&m.tokens);
    if one_of_exec(&name, &ASSERTION_MACROS) {
        info.has_assertion = true;
        info.assertion_count = bump_exec(info.assertion_count);
        info.has_assertion_in_loop = info.has_assertion_in_loop || in_loop;
    }
    if equals_str(&name, "assert") || equals_str(&name, "debug_assert") {
        info.assert_only_count = bump_exec(info.assert_only_count);
        if commas == 0 {
            info.assert_only_without_message = bump_exec(info.assert_only_without_message);
        }
    }
    if one_of_exec(&name, &COMPARING_MACROS) && commas < 2 {
        info.assertions_without_message = bump_exec(info.assertions_without_message);
    }
    if one_of_exec(&name, &PRINT_MACROS) {
        info.has_print = true;
    }
    if one_of_exec(&name, &MAGIC_MACROS) {
        literal_magic_into(&m.tokens, &mut info.magic_numbers);
    }
}

/// The segments of a path joined with `::`.
fn join_path_exec(segs: &Vec<String>) -> (r: Vec<char>)
    ensures
        r@ == join_path(strings_view(segs@)),
{
    let ghost sv = strings_view(segs@);
    let mut out: Vec<char> = Vec::new();
    let mut i: usize = 0;
    let sep = chars_of("::");
    while i < segs.len()
        invariant
            i <= segs@.len(),
            sv == strings_view(segs@),
            sep@ == "::"@,
            out@ == join_path(sv.take(i as int)),
        decreases segs.len() - i,
    {
        let s = chars_of(segs[i].as_str());
        proof {
            assert(sv.take(i as int + 1).drop_last() =~= sv.take(i as int));
            assert(sv.take(i as int + 1).last() == segs@[i as int]@);
        }
        if i == 0 {
            out = s;
            proof {
                assert(sv.take(1) =~= seq![segs@[0]@]);
            }
        } else {
            let with_sep = concat_chars(&out, &sep);
            out = concat_chars(&with_sep, &s);
        }
        i += 1;
    }
    proof {
        assert(sv.take(sv.len() as int) =~= sv);
    }
    out
}

fn call_effect_exec(segs: &Vec<String>, info: &mut RsFacts)
    ensures
        final(info)@ == call_effect(strings_view(segs@), old(info)@),
{
    let ghost sv = strings_view(segs@);
    let full = join_path_exec(segs);
    if segs.len() > 0 {
        let last = chars_of(segs[segs.len() - 1].as_str());
        proof {
            assert(sv.last() == segs@[segs@.len() - 1]@);
        }
        if equals_str(&last, "sleep") {
            info.has_sleep = true;
        }
    }
    let ghost mid = info@;
    proof {
        assert(mid == if sv.len() > 0 && sv.last() == "sleep"@ {
            RsInfo { has_sleep: true, ..old(info)@ }
        } else {
            old(info)@
        });
    }
    let calls = TIME_CALLS;
    let mut k: usize = 0;
    while k < 6
        invariant
            k <= 6,
            calls@ == TIME_CALLS@,
            full@ == join_path(sv),
            sv == strings_view(segs@),
            info@ == mid,
            mid == if sv.len() > 0 && sv.last() == "sleep"@ {
                RsInfo { has_sleep: true, ..old(info)@ }
            } else {
                old(info)@
            },
            forall|j: int| 0 <= j < k ==> !ends_with(full@, (#[trigger] TIME_CALLS@[j])@),
        decreases 6 - k,
    {
        if ends_with_str(&full, calls[k]) {
            proof {
                assert(ends_with(full@, TIME_CALLS@[k as int]@));
            }
            info.has_timeout_dependency = true;
            return ;
        }
        k += 1;
    }
}

fn note_branch(info: &mut RsFacts)
    ensures
        final(info)@ == (RsInfo { has_conditional: true, has_branching: true, ..old(info)@ }),
{
    info.has_conditional = true;
    info.has_branching = true;
}

fn note_loop(info: &mut RsFacts, is_for: bool, is_while: bool)
    ensures
        final(info)@ == loop_entered(old(info)@, is_for, is_while),
{
    info.has_conditional = true;
    info.has_for_loop = info.has_for_loop || is_for;
    info.has_while = info.has_while || is_while;
}

fn note_sleep(info: &mut RsFacts)
    ensures
        final(info)@ == (RsInfo { has_sleep: true, ..old(info)@ }),
{
    info.has_sleep = true;
}

fn scan_expr(e: &RustExpr, info: &mut RsFacts, in_loop: bool)
    ensures
        final(info)@ == expr_scan(*e, old(info)@, in_loop),
    decreases e,
{
    match e {
        RustExpr::Macro(m) => macro_effect_exec(m, info, in_loop),
        RustExpr::Call(p) => match p {
            Some(segs) => call_effect_exec(segs, info),
            None => {},
        },
        RustExpr::If(then_b, else_b) => {
            note_branch(info);
            scan_stmts(then_b, info, in_loop);
            match else_b {
                Some(b) => scan_expr(b, info, in_loop),
                None => {},
            }
        },
        RustExpr::Match(arms) => {
            note_branch(info);
            scan_exprs(arms, info, in_loop);
        },
        RustExpr::ForLoop(body) => {
            note_loop(info, true, false);
            scan_stmts(body, info, true);
        },
        RustExpr::While(body) => {
            note_loop(info, false, true);
            scan_stmts(body, info, true);
        },
        RustExpr::Loop(body) => {
            note_loop(info, false, false);
            scan_stmts(body, info, true);
        },
        RustExpr::Block(body) => scan_stmts(body, info, in_loop),
        RustExpr::MethodCall(method, receiver) => {
            let name = chars_of(method.as_str());
            if equals_str(&name, "sleep") {
                note_sleep(info);
            }
            scan_expr(receiver, info, in_loop);
        },
        RustExpr::Return => {},
        RustExpr::Other => {},
    }
}

fn scan_exprs(es: &Vec<RustExpr>, info: &mut RsFacts, in_loop: bool)
    ensures
        final(info)@ == exprs_scan(es@, old(info)@, in_loop),
    decreases es,
{
    let ghost start = info@;
    let mut i: usize = 0;
    while i < es.len()
        invariant
            i <= es@.len(),
            info@ == exprs_scan(es@.take(i as int), start, in_loop),
        decreases es.len() - i,
    {
        proof {
            assert(es@.take(i as int + 1).drop_last() =~= es@.take(i as int));
        }
        scan_expr(&es[i], info, in_loop);
        i += 1;
    }
    proof {
        assert(es@.take(es@.len() as int) =~= es@);
    }
}

fn scan_stmt(s: &RustStmt, info: &mut RsFacts, in_loop: bool)
    ensures
        final(info)@ == stmt_scan(*s, old(info)@, in_loop),
    decreases s,
{
    match s {
        RustStmt::Expr(e) => scan_expr(e, info, in_loop),
        RustStmt::Local(init) => match init {
            Some(e) => scan_expr(e, info, in_loop),
            None => {},
        },
        RustStmt::Macro(m) => macro_effect_exec(m, info, in_loop),
        RustStmt::Other => {},
    }
}

fn scan_stmts(ss: &Vec<RustStmt>, info: &mut RsFacts, in_loop: bool)
    ensures
        final(info)@ == stmts_scan(ss@, old(info)@, in_loop),
    decreases ss,
{
    let ghost start = info@;
    let mut i: usize = 0;
    while i < ss.len()
        invariant
            i <= ss@.len(),
            info@ == stmts_scan(ss@.take(i as int), start, in_loop),
        decreases ss.len() - i,
    {
        proof {
            assert(ss@.take(i as int + 1).drop_last() =~= ss@.take(i as int));
        }
        scan_stmt(&ss[i], info, in_loop);
        i += 1;
    }
    proof {
        assert(ss@.take(ss@.len() as int) =~= ss@);
    }
}

} // verus!

verus! {

/// Whether statement `s` is an `if` whose `then` block has a `return` statement.
fn returns_early_exec(s: &RustStmt) -> (r: bool)
    ensures
        r == returns_early(*s),
{
    match s {
        RustStmt::Expr(RustExpr::If(then_b, _)) => {
            let mut i: usize = 0;
            while i < then_b.len()
                invariant
                    i <= then_b@.len(),
                    returns_early(*s) == exists|j: int|
                        0 <= j < then_b@.len() && (#[trigger] then_b@[j]) == RustStmt::Expr(
                            RustExpr::Return,
                        ),
                    forall|j: int| 0 <= j < i ==> (#[trigger] then_b@[j]) != RustStmt::Expr(RustExpr::Return),
                decreases then_b.len() - i,
            {
                match &then_b[i] {
                    RustStmt::Expr(RustExpr::Return) => {
                        proof {
                            assert(then_b@[i as int] == RustStmt::Expr(RustExpr::Return));
                        }
                        return true;
                    },
                    _ => {},
                }
                i += 1;
            }
            false
        },
        _ => false,
    }
}

/// Whether an attribute marks a test.
fn is_test_attr_exec(a: &RustAttr) -> (r: bool)
    ensures
        r == is_test_attr(*a),
{
    if a.segments.len() == 0 {
        return false;
    }
    let last = chars_of(a.segments[a.segments.len() - 1].as_str());
    equals_str(&last, "test")
}

/// Whether an attribute is `#[ignore]` without a reason.
fn is_bare_ignore_exec(a: &RustAttr) -> (r: bool)
    ensures
        r == is_bare_ignore(*a),
{
    if !(a.is_plain_ident && a.path_only && a.segments.len() == 1) {
        return false;
    }
    let first = chars_of(a.segments[0].as_str());
    equals_str(&first, "ignore")
}

/// Whether function `f` carries a test attribute.
pub fn is_test_fn_exec(f: &RustFnItem) -> (r: bool)
    ensures
        r == is_test_fn(*f),
{
    let mut i: usize = 0;
    while i < f.attrs.len()
        invariant
            i <= f.attrs@.len(),
            forall|j: int| 0 <= j < i ==> !is_test_attr(#[trigger] f.attrs@[j]),
        decreases f.attrs.len() - i,
    {
        if is_test_attr_exec(&f.attrs[i]) {
            return true;
        }
        i += 1;
    }
    false
}

/// The line of the declaration of function `name` in `source`.
pub fn fn_line_exec(source: &[char], name: &[char]) -> (r: usize)
    ensures
        r == fn_line(source@, name@),
{
    let ls = lines_of(source);
    let ghost lv = crate::languages::line_rules::lines_view(ls@);
    let prefix = chars_of("fn ");
    let pat = concat_chars(&prefix, name);
    let mut i: usize = 0;
    proof {
        assert(lv == lines(source@));
    }
    while i < ls.len()
        invariant
            i <= ls@.len(),
            lv == crate::languages::line_rules::lines_view(ls@),
            lv == lines(source@),
            pat@ == "fn "@ + name@,
            first_line_with(lv, pat@, 0) == first_line_with(lv, pat@, i as int),
        decreases ls.len() - i,
    {
        proof {
            assert(lv[i as int] == ls@[i as int]@);
        }
        if contains_exec(&ls[i], &pat) {
            return bump_exec(i);
        }
        i += 1;
    }
    1
}

/// Whether one of the first three statements is an `if` that returns.
fn early_return_exec(ss: &Vec<RustStmt>) -> (r: bool)
    ensures
        r == exists|i: int| 0 <= i < ss@.len() && i < 3 && returns_early(#[trigger] ss@[i]),
{
    let mut i: usize = 0;
    while i < ss.len() && i < 3
        invariant
            i <= 3,
            forall|j: int| 0 <= j < i && j < ss@.len() ==> !returns_early(#[trigger] ss@[j]),
        decreases 3 - i,
    {
        if returns_early_exec(&ss[i]) {
            return true;
        }
        i += 1;
    }
    false
}

/// Whether some attribute of `f` is `#[ignore]` without a reason.
fn has_bare_ignore(f: &RustFnItem) -> (r: bool)
    ensures
        r == exists|i: int| 0 <= i < f.attrs@.len() && is_bare_ignore(#[trigger] f.attrs@[i]),
{
    let mut i: usize = 0;
    while i < f.attrs.len()
        invariant
            i <= f.attrs@.len(),
            forall|j: int| 0 <= j < i ==> !is_bare_ignore(#[trigger] f.attrs@[j]),
        decreases f.attrs.len() - i,
    {
        if is_bare_ignore_exec(&f.attrs[i]) {
            return true;
        }
        i += 1;
    }
    false
}

/// The facts of function `f`, declared in `source`.
pub fn analyze_rust_function(source: &[char], f: &RustFnItem) -> (r: TestFunction)
    ensures
        r@ == analyze_fn(source@, *f),
{
    let name = chars_of(f.name.as_str());
    let body = chars_of(f.body_source.as_str());
    let body_lines = lines_of(&body);
    let mut info = fresh_facts();
    scan_stmts(&f.stmts, &mut info, false);
    TestFunction {
        name: string_of(&name),
        line: fn_line_exec(source, &name),
        body_source: crate::model::smell::copy_string(&f.body_source),
        is_ignored: has_bare_ignore(f),
        has_assertion: info.has_assertion,
        has_sleep: info.has_sleep,
        has_conditional: info.has_conditional,
        has_branching: info.has_branching,
        has_for_loop: info.has_for_loop,
        has_while_loop: info.has_while,
        has_assertion_in_loop: info.has_assertion_in_loop,
        has_print: info.has_print,
        is_empty: f.stmts.len() == 0,
        assertion_count: info.assertion_count,
        assert_only_count: info.assert_only_count,
        assertions_without_message: info.assertions_without_message,
        assert_only_without_message: info.assert_only_without_message,
        magic_numbers: info.magic_numbers,
        has_early_return: early_return_exec(&f.stmts),
        has_timeout_dependency: info.has_timeout_dependency,
        body_line_count: body_lines.len(),
    }
}

/// The test functions among the function items `fs` of `source`, in order.
pub fn rust_test_functions(source: &str, fs: &Vec<RustFnItem>) -> (r: Vec<TestFunction>)
    ensures
        r@.map_values(|f: TestFunction| f@) == test_fns(source@, fs@, fs@.len() as int),
{
    let src = chars_of(source);
    let mut out: Vec<TestFunction> = Vec::new();
    let mut i: usize = 0;
    proof {
        assert(out@.map_values(|f: TestFunction| f@) =~= Seq::<FunctionView>::empty());
    }
    while i < fs.len()
        invariant
            i <= fs@.len(),
            src@ == source@,
            out@.map_values(|f: TestFunction| f@) == test_fns(source@, fs@, i as int),
        decreases fs.len() - i,
    {
        let ghost before = out@.map_values(|f: TestFunction| f@);
        if is_test_fn_exec(&fs[i]) {
            let t = analyze_rust_function(&src, &fs[i]);
            out.push(t);
            proof {
                assert(out@.map_values(|f: TestFunction| f@) =~= before.push(t@));
            }
        } else {
            proof {
                assert(before + Seq::<FunctionView>::empty() =~= before);
            }
        }
        i += 1;
    }
    out
}

/// Rust test files: the function items come from a Rust syntax tree, in
/// the order a full traversal of the file meets them.
pub struct RustParser;

impl RustParser {
    /// The file at `path` with source `source` whose function items are `fs`.
    pub fn from_items(&self, path: &str, source: &str, fs: &Vec<RustFnItem>) -> (r: TestFile)
        ensures
            r.path@ == path@,
            r.language@ == "rust"@,
            r.test_functions@.map_values(|f: TestFunction| f@) == test_fns(source@, fs@, fs@.len() as int),
            opt_view(r.source) == Some(source@),
            r.flavor is None,
    {
        TestFile {
            path: String::from_str(path),
            language: String::from_str("rust"),
            test_functions: rust_test_functions(source, fs),
            source: Some(String::from_str(source)),
            flavor: None,
        }
    }
}

impl LanguageParser for RustParser {
    /// The file extensions this front end reads.
    fn extensions(&self) -> (r: Vec<&'static str>)
        ensures
            r@.map_values(|e: &str| e@) == seq!["rs"@],
    {
        let v = vec!["rs"];
        proof {
            assert(v@.map_values(|e: &str| e@) =~= seq!["rs"@]);
        }
        v
    }

    /// The language name.
    fn language_name(&self) -> (r: &'static str)
        ensures
            r@ == "rust"@,
    {
        "rust"
    }

    /// Parses `source` with `syn`: `None` when it is not a Rust file `syn`
    /// reads; otherwise the file whose test functions are those among the
    /// function items `syn` meets (`from_items`).
    fn parse(&self, path: &str, source: &str) -> (r: Option<TestFile>)
        ensures
            r is Some <==> rust_items_of(source@) is Some,
            r matches Some(tf) ==> {
                &&& tf.path@ == path@
                &&& tf.language@ == "rust"@
                &&& tf.test_functions@.map_values(|f: TestFunction| f@) == test_fns(
                    source@,
                    rust_items_of(source@)->0,
                    rust_items_of(source@)->0.len() as int,
                )
                &&& opt_view(tf.source) == Some(source@)
                &&& tf.flavor is None
            },
    {
        let items = rust_items(source)?;
        Some(self.from_items(path, source, &items))
    }
}

} // verus!
