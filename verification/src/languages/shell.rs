//! Shell front end: Bats `@test "name" {`, shunit2-style `test_xxx() {` and
//! `function test_xxx {`, found line by line.
use vstd::prelude::*;
use crate::languages::LanguageParser;
use crate::languages::go::{dec_depth, inc_depth, numbers_at, shift_depth, NUMBER};
use crate::languages::line_rules::{
    any_flagged, any_line, count_flagged, count_lines, keyword_line, lines_view, matches_any,
    prefix_line, strs_view, KeywordLine, MatchesAny, PrefixLine,
};
use crate::model::detector::LineRule;
use crate::model::smell::{bump, bump_exec, opt_view, FunctionView, TestFile, TestFunction};
use crate::pattern::{
    compile, pattern_group1, pattern_group1_all, re_group1, re_group1_all, regex_compiles,
    regex_escaped, word_pattern, Pattern,
};
use crate::text::{
    char_index, char_index_exec, chars_of, concat_chars, contains, contains_exec, contains_str,
    count_char, count_char_exec, equals_str, has_prefix, join_lines, join_lines_exec, lines,
    lines_of, rfind_char, rfind_char_exec, slice_chars, starts_with, starts_with_str, string_of,
    trim, trim_chars,
};

verus! {

/// A Bats test header; group 1 is the test's name.
pub const BATS_TEST: &'static str = "^\\s*@test\\s+\"([^\"]+)\"\\s*\\{";

/// A `test_xxx() {` header; group 1 is the name.
pub const SH_TEST_FUNC: &'static str = "^\\s*(test[A-Za-z0-9_]*)\\s*\\(\\s*\\)\\s*\\{";

/// A `function test_xxx {` header; group 1 is the name.
pub const SH_TEST_FUNC_KW: &'static str =
    "^\\s*function\\s+(test[A-Za-z0-9_]*)\\s*(?:\\(\\s*\\))?\\s*\\{";

/// The start of a here-document; group 1 is its delimiter.
pub const HEREDOC: &'static str = "<<-?\\s*'?([A-Za-z_][A-Za-z0-9_]*)'?";

/// A `[ ... ]` or `[[ ... ]]` test command.
pub const BRACKET_TEST: &'static str = "\\[\\[?\\s+.+\\s+\\]\\]?";

/// Bats and shunit2 assertion commands.
pub const SH_ASSERTS: [&'static str; 17] = [
    "assert",
    "assert_success",
    "assert_failure",
    "assert_output",
    "assert_line",
    "assert_equal",
    "refute",
    "assertEquals",
    "assertNotEquals",
    "assertSame",
    "assertNotSame",
    "assertNull",
    "assertNotNull",
    "assertTrue",
    "assertFalse",
    "assertContains",
    "fail",
];

/// Commands that skip a test.
pub const SH_SKIPS: [&'static str; 2] = ["skip", "startSkipping"];

/// The regular expression matching `word` as a whole word.
pub open spec fn word(w: Seq<char>) -> Seq<char> {
    "\\b"@ + regex_escaped(w) + "\\b"@
}

/// The whole-word expressions of `ws`.
pub open spec fn words(ws: Seq<Seq<char>>) -> Seq<Seq<char>> {
    ws.map_values(|w: Seq<char>| word(w))
}

/// Whether a trimmed non-comment line uses command `p`: it is `p`, starts
/// with `p ` or `p(`, or holds ` p`.
pub open spec fn uses_command(t: Seq<char>, p: Seq<char>) -> bool {
    t == p || starts_with(t, p + " "@) || contains(t, " "@ + p + " "@) || contains(t, " "@ + p)
        || starts_with(t, p + "("@)
}

/// Whether line `l` is not a comment and uses one of the commands `ps`.
pub open spec fn uses_any(l: Seq<char>, ps: Seq<Seq<char>>) -> bool {
    let t = trim(l);
    !starts_with(t, "#"@) && exists|k: int| 0 <= k < ps.len() && uses_command(t, #[trigger] ps[k])
}

/// Whether a trimmed line asserts in the loose sense used for numbers and loops.
pub open spec fn sh_assert_like(t: Seq<char>) -> bool {
    contains(t, "assert"@) || contains(t, "assertEquals"@) || contains(t, "[ "@) || contains(
        t,
        "[[ "@,
    )
}

/// Where a double-quoted string that starts at `j` ends: the index of its
/// closing quote, or past the end of the line; backslash escapes are skipped.
pub open spec fn sh_skip_dq(cs: Seq<char>, j: int) -> int
    decreases cs.len() + 2 - j,
{
    if j < 0 || j >= cs.len() {
        j
    } else if cs[j] == '\\' {
        sh_skip_dq(cs, j + 2)
    } else if cs[j] == '"' {
        j
    } else {
        sh_skip_dq(cs, j + 1)
    }
}

pub proof fn lemma_sh_skip_dq(cs: Seq<char>, j: int)
    ensures
        sh_skip_dq(cs, j) >= j,
        j <= cs.len() + 1 ==> sh_skip_dq(cs, j) <= cs.len() + 1,
    decreases cs.len() + 2 - j,
{
    if 0 <= j < cs.len() {
        if cs[j] == '\\' {
            lemma_sh_skip_dq(cs, j + 2);
        } else if cs[j] != '"' {
            lemma_sh_skip_dq(cs, j + 1);
        }
    }
}

/// The end of a shell line scan: the closing brace was met, or the scan
/// goes on with this depth and single-quote state.
pub enum ShScan {
    Closed,
    Open(i64, bool),
}

/// The brace scan of shell line `cs` from index `j`: single-quoted text
/// (which may span lines) and double-quoted text are skipped, and `#` ends
/// the line.
pub open spec fn sh_scan(cs: Seq<char>, j: int, depth: i64, sq: bool) -> ShScan
    decreases cs.len() + 2 - j,
{
    if j < 0 || j >= cs.len() {
        ShScan::Open(depth, sq)
    } else {
        let ch = cs[j];
        if sq {
            sh_scan(cs, j + 1, depth, ch != '\'')
        } else if ch == '\'' {
            sh_scan(cs, j + 1, depth, true)
        } else if ch == '#' {
            ShScan::Open(depth, false)
        } else if ch == '"' {
            proof {
                lemma_sh_skip_dq(cs, j + 1);
            }
            sh_scan(cs, sh_skip_dq(cs, j + 1) + 1, depth, false)
        } else if ch == '{' {
            sh_scan(cs, j + 1, inc_depth(depth), false)
        } else if ch == '}' {
            if dec_depth(depth) == 0 {
                ShScan::Closed
            } else {
                sh_scan(cs, j + 1, dec_depth(depth), false)
            }
        } else {
            sh_scan(cs, j + 1, depth, false)
        }
    }
}

/// The body of a one-line function: the text between the first `{` and the
/// last `}` after it, trimmed; empty when there is none.
pub open spec fn inline_body(l: Seq<char>) -> Seq<char> {
    let s = char_index(l, '{');
    if 0 <= s < l.len() {
        let after = l.subrange(s + 1, l.len() as int);
        match rfind_char(after, '}') {
            Some(e) => trim(after.subrange(0, e)),
            None => Seq::empty(),
        }
    } else {
        Seq::empty()
    }
}

/// The body of the function declared on line `start`, scanning from line
/// `i` with brace depth `depth`, single-quote state `sq`, the here-document
/// delimiter awaited (if any) and the body lines `acc` seen so far; with the
/// index of the line of the closing brace.
pub open spec fn sh_body(
    ls: Seq<Seq<char>>,
    start: int,
    i: int,
    depth: i64,
    sq: bool,
    heredoc: Option<Seq<char>>,
    acc: Seq<Seq<char>>,
) -> Option<(Seq<char>, int)>
    decreases ls.len() - i,
{
    if i < 0 || i >= ls.len() {
        None
    } else {
        let line = ls[i];
        let acc2 = if i > start {
            acc.push(line)
        } else {
            acc
        };
        match heredoc {
            Some(d) => sh_body(
                ls,
                start,
                i + 1,
                depth,
                sq,
                if trim(line) == d {
                    None
                } else {
                    Some(d)
                },
                acc2,
            ),
            None => match sh_scan(line, 0, depth, sq) {
                ShScan::Closed => Some(
                    (
                        if i == start {
                            inline_body(ls[start])
                        } else {
                            join_lines(acc)
                        },
                        i,
                    ),
                ),
                ShScan::Open(d, q) => sh_body(ls, start, i + 1, d, q, re_group1(HEREDOC@, line), acc2),
            },
        }
    }
}

pub proof fn lemma_sh_body_end(
    ls: Seq<Seq<char>>,
    start: int,
    i: int,
    depth: i64,
    sq: bool,
    heredoc: Option<Seq<char>>,
    acc: Seq<Seq<char>>,
)
    ensures
        sh_body(ls, start, i, depth, sq, heredoc, acc) matches Some((_, e)) ==> i <= e < ls.len(),
    decreases ls.len() - i,
{
    if 0 <= i < ls.len() {
        let line = ls[i];
        let acc2 = if i > start {
            acc.push(line)
        } else {
            acc
        };
        match heredoc {
            Some(d) => lemma_sh_body_end(
                ls,
                start,
                i + 1,
                depth,
                sq,
                if trim(line) == d {
                    None
                } else {
                    Some(d)
                },
                acc2,
            ),
            None => match sh_scan(line, 0, depth, sq) {
                ShScan::Closed => {},
                ShScan::Open(d, q) => lemma_sh_body_end(
                    ls,
                    start,
                    i + 1,
                    d,
                    q,
                    re_group1(HEREDOC@, line),
                    acc2,
                ),
            },
        }
    }
}

/// The magic numbers of the first `k` shell body lines.
pub open spec fn sh_magic(ls: Seq<Seq<char>>, k: int) -> Seq<(i64, usize)>
    decreases k,
{
    if k <= 0 || k > ls.len() {
        Seq::empty()
    } else {
        let t = trim(ls[k - 1]);
        sh_magic(ls, k - 1) + if !starts_with(t, "#"@) && sh_assert_like(t) {
            numbers_at(re_group1_all(NUMBER@, t), k as usize)
        } else {
            Seq::empty()
        }
    }
}

/// Whether an assertion stands inside a `for` loop, scanning shell lines `ls`.
pub open spec fn sh_loop_assert(ls: Seq<Seq<char>>, in_for: bool, depth: i64) -> bool
    decreases ls.len(),
{
    if ls.len() == 0 {
        false
    } else {
        let t = trim(ls[0]);
        if starts_with(t, "#"@) {
            sh_loop_assert(ls.drop_first(), in_for, depth)
        } else {
            let opened = starts_with(t, "for "@);
            let in1 = in_for || opened;
            let d1 = if opened {
                0i64
            } else {
                depth
            };
            if in1 {
                let d2 = shift_depth(d1, count_char(t, '{'), count_char(t, '}'));
                if sh_assert_like(t) {
                    true
                } else {
                    let closes = t == "done"@ || (d2 <= 0 && contains(t, "}"@));
                    sh_loop_assert(ls.drop_first(), !closes, d2)
                }
            } else {
                sh_loop_assert(ls.drop_first(), false, d1)
            }
        }
    }
}

/// The saturating sum of two counts.
pub open spec fn sum2(a: nat, b: nat) -> usize {
    if a + b > usize::MAX {
        usize::MAX
    } else {
        (a + b) as usize
    }
}

/// The facts of shell test function `name` declared at `line` with body `body`.
pub open spec fn analyze_shell(name: Seq<char>, line: usize, body: Seq<char>) -> FunctionView {
    let ls = lines(body);
    let asserts = count_flagged(ls, |l: Seq<char>| matches_any(l, "#"@, words(strs_view(SH_ASSERTS@))));
    let brackets = count_flagged(ls, |l: Seq<char>| matches_any(l, "#"@, seq![BRACKET_TEST@]));
    let total = sum2(asserts, brackets);
    let has_if = any_flagged(ls, |l: Seq<char>| keyword_line(l, "#"@, "if"@, "["@));
    let has_case = any_flagged(ls, |l: Seq<char>| prefix_line(l, "case "@));
    let has_for = any_flagged(ls, |l: Seq<char>| prefix_line(l, "for "@));
    let has_while = any_flagged(ls, |l: Seq<char>| prefix_line(l, "while "@));
    FunctionView {
        name,
        line,
        body_source: body,
        is_ignored: any_flagged(ls, |l: Seq<char>| uses_any(l, strs_view(SH_SKIPS@))),
        has_assertion: total > 0 || contains(body, "$?"@),
        has_sleep: any_flagged(ls, |l: Seq<char>| matches_any(l, "#"@, seq![word("sleep"@)])),
        has_conditional: has_if || has_case || has_for || has_while,
        has_branching: has_if || has_case,
        has_for_loop: has_for,
        has_while_loop: has_while,
        has_assertion_in_loop: sh_loop_assert(ls, false, 0),
        has_print: any_flagged(ls, |l: Seq<char>| matches_any(l, "#"@, seq![word("echo"@)]))
            || any_flagged(ls, |l: Seq<char>| matches_any(l, "#"@, seq![word("printf"@)])),
        is_empty: forall|i: int|
            0 <= i < ls.len() ==> (trim(#[trigger] ls[i]).len() == 0 || starts_with(
                trim(ls[i]),
                "#"@,
            )),
        assertion_count: total,
        assert_only_count: brackets as usize,
        assertions_without_message: 0,
        assert_only_without_message: 0,
        magic_numbers: sh_magic(ls, ls.len() as int),
        has_early_return: exists|i: int|
            0 <= i < ls.len() && i < 3 && (starts_with(trim(#[trigger] ls[i]), "return"@)
                || starts_with(trim(ls[i]), "exit"@)),
        has_timeout_dependency: any_flagged(
            ls,
            |l: Seq<char>| matches_any(l, "#"@, seq![word("timeout"@)]),
        ),
        body_line_count: ls.len() as usize,
    }
}

/// The name a header line declares, if it is a test header.
pub open spec fn sh_header(l: Seq<char>) -> Option<Seq<char>> {
    match re_group1(BATS_TEST@, l) {
        Some(n) => Some(n),
        None => match re_group1(SH_TEST_FUNC@, l) {
            Some(n) => Some(n),
            None => re_group1(SH_TEST_FUNC_KW@, l),
        },
    }
}

/// The test functions declared in shell lines `ls` from line `i` on.
pub open spec fn sh_functions(ls: Seq<Seq<char>>, i: int) -> Seq<FunctionView>
    decreases ls.len() - i,
{
    if i < 0 || i >= ls.len() {
        Seq::empty()
    } else {
        match sh_header(ls[i]) {
            None => sh_functions(ls, i + 1),
            Some(name) => {
                proof {
                    lemma_sh_body_end(ls, i, i, 0, false, None, Seq::empty());
                }
                match sh_body(ls, i, i, 0, false, None, Seq::empty()) {
                    Some((body, end)) => seq![analyze_shell(name, bump(i as usize), body)]
                        + sh_functions(ls, end + 1),
                    None => sh_functions(ls, i + 1),
                }
            },
        }
    }
}

} // verus!

verus! {

/// Where the double-quoted string starting at `from` ends, when it ends on this line.
fn dq_end(cs: &[char], from: usize) -> (r: Option<usize>)
    requires
        from <= cs@.len(),
    ensures
        match r {
            Some(k) => from <= k < cs@.len() && sh_skip_dq(cs@, from as int) == k,
            None => sh_skip_dq(cs@, from as int) >= cs@.len(),
        },
{
    proof {
        lemma_sh_skip_dq(cs@, from as int);
    }
    let mut k = from;
    while k < cs.len()
        invariant
            from <= k <= cs@.len(),
            sh_skip_dq(cs@, from as int) == sh_skip_dq(cs@, k as int),
        decreases cs.len() - k,
    {
        if cs[k] == '\\' {
            if cs.len() - k < 2 {
                proof {
                    assert(sh_skip_dq(cs@, k as int + 2) == k + 2);
                }
                return None;
            }
            k += 2;
        } else if cs[k] == '"' {
            return Some(k);
        } else {
            k += 1;
        }
    }
    None
}

/// The brace scan of one shell line from brace depth `depth` and single-quote state `sq`.
pub fn sh_scan_line(cs: &[char], depth: i64, sq: bool) -> (r: ShScan)
    ensures
        r == sh_scan(cs@, 0, depth, sq),
{
    let mut j: usize = 0;
    let mut d = depth;
    let mut q = sq;
    while j < cs.len()
        invariant
            j <= cs@.len(),
            sh_scan(cs@, 0, depth, sq) == sh_scan(cs@, j as int, d, q),
        decreases cs.len() - j,
    {
        let ch = cs[j];
        if q {
            q = ch != '\'';
            j += 1;
        } else if ch == '\'' {
            q = true;
            j += 1;
        } else if ch == '#' {
            return ShScan::Open(d, false);
        } else if ch == '"' {
            proof {
                lemma_sh_skip_dq(cs@, j + 1);
            }
            match dq_end(cs, j + 1) {
                Some(k) => {
                    j = k + 1;
                },
                None => {
                    proof {
                        let e = sh_skip_dq(cs@, j + 1) + 1;
                        assert(sh_scan(cs@, e, d, false) == ShScan::Open(d, false));
                    }
                    return ShScan::Open(d, false);
                },
            }
        } else if ch == '{' {
            d = crate::languages::go::inc_depth_exec(d);
            j += 1;
        } else if ch == '}' {
            d = crate::languages::go::dec_depth_exec(d);
            if d == 0 {
                return ShScan::Closed;
            }
            j += 1;
        } else {
            j += 1;
        }
    }
    ShScan::Open(d, q)
}

/// The body of a one-line function.
pub fn inline_body_exec(l: &[char]) -> (r: Vec<char>)
    ensures
        r@ == inline_body(l@),
{
    let s = char_index_exec(l, '{');
    if s < l.len() {
        let after = slice_chars(l, s + 1, l.len());
        match rfind_char_exec(&after, '}') {
            Some(e) => {
                let inner = slice_chars(&after, 0, e);
                trim_chars(&inner)
            },
            None => Vec::new(),
        }
    } else {
        Vec::new()
    }
}

/// The body of the function declared on line `start`, and the index of the
/// line of its closing brace.
pub fn sh_body_exec(ls: &Vec<Vec<char>>, start: usize) -> (r: Option<(Vec<char>, usize)>)
    ensures
        start >= ls@.len() ==> r is None,
        match r {
            Some((b, e)) => sh_body(lines_view(ls@), start as int, start as int, 0, false, None, Seq::empty())
                == Some((b@, e as int)),
            None => sh_body(lines_view(ls@), start as int, start as int, 0, false, None, Seq::empty()) is None,
        },
{
    let ghost lv = lines_view(ls@);
    let heredoc_re = compile(HEREDOC);
    let mut acc: Vec<Vec<char>> = Vec::new();
    let mut depth: i64 = 0;
    let mut sq = false;
    let mut heredoc: Option<Vec<char>> = None;
    let mut i = start;
    proof {
        assert(lines_view(acc@) =~= Seq::<Seq<char>>::empty());
    }
    while i < ls.len()
        invariant
            start <= i,
            i <= ls@.len() || i == start,
            lv.len() == ls@.len(),
            lv == lines_view(ls@),
            heredoc_re is Some <==> regex_compiles(HEREDOC@),
            heredoc_re matches Some(p) ==> p.source() == HEREDOC@,
            sh_body(lv, start as int, start as int, 0, false, None, Seq::empty()) == sh_body(
                lv,
                start as int,
                i as int,
                depth,
                sq,
                crate::pattern::opt_chars(heredoc),
                lines_view(acc@),
            ),
        decreases ls.len() - i,
    {
        let line = &ls[i];
        proof {
            assert(lv[i as int] == line@);
        }
        let ghost acc_before = lines_view(acc@);
        match heredoc {
            Some(dlm) => {
                let t = trim_chars(line);
                let same = t.len() == dlm.len() && crate::text::has_prefix(&t, &dlm);
                proof {
                    if same {
                        assert(t@ =~= t@.subrange(0, dlm@.len() as int));
                    }
                    if t@ == dlm@ {
                        assert(t@.subrange(0, dlm@.len() as int) =~= t@);
                    }
                }
                heredoc = if same {
                    None
                } else {
                    Some(dlm)
                };
                if i > start {
                    acc.push(crate::languages::go::copy_line(line));
                    proof {
                        assert(lines_view(acc@) =~= acc_before.push(line@));
                    }
                }
            },
            None => {
                let next_heredoc = match &heredoc_re {
                    Some(p) => pattern_group1(p, line),
                    None => None,
                };
                match sh_scan_line(line, depth, sq) {
                    ShScan::Closed => {
                        let body = if i == start {
                            inline_body_exec(&ls[start])
                        } else {
                            join_lines_exec(&acc)
                        };
                        return Some((body, i));
                    },
                    ShScan::Open(d, q) => {
                        depth = d;
                        sq = q;
                        heredoc = next_heredoc;
                        if i > start {
                            acc.push(crate::languages::go::copy_line(line));
                            proof {
                                assert(lines_view(acc@) =~= acc_before.push(line@));
                            }
                        }
                    },
                }
            },
        }
        i += 1;
    }
    None
}

} // verus!

verus! {

/// Whether a trimmed line asserts in the loose sense used for numbers and loops.
fn sh_assert_like_exec(t: &[char]) -> (r: bool)
    ensures
        r == sh_assert_like(t@),
{
    contains_str(t, "assert") || contains_str(t, "assertEquals") || contains_str(t, "[ ")
        || contains_str(t, "[[ ")
}

/// Whether the trimmed line `t` uses command `p`.
fn uses_command_exec(t: &[char], p: &str) -> (r: bool)
    ensures
        r == uses_command(t@, p@),
{
    let pc = chars_of(p);
    let sp = chars_of(" ");
    let lp = chars_of("(");
    let p_sp = concat_chars(&pc, &sp);
    let sp_p = concat_chars(&sp, &pc);
    let sp_p_sp = concat_chars(&sp_p, &sp);
    let p_lp = concat_chars(&pc, &lp);
    equals_str(t, p) || has_prefix(t, &p_sp) || contains_exec(t, &sp_p_sp) || contains_exec(t, &sp_p)
        || has_prefix(t, &p_lp)
}

/// A line test: not a `#` comment, and uses one of a list of commands.
pub struct UsesCommand {
    commands: Vec<&'static str>,
}

impl UsesCommand {
    /// The commands looked for.
    pub closed spec fn commands(&self) -> Seq<Seq<char>> {
        strs_view(self.commands@)
    }

    /// The test for lines that use one of `commands`.
    pub fn new(commands: &[&'static str]) -> (r: Self)
        ensures
            r.commands() == strs_view(commands@),
    {
        let mut v: Vec<&'static str> = Vec::new();
        let mut i: usize = 0;
        while i < commands.len()
            invariant
                i <= commands@.len(),
                v@ == commands@.take(i as int),
            decreases commands.len() - i,
        {
            v.push(commands[i]);
            proof {
                assert(v@ =~= commands@.take(i as int + 1));
            }
            i += 1;
        }
        proof {
            assert(commands@.take(commands@.len() as int) =~= commands@);
        }
        UsesCommand { commands: v }
    }
}

impl LineRule for UsesCommand {
    open spec fn flags(&self, l: Seq<char>) -> bool {
        uses_any(l, self.commands())
    }

    fn check(&self, l: &[char]) -> (b: bool) {
        let t = trim_chars(l);
        if starts_with_str(&t, "#") {
            return false;
        }
        let ghost cv = self.commands();
        let mut k: usize = 0;
        while k < self.commands.len()
            invariant
                k <= self.commands@.len(),
                cv == self.commands(),
                cv == strs_view(self.commands@),
                t@ == trim(l@),
                !starts_with(t@, "#"@),
                forall|j: int| 0 <= j < k ==> !uses_command(t@, #[trigger] cv[j]),
            decreases self.commands.len() - k,
        {
            if uses_command_exec(&t, self.commands[k]) {
                proof {
                    assert(cv[k as int] == self.commands@[k as int]@);
                }
                return true;
            }
            proof {
                assert(cv[k as int] == self.commands@[k as int]@);
            }
            k += 1;
        }
        false
    }
}

/// The whole-word expressions of `ws`.
fn word_patterns(ws: &[&str]) -> (r: Vec<String>)
    ensures
        r@.map_values(|p: String| p@) == words(strs_view(ws@)),
{
    let mut out: Vec<String> = Vec::new();
    let mut i: usize = 0;
    while i < ws.len()
        invariant
            i <= ws@.len(),
            out@.map_values(|p: String| p@) == words(strs_view(ws@.take(i as int))),
        decreases ws.len() - i,
    {
        let w = word_pattern(ws[i]);
        let ghost before = out@.map_values(|p: String| p@);
        out.push(w);
        proof {
            assert(out@.map_values(|p: String| p@) =~= before.push(word(ws@[i as int]@)));
            assert(words(strs_view(ws@.take(i as int + 1))) =~= words(strs_view(ws@.take(i as int))).push(
                word(ws@[i as int]@),
            ));
        }
        i += 1;
    }
    proof {
        assert(ws@.take(ws@.len() as int) =~= ws@);
    }
    out
}

/// The magic numbers of the shell body lines `ls`.
fn sh_magic_exec(ls: &Vec<Vec<char>>) -> (r: Vec<(i64, usize)>)
    ensures
        r@ == sh_magic(lines_view(ls@), ls@.len() as int),
{
    let ghost lv = lines_view(ls@);
    let num_re = compile(NUMBER);
    let mut out: Vec<(i64, usize)> = Vec::new();
    let mut i: usize = 0;
    while i < ls.len()
        invariant
            i <= ls@.len(),
            lv == lines_view(ls@),
            num_re is Some <==> regex_compiles(NUMBER@),
            num_re matches Some(p) ==> p.source() == NUMBER@,
            out@ == sh_magic(lv, i as int),
        decreases ls.len() - i,
    {
        let t = trim_chars(&ls[i]);
        proof {
            assert(lv[i as int] == ls@[i as int]@);
        }
        if !starts_with_str(&t, "#") && sh_assert_like_exec(&t) {
            let gs = match &num_re {
                Some(p) => pattern_group1_all(p, &t),
                None => Vec::new(),
            };
            proof {
                if num_re is None {
                    assert(lines_view(gs@) =~= Seq::<Seq<char>>::empty());
                }
            }
            crate::languages::go::numbers_at_exec(&gs, i + 1, &mut out);
        } else {
            proof {
                assert(out@ + Seq::<(i64, usize)>::empty() =~= out@);
            }
        }
        i += 1;
    }
    out
}

/// Whether an assertion stands inside a `for` loop of the shell body lines `ls`.
fn sh_loop_assert_exec(ls: &Vec<Vec<char>>) -> (r: bool)
    ensures
        r == sh_loop_assert(lines_view(ls@), false, 0),
{
    let ghost lv = lines_view(ls@);
    let mut in_for = false;
    let mut depth: i64 = 0;
    let mut i: usize = 0;
    proof {
        assert(lv.skip(0) =~= lv);
    }
    while i < ls.len()
        invariant
            i <= ls@.len(),
            lv == lines_view(ls@),
            sh_loop_assert(lv, false, 0) == sh_loop_assert(lv.skip(i as int), in_for, depth),
        decreases ls.len() - i,
    {
        let t = trim_chars(&ls[i]);
        proof {
            assert(lv.skip(i as int)[0] == ls@[i as int]@);
            assert(lv.skip(i as int).drop_first() =~= lv.skip(i as int + 1));
        }
        if !starts_with_str(&t, "#") {
            let opened = starts_with_str(&t, "for ");
            if opened {
                in_for = true;
                depth = 0;
            }
            if in_for {
                depth = crate::languages::go::shift_depth_exec(
                    depth,
                    count_char_exec(&t, '{'),
                    count_char_exec(&t, '}'),
                );
                if sh_assert_like_exec(&t) {
                    return true;
                }
                let closes = equals_str(&t, "done") || (depth <= 0 && contains_str(&t, "}"));
                in_for = !closes;
            }
        }
        i += 1;
    }
    false
}

/// Whether every line is blank or a `#` comment.
fn all_blank_or_hash(ls: &Vec<Vec<char>>) -> (r: bool)
    ensures
        r == forall|i: int|
            0 <= i < ls@.len() ==> (trim(#[trigger] lines_view(ls@)[i]).len() == 0 || starts_with(
                trim(lines_view(ls@)[i]),
                "#"@,
            )),
{
    let ghost lv = lines_view(ls@);
    let mut i: usize = 0;
    while i < ls.len()
        invariant
            i <= ls@.len(),
            lv == lines_view(ls@),
            forall|j: int| 0 <= j < i ==> (trim(#[trigger] lv[j]).len() == 0 || starts_with(trim(lv[j]), "#"@)),
        decreases ls.len() - i,
    {
        let t = trim_chars(&ls[i]);
        proof {
            assert(lv[i as int] == ls@[i as int]@);
        }
        if !(t.len() == 0 || starts_with_str(&t, "#")) {
            return false;
        }
        i += 1;
    }
    true
}

/// Whether one of the first three lines starts with `return` or `exit`.
fn sh_early_return_exec(ls: &Vec<Vec<char>>) -> (r: bool)
    ensures
        r == exists|i: int|
            0 <= i < ls@.len() && i < 3 && (starts_with(trim(#[trigger] lines_view(ls@)[i]), "return"@)
                || starts_with(trim(lines_view(ls@)[i]), "exit"@)),
{
    let ghost lv = lines_view(ls@);
    let mut i: usize = 0;
    while i < ls.len() && i < 3
        invariant
            i <= ls@.len(),
            lv == lines_view(ls@),
            forall|j: int|
                0 <= j < i ==> !(starts_with(trim(#[trigger] lv[j]), "return"@) || starts_with(
                    trim(lv[j]),
                    "exit"@,
                )),
        decreases ls.len() - i,
    {
        let t = trim_chars(&ls[i]);
        proof {
            assert(lv[i as int] == ls@[i as int]@);
        }
        if starts_with_str(&t, "return") || starts_with_str(&t, "exit") {
            return true;
        }
        i += 1;
    }
    false
}

/// The facts of shell test function `name` declared at `line` with body `body`.
pub fn analyze_shell_function(name: &[char], line: usize, body: &[char]) -> (r: TestFunction)
    ensures
        r@ == analyze_shell(name@, line, body@),
{
    let ls = lines_of(body);
    let ghost lv = lines_view(ls@);
    proof {
        assert(lv == lines(body@));
    }
    let assert_words = word_patterns(&SH_ASSERTS);
    let r_assert = MatchesAny::new("#", &assert_words);
    let r_bracket = MatchesAny::single("#", BRACKET_TEST);
    let sleep_words = vec![word_pattern("sleep")];
    let r_sleep = MatchesAny::new("#", &sleep_words);
    let echo_words = vec![word_pattern("echo")];
    let r_echo = MatchesAny::new("#", &echo_words);
    let printf_words = vec![word_pattern("printf")];
    let r_printf = MatchesAny::new("#", &printf_words);
    let timeout_words = vec![word_pattern("timeout")];
    let r_timeout = MatchesAny::new("#", &timeout_words);
    let r_skip = UsesCommand::new(&SH_SKIPS);
    let k_if = KeywordLine { comment: "#", kw: "if", next: "[" };
    let p_case = PrefixLine { prefix: "case " };
    let p_for = PrefixLine { prefix: "for " };
    let p_while = PrefixLine { prefix: "while " };
    proof {
        assert(sleep_words@.map_values(|p: String| p@) =~= seq![word("sleep"@)]);
        assert(echo_words@.map_values(|p: String| p@) =~= seq![word("echo"@)]);
        assert(printf_words@.map_values(|p: String| p@) =~= seq![word("printf"@)]);
        assert(timeout_words@.map_values(|p: String| p@) =~= seq![word("timeout"@)]);
        assert((|l: Seq<char>| r_assert.flags(l)) =~= (|l: Seq<char>| matches_any(l, "#"@, words(strs_view(SH_ASSERTS@)))));
        assert((|l: Seq<char>| r_bracket.flags(l)) =~= (|l: Seq<char>| matches_any(l, "#"@, seq![BRACKET_TEST@])));
        assert((|l: Seq<char>| r_sleep.flags(l)) =~= (|l: Seq<char>| matches_any(l, "#"@, seq![word("sleep"@)])));
        assert((|l: Seq<char>| r_echo.flags(l)) =~= (|l: Seq<char>| matches_any(l, "#"@, seq![word("echo"@)])));
        assert((|l: Seq<char>| r_printf.flags(l)) =~= (|l: Seq<char>| matches_any(l, "#"@, seq![word("printf"@)])));
        assert((|l: Seq<char>| r_timeout.flags(l)) =~= (|l: Seq<char>| matches_any(l, "#"@, seq![word("timeout"@)])));
        assert((|l: Seq<char>| r_skip.flags(l)) =~= (|l: Seq<char>| uses_any(l, strs_view(SH_SKIPS@))));
        assert((|l: Seq<char>| k_if.flags(l)) =~= (|l: Seq<char>| keyword_line(l, "#"@, "if"@, "["@)));
        assert((|l: Seq<char>| p_case.flags(l)) =~= (|l: Seq<char>| prefix_line(l, "case "@)));
        assert((|l: Seq<char>| p_for.flags(l)) =~= (|l: Seq<char>| prefix_line(l, "for "@)));
        assert((|l: Seq<char>| p_while.flags(l)) =~= (|l: Seq<char>| prefix_line(l, "while "@)));
    }
    let asserts = count_lines(&ls, &r_assert);
    let brackets = count_lines(&ls, &r_bracket);
    let total: usize = if asserts > usize::MAX - brackets {
        usize::MAX
    } else {
        asserts + brackets
    };
    let has_if = any_line(&ls, &k_if);
    let has_case = any_line(&ls, &p_case);
    let has_for = any_line(&ls, &p_for);
    let has_while = any_line(&ls, &p_while);
    let has_print = any_line(&ls, &r_echo) || any_line(&ls, &r_printf);
    TestFunction {
        name: string_of(name),
        line,
        body_source: string_of(body),
        is_ignored: any_line(&ls, &r_skip),
        has_assertion: total > 0 || contains_str(body, "$?"),
        has_sleep: any_line(&ls, &r_sleep),
        has_conditional: has_if || has_case || has_for || has_while,
        has_branching: has_if || has_case,
        has_for_loop: has_for,
        has_while_loop: has_while,
        has_assertion_in_loop: sh_loop_assert_exec(&ls),
        has_print,
        is_empty: all_blank_or_hash(&ls),
        assertion_count: total,
        assert_only_count: brackets,
        assertions_without_message: 0,
        assert_only_without_message: 0,
        magic_numbers: sh_magic_exec(&ls),
        has_early_return: sh_early_return_exec(&ls),
        has_timeout_dependency: any_line(&ls, &r_timeout),
        body_line_count: ls.len(),
    }
}

/// The name a header line declares, if it is a test header.
fn sh_header_exec(
    l: &[char],
    bats: &Option<Pattern>,
    func: &Option<Pattern>,
    kw: &Option<Pattern>,
) -> (r: Option<Vec<char>>)
    requires
        bats is Some <==> regex_compiles(BATS_TEST@),
        bats matches Some(p) ==> p.source() == BATS_TEST@,
        func is Some <==> regex_compiles(SH_TEST_FUNC@),
        func matches Some(p) ==> p.source() == SH_TEST_FUNC@,
        kw is Some <==> regex_compiles(SH_TEST_FUNC_KW@),
        kw matches Some(p) ==> p.source() == SH_TEST_FUNC_KW@,
    ensures
        crate::pattern::opt_chars(r) == sh_header(l@),
{
    let a = match bats {
        Some(p) => pattern_group1(p, l),
        None => None,
    };
    if a.is_some() {
        return a;
    }
    let b = match func {
        Some(p) => pattern_group1(p, l),
        None => None,
    };
    if b.is_some() {
        return b;
    }
    match kw {
        Some(p) => pattern_group1(p, l),
        None => None,
    }
}

/// The test functions of shell source `source`, in order.
pub fn extract_test_functions(source: &str) -> (r: Vec<TestFunction>)
    ensures
        r@.map_values(|f: TestFunction| f@) == sh_functions(lines(source@), 0),
{
    let chars = chars_of(source);
    let ls = lines_of(&chars);
    let ghost lv = lines_view(ls@);
    let bats = compile(BATS_TEST);
    let func = compile(SH_TEST_FUNC);
    let kw = compile(SH_TEST_FUNC_KW);
    let mut out: Vec<TestFunction> = Vec::new();
    let mut i: usize = 0;
    proof {
        assert(out@.map_values(|f: TestFunction| f@) + sh_functions(lv, 0) =~= sh_functions(lv, 0));
    }
    while i < ls.len()
        invariant
            i <= ls@.len(),
            lv == lines_view(ls@),
            lv == lines(source@),
            bats is Some <==> regex_compiles(BATS_TEST@),
            bats matches Some(p) ==> p.source() == BATS_TEST@,
            func is Some <==> regex_compiles(SH_TEST_FUNC@),
            func matches Some(p) ==> p.source() == SH_TEST_FUNC@,
            kw is Some <==> regex_compiles(SH_TEST_FUNC_KW@),
            kw matches Some(p) ==> p.source() == SH_TEST_FUNC_KW@,
            out@.map_values(|f: TestFunction| f@) + sh_functions(lv, i as int) == sh_functions(lv, 0),
        decreases ls.len() - i,
    {
        proof {
            assert(lv[i as int] == ls@[i as int]@);
        }
        let name = sh_header_exec(&ls[i], &bats, &func, &kw);
        let ghost before = out@.map_values(|f: TestFunction| f@);
        match name {
            None => {
                i += 1;
            },
            Some(nm) => {
                proof {
                    lemma_sh_body_end(lv, i as int, i as int, 0, false, None, Seq::empty());
                }
                match sh_body_exec(&ls, i) {
                    Some((body, end)) => {
                        let f = analyze_shell_function(&nm, bump_exec(i), &body);
                        out.push(f);
                        proof {
                            assert(out@.map_values(|x: TestFunction| x@) =~= before.push(f@));
                            assert(before.push(f@) + sh_functions(lv, end + 1) =~= before + (seq![f@]
                                + sh_functions(lv, end + 1)));
                        }
                        i = end + 1;
                    },
                    None => {
                        i += 1;
                    },
                }
            },
        }
    }
    proof {
        assert(out@.map_values(|f: TestFunction| f@) + Seq::<FunctionView>::empty() =~= out@.map_values(
            |f: TestFunction| f@,
        ));
    }
    out
}

/// Parses shell, Bash and Bats test files.
pub struct ShellParser;

impl LanguageParser for ShellParser {
    /// The file extensions this front end reads.
    fn extensions(&self) -> (r: Vec<&'static str>)
        ensures
            r@.map_values(|e: &str| e@) == seq!["sh"@, "bash"@, "bats"@],
    {
        let v = vec!["sh", "bash", "bats"];
        proof {
            assert(v@.map_values(|e: &str| e@) =~= seq!["sh"@, "bash"@, "bats"@]);
        }
        v
    }

    /// The language name.
    fn language_name(&self) -> (r: &'static str)
        ensures
            r@ == "shell"@,
    {
        "shell"
    }

    /// Parses `source`; every shell file is read, whatever its name.
    fn parse(&self, path: &str, source: &str) -> (r: Option<TestFile>)
        ensures
            r matches Some(tf) && {
                &&& tf.path@ == path@
                &&& tf.language@ == "shell"@
                &&& tf.test_functions@.map_values(|f: TestFunction| f@) == sh_functions(
                    lines(source@),
                    0,
                )
                &&& opt_view(tf.source) == Some(source@)
                &&& tf.flavor is None
            },
    {
        Some(
            TestFile {
                path: String::from_str(path),
                language: String::from_str("shell"),
                test_functions: extract_test_functions(source),
                source: Some(String::from_str(source)),
                flavor: None,
            },
        )
    }
}

} // verus!
