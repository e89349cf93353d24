//! Inline suppression: `smell-allow:` comments that silence chosen smells.
//!
//! A directive names kebab-case smell kinds separated by commas and may give
//! a reason after an em dash (`—`) or `--`:
//! `// smell-allow: sleepy-test, magic-number — waits for a real process`.
use vstd::prelude::*;
use crate::model::smell::{kind_of_kebab, SmellType};
use crate::text::{
    chars_of, char_index, char_index_exec, find, find_exec, lines, lines_of, slice_chars,
    split_char, split_on_char, string_of, trim, trim_chars, trim_end, trim_end_chars,
};

verus! {

/// A `smell-allow` directive found in a source file.
#[derive(Debug, Clone)]
pub struct SmellAllow {
    /// 1-based line of the directive.
    pub line: usize,
    pub smell_types: Vec<SmellType>,
    pub reason: Option<String>,
}

/// A directive as its contract sees it.
pub struct AllowView {
    pub line: usize,
    pub smell_types: Seq<SmellType>,
    pub reason: Option<Seq<char>>,
}

impl View for SmellAllow {
    type V = AllowView;

    open spec fn view(&self) -> AllowView {
        AllowView {
            line: self.line,
            smell_types: self.smell_types@,
            reason: crate::model::smell::opt_view(self.reason),
        }
    }
}

/// A smell that a directive silenced.
#[derive(Debug, Clone)]
pub struct SuppressedSmell {
    pub smell_type: SmellType,
    pub file_path: String,
    pub line: usize,
    pub function_name: Option<String>,
    pub reason: Option<String>,
}

/// A silenced smell as its contract sees it.
pub struct SuppressedView {
    pub smell_type: SmellType,
    pub file_path: Seq<char>,
    pub line: usize,
    pub function_name: Option<Seq<char>>,
    pub reason: Option<Seq<char>>,
}

impl View for SuppressedSmell {
    type V = SuppressedView;

    open spec fn view(&self) -> SuppressedView {
        SuppressedView {
            smell_type: self.smell_type,
            file_path: self.file_path@,
            line: self.line,
            function_name: crate::model::smell::opt_view(self.function_name),
            reason: crate::model::smell::opt_view(self.reason),
        }
    }
}

/// The marker that starts a directive.
pub open spec fn marker() -> Seq<char> {
    "smell-allow:"@
}

/// The kinds named by the comma-separated pieces `parts`, unknown names skipped.
pub open spec fn kinds_named(parts: Seq<Seq<char>>) -> Seq<SmellType>
    decreases parts.len(),
{
    if parts.len() == 0 {
        Seq::empty()
    } else {
        kinds_named(parts.drop_last()) + match kind_of_kebab(trim(parts.last())) {
            Some(t) => seq![t],
            None => Seq::empty(),
        }
    }
}

/// The list part and the reason of the text after the marker: the reason
/// follows the first em dash, or else the first `--`; without either the
/// whole text, trailing space removed, is the list.
pub open spec fn split_reason(after: Seq<char>) -> (Seq<char>, Option<Seq<char>>) {
    let dash = char_index(after, '\u{2014}');
    if dash < after.len() {
        (after.subrange(0, dash), Some(trim(after.subrange(dash + 1, after.len() as int))))
    } else {
        match find(after, "--"@) {
            Some(idx) => (after.subrange(0, idx), Some(trim(after.subrange(idx + 2, after.len() as int)))),
            None => (trim_end(after), None),
        }
    }
}

/// The directive on `line`, if it holds one that names at least one known kind:
/// the kinds it names and its reason (an empty reason counts as none).
pub open spec fn directive(line: Seq<char>) -> Option<(Seq<SmellType>, Option<Seq<char>>)> {
    match find(line, marker()) {
        None => None,
        Some(pos) => {
            let after = line.subrange(pos + marker().len(), line.len() as int);
            let (list, reason) = split_reason(after);
            let kinds = kinds_named(split_char(list, ','));
            if kinds.len() == 0 {
                None
            } else {
                Some(
                    (
                        kinds,
                        match reason {
                            Some(r) => if r.len() > 0 {
                                Some(r)
                            } else {
                                None
                            },
                            None => None,
                        },
                    ),
                )
            }
        },
    }
}

/// The directives in the lines `ls`, in order, each at its 1-based line.
pub open spec fn directives(ls: Seq<Seq<char>>) -> Seq<AllowView>
    decreases ls.len(),
{
    if ls.len() == 0 {
        Seq::empty()
    } else {
        directives(ls.drop_last()) + match directive(ls.last()) {
            Some((kinds, reason)) => seq![
                AllowView { line: ls.len() as usize, smell_types: kinds, reason },
            ],
            None => Seq::empty(),
        }
    }
}

/// Whether directive `a` covers a function declared at `func_line` whose body
/// has `body_line_count` lines: it stands at most five lines above the
/// declaration, or within the function.
pub open spec fn covers_function(a: AllowView, func_line: usize, body_line_count: usize) -> bool {
    (a.line < func_line && func_line - a.line <= 5) || (a.line >= func_line && a.line
        <= func_line + body_line_count)
}

/// Whether directive `a` silences kind `t` reported at `line`: it stands on
/// that line or the line before and names the kind.
pub open spec fn covers_line(a: AllowView, t: SmellType, line: usize) -> bool {
    (a.line == line || a.line + 1 == line) && a.smell_types.contains(t)
}

/// The kinds named by the pieces of a directive.
fn kinds_from(parts: &Vec<Vec<char>>) -> (r: Vec<SmellType>)
    ensures
        r@ == kinds_named(parts@.map_values(|p: Vec<char>| p@)),
{
    let ghost pv = parts@.map_values(|p: Vec<char>| p@);
    let mut out: Vec<SmellType> = Vec::new();
    let mut i: usize = 0;
    while i < parts.len()
        invariant
            i <= parts@.len(),
            pv == parts@.map_values(|p: Vec<char>| p@),
            out@ == kinds_named(pv.take(i as int)),
        decreases parts.len() - i,
    {
        proof {
            assert(pv.take(i as int + 1).drop_last() =~= pv.take(i as int));
            assert(pv.take(i as int + 1).last() == parts@[i as int]@);
        }
        let t = trim_chars(&parts[i]);
        match SmellType::from_kebab_name(&t) {
            Some(k) => {
                out.push(k);
            },
            None => {
                proof {
                    assert(out@ + Seq::<SmellType>::empty() =~= out@);
                }
            },
        }
        i += 1;
    }
    proof {
        assert(pv.take(pv.len() as int) =~= pv);
    }
    out
}

/// The list part and the reason of the text after the marker.
fn split_reason_exec(after: &[char]) -> (r: (Vec<char>, Option<Vec<char>>))
    ensures
        (r.0@, crate::pattern::opt_chars(r.1)) == split_reason(after@),
{
    let dash = char_index_exec(after, '\u{2014}');
    if dash < after.len() {
        let rest = slice_chars(after, dash + 1, after.len());
        (slice_chars(after, 0, dash), Some(trim_chars(&rest)))
    } else {
        let dd = chars_of("--");
        proof {
            reveal_strlit("--");
        }
        match find_exec(after, &dd) {
            Some(idx) => {
                assert(idx + 2 <= after@.len());
                let rest = slice_chars(after, idx + 2, after.len());
                (slice_chars(after, 0, idx), Some(trim_chars(&rest)))
            },
            None => (trim_end_chars(after), None),
        }
    }
}

/// The directive on one line, if any.
fn directive_of(line: &[char]) -> (r: Option<(Vec<SmellType>, Option<Vec<char>>)>)
    ensures
        match r {
            Some((kinds, reason)) => directive(line@) == Some(
                (kinds@, crate::pattern::opt_chars(reason)),
            ),
            None => directive(line@) is None,
        },
{
    let m = chars_of("smell-allow:");
    let pos = match find_exec(line, &m) {
        Some(p) => p,
        None => return None,
    };
    let n = line.len();
    assert(pos + m@.len() <= n);
    let after = slice_chars(line, pos + m.len(), line.len());
    let (list, reason) = split_reason_exec(&after);
    let parts = split_on_char(&list, ',');
    let kinds = kinds_from(&parts);
    if kinds.len() == 0 {
        return None;
    }
    let reason = match reason {
        Some(r) => if r.len() > 0 {
            Some(r)
        } else {
            None
        },
        None => None,
    };
    Some((kinds, reason))
}

/// The `smell-allow` directives of `source`, in order, each at its 1-based line.
pub fn parse_smell_allows(source: &str) -> (r: Vec<SmellAllow>)
    ensures
        r@.map_values(|a: SmellAllow| a@) == directives(lines(source@)),
{
    let chars = chars_of(source);
    let ls = lines_of(&chars);
    let ghost lv = ls@.map_values(|l: Vec<char>| l@);
    let mut out: Vec<SmellAllow> = Vec::new();
    let mut i: usize = 0;
    while i < ls.len()
        invariant
            i <= ls@.len(),
            lv == ls@.map_values(|l: Vec<char>| l@),
            out@.map_values(|a: SmellAllow| a@) == directives(lv.take(i as int)),
        decreases ls.len() - i,
    {
        let ghost before = out@.map_values(|a: SmellAllow| a@);
        proof {
            assert(lv.take(i as int + 1).drop_last() =~= lv.take(i as int));
            assert(lv.take(i as int + 1).last() == ls@[i as int]@);
            assert(lv.take(i as int + 1).len() == i + 1);
        }
        match directive_of(&ls[i]) {
            Some((kinds, reason)) => {
                let a = SmellAllow {
                    line: i + 1,
                    smell_types: kinds,
                    reason: match reason {
                        Some(r) => Some(string_of(&r)),
                        None => None,
                    },
                };
                out.push(a);
                proof {
                    assert(out@.map_values(|x: SmellAllow| x@) =~= before.push(a@));
                }
            },
            None => {
                proof {
                    assert(before + Seq::<AllowView>::empty() =~= before);
                }
            },
        }
        i += 1;
    }
    proof {
        assert(lv.take(lv.len() as int) =~= lv);
    }
    out
}

/// The directives that cover a function declared at `func_line` with
/// `body_line_count` body lines, in order: those at most five lines above the
/// declaration and those within the function.
pub fn get_allows_for_function<'a>(
    allows: &'a [SmellAllow],
    func_line: usize,
    body_line_count: usize,
) -> (r: Vec<&'a SmellAllow>)
    ensures
        r@.map_values(|a: &SmellAllow| a@) == allows@.map_values(|a: SmellAllow| a@).filter(
            |a: AllowView| covers_function(a, func_line, body_line_count),
        ),
{
    let ghost av = allows@.map_values(|a: SmellAllow| a@);
    let ghost pred = |a: AllowView| covers_function(a, func_line, body_line_count);
    let mut out: Vec<&'a SmellAllow> = Vec::new();
    let mut i: usize = 0;
    while i < allows.len()
        invariant
            i <= allows@.len(),
            av == allows@.map_values(|a: SmellAllow| a@),
            pred == (|a: AllowView| covers_function(a, func_line, body_line_count)),
            out@.map_values(|a: &SmellAllow| a@) == av.take(i as int).filter(pred),
        decreases allows.len() - i,
    {
        let a = &allows[i];
        let ghost before = out@.map_values(|x: &SmellAllow| x@);
        proof {
            reveal_with_fuel(Seq::filter, 1);
            assert(av.take(i as int + 1).drop_last() =~= av.take(i as int));
        }
        let before_fn = a.line < func_line && func_line - a.line <= 5;
        let inside = a.line >= func_line && a.line - func_line <= body_line_count;
        if before_fn || inside {
            out.push(a);
            proof {
                assert(out@.map_values(|x: &SmellAllow| x@) =~= before.push(a@));
            }
        }
        i += 1;
    }
    proof {
        assert(av.take(av.len() as int) =~= av);
    }
    out
}

/// Whether some directive silences kind `smell_type` reported at `line`:
/// it stands on that line or the line before and names the kind.
pub fn is_line_suppressed(allows: &[SmellAllow], smell_type: SmellType, line: usize) -> (r: bool)
    ensures
        r == exists|i: int|
            0 <= i < allows@.len() && covers_line(#[trigger] allows@[i]@, smell_type, line),
{
    let mut i: usize = 0;
    while i < allows.len()
        invariant
            i <= allows@.len(),
            forall|j: int| 0 <= j < i ==> !covers_line(#[trigger] allows@[j]@, smell_type, line),
        decreases allows.len() - i,
    {
        let a = &allows[i];
        let near = a.line == line || (line > 0 && a.line == line - 1);
        if near && kinds_contain(&a.smell_types, smell_type) {
            assert(covers_line(allows@[i as int]@, smell_type, line));
            return true;
        }
        i += 1;
    }
    false
}

/// Whether `t` is in `list`.
pub fn kinds_contain(list: &Vec<SmellType>, t: SmellType) -> (r: bool)
    ensures
        r == list@.contains(t),
{
    let mut i: usize = 0;
    while i < list.len()
        invariant
            i <= list@.len(),
            forall|j: int| 0 <= j < i ==> list@[j] != t,
        decreases list.len() - i,
    {
        if list[i] == t {
            assert(list@[i as int] == t);
            return true;
        }
        i += 1;
    }
    false
}

/// Scope law: the directives that cover a function declared at `func_line`
/// with `body_line_count` body lines are exactly those standing within five
/// lines above the declaration or on a line from the declaration to the
/// end of the body.
pub proof fn lemma_function_allows_scope(
    allows: Seq<AllowView>,
    func_line: usize,
    body_line_count: usize,
    a: AllowView,
)
    ensures
        allows.filter(|x: AllowView| covers_function(x, func_line, body_line_count)).contains(a)
            <==> (allows.contains(a) && ((a.line < func_line && func_line - a.line <= 5) || (
        func_line <= a.line && a.line <= func_line + body_line_count))),
    decreases allows.len(),
{
    reveal(Seq::filter);
    let pred = |x: AllowView| covers_function(x, func_line, body_line_count);
    if allows.len() > 0 {
        let rest = allows.drop_last();
        lemma_function_allows_scope(rest, func_line, body_line_count, a);
        let fr = rest.filter(pred);
        if pred(allows.last()) {
            assert(allows.filter(pred) == fr.push(allows.last()));
            assert(fr.push(allows.last()).contains(a) <==> (fr.contains(a) || a == allows.last())) by {
                if fr.push(allows.last()).contains(a) {
                    let k = choose|k: int| 0 <= k < fr.len() + 1 && fr.push(allows.last())[k] == a;
                    if k < fr.len() {
                        assert(fr[k] == a);
                    }
                }
                if fr.contains(a) {
                    let k = choose|k: int| 0 <= k < fr.len() && fr[k] == a;
                    assert(fr.push(allows.last())[k] == a);
                }
                if a == allows.last() {
                    assert(fr.push(allows.last())[fr.len() as int] == a);
                }
            }
        } else {
            assert(allows.filter(pred) == fr);
        }
        assert(allows.contains(a) <==> (rest.contains(a) || a == allows.last())) by {
            if allows.contains(a) {
                let k = choose|k: int| 0 <= k < allows.len() && allows[k] == a;
                if k < rest.len() {
                    assert(rest[k] == a);
                }
            }
            if rest.contains(a) {
                let k = choose|k: int| 0 <= k < rest.len() && rest[k] == a;
                assert(allows[k] == a);
            }
            if a == allows.last() {
                assert(allows[allows.len() - 1] == a);
            }
        }
    }
}

} // verus!
