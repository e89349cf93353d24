//! What a run reports: smells below the chosen severity are dropped, and
//! smells that a `smell-allow` directive covers are set aside with the
//! directive's reason.
use vstd::prelude::*;
use crate::model::smell::{
    copy_opt_string, copy_string, opt_view, severity_of, SmellType, SmellView, TestFile,
    TestFunction, TestSmell,
};
use crate::model::smell_allow::{
    covers_function, covers_line, directives, get_allows_for_function,
    kinds_contain, parse_smell_allows, AllowView, SmellAllow, SuppressedSmell, SuppressedView,
};
use crate::text::lines;

verus! {

/// The index of the first file of `files` at `path`, or `files.len()`.
pub open spec fn file_index(files: Seq<TestFile>, path: Seq<char>) -> int
    decreases files.len(),
{
    if files.len() == 0 {
        0
    } else if files[0].path@ == path {
        0
    } else {
        1 + file_index(files.drop_first(), path)
    }
}

/// The index of the first function of `fs` named `name`, or `fs.len()`.
pub open spec fn function_index(fs: Seq<TestFunction>, name: Seq<char>) -> int
    decreases fs.len(),
{
    if fs.len() == 0 {
        0
    } else if fs[0].name@ == name {
        0
    } else {
        1 + function_index(fs.drop_first(), name)
    }
}

/// The first directive of `allows` that satisfies `p`, if any.
pub open spec fn first_allow(allows: Seq<AllowView>, p: spec_fn(AllowView) -> bool) -> Option<AllowView>
    decreases allows.len(),
{
    if allows.len() == 0 {
        None
    } else if p(allows[0]) {
        Some(allows[0])
    } else {
        first_allow(allows.drop_first(), p)
    }
}

/// Whether a directive names kind `t`.
pub open spec fn names_kind(t: SmellType) -> spec_fn(AllowView) -> bool {
    |a: AllowView| a.smell_types.contains(t)
}

/// Whether a directive covers a function declared at `line` with `count` body lines.
pub open spec fn covers_fn(line: usize, count: usize) -> spec_fn(AllowView) -> bool {
    |a: AllowView| covers_function(a, line, count)
}

/// Whether a directive silences kind `t` reported at `line`.
pub open spec fn covers_at(t: SmellType, line: usize) -> spec_fn(AllowView) -> bool {
    |a: AllowView| covers_line(a, t, line)
}

/// The directive of file source `source` that silences smell `s`, if any: the
/// first directive covering `s`'s function that names its kind, or else the
/// first directive on `s`'s line or the line before that names its kind.
pub open spec fn silencing(s: SmellView, f: TestFile, source: Seq<char>) -> Option<AllowView> {
    let allows = directives(lines(source));
    let fs = f.test_functions@;
    let by_function = match s.function_name {
        Some(name) => {
            let k = function_index(fs, name);
            if 0 <= k < fs.len() {
                first_allow(
                    allows.filter(covers_fn(fs[k].line, fs[k].body_line_count)),
                    names_kind(s.smell_type),
                )
            } else {
                None
            }
        },
        None => None,
    };
    match by_function {
        Some(a) => Some(a),
        None => first_allow(allows, covers_at(s.smell_type, s.line)),
    }
}

/// Whether smell `s` is silenced, and with which reason: `None` when it is
/// reported, `Some(reason)` when a directive in its file's source covers it.
pub open spec fn suppression(s: SmellView, files: Seq<TestFile>) -> Option<Option<Seq<char>>> {
    let i = file_index(files, s.file_path);
    if 0 <= i < files.len() {
        match opt_view(files[i].source) {
            Some(source) => match silencing(s, files[i], source) {
                Some(a) => Some(a.reason),
                None => None,
            },
            None => None,
        }
    } else {
        None
    }
}

/// The record of smell `s` set aside with `reason`.
pub open spec fn set_aside(s: SmellView, reason: Option<Seq<char>>) -> SuppressedView {
    SuppressedView {
        smell_type: s.smell_type,
        file_path: s.file_path,
        line: s.line,
        function_name: s.function_name,
        reason,
    }
}

/// The smells of `smells` that are reported and those set aside, in order:
/// smells below `min_severity` are in neither.
pub open spec fn triaged(smells: Seq<SmellView>, files: Seq<TestFile>, min_severity: u8) -> (
    Seq<SmellView>,
    Seq<SuppressedView>,
)
    decreases smells.len(),
{
    if smells.len() == 0 {
        (Seq::empty(), Seq::empty())
    } else {
        let (kept, aside) = triaged(smells.drop_last(), files, min_severity);
        let s = smells.last();
        if severity_of(s.smell_type) < min_severity {
            (kept, aside)
        } else {
            match suppression(s, files) {
                None => (kept.push(s), aside),
                Some(reason) => (kept, aside.push(set_aside(s, reason))),
            }
        }
    }
}

/// The index of the first file at `path`.
fn file_index_exec(files: &Vec<TestFile>, path: &String) -> (r: usize)
    ensures
        r == file_index(files@, path@),
        r <= files@.len(),
{
    let mut i: usize = 0;
    proof {
        assert(files@.skip(0) =~= files@);
    }
    while i < files.len()
        invariant
            i <= files@.len(),
            file_index(files@, path@) == i + file_index(files@.skip(i as int), path@),
        decreases files.len() - i,
    {
        proof {
            assert(files@.skip(i as int).drop_first() =~= files@.skip(i as int + 1));
        }
        if crate::text::equals_str(&crate::text::chars_of(files[i].path.as_str()), path.as_str()) {
            return i;
        }
        i += 1;
    }
    i
}

/// The index of the first function named `name`.
fn function_index_exec(fs: &Vec<TestFunction>, name: &String) -> (r: usize)
    ensures
        r == function_index(fs@, name@),
        r <= fs@.len(),
{
    let mut i: usize = 0;
    proof {
        assert(fs@.skip(0) =~= fs@);
    }
    while i < fs.len()
        invariant
            i <= fs@.len(),
            function_index(fs@, name@) == i + function_index(fs@.skip(i as int), name@),
        decreases fs.len() - i,
    {
        proof {
            assert(fs@.skip(i as int).drop_first() =~= fs@.skip(i as int + 1));
        }
        if crate::text::equals_str(&crate::text::chars_of(fs[i].name.as_str()), name.as_str()) {
            return i;
        }
        i += 1;
    }
    i
}

/// The first directive of `allows` that names kind `t`.
fn first_naming<'a>(allows: &Vec<&'a SmellAllow>, t: SmellType) -> (r: Option<&'a SmellAllow>)
    ensures
        match r {
            Some(a) => first_allow(allows@.map_values(|x: &SmellAllow| x@), names_kind(t)) == Some(a@),
            None => first_allow(allows@.map_values(|x: &SmellAllow| x@), names_kind(t)) is None,
        },
{
    let ghost av = allows@.map_values(|x: &SmellAllow| x@);
    let mut i: usize = 0;
    proof {
        assert(av.skip(0) =~= av);
    }
    while i < allows.len()
        invariant
            i <= allows@.len(),
            av == allows@.map_values(|x: &SmellAllow| x@),
            first_allow(av, names_kind(t)) == first_allow(av.skip(i as int), names_kind(t)),
        decreases allows.len() - i,
    {
        proof {
            assert(av.skip(i as int).drop_first() =~= av.skip(i as int + 1));
            assert(av.skip(i as int)[0] == allows@[i as int]@);
        }
        if kinds_contain(&allows[i].smell_types, t) {
            return Some(allows[i]);
        }
        i += 1;
    }
    None
}

/// The first directive of `allows` that silences kind `t` reported at `line`.
fn first_covering(allows: &Vec<SmellAllow>, t: SmellType, line: usize) -> (r: Option<&SmellAllow>)
    ensures
        match r {
            Some(a) => first_allow(allows@.map_values(|x: SmellAllow| x@), covers_at(t, line)) == Some(a@),
            None => first_allow(allows@.map_values(|x: SmellAllow| x@), covers_at(t, line)) is None,
        },
{
    let ghost av = allows@.map_values(|x: SmellAllow| x@);
    let mut i: usize = 0;
    proof {
        assert(av.skip(0) =~= av);
    }
    while i < allows.len()
        invariant
            i <= allows@.len(),
            av == allows@.map_values(|x: SmellAllow| x@),
            first_allow(av, covers_at(t, line)) == first_allow(av.skip(i as int), covers_at(t, line)),
        decreases allows.len() - i,
    {
        proof {
            assert(av.skip(i as int).drop_first() =~= av.skip(i as int + 1));
            assert(av.skip(i as int)[0] == allows@[i as int]@);
        }
        let a = &allows[i];
        let near = a.line == line || (line > 0 && a.line == line - 1);
        if near && kinds_contain(&a.smell_types, t) {
            return Some(a);
        }
        i += 1;
    }
    None
}

/// Whether smell `s` is silenced by a directive of its file, with the directive's reason.
pub fn suppression_of(s: &TestSmell, files: &Vec<TestFile>) -> (r: Option<Option<String>>)
    ensures
        match r {
            Some(reason) => suppression(s@, files@) == Some(opt_view(reason)),
            None => suppression(s@, files@) is None,
        },
{
    let i = file_index_exec(files, &s.file_path);
    if i >= files.len() {
        return None;
    }
    let f = &files[i];
    let source = match &f.source {
        Some(src) => src,
        None => return None,
    };
    let allows = parse_smell_allows(source.as_str());
    let ghost av = allows@.map_values(|x: SmellAllow| x@);
    match &s.function_name {
        Some(name) => {
            let k = function_index_exec(&f.test_functions, name);
            if k < f.test_functions.len() {
                let func = &f.test_functions[k];
                let near = get_allows_for_function(allows.as_slice(), func.line, func.body_line_count);
                proof {
                    assert((|a: AllowView| covers_function(a, func.line, func.body_line_count)) =~= covers_fn(
                        func.line,
                        func.body_line_count,
                    ));
                }
                match first_naming(&near, s.smell_type) {
                    Some(a) => {
                        return Some(copy_opt_string(&a.reason));
                    },
                    None => {},
                }
            }
        },
        None => {},
    }
    match first_covering(&allows, s.smell_type, s.line) {
        Some(a) => Some(copy_opt_string(&a.reason)),
        None => None,
    }
}

/// The smells of `smells` at `min_severity` or above that are reported, and
/// those a `smell-allow` directive of their file silences, each in order.
pub fn triage(smells: &Vec<TestSmell>, files: &Vec<TestFile>, min_severity: u8) -> (r: (
    Vec<TestSmell>,
    Vec<SuppressedSmell>,
))
    ensures
        (r.0@.map_values(|x: TestSmell| x@), r.1@.map_values(|x: SuppressedSmell| x@)) == triaged(
            smells@.map_values(|x: TestSmell| x@),
            files@,
            min_severity,
        ),
{
    let ghost sv = smells@.map_values(|x: TestSmell| x@);
    let mut kept: Vec<TestSmell> = Vec::new();
    let mut aside: Vec<SuppressedSmell> = Vec::new();
    let mut i: usize = 0;
    proof {
        assert(kept@.map_values(|x: TestSmell| x@) =~= Seq::<SmellView>::empty());
        assert(aside@.map_values(|x: SuppressedSmell| x@) =~= Seq::<SuppressedView>::empty());
    }
    while i < smells.len()
        invariant
            i <= smells@.len(),
            sv == smells@.map_values(|x: TestSmell| x@),
            (kept@.map_values(|x: TestSmell| x@), aside@.map_values(|x: SuppressedSmell| x@)) == triaged(
                sv.take(i as int),
                files@,
                min_severity,
            ),
        decreases smells.len() - i,
    {
        let s = &smells[i];
        let ghost k0 = kept@.map_values(|x: TestSmell| x@);
        let ghost a0 = aside@.map_values(|x: SuppressedSmell| x@);
        proof {
            assert(sv.take(i as int + 1).drop_last() =~= sv.take(i as int));
            assert(sv.take(i as int + 1).last() == s@);
        }
        if s.smell_type.severity() >= min_severity {
            match suppression_of(s, files) {
                None => {
                    let c = s.duplicate();
                    kept.push(c);
                    proof {
                        assert(kept@.map_values(|x: TestSmell| x@) =~= k0.push(s@));
                    }
                },
                Some(reason) => {
                    let rec = SuppressedSmell {
                        smell_type: s.smell_type,
                        file_path: copy_string(&s.file_path),
                        line: s.line,
                        function_name: copy_opt_string(&s.function_name),
                        reason,
                    };
                    aside.push(rec);
                    proof {
                        assert(aside@.map_values(|x: SuppressedSmell| x@) =~= a0.push(rec@));
                    }
                },
            }
        }
        i += 1;
    }
    proof {
        assert(sv.take(sv.len() as int) =~= sv);
    }
    (kept, aside)
}

/// Whether a smell is at or above severity `min_severity`.
pub open spec fn severe_enough(min_severity: u8) -> spec_fn(SmellView) -> bool {
    |s: SmellView| severity_of(s.smell_type) >= min_severity
}

/// Every smell at or above the minimum severity is either reported or set
/// aside, exactly once: the two lists together are as long as the smells
/// that pass the severity filter.
pub proof fn lemma_triage_partition(smells: Seq<SmellView>, files: Seq<TestFile>, min_severity: u8)
    ensures
        triaged(smells, files, min_severity).0.len() + triaged(smells, files, min_severity).1.len()
            == smells.filter(severe_enough(min_severity)).len(),
    decreases smells.len(),
{
    reveal_with_fuel(Seq::filter, 1);
    if smells.len() > 0 {
        lemma_triage_partition(smells.drop_last(), files, min_severity);
    }
}

/// A reported smell is at or above the minimum severity and no directive of
/// its file silences it.
pub proof fn lemma_triage_reports_only_unsilenced(
    smells: Seq<SmellView>,
    files: Seq<TestFile>,
    min_severity: u8,
)
    ensures
        forall|i: int|
            0 <= i < triaged(smells, files, min_severity).0.len() ==> {
                let s = #[trigger] triaged(smells, files, min_severity).0[i];
                severity_of(s.smell_type) >= min_severity && suppression(s, files) is None
            },
    decreases smells.len(),
{
    if smells.len() > 0 {
        lemma_triage_reports_only_unsilenced(smells.drop_last(), files, min_severity);
    }
}

/// A smell set aside carries the reason of the directive that silences it,
/// and is at or above the minimum severity.
pub proof fn lemma_triage_sets_aside_only_silenced(
    smells: Seq<SmellView>,
    files: Seq<TestFile>,
    min_severity: u8,
)
    ensures
        forall|i: int|
            0 <= i < triaged(smells, files, min_severity).1.len() ==> exists|j: int|
                0 <= j < smells.len() && severity_of(smells[j].smell_type) >= min_severity
                    && suppression(smells[j], files) == Some(
                    (#[trigger] triaged(smells, files, min_severity).1[i]).reason,
                ) && triaged(smells, files, min_severity).1[i] == set_aside(
                    smells[j],
                    triaged(smells, files, min_severity).1[i].reason,
                ),
    decreases smells.len(),
{
    if smells.len() > 0 {
        let prev = smells.drop_last();
        lemma_triage_sets_aside_only_silenced(prev, files, min_severity);
        let aside = triaged(smells, files, min_severity).1;
        assert forall|i: int| 0 <= i < aside.len() implies exists|j: int|
            0 <= j < smells.len() && severity_of(smells[j].smell_type) >= min_severity
                && suppression(smells[j], files) == Some((#[trigger] aside[i]).reason) && aside[i]
                == set_aside(smells[j], aside[i].reason) by {
            let prev_aside = triaged(prev, files, min_severity).1;
            if i < prev_aside.len() {
                assert(aside[i] == prev_aside[i]);
                let j = choose|j: int|
                    0 <= j < prev.len() && severity_of(prev[j].smell_type) >= min_severity
                        && suppression(prev[j], files) == Some((#[trigger] prev_aside[i]).reason)
                        && prev_aside[i] == set_aside(prev[j], prev_aside[i].reason);
                assert(smells[j] == prev[j]);
            } else {
                assert(smells[smells.len() - 1] == smells.last());
            }
        }
    }
}

/// Where no directive silences any smell (for instance, where no file keeps
/// its source), the report is the severity filter alone and nothing is set aside.
pub proof fn lemma_triage_without_directives(smells: Seq<SmellView>, files: Seq<TestFile>, min_severity: u8)
    requires
        forall|i: int| 0 <= i < smells.len() ==> suppression(#[trigger] smells[i], files) is None,
    ensures
        triaged(smells, files, min_severity).0 == smells.filter(severe_enough(min_severity)),
        triaged(smells, files, min_severity).1.len() == 0,
    decreases smells.len(),
{
    reveal_with_fuel(Seq::filter, 1);
    if smells.len() > 0 {
        let prev = smells.drop_last();
        assert forall|i: int| 0 <= i < prev.len() implies suppression(#[trigger] prev[i], files) is None by {
            assert(prev[i] == smells[i]);
        }
        lemma_triage_without_directives(prev, files, min_severity);
        assert(suppression(smells[smells.len() - 1], files) is None);
    }
}

} // verus!
