//! The detector interface and the per-function scan that most detectors share.
use vstd::prelude::*;
use crate::text::{lines, lines_of};
use crate::model::smell::{copy_string, smell_at, SmellType, SmellView, TestFile, TestFunction, TestSmell};

verus! {

/// A detector of one or more kinds of test smell.
pub trait SmellDetector {
    /// The smells the detector reports for `file`.
    spec fn smells_in(&self, file: TestFile) -> Seq<SmellView>;

    /// The detector's name, as text.
    spec fn name_text(&self) -> Seq<char>;

    /// The detector's name.
    fn name(&self) -> (r: &'static str)
        ensures
            r@ == self.name_text(),
    ;

    /// The smells found in `test_file`.
    fn detect(&self, test_file: &TestFile) -> (r: Vec<TestSmell>)
        ensures
            r@.map_values(|s: TestSmell| s@) == self.smells_in(*test_file),
    ;
}

/// One smell of kind `t` for each function of `fs` that `keep` selects, in order,
/// located at the function's line and carrying its name.
pub open spec fn per_function(
    fs: Seq<TestFunction>,
    path: Seq<char>,
    t: SmellType,
    keep: spec_fn(TestFunction) -> bool,
) -> Seq<SmellView>
    decreases fs.len(),
{
    if fs.len() == 0 {
        Seq::empty()
    } else {
        per_function(fs.drop_last(), path, t, keep) + if keep(fs.last()) {
            seq![smell_at(t, path, fs.last().line, Some(fs.last().name@))]
        } else {
            Seq::empty()
        }
    }
}

/// A test on single test functions, for detectors that report each function
/// that fails it.
pub trait FunctionRule {
    /// Whether the rule reports `f`.
    spec fn flags(&self, f: TestFunction) -> bool;

    /// Whether the rule reports `f`.
    fn check(&self, f: &TestFunction) -> (b: bool)
        ensures
            b == self.flags(*f),
    ;
}

/// Reports a smell of kind `t` for every test function of `file` that `rule` flags.
pub fn collect_flagged<R: FunctionRule>(file: &TestFile, t: SmellType, rule: &R) -> (r: Vec<
    TestSmell,
>)
    ensures
        r@.map_values(|s: TestSmell| s@) == per_function(
            file.test_functions@,
            file.path@,
            t,
            |f: TestFunction| rule.flags(f),
        ),
{
    let fs = &file.test_functions;
    let mut out: Vec<TestSmell> = Vec::new();
    let mut i: usize = 0;
    while i < fs.len()
        invariant
            i <= fs@.len(),
            out@.map_values(|s: TestSmell| s@) == per_function(
                fs@.take(i as int),
                file.path@,
                t,
                |f: TestFunction| rule.flags(f),
            ),
        decreases fs.len() - i,
    {
        let f = &fs[i];
        let ghost before = out@.map_values(|s: TestSmell| s@);
        proof {
            assert(fs@.take(i as int + 1).drop_last() =~= fs@.take(i as int));
            assert(fs@.take(i as int + 1).last() == fs@[i as int]);
        }
        if rule.check(f) {
            let smell = TestSmell::new(t, file.path.as_str(), f.line, Some(copy_string(&f.name)));
            out.push(smell);
            proof {
                assert(out@.map_values(|s: TestSmell| s@) =~= before.push(smell@));
            }
        }
        i += 1;
    }
    proof {
        assert(fs@.take(fs@.len() as int) =~= fs@);
    }
    out
}

/// One smell of kind `t` for each line of `ls` that `flag` selects, in order,
/// located at the line's 1-based number and naming no function.
pub open spec fn per_line(
    ls: Seq<Seq<char>>,
    path: Seq<char>,
    t: SmellType,
    flag: spec_fn(Seq<char>) -> bool,
) -> Seq<SmellView>
    decreases ls.len(),
{
    if ls.len() == 0 {
        Seq::empty()
    } else {
        per_line(ls.drop_last(), path, t, flag) + if flag(ls.last()) {
            seq![smell_at(t, path, ls.len() as usize, None)]
        } else {
            Seq::empty()
        }
    }
}

/// A test on single source lines, for detectors that report each line that fails it.
pub trait LineRule {
    /// Whether the rule reports line `l`.
    spec fn flags(&self, l: Seq<char>) -> bool;

    /// Whether the rule reports line `l`.
    fn check(&self, l: &[char]) -> (b: bool)
        ensures
            b == self.flags(l@),
    ;
}

/// Reports a smell of kind `t` for every line of `source` that `rule` flags.
pub fn collect_flagged_lines<R: LineRule>(source: &str, path: &str, t: SmellType, rule: &R) -> (r:
    Vec<TestSmell>)
    ensures
        r@.map_values(|s: TestSmell| s@) == per_line(
            lines(source@),
            path@,
            t,
            |l: Seq<char>| rule.flags(l),
        ),
{
    let chars = crate::text::chars_of(source);
    let ls = lines_of(&chars);
    let ghost lv = ls@.map_values(|l: Vec<char>| l@);
    let mut out: Vec<TestSmell> = Vec::new();
    let mut i: usize = 0;
    while i < ls.len()
        invariant
            i <= ls@.len(),
            lv == ls@.map_values(|l: Vec<char>| l@),
            out@.map_values(|s: TestSmell| s@) == per_line(
                lv.take(i as int),
                path@,
                t,
                |l: Seq<char>| rule.flags(l),
            ),
        decreases ls.len() - i,
    {
        let ghost before = out@.map_values(|s: TestSmell| s@);
        proof {
            assert(lv.take(i as int + 1).drop_last() =~= lv.take(i as int));
            assert(lv.take(i as int + 1).last() == ls@[i as int]@);
            assert(lv.take(i as int + 1).len() == i + 1);
        }
        if rule.check(&ls[i]) {
            let smell = TestSmell::new(t, path, i + 1, None);
            out.push(smell);
            proof {
                assert(out@.map_values(|s: TestSmell| s@) =~= before.push(smell@));
            }
        } else {
            proof {
                assert(before + Seq::<SmellView>::empty() =~= before);
            }
        }
        i += 1;
    }
    proof {
        assert(lv.take(lv.len() as int) =~= lv);
    }
    out
}

/// The smells `ss` with every message replaced by `text`.
pub open spec fn reworded(ss: Seq<SmellView>, text: Seq<char>) -> Seq<SmellView> {
    ss.map_values(|s: SmellView| SmellView { message: text, ..s })
}

/// The smells `smells` with every message replaced by `message`.
pub fn reword_all(smells: Vec<TestSmell>, message: &str) -> (r: Vec<TestSmell>)
    ensures
        r@.map_values(|s: TestSmell| s@) == reworded(smells@.map_values(|s: TestSmell| s@), message@),
{
    let ghost sv = smells@.map_values(|s: TestSmell| s@);
    let mut out: Vec<TestSmell> = Vec::new();
    let mut rest = smells;
    let mut i: usize = 0;
    let n = rest.len();
    proof {
        assert(out@.map_values(|s: TestSmell| s@) =~= reworded(sv.take(0), message@));
    }
    while i < n
        invariant
            n == rest@.len(),
            i <= n,
            sv == rest@.map_values(|s: TestSmell| s@),
            out@.map_values(|s: TestSmell| s@) == reworded(sv.take(i as int), message@),
        decreases n - i,
    {
        let s = rest[i].duplicate().with_message(message);
        let ghost before = out@.map_values(|x: TestSmell| x@);
        out.push(s);
        proof {
            assert(out@.map_values(|x: TestSmell| x@) =~= before.push(s@));
            assert(reworded(sv.take(i as int + 1), message@) =~= reworded(sv.take(i as int), message@).push(
                SmellView { message: message@, ..sv[i as int] },
            ));
        }
        i += 1;
    }
    proof {
        assert(sv.take(n as int) =~= sv);
    }
    out
}

/// Each smell of a per-function scan points at a function the scan selects:
/// it has the scan's kind and path, and the function's line and name; and
/// there are no more smells than functions.
pub proof fn lemma_per_function_points_at_functions(
    fs: Seq<TestFunction>,
    path: Seq<char>,
    t: SmellType,
    keep: spec_fn(TestFunction) -> bool,
)
    ensures
        per_function(fs, path, t, keep).len() <= fs.len(),
        forall|i: int|
            0 <= i < per_function(fs, path, t, keep).len() ==> exists|j: int|
                0 <= j < fs.len() && keep(fs[j]) && #[trigger] per_function(fs, path, t, keep)[i]
                    == smell_at(t, path, fs[j].line, Some(fs[j].name@)),
    decreases fs.len(),
{
    if fs.len() > 0 {
        let prev = fs.drop_last();
        lemma_per_function_points_at_functions(prev, path, t, keep);
        let out = per_function(fs, path, t, keep);
        assert forall|i: int| 0 <= i < out.len() implies exists|j: int|
            0 <= j < fs.len() && keep(fs[j]) && #[trigger] out[i] == smell_at(
                t,
                path,
                fs[j].line,
                Some(fs[j].name@),
            ) by {
            let before = per_function(prev, path, t, keep);
            if i < before.len() {
                assert(out[i] == before[i]);
                let j = choose|j: int|
                    0 <= j < prev.len() && keep(prev[j]) && #[trigger] before[i] == smell_at(
                        t,
                        path,
                        prev[j].line,
                        Some(prev[j].name@),
                    );
                assert(fs[j] == prev[j]);
            } else {
                assert(fs[fs.len() - 1] == fs.last());
            }
        }
    }
}

} // verus!
