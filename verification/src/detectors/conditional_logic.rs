//! Conditional test logic: branches inside a test.
use vstd::prelude::*;
use crate::model::detector::SmellDetector;
use crate::model::smell::{copy_string, opt_view, smell_at, SmellType, SmellView, TestFile, TestFunction, TestSmell};
use crate::text::{chars_of, equals_str};

verus! {

/// Whether `f` branches in a way worth reporting: a true branch (if/match)
/// always is; a `for` loop alone is table-driven iteration and is not; a
/// `while`/`loop` without a `for` is.
pub open spec fn branches(f: TestFunction) -> bool {
    f.has_branching || (!f.has_for_loop && f.has_conditional)
}

/// The message for end-to-end (XCUITest) files when the test polls with `while`.
pub open spec fn e2e_while_text() -> Seq<char> {
    "E2E でも分岐はテスト自体のバグの温床です。特に while による自前ポーリングは waitForExistence(timeout:) に置き換えられないか検討しましょう。"@
}

/// The message for end-to-end (XCUITest) files otherwise.
pub open spec fn e2e_text() -> Seq<char> {
    "E2E でも分岐はテスト自体のバグの温床です。分岐で結果の変わるテストは、条件ごとに別のテストへ分けましょう。"@
}

/// The smell reported for a branching function `f`.
pub open spec fn branch_smell(f: TestFunction, path: Seq<char>, e2e: bool) -> SmellView {
    let base = smell_at(SmellType::ConditionalTestLogic, path, f.line, Some(f.name@));
    if !e2e {
        base
    } else if f.has_while_loop {
        SmellView { message: e2e_while_text(), ..base }
    } else {
        SmellView { message: e2e_text(), ..base }
    }
}

/// The conditional-logic smells of `fs`, in order.
pub open spec fn branch_smells(fs: Seq<TestFunction>, path: Seq<char>, e2e: bool) -> Seq<
    SmellView,
>
    decreases fs.len(),
{
    if fs.len() == 0 {
        Seq::empty()
    } else {
        branch_smells(fs.drop_last(), path, e2e) + if branches(fs.last()) {
            seq![branch_smell(fs.last(), path, e2e)]
        } else {
            Seq::empty()
        }
    }
}

/// Whether a file is an end-to-end UI test file.
pub open spec fn is_e2e(file: TestFile) -> bool {
    opt_view(file.flavor) == Some("xcuitest"@)
}

/// Reports test functions that branch.
pub struct ConditionalLogicDetector;

impl SmellDetector for ConditionalLogicDetector {
    open spec fn smells_in(&self, file: TestFile) -> Seq<SmellView> {
        branch_smells(file.test_functions@, file.path@, is_e2e(file))
    }

    open spec fn name_text(&self) -> Seq<char> {
        "ConditionalTestLogic"@
    }


    fn name(&self) -> &'static str {
        "ConditionalTestLogic"
    }

    fn detect(&self, test_file: &TestFile) -> (r: Vec<TestSmell>) {
        let e2e = match &test_file.flavor {
            Some(fl) => {
                let c = chars_of(fl.as_str());
                equals_str(&c, "xcuitest")
            },
            None => false,
        };
        let fs = &test_file.test_functions;
        let mut out: Vec<TestSmell> = Vec::new();
        let mut i: usize = 0;
        while i < fs.len()
            invariant
                i <= fs@.len(),
                fs == test_file.test_functions,
                e2e == is_e2e(*test_file),
                out@.map_values(|s: TestSmell| s@) == branch_smells(
                    fs@.take(i as int),
                    test_file.path@,
                    e2e,
                ),
            decreases fs.len() - i,
        {
            let f = &fs[i];
            let ghost before = out@.map_values(|s: TestSmell| s@);
            proof {
                assert(fs@.take(i as int + 1).drop_last() =~= fs@.take(i as int));
                assert(fs@.take(i as int + 1).last() == fs@[i as int]);
            }
            if f.has_branching || (!f.has_for_loop && f.has_conditional) {
                let base = TestSmell::new(
                    SmellType::ConditionalTestLogic,
                    test_file.path.as_str(),
                    f.line,
                    Some(copy_string(&f.name)),
                );
                let s = if !e2e {
                    base
                } else if f.has_while_loop {
                    base.with_message(
                        "E2E でも分岐はテスト自体のバグの温床です。特に while による自前ポーリングは waitForExistence(timeout:) に置き換えられないか検討しましょう。",
                    )
                } else {
                    base.with_message(
                        "E2E でも分岐はテスト自体のバグの温床です。分岐で結果の変わるテストは、条件ごとに別のテストへ分けましょう。",
                    )
                };
                out.push(s);
                proof {
                    assert(out@.map_values(|x: TestSmell| x@) =~= before.push(s@));
                }
            } else {
                proof {
                    assert(before + Seq::<SmellView>::empty() =~= before);
                }
            }
            i += 1;
        }
        proof {
            assert(fs@.take(fs@.len() as int) =~= fs@);
        }
        out
    }
}

} // verus!
