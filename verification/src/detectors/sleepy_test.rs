//! Reports every test function that sleeps.
use vstd::prelude::*;
use crate::detectors::conditional_logic::is_e2e;
use crate::model::detector::{
    collect_flagged, per_function, reword_all, reworded, FunctionRule, SmellDetector,
};
use crate::model::smell::{SmellType, SmellView, TestFile, TestFunction, TestSmell};
use crate::text::{chars_of, equals_str};

verus! {

/// The message for end-to-end (XCUITest) files, where waiting is unavoidable:
/// it names the waiting calls to use instead of a fixed sleep.
pub open spec fn e2e_sleep_text() -> Seq<char> {
    "E2E で待つこと自体は避けられませんが、固定時間の sleep は遅くて不安定です。waitForExistence(timeout:) や waitForNonExistence(timeout:) で状態の変化を待ちましょう。"@
}

/// Reports every test function that sleeps; in end-to-end (XCUITest) files
/// the message names the waiting calls to use instead.
pub struct SleepyTestDetector;

impl FunctionRule for SleepyTestDetector {
    open spec fn flags(&self, f: TestFunction) -> bool {
        f.has_sleep
    }

    fn check(&self, f: &TestFunction) -> (b: bool) {
        f.has_sleep
    }
}

impl SmellDetector for SleepyTestDetector {
    open spec fn smells_in(&self, file: TestFile) -> Seq<SmellView> {
        let base = per_function(
            file.test_functions@,
            file.path@,
            SmellType::SleepyTest,
            |f: TestFunction| self.flags(f),
        );
        if is_e2e(file) {
            reworded(base, e2e_sleep_text())
        } else {
            base
        }
    }

    open spec fn name_text(&self) -> Seq<char> {
        "SleepyTest"@
    }


    fn name(&self) -> &'static str {
        "SleepyTest"
    }

    fn detect(&self, test_file: &TestFile) -> (r: Vec<TestSmell>) {
        let base = collect_flagged(test_file, SmellType::SleepyTest, self);
        let e2e = match &test_file.flavor {
            Some(fl) => {
                let c = chars_of(fl.as_str());
                equals_str(&c, "xcuitest")
            },
            None => false,
        };
        if e2e {
            reword_all(
                base,
                "E2E で待つこと自体は避けられませんが、固定時間の sleep は遅くて不安定です。waitForExistence(timeout:) や waitForNonExistence(timeout:) で状態の変化を待ちましょう。",
            )
        } else {
            base
        }
    }
}

} // verus!
