//! Reports every test function that both sleeps and depends on the clock or a timeout; clock arithmetic without a sleep is stable and is not reported.
use vstd::prelude::*;
use crate::model::detector::{collect_flagged, per_function, FunctionRule, SmellDetector};
use crate::model::smell::{SmellType, SmellView, TestFile, TestFunction, TestSmell};

verus! {

/// Reports every test function that both sleeps and depends on the clock or a timeout; clock arithmetic without a sleep is stable and is not reported.
pub struct FragileTestDetector;

impl FunctionRule for FragileTestDetector {
    open spec fn flags(&self, f: TestFunction) -> bool {
        f.has_timeout_dependency && f.has_sleep
    }

    fn check(&self, f: &TestFunction) -> (b: bool) {
        f.has_timeout_dependency && f.has_sleep
    }
}

impl SmellDetector for FragileTestDetector {
    open spec fn smells_in(&self, file: TestFile) -> Seq<SmellView> {
        per_function(
            file.test_functions@,
            file.path@,
            SmellType::FragileTest,
            |f: TestFunction| self.flags(f),
        )
    }

    open spec fn name_text(&self) -> Seq<char> {
        "FragileTest"@
    }


    fn name(&self) -> &'static str {
        "FragileTest"
    }

    fn detect(&self, test_file: &TestFile) -> (r: Vec<TestSmell>) {
        collect_flagged(test_file, SmellType::FragileTest, self)
    }
}

} // verus!
