//! Reports every test function that is switched off.
use vstd::prelude::*;
use crate::model::detector::{collect_flagged, per_function, FunctionRule, SmellDetector};
use crate::model::smell::{SmellType, SmellView, TestFile, TestFunction, TestSmell};

verus! {

/// Reports every test function that is switched off.
pub struct IgnoredTestDetector;

impl FunctionRule for IgnoredTestDetector {
    open spec fn flags(&self, f: TestFunction) -> bool {
        f.is_ignored
    }

    fn check(&self, f: &TestFunction) -> (b: bool) {
        f.is_ignored
    }
}

impl SmellDetector for IgnoredTestDetector {
    open spec fn smells_in(&self, file: TestFile) -> Seq<SmellView> {
        per_function(
            file.test_functions@,
            file.path@,
            SmellType::IgnoredTest,
            |f: TestFunction| self.flags(f),
        )
    }

    open spec fn name_text(&self) -> Seq<char> {
        "IgnoredTest"@
    }


    fn name(&self) -> &'static str {
        "IgnoredTest"
    }

    fn detect(&self, test_file: &TestFile) -> (r: Vec<TestSmell>) {
        collect_flagged(test_file, SmellType::IgnoredTest, self)
    }
}

} // verus!
