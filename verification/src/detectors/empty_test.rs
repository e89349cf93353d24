//! Reports every test function whose body does nothing.
use vstd::prelude::*;
use crate::model::detector::{collect_flagged, per_function, FunctionRule, SmellDetector};
use crate::model::smell::{SmellType, SmellView, TestFile, TestFunction, TestSmell};

verus! {

/// Reports every test function whose body does nothing.
pub struct EmptyTestDetector;

impl FunctionRule for EmptyTestDetector {
    open spec fn flags(&self, f: TestFunction) -> bool {
        f.is_empty
    }

    fn check(&self, f: &TestFunction) -> (b: bool) {
        f.is_empty
    }
}

impl SmellDetector for EmptyTestDetector {
    open spec fn smells_in(&self, file: TestFile) -> Seq<SmellView> {
        per_function(
            file.test_functions@,
            file.path@,
            SmellType::EmptyTest,
            |f: TestFunction| self.flags(f),
        )
    }

    open spec fn name_text(&self) -> Seq<char> {
        "EmptyTest"@
    }


    fn name(&self) -> &'static str {
        "EmptyTest"
    }

    fn detect(&self, test_file: &TestFile) -> (r: Vec<TestSmell>) {
        collect_flagged(test_file, SmellType::EmptyTest, self)
    }
}

} // verus!
