//! Reports every test function that prints.
use vstd::prelude::*;
use crate::model::detector::{collect_flagged, per_function, FunctionRule, SmellDetector};
use crate::model::smell::{SmellType, SmellView, TestFile, TestFunction, TestSmell};

verus! {

/// Reports every test function that prints.
pub struct RedundantPrintDetector;

impl FunctionRule for RedundantPrintDetector {
    open spec fn flags(&self, f: TestFunction) -> bool {
        f.has_print
    }

    fn check(&self, f: &TestFunction) -> (b: bool) {
        f.has_print
    }
}

impl SmellDetector for RedundantPrintDetector {
    open spec fn smells_in(&self, file: TestFile) -> Seq<SmellView> {
        per_function(
            file.test_functions@,
            file.path@,
            SmellType::RedundantPrint,
            |f: TestFunction| self.flags(f),
        )
    }

    open spec fn name_text(&self) -> Seq<char> {
        "RedundantPrint"@
    }


    fn name(&self) -> &'static str {
        "RedundantPrint"
    }

    fn detect(&self, test_file: &TestFile) -> (r: Vec<TestSmell>) {
        collect_flagged(test_file, SmellType::RedundantPrint, self)
    }
}

} // verus!
