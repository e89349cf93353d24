//! Reports every non-empty test function without an assertion; Go benchmarks and examples (`Benchmark*`, `Example*`) need none.
use vstd::prelude::*;
use crate::model::detector::{collect_flagged, per_function, FunctionRule, SmellDetector};
use crate::model::smell::{SmellType, SmellView, TestFile, TestFunction, TestSmell};
use crate::text::{chars_of, starts_with, starts_with_str};

verus! {

/// Reports every non-empty test function without an assertion; Go benchmarks and examples (`Benchmark*`, `Example*`) need none.
pub struct MissingAssertionDetector;

impl FunctionRule for MissingAssertionDetector {
    open spec fn flags(&self, f: TestFunction) -> bool {
        !f.is_empty && !f.has_assertion && !starts_with(f.name@, "Benchmark"@) && !starts_with(f.name@, "Example"@)
    }

    fn check(&self, f: &TestFunction) -> (b: bool) {
        if f.is_empty || f.has_assertion {
            return false;
        }
        let name = chars_of(f.name.as_str());
        !starts_with_str(&name, "Benchmark") && !starts_with_str(&name, "Example")
    }
}

impl SmellDetector for MissingAssertionDetector {
    open spec fn smells_in(&self, file: TestFile) -> Seq<SmellView> {
        per_function(
            file.test_functions@,
            file.path@,
            SmellType::MissingAssertion,
            |f: TestFunction| self.flags(f),
        )
    }

    open spec fn name_text(&self) -> Seq<char> {
        "MissingAssertion"@
    }


    fn name(&self) -> &'static str {
        "MissingAssertion"
    }

    fn detect(&self, test_file: &TestFile) -> (r: Vec<TestSmell>) {
        collect_flagged(test_file, SmellType::MissingAssertion, self)
    }
}

} // verus!
