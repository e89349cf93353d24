//! Giant tests: test functions whose body is too long to read at once.
use vstd::prelude::*;
use crate::model::detector::{collect_flagged, per_function, FunctionRule, SmellDetector};
use crate::model::smell::{SmellType, SmellView, TestFile, TestFunction, TestSmell};

verus! {

/// The body length, in lines, beyond which a test counts as giant by default.
pub const DEFAULT_GIANT_TEST_THRESHOLD: usize = 50;

/// Reports every test function whose body has more than `threshold` lines.
pub struct GiantTestDetector {
    pub threshold: usize,
}

impl GiantTestDetector {
    /// A detector with the default threshold of 50 lines.
    pub fn new() -> (r: Self)
        ensures
            r.threshold == DEFAULT_GIANT_TEST_THRESHOLD,
    {
        GiantTestDetector { threshold: DEFAULT_GIANT_TEST_THRESHOLD }
    }

    /// The same detector with its threshold set to `threshold`.
    pub fn with_threshold(self, threshold: usize) -> (r: Self)
        ensures
            r.threshold == threshold,
    {
        GiantTestDetector { threshold }
    }
}

impl FunctionRule for GiantTestDetector {
    open spec fn flags(&self, f: TestFunction) -> bool {
        f.body_line_count > self.threshold
    }

    fn check(&self, f: &TestFunction) -> (b: bool) {
        f.body_line_count > self.threshold
    }
}

impl SmellDetector for GiantTestDetector {
    open spec fn smells_in(&self, file: TestFile) -> Seq<SmellView> {
        per_function(
            file.test_functions@,
            file.path@,
            SmellType::GiantTest,
            |f: TestFunction| self.flags(f),
        )
    }

    open spec fn name_text(&self) -> Seq<char> {
        "GiantTest"@
    }


    fn name(&self) -> &'static str {
        "GiantTest"
    }

    fn detect(&self, test_file: &TestFile) -> (r: Vec<TestSmell>) {
        collect_flagged(test_file, SmellType::GiantTest, self)
    }
}

} // verus!
