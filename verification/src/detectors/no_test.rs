//! Files without a single test.
use vstd::prelude::*;
use crate::model::detector::SmellDetector;
use crate::model::smell::{smell_at, SmellType, SmellView, TestFile, TestSmell};

verus! {

/// Reports a file that holds no test function, at its first line.
pub struct NoTestDetector;

impl SmellDetector for NoTestDetector {
    open spec fn smells_in(&self, file: TestFile) -> Seq<SmellView> {
        if file.test_functions@.len() == 0 {
            seq![smell_at(SmellType::NoTest, file.path@, 1, None)]
        } else {
            Seq::empty()
        }
    }

    open spec fn name_text(&self) -> Seq<char> {
        "NoTest"@
    }


    fn name(&self) -> &'static str {
        "NoTest"
    }

    fn detect(&self, test_file: &TestFile) -> (r: Vec<TestSmell>) {
        if test_file.test_functions.len() == 0 {
            let s = TestSmell::new(SmellType::NoTest, test_file.path.as_str(), 1, None);
            let v = vec![s];
            proof {
                assert(v@.map_values(|x: TestSmell| x@) =~= seq![s@]);
            }
            v
        } else {
            let v: Vec<TestSmell> = Vec::new();
            proof {
                assert(v@.map_values(|x: TestSmell| x@) =~= Seq::<SmellView>::empty());
            }
            v
        }
    }
}

} // verus!
