//! Magic numbers: unexplained numeric literals inside assertions.
use vstd::prelude::*;
use crate::model::detector::{collect_flagged, per_function, FunctionRule, SmellDetector};
use crate::model::smell::{SmellType, SmellView, TestFile, TestFunction, TestSmell};

verus! {

/// The numbers that never count as magic unless a whitelist says otherwise.
pub open spec fn default_whitelist() -> Seq<i64> {
    seq![0i64, 1i64, -1i64, 2i64]
}

/// Reports every test function with an assertion number outside the whitelist.
pub struct MagicNumberTestDetector {
    /// Numbers that are never reported.
    pub whitelist: Vec<i64>,
}

impl MagicNumberTestDetector {
    /// A detector whose whitelist is 0, 1, -1 and 2.
    pub fn new() -> (r: Self)
        ensures
            r.whitelist@ == default_whitelist(),
    {
        let whitelist: Vec<i64> = vec![0i64, 1i64, -1i64, 2i64];
        proof {
            assert(whitelist@ =~= default_whitelist());
        }
        MagicNumberTestDetector { whitelist }
    }

    /// The same detector with `extra` added to the end of its whitelist.
    pub fn with_whitelist(self, extra: Vec<i64>) -> (r: Self)
        ensures
            r.whitelist@ == self.whitelist@ + extra@,
    {
        let mut whitelist = self.whitelist;
        let mut extra = extra;
        whitelist.append(&mut extra);
        MagicNumberTestDetector { whitelist }
    }
}

/// Whether `n` is in `list`.
fn list_contains(list: &Vec<i64>, n: i64) -> (r: bool)
    ensures
        r == list@.contains(n),
{
    let mut i: usize = 0;
    while i < list.len()
        invariant
            i <= list@.len(),
            forall|j: int| 0 <= j < i ==> list@[j] != n,
        decreases list.len() - i,
    {
        if list[i] == n {
            assert(list@[i as int] == n);
            return true;
        }
        i += 1;
    }
    false
}

impl FunctionRule for MagicNumberTestDetector {
    open spec fn flags(&self, f: TestFunction) -> bool {
        exists|i: int|
            0 <= i < f.magic_numbers@.len() && !self.whitelist@.contains(
                #[trigger] f.magic_numbers@[i].0,
            )
    }

    fn check(&self, f: &TestFunction) -> (b: bool) {
        let mut i: usize = 0;
        while i < f.magic_numbers.len()
            invariant
                i <= f.magic_numbers@.len(),
                forall|j: int|
                    0 <= j < i ==> self.whitelist@.contains(#[trigger] f.magic_numbers@[j].0),
            decreases f.magic_numbers.len() - i,
        {
            let (n, _) = f.magic_numbers[i];
            if !list_contains(&self.whitelist, n) {
                return true;
            }
            i += 1;
        }
        false
    }
}

impl SmellDetector for MagicNumberTestDetector {
    open spec fn smells_in(&self, file: TestFile) -> Seq<SmellView> {
        per_function(
            file.test_functions@,
            file.path@,
            SmellType::MagicNumberTest,
            |f: TestFunction| self.flags(f),
        )
    }

    open spec fn name_text(&self) -> Seq<char> {
        "MagicNumberTest"@
    }

    fn name(&self) -> &'static str {
        "MagicNumberTest"
    }

    fn detect(&self, test_file: &TestFile) -> (r: Vec<TestSmell>) {
        collect_flagged(test_file, SmellType::MagicNumberTest, self)
    }
}

/// Magic-number law: one number outside the whitelist, wherever it stands
/// among the function's numbers, is enough to flag the function.
pub proof fn lemma_any_unlisted_number_flags(d: MagicNumberTestDetector, f: TestFunction, i: int)
    requires
        0 <= i < f.magic_numbers@.len(),
        !d.whitelist@.contains(f.magic_numbers@[i].0),
    ensures
        d.flags(f),
{
}

/// Magic-number law: a function whose numbers are all whitelisted is not flagged.
pub proof fn lemma_all_listed_numbers_pass(d: MagicNumberTestDetector, f: TestFunction)
    requires
        forall|j: int| 0 <= j < f.magic_numbers@.len() ==> d.whitelist@.contains(
            #[trigger] f.magic_numbers@[j].0,
        ),
    ensures
        !d.flags(f),
{
}

/// Whitelist law: widening the whitelist never flags a function that the
/// narrower whitelist left alone.
pub proof fn lemma_wider_whitelist_flags_less(
    d: MagicNumberTestDetector,
    e: MagicNumberTestDetector,
    f: TestFunction,
)
    requires
        forall|n: i64| d.whitelist@.contains(n) ==> e.whitelist@.contains(n),
    ensures
        e.flags(f) ==> d.flags(f),
{
    if e.flags(f) {
        let i = choose|i: int|
            0 <= i < f.magic_numbers@.len() && !e.whitelist@.contains(
                #[trigger] f.magic_numbers@[i].0,
            );
        lemma_any_unlisted_number_flags(d, f, i);
    }
}

} // verus!
