//! Assertion roulette: several assertions without a message, so that a
//! failure does not say which expectation broke.
use vstd::prelude::*;
use crate::model::detector::SmellDetector;
use crate::model::smell::{copy_string, smell_at, SmellType, SmellView, TestFile, TestFunction, TestSmell};

verus! {

/// The kind of roulette smell that `f` shows under `threshold`, if any.
///
/// The strict kind needs at least one boolean-only assertion without a
/// message and at least `threshold` message-less assertions in all; the plain
/// kind needs `threshold` message-less value-showing assertions.
pub open spec fn roulette_kind(f: TestFunction, threshold: usize) -> Option<SmellType> {
    if f.assert_only_without_message >= 1 && f.assertions_without_message
        + f.assert_only_without_message >= threshold {
        Some(SmellType::AssertionRouletteStrict)
    } else if f.assertions_without_message >= threshold {
        Some(SmellType::AssertionRoulette)
    } else {
        None
    }
}

/// The roulette smells of `fs`, one per function that shows one, in order.
pub open spec fn roulette_smells(fs: Seq<TestFunction>, path: Seq<char>, threshold: usize) -> Seq<
    SmellView,
>
    decreases fs.len(),
{
    if fs.len() == 0 {
        Seq::empty()
    } else {
        roulette_smells(fs.drop_last(), path, threshold) + match roulette_kind(
            fs.last(),
            threshold,
        ) {
            Some(t) => seq![smell_at(t, path, fs.last().line, Some(fs.last().name@))],
            None => Seq::empty(),
        }
    }
}

/// Reports test functions with too many assertions that carry no message.
pub struct AssertionRouletteDetector {
    /// How many message-less assertions make a roulette.
    pub threshold: usize,
}

impl AssertionRouletteDetector {
    /// A detector with the default threshold of 2.
    pub fn new() -> (r: Self)
        ensures
            r.threshold == 2,
    {
        AssertionRouletteDetector { threshold: 2 }
    }

    /// The same detector with its threshold set to `threshold`.
    pub fn with_threshold(self, threshold: usize) -> (r: Self)
        ensures
            r.threshold == threshold,
    {
        AssertionRouletteDetector { threshold }
    }

    /// The kind of roulette smell that `f` shows, if any.
    pub fn classify(&self, f: &TestFunction) -> (r: Option<SmellType>)
        ensures
            r == roulette_kind(*f, self.threshold),
    {
        let total: u128 = f.assertions_without_message as u128
            + f.assert_only_without_message as u128;
        if f.assert_only_without_message >= 1 && total >= self.threshold as u128 {
            Some(SmellType::AssertionRouletteStrict)
        } else if f.assertions_without_message >= self.threshold {
            Some(SmellType::AssertionRoulette)
        } else {
            None
        }
    }
}

impl SmellDetector for AssertionRouletteDetector {
    open spec fn smells_in(&self, file: TestFile) -> Seq<SmellView> {
        roulette_smells(file.test_functions@, file.path@, self.threshold)
    }

    open spec fn name_text(&self) -> Seq<char> {
        "AssertionRoulette"@
    }


    fn name(&self) -> &'static str {
        "AssertionRoulette"
    }

    fn detect(&self, test_file: &TestFile) -> (r: Vec<TestSmell>) {
        let fs = &test_file.test_functions;
        let mut out: Vec<TestSmell> = Vec::new();
        let mut i: usize = 0;
        while i < fs.len()
            invariant
                i <= fs@.len(),
                fs == test_file.test_functions,
                out@.map_values(|s: TestSmell| s@) == roulette_smells(
                    fs@.take(i as int),
                    test_file.path@,
                    self.threshold,
                ),
            decreases fs.len() - i,
        {
            let f = &fs[i];
            let ghost before = out@.map_values(|s: TestSmell| s@);
            proof {
                assert(fs@.take(i as int + 1).drop_last() =~= fs@.take(i as int));
                assert(fs@.take(i as int + 1).last() == fs@[i as int]);
            }
            match self.classify(f) {
                Some(t) => {
                    let s = TestSmell::new(
                        t,
                        test_file.path.as_str(),
                        f.line,
                        Some(copy_string(&f.name)),
                    );
                    out.push(s);
                    proof {
                        assert(out@.map_values(|x: TestSmell| x@) =~= before.push(s@));
                    }
                },
                None => {
                    proof {
                        assert(before + Seq::<SmellView>::empty() =~= before);
                    }
                },
            }
            i += 1;
        }
        proof {
            assert(fs@.take(fs@.len() as int) =~= fs@);
        }
        out
    }
}

/// Roulette law: a function is a strict roulette exactly when it has at
/// least one message-less boolean-only assertion and its message-less
/// assertions of both kinds together reach the threshold; it is a plain
/// roulette exactly when it has no message-less boolean-only assertion and
/// its message-less value-showing assertions reach the threshold; and a
/// function whose message-less assertions all together fall short of the
/// threshold is no roulette.
pub proof fn lemma_roulette_classification(f: TestFunction, threshold: usize)
    ensures
        roulette_kind(f, threshold) == Some(SmellType::AssertionRouletteStrict) <==> (
        f.assert_only_without_message >= 1 && f.assertions_without_message
            + f.assert_only_without_message >= threshold),
        roulette_kind(f, threshold) == Some(SmellType::AssertionRoulette) <==> (
        f.assert_only_without_message == 0 && f.assertions_without_message >= threshold),
        f.assertions_without_message + f.assert_only_without_message < threshold ==> roulette_kind(
            f,
            threshold,
        ) is None,
{
}

/// Roulette monotonicity: more message-less assertions of either kind never
/// turn a roulette into none, and a strict roulette stays strict.
pub proof fn lemma_roulette_monotone(f: TestFunction, g: TestFunction, threshold: usize)
    requires
        f.assertions_without_message <= g.assertions_without_message,
        f.assert_only_without_message <= g.assert_only_without_message,
    ensures
        roulette_kind(f, threshold) is Some ==> roulette_kind(g, threshold) is Some,
        roulette_kind(f, threshold) == Some(SmellType::AssertionRouletteStrict) ==> roulette_kind(
            g,
            threshold,
        ) == Some(SmellType::AssertionRouletteStrict),
{
}

} // verus!
