//! The built-in smell detectors and the registry that runs them together.
pub mod assertion_roulette;
pub mod commented_out_test;
pub mod conditional_logic;
pub mod empty_test;
pub mod fragile_test;
pub mod giant_test;
pub mod ignored_test;
pub mod magic_number;
pub mod missing_assertion;
pub mod no_test;
pub mod redundant_print;
pub mod silent_skip;
pub mod sleepy_test;

use vstd::prelude::*;
use crate::model::detector::SmellDetector;
use crate::model::registry::SmellDetectorRegistry;
use crate::model::smell::{SmellView, TestFile, TestSmell};
use crate::detectors::assertion_roulette::AssertionRouletteDetector;
use crate::detectors::commented_out_test::CommentedOutTestDetector;
use crate::detectors::conditional_logic::ConditionalLogicDetector;
use crate::detectors::empty_test::EmptyTestDetector;
use crate::detectors::fragile_test::FragileTestDetector;
use crate::detectors::giant_test::GiantTestDetector;
use crate::detectors::ignored_test::IgnoredTestDetector;
use crate::detectors::magic_number::{default_whitelist, MagicNumberTestDetector};
use crate::detectors::missing_assertion::MissingAssertionDetector;
use crate::detectors::no_test::NoTestDetector;
use crate::detectors::redundant_print::RedundantPrintDetector;
use crate::detectors::silent_skip::SilentSkipDetector;
use crate::detectors::sleepy_test::SleepyTestDetector;

verus! {

/// Any one of the built-in detectors.
pub enum Detector {
    EmptyTest(EmptyTestDetector),
    MissingAssertion(MissingAssertionDetector),
    SleepyTest(SleepyTestDetector),
    ConditionalLogic(ConditionalLogicDetector),
    IgnoredTest(IgnoredTestDetector),
    RedundantPrint(RedundantPrintDetector),
    AssertionRoulette(AssertionRouletteDetector),
    MagicNumber(MagicNumberTestDetector),
    SilentSkip(SilentSkipDetector),
    NoTest(NoTestDetector),
    FragileTest(FragileTestDetector),
    GiantTest(GiantTestDetector),
    CommentedOutTest(CommentedOutTestDetector),
}

impl SmellDetector for Detector {
    open spec fn smells_in(&self, file: TestFile) -> Seq<SmellView> {
        match self {
            Detector::EmptyTest(d) => d.smells_in(file),
            Detector::MissingAssertion(d) => d.smells_in(file),
            Detector::SleepyTest(d) => d.smells_in(file),
            Detector::ConditionalLogic(d) => d.smells_in(file),
            Detector::IgnoredTest(d) => d.smells_in(file),
            Detector::RedundantPrint(d) => d.smells_in(file),
            Detector::AssertionRoulette(d) => d.smells_in(file),
            Detector::MagicNumber(d) => d.smells_in(file),
            Detector::SilentSkip(d) => d.smells_in(file),
            Detector::NoTest(d) => d.smells_in(file),
            Detector::FragileTest(d) => d.smells_in(file),
            Detector::GiantTest(d) => d.smells_in(file),
            Detector::CommentedOutTest(d) => d.smells_in(file),
        }
    }

    open spec fn name_text(&self) -> Seq<char> {
        match self {
            Detector::EmptyTest(d) => d.name_text(),
            Detector::MissingAssertion(d) => d.name_text(),
            Detector::SleepyTest(d) => d.name_text(),
            Detector::ConditionalLogic(d) => d.name_text(),
            Detector::IgnoredTest(d) => d.name_text(),
            Detector::RedundantPrint(d) => d.name_text(),
            Detector::AssertionRoulette(d) => d.name_text(),
            Detector::MagicNumber(d) => d.name_text(),
            Detector::SilentSkip(d) => d.name_text(),
            Detector::NoTest(d) => d.name_text(),
            Detector::FragileTest(d) => d.name_text(),
            Detector::GiantTest(d) => d.name_text(),
            Detector::CommentedOutTest(d) => d.name_text(),
        }
    }

    fn name(&self) -> &'static str {
        match self {
            Detector::EmptyTest(d) => d.name(),
            Detector::MissingAssertion(d) => d.name(),
            Detector::SleepyTest(d) => d.name(),
            Detector::ConditionalLogic(d) => d.name(),
            Detector::IgnoredTest(d) => d.name(),
            Detector::RedundantPrint(d) => d.name(),
            Detector::AssertionRoulette(d) => d.name(),
            Detector::MagicNumber(d) => d.name(),
            Detector::SilentSkip(d) => d.name(),
            Detector::NoTest(d) => d.name(),
            Detector::FragileTest(d) => d.name(),
            Detector::GiantTest(d) => d.name(),
            Detector::CommentedOutTest(d) => d.name(),
        }
    }

    fn detect(&self, test_file: &TestFile) -> (r: Vec<TestSmell>) {
        match self {
            Detector::EmptyTest(d) => d.detect(test_file),
            Detector::MissingAssertion(d) => d.detect(test_file),
            Detector::SleepyTest(d) => d.detect(test_file),
            Detector::ConditionalLogic(d) => d.detect(test_file),
            Detector::IgnoredTest(d) => d.detect(test_file),
            Detector::RedundantPrint(d) => d.detect(test_file),
            Detector::AssertionRoulette(d) => d.detect(test_file),
            Detector::MagicNumber(d) => d.detect(test_file),
            Detector::SilentSkip(d) => d.detect(test_file),
            Detector::NoTest(d) => d.detect(test_file),
            Detector::FragileTest(d) => d.detect(test_file),
            Detector::GiantTest(d) => d.detect(test_file),
            Detector::CommentedOutTest(d) => d.detect(test_file),
        }
    }
}

/// Whether `ds` is the standard line-up of detectors, in registration order,
/// with `extra` added to the magic-number whitelist and the given roulette threshold.
pub open spec fn standard_lineup(ds: Seq<Detector>, extra: Seq<i64>, threshold: usize) -> bool {
    &&& ds.len() == 13
    &&& ds[0] is EmptyTest
    &&& ds[1] is MissingAssertion
    &&& ds[2] is SleepyTest
    &&& ds[3] is ConditionalLogic
    &&& ds[4] is IgnoredTest
    &&& ds[5] is RedundantPrint
    &&& ds[6] matches Detector::AssertionRoulette(d) && d.threshold == threshold
    &&& ds[7] matches Detector::MagicNumber(d) && d.whitelist@ == default_whitelist() + extra
    &&& ds[8] is SilentSkip
    &&& ds[9] is NoTest
    &&& ds[10] is FragileTest
    &&& ds[11] matches Detector::GiantTest(d) && d.threshold
        == crate::detectors::giant_test::DEFAULT_GIANT_TEST_THRESHOLD
    &&& ds[12] is CommentedOutTest
}

/// A registry holding every built-in detector with the default settings.
pub fn default_registry() -> (r: SmellDetectorRegistry)
    ensures
        standard_lineup(r.detector_list(), Seq::empty(), 2),
        r.enabled_kinds() is None,
        r.disabled_kinds() == Seq::<crate::model::smell::SmellType>::empty(),
{
    let r = build_registry(Vec::new(), 2);
    proof {
        assert(default_whitelist() + Seq::<i64>::empty() =~= default_whitelist());
    }
    r
}

/// A registry holding every built-in detector, with `magic_number_extra_whitelist`
/// added to the magic-number whitelist and the given assertion-roulette threshold.
pub fn build_registry(magic_number_extra_whitelist: Vec<i64>, assertion_roulette_threshold: usize) -> (r:
    SmellDetectorRegistry)
    ensures
        standard_lineup(r.detector_list(), magic_number_extra_whitelist@, assertion_roulette_threshold),
        r.enabled_kinds() is None,
        r.disabled_kinds() == Seq::<crate::model::smell::SmellType>::empty(),
{
    SmellDetectorRegistry::new().register(Detector::EmptyTest(EmptyTestDetector)).register(
        Detector::MissingAssertion(MissingAssertionDetector),
    ).register(Detector::SleepyTest(SleepyTestDetector)).register(
        Detector::ConditionalLogic(ConditionalLogicDetector),
    ).register(Detector::IgnoredTest(IgnoredTestDetector)).register(
        Detector::RedundantPrint(RedundantPrintDetector),
    ).register(
        Detector::AssertionRoulette(
            AssertionRouletteDetector::new().with_threshold(assertion_roulette_threshold),
        ),
    ).register(
        Detector::MagicNumber(
            MagicNumberTestDetector::new().with_whitelist(magic_number_extra_whitelist),
        ),
    ).register(Detector::SilentSkip(SilentSkipDetector)).register(
        Detector::NoTest(NoTestDetector),
    ).register(Detector::FragileTest(FragileTestDetector)).register(
        Detector::GiantTest(GiantTestDetector::new()),
    ).register(Detector::CommentedOutTest(CommentedOutTestDetector))
}

} // verus!
