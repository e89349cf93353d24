//! Reports every test function with a conditional early return near its start.
use vstd::prelude::*;
use crate::model::detector::{
    collect_flagged, per_function, reword_all, reworded, FunctionRule, SmellDetector,
};
use crate::model::smell::{SmellType, SmellView, TestFile, TestFunction, TestSmell};
use crate::text::{chars_of, equals_str};

verus! {

/// The message for Swift files, whose way to skip a test is a trait or `XCTSkip`.
pub open spec fn swift_skip_text() -> Seq<char> {
    "テストが通ったんじゃない、テストが実行されなかっただけだ。条件付きスキップは @Test(.disabled(...)) か throw XCTSkip(...) を使いましょう。"@
}

/// Reports every test function with a conditional early return near its
/// start; in Swift files the message names Swift's ways to skip a test.
pub struct SilentSkipDetector;

impl FunctionRule for SilentSkipDetector {
    open spec fn flags(&self, f: TestFunction) -> bool {
        f.has_early_return
    }

    fn check(&self, f: &TestFunction) -> (b: bool) {
        f.has_early_return
    }
}

impl SmellDetector for SilentSkipDetector {
    open spec fn smells_in(&self, file: TestFile) -> Seq<SmellView> {
        let base = per_function(
            file.test_functions@,
            file.path@,
            SmellType::SilentSkip,
            |f: TestFunction| self.flags(f),
        );
        if file.language@ == "swift"@ {
            reworded(base, swift_skip_text())
        } else {
            base
        }
    }

    open spec fn name_text(&self) -> Seq<char> {
        "SilentSkip"@
    }


    fn name(&self) -> &'static str {
        "SilentSkip"
    }

    fn detect(&self, test_file: &TestFile) -> (r: Vec<TestSmell>) {
        let base = collect_flagged(test_file, SmellType::SilentSkip, self);
        let lang = chars_of(test_file.language.as_str());
        if equals_str(&lang, "swift") {
            reword_all(
                base,
                "テストが通ったんじゃない、テストが実行されなかっただけだ。条件付きスキップは @Test(.disabled(...)) か throw XCTSkip(...) を使いましょう。",
            )
        } else {
            base
        }
    }
}

} // verus!
