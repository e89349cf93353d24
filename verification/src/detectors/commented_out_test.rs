//! Commented-out tests: test declarations hidden behind comment markers.
use vstd::prelude::*;
use crate::model::detector::{collect_flagged_lines, per_line, LineRule, SmellDetector};
use crate::model::smell::{SmellType, SmellView, TestFile, TestSmell};
use crate::pattern::{compile, pattern_matches, re_match, Pattern};
use crate::text::{contains, contains_str, equals_str, lines, starts_with, starts_with_str, trim, trim_chars};

verus! {

/// A commented-out Go test, benchmark, fuzz target or example.
pub const GO_COMMENTED_TEST: &'static str = "^\\s*//\\s*func\\s+(Test|Benchmark|Fuzz|Example)\\w+\\s*\\(";

/// A commented-out Bats test.
pub const BATS_COMMENTED_TEST: &'static str = "^\\s*#\\s*@test\\s+";

/// A commented-out shell test function.
pub const SH_COMMENTED_TEST: &'static str = "^\\s*#\\s*(test\\w+\\s*\\(\\)|function\\s+test\\w+)";

/// A commented-out Python test function.
pub const PY_COMMENTED_TEST: &'static str = "^\\s*#\\s*(async\\s+)?def\\s+test\\w*\\s*\\(";

/// A commented-out Swift test: an `@Test` attribute or an XCTest `func test…(`.
pub const SWIFT_COMMENTED_TEST: &'static str = "^\\s*//\\s*(@Test\\b|func\\s+test\\w*\\s*\\()";

/// The languages whose commented-out tests are recognised.
pub enum CommentStyle {
    Rust,
    Go,
    Shell,
    Python,
    Swift,
}

/// Whether line `l` is a commented-out test in the given language.
pub open spec fn commented_test_line(style: CommentStyle, l: Seq<char>) -> bool {
    match style {
        CommentStyle::Rust => {
            let t = trim(l);
            (starts_with(t, "//"@) || starts_with(t, "/*"@)) && contains(t, "#[test]"@)
        },
        CommentStyle::Go => re_match(GO_COMMENTED_TEST@, l),
        CommentStyle::Shell => re_match(BATS_COMMENTED_TEST@, l) || re_match(SH_COMMENTED_TEST@, l),
        CommentStyle::Python => re_match(PY_COMMENTED_TEST@, l),
        CommentStyle::Swift => re_match(SWIFT_COMMENTED_TEST@, l),
    }
}

/// The language style of a language name, for the languages that have one.
pub open spec fn style_of(language: Seq<char>) -> Option<CommentStyle> {
    if language == "rust"@ {
        Some(CommentStyle::Rust)
    } else if language == "go"@ {
        Some(CommentStyle::Go)
    } else if language == "shell"@ {
        Some(CommentStyle::Shell)
    } else if language == "python"@ {
        Some(CommentStyle::Python)
    } else if language == "swift"@ {
        Some(CommentStyle::Swift)
    } else {
        None
    }
}

/// A compiled line test for one language.
struct CommentedTestRule {
    style: CommentStyle,
    first: Option<Pattern>,
    second: Option<Pattern>,
}

impl CommentedTestRule {
    #[verifier::type_invariant]
    spec fn wf(&self) -> bool {
        &&& match self.style {
            CommentStyle::Rust => true,
            CommentStyle::Go => self.first.is_some() <==> crate::pattern::regex_compiles(
                GO_COMMENTED_TEST@,
            ),
            CommentStyle::Shell => self.first.is_some() <==> crate::pattern::regex_compiles(
                BATS_COMMENTED_TEST@,
            ),
            CommentStyle::Python => self.first.is_some() <==> crate::pattern::regex_compiles(
                PY_COMMENTED_TEST@,
            ),
            CommentStyle::Swift => self.first.is_some() <==> crate::pattern::regex_compiles(
                SWIFT_COMMENTED_TEST@,
            ),
        }
        &&& self.first matches Some(p) ==> p.source() == match self.style {
            CommentStyle::Go => GO_COMMENTED_TEST@,
            CommentStyle::Shell => BATS_COMMENTED_TEST@,
            CommentStyle::Swift => SWIFT_COMMENTED_TEST@,
            _ => PY_COMMENTED_TEST@,
        }
        &&& self.second matches Some(p) ==> p.source() == SH_COMMENTED_TEST@
        &&& (self.style is Shell ==> (self.second.is_some() <==> crate::pattern::regex_compiles(
            SH_COMMENTED_TEST@,
        )))
    }

    fn new(style: CommentStyle) -> (r: Self)
        ensures
            r.style == style,
    {
        match style {
            CommentStyle::Rust => CommentedTestRule { style, first: None, second: None },
            CommentStyle::Go => CommentedTestRule {
                style,
                first: compile(GO_COMMENTED_TEST),
                second: None,
            },
            CommentStyle::Shell => CommentedTestRule {
                style,
                first: compile(BATS_COMMENTED_TEST),
                second: compile(SH_COMMENTED_TEST),
            },
            CommentStyle::Python => CommentedTestRule {
                style,
                first: compile(PY_COMMENTED_TEST),
                second: None,
            },
            CommentStyle::Swift => CommentedTestRule {
                style,
                first: compile(SWIFT_COMMENTED_TEST),
                second: None,
            },
        }
    }
}

/// Whether the optional compiled pattern matches `l`.
fn opt_matches(p: &Option<Pattern>, l: &[char]) -> (r: bool)
    ensures
        r == match p {
            Some(q) => crate::pattern::regex_is_match(q.source(), l@),
            None => false,
        },
{
    match p {
        Some(q) => pattern_matches(q, l),
        None => false,
    }
}

impl LineRule for CommentedTestRule {
    closed spec fn flags(&self, l: Seq<char>) -> bool {
        commented_test_line(self.style, l)
    }

    fn check(&self, l: &[char]) -> (b: bool) {
        proof {
            use_type_invariant(self);
        }
        match self.style {
            CommentStyle::Rust => {
                let t = trim_chars(l);
                (starts_with_str(&t, "//") || starts_with_str(&t, "/*")) && contains_str(
                    &t,
                    "#[test]",
                )
            },
            CommentStyle::Go => opt_matches(&self.first, l),
            CommentStyle::Shell => opt_matches(&self.first, l) || opt_matches(&self.second, l),
            CommentStyle::Python => opt_matches(&self.first, l),
            CommentStyle::Swift => opt_matches(&self.first, l),
        }
    }
}

} // verus!

verus! {

/// Reports commented-out test declarations in Rust, Go, shell, Python and
/// Swift sources, one smell per such line; other languages, and files whose source
/// was not kept, give none.
pub struct CommentedOutTestDetector;

/// The commented-out-test smells of a source in the given style.
pub open spec fn commented_smells(style: CommentStyle, source: Seq<char>, path: Seq<char>) -> Seq<
    SmellView,
> {
    per_line(
        lines(source),
        path,
        SmellType::CommentedOutTest,
        |l: Seq<char>| commented_test_line(style, l),
    )
}

/// Scans `source` for commented-out tests in the given style.
pub fn detect_commented(style: CommentStyle, source: &str, path: &str) -> (r: Vec<TestSmell>)
    ensures
        r@.map_values(|s: TestSmell| s@) == commented_smells(style, source@, path@),
{
    let rule = CommentedTestRule::new(style);
    let r = collect_flagged_lines(source, path, SmellType::CommentedOutTest, &rule);
    proof {
        assert((|l: Seq<char>| rule.flags(l)) =~= (|l: Seq<char>| commented_test_line(style, l)));
    }
    r
}

/// The language style for a language name.
pub fn style_for(language: &str) -> (r: Option<CommentStyle>)
    ensures
        r == style_of(language@),
{
    let c = crate::text::chars_of(language);
    if equals_str(&c, "rust") {
        Some(CommentStyle::Rust)
    } else if equals_str(&c, "go") {
        Some(CommentStyle::Go)
    } else if equals_str(&c, "shell") {
        Some(CommentStyle::Shell)
    } else if equals_str(&c, "python") {
        Some(CommentStyle::Python)
    } else if equals_str(&c, "swift") {
        Some(CommentStyle::Swift)
    } else {
        None
    }
}

impl SmellDetector for CommentedOutTestDetector {
    open spec fn smells_in(&self, file: TestFile) -> Seq<SmellView> {
        match (file.source, style_of(file.language@)) {
            (Some(src), Some(style)) => commented_smells(style, src@, file.path@),
            _ => Seq::empty(),
        }
    }

    open spec fn name_text(&self) -> Seq<char> {
        "CommentedOutTest"@
    }


    fn name(&self) -> &'static str {
        "CommentedOutTest"
    }

    fn detect(&self, test_file: &TestFile) -> (r: Vec<TestSmell>) {
        let style = style_for(test_file.language.as_str());
        match (&test_file.source, style) {
            (Some(src), Some(st)) => detect_commented(st, src.as_str(), test_file.path.as_str()),
            _ => {
                let v: Vec<TestSmell> = Vec::new();
                proof {
                    assert(v@.map_values(|x: TestSmell| x@) =~= Seq::<SmellView>::empty());
                }
                v
            },
        }
    }
}

} // verus!
