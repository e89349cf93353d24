//! The language-independent data model: smell kinds, detected smells, and
//! the facts a language front end extracts from each test function.
use vstd::prelude::*;

verus! {

/// The kinds of test smell the detector knows.
#[derive(Debug, Clone, Copy, PartialEq, Eq, Structural, Hash)]
pub enum SmellType {
    /// The test body does nothing.
    EmptyTest,
    /// The test asserts nothing.
    MissingAssertion,
    /// The test sleeps.
    SleepyTest,
    /// The test branches (if/match/while).
    ConditionalTestLogic,
    /// The test is switched off without a reason.
    IgnoredTest,
    /// The test prints.
    RedundantPrint,
    /// Several value-showing assertions without a message.
    AssertionRoulette,
    /// Several assertions without a message, at least one of them boolean-only.
    AssertionRouletteStrict,
    /// An unexplained number in an assertion.
    MagicNumberTest,
    /// The file holds no test.
    NoTest,
    /// A conditional early return near the top of the test.
    SilentSkip,
    /// The test sleeps and also reads the clock or sets a timeout.
    FragileTest,
    /// The test body is too long.
    GiantTest,
    /// A test has been commented out.
    CommentedOutTest,
}

/// Every smell kind, in declaration order.
pub open spec fn all_smell_types() -> Seq<SmellType> {
    seq![
        SmellType::EmptyTest,
        SmellType::MissingAssertion,
        SmellType::SleepyTest,
        SmellType::ConditionalTestLogic,
        SmellType::IgnoredTest,
        SmellType::RedundantPrint,
        SmellType::AssertionRoulette,
        SmellType::AssertionRouletteStrict,
        SmellType::MagicNumberTest,
        SmellType::NoTest,
        SmellType::SilentSkip,
        SmellType::FragileTest,
        SmellType::GiantTest,
        SmellType::CommentedOutTest,
    ]
}

/// The message shown with a smell of kind `t`.
pub open spec fn roar_text(t: SmellType) -> Seq<char> {
    match t {
        SmellType::EmptyTest => "テストが空っぽですよ。それ、テストって呼べますか？"@,
        SmellType::MissingAssertion =>
            "アサーションがないテストは、テストではありません。ただの実行です。"@,
        SmellType::SleepyTest =>
            "sleep() をテストに書くのは、不安定さを自ら招いているようなものです。"@,
        SmellType::ConditionalTestLogic =>
            "テストの中に条件分岐があるということは、テスト自体にバグが入る余地があるということです。"@,
        SmellType::IgnoredTest =>
            "無視されたテストは、壊れた窓と同じです。いつか直すつもりなら、今直しましょう。"@,
        SmellType::RedundantPrint =>
            "print デバッグをテストに残すのは、作業中の足場を建物に残すようなものです。"@,
        SmellType::AssertionRoulette =>
            "assert_eq!/assert_ne! は失敗時に値を表示しますが、メッセージがあるとさらに意図が明確になります。"@,
        SmellType::AssertionRouletteStrict =>
            "assert! にメッセージがないと、失敗したとき何が期待と違ったのか全く分かりません。"@,
        SmellType::MagicNumberTest =>
            "その数値は何を意味していますか？テストは仕様の表明です。意図を名前にしましょう。"@,
        SmellType::NoTest => "テストがありませんね。t_wada の前でも同じこと言えんの？"@,
        SmellType::SilentSkip =>
            "テストが通ったんじゃない、テストが実行されなかっただけだ。条件付きスキップは #[ignore] を使いましょう。"@,
        SmellType::FragileTest =>
            "sleep と時計に頼るテストは、マシンが遅い日に嘘をつきます。時間は注入しましょう。"@,
        SmellType::GiantTest =>
            "巨大なテストは、何を確かめているのか読み手に伝わりません。小さく分けましょう。"@,
        SmellType::CommentedOutTest =>
            "コメントアウトされたテストは、誰も実行しない仕様書です。直すか、消しましょう。"@,
    }
}

/// The severity of a smell kind, from 1 (cosmetic) to 5.
pub open spec fn severity_of(t: SmellType) -> u8 {
    match t {
        SmellType::EmptyTest => 5,
        SmellType::MissingAssertion => 4,
        SmellType::SleepyTest => 3,
        SmellType::ConditionalTestLogic => 3,
        SmellType::IgnoredTest => 2,
        SmellType::RedundantPrint => 1,
        SmellType::AssertionRoulette => 1,
        SmellType::AssertionRouletteStrict => 2,
        SmellType::MagicNumberTest => 2,
        SmellType::NoTest => 5,
        SmellType::SilentSkip => 4,
        SmellType::FragileTest => 3,
        SmellType::GiantTest => 3,
        SmellType::CommentedOutTest => 3,
    }
}

/// The human-readable name of a smell kind.
pub open spec fn display_text(t: SmellType) -> Seq<char> {
    match t {
        SmellType::EmptyTest => "Empty Test"@,
        SmellType::MissingAssertion => "Missing Assertion"@,
        SmellType::SleepyTest => "Sleepy Test"@,
        SmellType::ConditionalTestLogic => "Conditional Test Logic"@,
        SmellType::IgnoredTest => "Ignored Test"@,
        SmellType::RedundantPrint => "Redundant Print"@,
        SmellType::AssertionRoulette => "Assertion Roulette"@,
        SmellType::AssertionRouletteStrict => "Assertion Roulette (Strict)"@,
        SmellType::MagicNumberTest => "Magic Number Test"@,
        SmellType::NoTest => "No Test"@,
        SmellType::SilentSkip => "Silent Skip"@,
        SmellType::FragileTest => "Fragile Test"@,
        SmellType::GiantTest => "Giant Test"@,
        SmellType::CommentedOutTest => "Commented-Out Test"@,
    }
}

/// The kebab-case name of a smell kind, as `smell-allow` comments write it.
pub open spec fn kebab_text(t: SmellType) -> Seq<char> {
    match t {
        SmellType::EmptyTest => "empty-test"@,
        SmellType::MissingAssertion => "missing-assertion"@,
        SmellType::SleepyTest => "sleepy-test"@,
        SmellType::ConditionalTestLogic => "conditional-test-logic"@,
        SmellType::IgnoredTest => "ignored-test"@,
        SmellType::RedundantPrint => "redundant-print"@,
        SmellType::AssertionRoulette => "assertion-roulette"@,
        SmellType::AssertionRouletteStrict => "assertion-roulette-strict"@,
        SmellType::MagicNumberTest => "magic-number"@,
        SmellType::NoTest => "no-test"@,
        SmellType::SilentSkip => "silent-skip"@,
        SmellType::FragileTest => "fragile-test"@,
        SmellType::GiantTest => "giant-test"@,
        SmellType::CommentedOutTest => "commented-out-test"@,
    }
}

/// The smell kind whose kebab-case name is `name`, if there is one.
pub open spec fn kind_of_kebab(name: Seq<char>) -> Option<SmellType> {
    if name == "empty-test"@ {
        Some(SmellType::EmptyTest)
    } else if name == "missing-assertion"@ {
        Some(SmellType::MissingAssertion)
    } else if name == "sleepy-test"@ {
        Some(SmellType::SleepyTest)
    } else if name == "conditional-test-logic"@ {
        Some(SmellType::ConditionalTestLogic)
    } else if name == "ignored-test"@ {
        Some(SmellType::IgnoredTest)
    } else if name == "redundant-print"@ {
        Some(SmellType::RedundantPrint)
    } else if name == "assertion-roulette"@ {
        Some(SmellType::AssertionRoulette)
    } else if name == "assertion-roulette-strict"@ {
        Some(SmellType::AssertionRouletteStrict)
    } else if name == "magic-number"@ {
        Some(SmellType::MagicNumberTest)
    } else if name == "no-test"@ {
        Some(SmellType::NoTest)
    } else if name == "silent-skip"@ {
        Some(SmellType::SilentSkip)
    } else if name == "fragile-test"@ {
        Some(SmellType::FragileTest)
    } else if name == "giant-test"@ {
        Some(SmellType::GiantTest)
    } else if name == "commented-out-test"@ {
        Some(SmellType::CommentedOutTest)
    } else {
        None
    }
}

impl SmellType {
    /// The message shown with this smell.
    pub fn roar(&self) -> (r: &'static str)
        ensures
            r@ == roar_text(*self),
    {
        match self {
            SmellType::EmptyTest => "テストが空っぽですよ。それ、テストって呼べますか？",
            SmellType::MissingAssertion =>
                "アサーションがないテストは、テストではありません。ただの実行です。",
            SmellType::SleepyTest =>
                "sleep() をテストに書くのは、不安定さを自ら招いているようなものです。",
            SmellType::ConditionalTestLogic =>
                "テストの中に条件分岐があるということは、テスト自体にバグが入る余地があるということです。",
            SmellType::IgnoredTest =>
                "無視されたテストは、壊れた窓と同じです。いつか直すつもりなら、今直しましょう。",
            SmellType::RedundantPrint =>
                "print デバッグをテストに残すのは、作業中の足場を建物に残すようなものです。",
            SmellType::AssertionRoulette =>
                "assert_eq!/assert_ne! は失敗時に値を表示しますが、メッセージがあるとさらに意図が明確になります。",
            SmellType::AssertionRouletteStrict =>
                "assert! にメッセージがないと、失敗したとき何が期待と違ったのか全く分かりません。",
            SmellType::MagicNumberTest =>
                "その数値は何を意味していますか？テストは仕様の表明です。意図を名前にしましょう。",
            SmellType::NoTest => "テストがありませんね。t_wada の前でも同じこと言えんの？",
            SmellType::SilentSkip =>
                "テストが通ったんじゃない、テストが実行されなかっただけだ。条件付きスキップは #[ignore] を使いましょう。",
            SmellType::FragileTest =>
                "sleep と時計に頼るテストは、マシンが遅い日に嘘をつきます。時間は注入しましょう。",
            SmellType::GiantTest =>
                "巨大なテストは、何を確かめているのか読み手に伝わりません。小さく分けましょう。",
            SmellType::CommentedOutTest =>
                "コメントアウトされたテストは、誰も実行しない仕様書です。直すか、消しましょう。",
        }
    }

    /// The severity of this smell, from 1 to 5.
    pub fn severity(&self) -> (r: u8)
        ensures
            r == severity_of(*self),
            1 <= r <= 5,
    {
        match self {
            SmellType::EmptyTest => 5,
            SmellType::MissingAssertion => 4,
            SmellType::SleepyTest => 3,
            SmellType::ConditionalTestLogic => 3,
            SmellType::IgnoredTest => 2,
            SmellType::RedundantPrint => 1,
            SmellType::AssertionRoulette => 1,
            SmellType::AssertionRouletteStrict => 2,
            SmellType::MagicNumberTest => 2,
            SmellType::NoTest => 5,
            SmellType::SilentSkip => 4,
            SmellType::FragileTest => 3,
            SmellType::GiantTest => 3,
            SmellType::CommentedOutTest => 3,
        }
    }

    /// The human-readable name of this smell (what a report prints).
    pub fn display_name(&self) -> (r: &'static str)
        ensures
            r@ == display_text(*self),
    {
        match self {
            SmellType::EmptyTest => "Empty Test",
            SmellType::MissingAssertion => "Missing Assertion",
            SmellType::SleepyTest => "Sleepy Test",
            SmellType::ConditionalTestLogic => "Conditional Test Logic",
            SmellType::IgnoredTest => "Ignored Test",
            SmellType::RedundantPrint => "Redundant Print",
            SmellType::AssertionRoulette => "Assertion Roulette",
            SmellType::AssertionRouletteStrict => "Assertion Roulette (Strict)",
            SmellType::MagicNumberTest => "Magic Number Test",
            SmellType::NoTest => "No Test",
            SmellType::SilentSkip => "Silent Skip",
            SmellType::FragileTest => "Fragile Test",
            SmellType::GiantTest => "Giant Test",
            SmellType::CommentedOutTest => "Commented-Out Test",
        }
    }

    /// The human-readable name of this smell as an owned string.
    pub fn to_string(&self) -> (r: String)
        ensures
            r@ == display_text(*self),
    {
        String::from_str(self.display_name())
    }

    /// The smell kind whose kebab-case name is `name`, if there is one.
    pub fn from_kebab_name(name: &[char]) -> (r: Option<SmellType>)
        ensures
            r == kind_of_kebab(name@),
    {
        if crate::text::equals_str(name, "empty-test") {
            Some(SmellType::EmptyTest)
        } else if crate::text::equals_str(name, "missing-assertion") {
            Some(SmellType::MissingAssertion)
        } else if crate::text::equals_str(name, "sleepy-test") {
            Some(SmellType::SleepyTest)
        } else if crate::text::equals_str(name, "conditional-test-logic") {
            Some(SmellType::ConditionalTestLogic)
        } else if crate::text::equals_str(name, "ignored-test") {
            Some(SmellType::IgnoredTest)
        } else if crate::text::equals_str(name, "redundant-print") {
            Some(SmellType::RedundantPrint)
        } else if crate::text::equals_str(name, "assertion-roulette") {
            Some(SmellType::AssertionRoulette)
        } else if crate::text::equals_str(name, "assertion-roulette-strict") {
            Some(SmellType::AssertionRouletteStrict)
        } else if crate::text::equals_str(name, "magic-number") {
            Some(SmellType::MagicNumberTest)
        } else if crate::text::equals_str(name, "no-test") {
            Some(SmellType::NoTest)
        } else if crate::text::equals_str(name, "silent-skip") {
            Some(SmellType::SilentSkip)
        } else if crate::text::equals_str(name, "fragile-test") {
            Some(SmellType::FragileTest)
        } else if crate::text::equals_str(name, "giant-test") {
            Some(SmellType::GiantTest)
        } else if crate::text::equals_str(name, "commented-out-test") {
            Some(SmellType::CommentedOutTest)
        } else {
            None
        }
    }

    /// The kebab-case name of this smell.
    pub fn kebab_name(&self) -> (r: &'static str)
        ensures
            r@ == kebab_text(*self),
    {
        match self {
            SmellType::EmptyTest => "empty-test",
            SmellType::MissingAssertion => "missing-assertion",
            SmellType::SleepyTest => "sleepy-test",
            SmellType::ConditionalTestLogic => "conditional-test-logic",
            SmellType::IgnoredTest => "ignored-test",
            SmellType::RedundantPrint => "redundant-print",
            SmellType::AssertionRoulette => "assertion-roulette",
            SmellType::AssertionRouletteStrict => "assertion-roulette-strict",
            SmellType::MagicNumberTest => "magic-number",
            SmellType::NoTest => "no-test",
            SmellType::SilentSkip => "silent-skip",
            SmellType::FragileTest => "fragile-test",
            SmellType::GiantTest => "giant-test",
            SmellType::CommentedOutTest => "commented-out-test",
        }
    }
}

/// Every smell kind has a severity from 1 to 5.
pub proof fn lemma_severity_range(t: SmellType)
    ensures
        1 <= severity_of(t) <= 5,
{
}

/// Reading back the kebab-case name of a smell kind gives that kind again.
pub proof fn lemma_kebab_name_round_trip(t: SmellType)
    ensures
        kind_of_kebab(kebab_text(t)) == Some(t),
{
    reveal_strlit("empty-test");
    reveal_strlit("missing-assertion");
    reveal_strlit("sleepy-test");
    reveal_strlit("conditional-test-logic");
    reveal_strlit("ignored-test");
    reveal_strlit("redundant-print");
    reveal_strlit("assertion-roulette");
    reveal_strlit("assertion-roulette-strict");
    reveal_strlit("magic-number");
    reveal_strlit("no-test");
    reveal_strlit("silent-skip");
    reveal_strlit("fragile-test");
    reveal_strlit("giant-test");
    reveal_strlit("commented-out-test");
    match t {
        SmellType::EmptyTest => {
        },
        SmellType::MissingAssertion => {
            assert("missing-assertion"@ != "empty-test"@) by {
                assert("missing-assertion"@.len() != "empty-test"@.len());
            }
        },
        SmellType::SleepyTest => {
            assert("sleepy-test"@ != "empty-test"@) by {
                assert("sleepy-test"@.len() != "empty-test"@.len());
            }
            assert("sleepy-test"@ != "missing-assertion"@) by {
                assert("sleepy-test"@.len() != "missing-assertion"@.len());
            }
        },
        SmellType::ConditionalTestLogic => {
            assert("conditional-test-logic"@ != "empty-test"@) by {
                assert("conditional-test-logic"@.len() != "empty-test"@.len());
            }
            assert("conditional-test-logic"@ != "missing-assertion"@) by {
                assert("conditional-test-logic"@.len() != "missing-assertion"@.len());
            }
            assert("conditional-test-logic"@ != "sleepy-test"@) by {
                assert("conditional-test-logic"@.len() != "sleepy-test"@.len());
            }
        },
        SmellType::IgnoredTest => {
            assert("ignored-test"@ != "empty-test"@) by {
                assert("ignored-test"@.len() != "empty-test"@.len());
            }
            assert("ignored-test"@ != "missing-assertion"@) by {
                assert("ignored-test"@.len() != "missing-assertion"@.len());
            }
            assert("ignored-test"@ != "sleepy-test"@) by {
                assert("ignored-test"@.len() != "sleepy-test"@.len());
            }
            assert("ignored-test"@ != "conditional-test-logic"@) by {
                assert("ignored-test"@.len() != "conditional-test-logic"@.len());
            }
        },
        SmellType::RedundantPrint => {
            assert("redundant-print"@ != "empty-test"@) by {
                assert("redundant-print"@.len() != "empty-test"@.len());
            }
            assert("redundant-print"@ != "missing-assertion"@) by {
                assert("redundant-print"@.len() != "missing-assertion"@.len());
            }
            assert("redundant-print"@ != "sleepy-test"@) by {
                assert("redundant-print"@.len() != "sleepy-test"@.len());
            }
            assert("redundant-print"@ != "conditional-test-logic"@) by {
                assert("redundant-print"@.len() != "conditional-test-logic"@.len());
            }
            assert("redundant-print"@ != "ignored-test"@) by {
                assert("redundant-print"@.len() != "ignored-test"@.len());
            }
        },
        SmellType::AssertionRoulette => {
            assert("assertion-roulette"@ != "empty-test"@) by {
                assert("assertion-roulette"@.len() != "empty-test"@.len());
            }
            assert("assertion-roulette"@ != "missing-assertion"@) by {
                assert("assertion-roulette"@.len() != "missing-assertion"@.len());
            }
            assert("assertion-roulette"@ != "sleepy-test"@) by {
                assert("assertion-roulette"@.len() != "sleepy-test"@.len());
            }
            assert("assertion-roulette"@ != "conditional-test-logic"@) by {
                assert("assertion-roulette"@.len() != "conditional-test-logic"@.len());
            }
            assert("assertion-roulette"@ != "ignored-test"@) by {
                assert("assertion-roulette"@.len() != "ignored-test"@.len());
            }
            assert("assertion-roulette"@ != "redundant-print"@) by {
                assert("assertion-roulette"@.len() != "redundant-print"@.len());
            }
        },
        SmellType::AssertionRouletteStrict => {
            assert("assertion-roulette-strict"@ != "empty-test"@) by {
                assert("assertion-roulette-strict"@.len() != "empty-test"@.len());
            }
            assert("assertion-roulette-strict"@ != "missing-assertion"@) by {
                assert("assertion-roulette-strict"@.len() != "missing-assertion"@.len());
            }
            assert("assertion-roulette-strict"@ != "sleepy-test"@) by {
                assert("assertion-roulette-strict"@.len() != "sleepy-test"@.len());
            }
            assert("assertion-roulette-strict"@ != "conditional-test-logic"@) by {
                assert("assertion-roulette-strict"@.len() != "conditional-test-logic"@.len());
            }
            assert("assertion-roulette-strict"@ != "ignored-test"@) by {
                assert("assertion-roulette-strict"@.len() != "ignored-test"@.len());
            }
            assert("assertion-roulette-strict"@ != "redundant-print"@) by {
                assert("assertion-roulette-strict"@.len() != "redundant-print"@.len());
            }
            assert("assertion-roulette-strict"@ != "assertion-roulette"@) by {
                assert("assertion-roulette-strict"@.len() != "assertion-roulette"@.len());
            }
        },
        SmellType::MagicNumberTest => {
            assert("magic-number"@ != "empty-test"@) by {
                assert("magic-number"@.len() != "empty-test"@.len());
            }
            assert("magic-number"@ != "missing-assertion"@) by {
                assert("magic-number"@.len() != "missing-assertion"@.len());
            }
            assert("magic-number"@ != "sleepy-test"@) by {
                assert("magic-number"@.len() != "sleepy-test"@.len());
            }
            assert("magic-number"@ != "conditional-test-logic"@) by {
                assert("magic-number"@.len() != "conditional-test-logic"@.len());
            }
            assert("magic-number"@ != "ignored-test"@) by {
                assert("magic-number"@[0] != "ignored-test"@[0]);
            }
            assert("magic-number"@ != "redundant-print"@) by {
                assert("magic-number"@.len() != "redundant-print"@.len());
            }
            assert("magic-number"@ != "assertion-roulette"@) by {
                assert("magic-number"@.len() != "assertion-roulette"@.len());
            }
            assert("magic-number"@ != "assertion-roulette-strict"@) by {
                assert("magic-number"@.len() != "assertion-roulette-strict"@.len());
            }
        },
        SmellType::NoTest => {
            assert("no-test"@ != "empty-test"@) by {
                assert("no-test"@.len() != "empty-test"@.len());
            }
            assert("no-test"@ != "missing-assertion"@) by {
                assert("no-test"@.len() != "missing-assertion"@.len());
            }
            assert("no-test"@ != "sleepy-test"@) by {
                assert("no-test"@.len() != "sleepy-test"@.len());
            }
            assert("no-test"@ != "conditional-test-logic"@) by {
                assert("no-test"@.len() != "conditional-test-logic"@.len());
            }
            assert("no-test"@ != "ignored-test"@) by {
                assert("no-test"@.len() != "ignored-test"@.len());
            }
            assert("no-test"@ != "redundant-print"@) by {
                assert("no-test"@.len() != "redundant-print"@.len());
            }
            assert("no-test"@ != "assertion-roulette"@) by {
                assert("no-test"@.len() != "assertion-roulette"@.len());
            }
            assert("no-test"@ != "assertion-roulette-strict"@) by {
                assert("no-test"@.len() != "assertion-roulette-strict"@.len());
            }
            assert("no-test"@ != "magic-number"@) by {
                assert("no-test"@.len() != "magic-number"@.len());
            }
        },
        SmellType::SilentSkip => {
            assert("silent-skip"@ != "empty-test"@) by {
                assert("silent-skip"@.len() != "empty-test"@.len());
            }
            assert("silent-skip"@ != "missing-assertion"@) by {
                assert("silent-skip"@.len() != "missing-assertion"@.len());
            }
            assert("silent-skip"@ != "sleepy-test"@) by {
                assert("silent-skip"@[1] != "sleepy-test"@[1]);
            }
            assert("silent-skip"@ != "conditional-test-logic"@) by {
                assert("silent-skip"@.len() != "conditional-test-logic"@.len());
            }
            assert("silent-skip"@ != "ignored-test"@) by {
                assert("silent-skip"@.len() != "ignored-test"@.len());
            }
            assert("silent-skip"@ != "redundant-print"@) by {
                assert("silent-skip"@.len() != "redundant-print"@.len());
            }
            assert("silent-skip"@ != "assertion-roulette"@) by {
                assert("silent-skip"@.len() != "assertion-roulette"@.len());
            }
            assert("silent-skip"@ != "assertion-roulette-strict"@) by {
                assert("silent-skip"@.len() != "assertion-roulette-strict"@.len());
            }
            assert("silent-skip"@ != "magic-number"@) by {
                assert("silent-skip"@.len() != "magic-number"@.len());
            }
            assert("silent-skip"@ != "no-test"@) by {
                assert("silent-skip"@.len() != "no-test"@.len());
            }
        },
        SmellType::FragileTest => {
            assert("fragile-test"@ != "empty-test"@) by {
                assert("fragile-test"@.len() != "empty-test"@.len());
            }
            assert("fragile-test"@ != "missing-assertion"@) by {
                assert("fragile-test"@.len() != "missing-assertion"@.len());
            }
            assert("fragile-test"@ != "sleepy-test"@) by {
                assert("fragile-test"@.len() != "sleepy-test"@.len());
            }
            assert("fragile-test"@ != "conditional-test-logic"@) by {
                assert("fragile-test"@.len() != "conditional-test-logic"@.len());
            }
            assert("fragile-test"@ != "ignored-test"@) by {
                assert("fragile-test"@[0] != "ignored-test"@[0]);
            }
            assert("fragile-test"@ != "redundant-print"@) by {
                assert("fragile-test"@.len() != "redundant-print"@.len());
            }
            assert("fragile-test"@ != "assertion-roulette"@) by {
                assert("fragile-test"@.len() != "assertion-roulette"@.len());
            }
            assert("fragile-test"@ != "assertion-roulette-strict"@) by {
                assert("fragile-test"@.len() != "assertion-roulette-strict"@.len());
            }
            assert("fragile-test"@ != "magic-number"@) by {
                assert("fragile-test"@[0] != "magic-number"@[0]);
            }
            assert("fragile-test"@ != "no-test"@) by {
                assert("fragile-test"@.len() != "no-test"@.len());
            }
            assert("fragile-test"@ != "silent-skip"@) by {
                assert("fragile-test"@.len() != "silent-skip"@.len());
            }
        },
        SmellType::GiantTest => {
            assert("giant-test"@ != "empty-test"@) by {
                assert("giant-test"@[0] != "empty-test"@[0]);
            }
            assert("giant-test"@ != "missing-assertion"@) by {
                assert("giant-test"@.len() != "missing-assertion"@.len());
            }
            assert("giant-test"@ != "sleepy-test"@) by {
                assert("giant-test"@.len() != "sleepy-test"@.len());
            }
            assert("giant-test"@ != "conditional-test-logic"@) by {
                assert("giant-test"@.len() != "conditional-test-logic"@.len());
            }
            assert("giant-test"@ != "ignored-test"@) by {
                assert("giant-test"@.len() != "ignored-test"@.len());
            }
            assert("giant-test"@ != "redundant-print"@) by {
                assert("giant-test"@.len() != "redundant-print"@.len());
            }
            assert("giant-test"@ != "assertion-roulette"@) by {
                assert("giant-test"@.len() != "assertion-roulette"@.len());
            }
            assert("giant-test"@ != "assertion-roulette-strict"@) by {
                assert("giant-test"@.len() != "assertion-roulette-strict"@.len());
            }
            assert("giant-test"@ != "magic-number"@) by {
                assert("giant-test"@.len() != "magic-number"@.len());
            }
            assert("giant-test"@ != "no-test"@) by {
                assert("giant-test"@.len() != "no-test"@.len());
            }
            assert("giant-test"@ != "silent-skip"@) by {
                assert("giant-test"@.len() != "silent-skip"@.len());
            }
            assert("giant-test"@ != "fragile-test"@) by {
                assert("giant-test"@.len() != "fragile-test"@.len());
            }
        },
        SmellType::CommentedOutTest => {
            assert("commented-out-test"@ != "empty-test"@) by {
                assert("commented-out-test"@.len() != "empty-test"@.len());
            }
            assert("commented-out-test"@ != "missing-assertion"@) by {
                assert("commented-out-test"@.len() != "missing-assertion"@.len());
            }
            assert("commented-out-test"@ != "sleepy-test"@) by {
                assert("commented-out-test"@.len() != "sleepy-test"@.len());
            }
            assert("commented-out-test"@ != "conditional-test-logic"@) by {
                assert("commented-out-test"@.len() != "conditional-test-logic"@.len());
            }
            assert("commented-out-test"@ != "ignored-test"@) by {
                assert("commented-out-test"@.len() != "ignored-test"@.len());
            }
            assert("commented-out-test"@ != "redundant-print"@) by {
                assert("commented-out-test"@.len() != "redundant-print"@.len());
            }
            assert("commented-out-test"@ != "assertion-roulette"@) by {
                assert("commented-out-test"@[0] != "assertion-roulette"@[0]);
            }
            assert("commented-out-test"@ != "assertion-roulette-strict"@) by {
                assert("commented-out-test"@.len() != "assertion-roulette-strict"@.len());
            }
            assert("commented-out-test"@ != "magic-number"@) by {
                assert("commented-out-test"@.len() != "magic-number"@.len());
            }
            assert("commented-out-test"@ != "no-test"@) by {
                assert("commented-out-test"@.len() != "no-test"@.len());
            }
            assert("commented-out-test"@ != "silent-skip"@) by {
                assert("commented-out-test"@.len() != "silent-skip"@.len());
            }
            assert("commented-out-test"@ != "fragile-test"@) by {
                assert("commented-out-test"@.len() != "fragile-test"@.len());
            }
            assert("commented-out-test"@ != "giant-test"@) by {
                assert("commented-out-test"@.len() != "giant-test"@.len());
            }
        },
    }
}

/// A detected smell, as its contract sees it.
pub struct SmellView {
    pub smell_type: SmellType,
    pub file_path: Seq<char>,
    pub line: usize,
    pub function_name: Option<Seq<char>>,
    pub message: Seq<char>,
}

/// The view of a smell of kind `t` with the standard message.
pub open spec fn smell_at(
    t: SmellType,
    path: Seq<char>,
    line: usize,
    function_name: Option<Seq<char>>,
) -> SmellView {
    SmellView { smell_type: t, file_path: path, line, function_name, message: roar_text(t) }
}

/// The view of an optional string.
pub open spec fn opt_view(s: Option<String>) -> Option<Seq<char>> {
    match s {
        Some(x) => Some(x@),
        None => None,
    }
}

/// A detected test smell.
#[derive(Debug, Clone)]
pub struct TestSmell {
    pub smell_type: SmellType,
    pub file_path: String,
    pub line: usize,
    pub function_name: Option<String>,
    pub message: String,
}

impl View for TestSmell {
    type V = SmellView;

    open spec fn view(&self) -> SmellView {
        SmellView {
            smell_type: self.smell_type,
            file_path: self.file_path@,
            line: self.line,
            function_name: opt_view(self.function_name),
            message: self.message@,
        }
    }
}

/// A copy of `s` with the same contents.
pub fn copy_string(s: &String) -> (r: String)
    ensures
        r@ == s@,
{
    String::from_str(s.as_str())
}

/// A copy of an optional string with the same contents.
pub fn copy_opt_string(s: &Option<String>) -> (r: Option<String>)
    ensures
        opt_view(r) == opt_view(*s),
{
    match s {
        Some(x) => Some(copy_string(x)),
        None => None,
    }
}

impl TestSmell {
    /// A smell of kind `smell_type` at `file_path:line`, with the standard message.
    pub fn new(smell_type: SmellType, file_path: &str, line: usize, function_name: Option<String>) -> (r:
        Self)
        ensures
            r@ == smell_at(smell_type, file_path@, line, opt_view(function_name)),
    {
        TestSmell {
            message: String::from_str(smell_type.roar()),
            smell_type,
            file_path: String::from_str(file_path),
            line,
            function_name,
        }
    }

    /// The same smell with its message replaced by `message`.
    pub fn with_message(self, message: &str) -> (r: Self)
        ensures
            r@ == (SmellView { message: message@, ..self@ }),
    {
        TestSmell { message: String::from_str(message), ..self }
    }

    /// An independent copy of this smell.
    pub fn duplicate(&self) -> (r: Self)
        ensures
            r@ == self@,
    {
        TestSmell {
            smell_type: self.smell_type,
            file_path: copy_string(&self.file_path),
            line: self.line,
            function_name: copy_opt_string(&self.function_name),
            message: copy_string(&self.message),
        }
    }
}

/// What a language front end found in one test function.
#[derive(Debug, Clone)]
pub struct TestFunction {
    pub name: String,
    /// 1-based line of the function's declaration.
    pub line: usize,
    pub body_source: String,
    pub is_ignored: bool,
    pub has_assertion: bool,
    pub has_sleep: bool,
    /// Any branching or looping construct.
    pub has_conditional: bool,
    /// A true branch (if/match/switch/case), loops excluded.
    pub has_branching: bool,
    pub has_for_loop: bool,
    pub has_while_loop: bool,
    pub has_assertion_in_loop: bool,
    pub has_print: bool,
    pub is_empty: bool,
    pub assertion_count: usize,
    /// Boolean-only assertions (such as `assert!`).
    pub assert_only_count: usize,
    /// Value-showing assertions without a message.
    pub assertions_without_message: usize,
    /// Boolean-only assertions without a message.
    pub assert_only_without_message: usize,
    /// Numbers outside -10..=10 found in assertions, with their lines.
    pub magic_numbers: Vec<(i64, usize)>,
    /// A conditional early return near the start of the body.
    pub has_early_return: bool,
    /// Reads the clock or sets a timeout.
    pub has_timeout_dependency: bool,
    pub body_line_count: usize,
}

/// What a language front end found in one file.
#[derive(Debug, Clone)]
pub struct TestFile {
    pub path: String,
    pub language: String,
    pub test_functions: Vec<TestFunction>,
    pub source: Option<String>,
    /// A refinement of the language, such as `"xcuitest"`.
    pub flavor: Option<String>,
}

/// A test function as its contract sees it.
pub struct FunctionView {
    pub name: Seq<char>,
    pub line: usize,
    pub body_source: Seq<char>,
    pub is_ignored: bool,
    pub has_assertion: bool,
    pub has_sleep: bool,
    pub has_conditional: bool,
    pub has_branching: bool,
    pub has_for_loop: bool,
    pub has_while_loop: bool,
    pub has_assertion_in_loop: bool,
    pub has_print: bool,
    pub is_empty: bool,
    pub assertion_count: usize,
    pub assert_only_count: usize,
    pub assertions_without_message: usize,
    pub assert_only_without_message: usize,
    pub magic_numbers: Seq<(i64, usize)>,
    pub has_early_return: bool,
    pub has_timeout_dependency: bool,
    pub body_line_count: usize,
}

impl View for TestFunction {
    type V = FunctionView;

    open spec fn view(&self) -> FunctionView {
        FunctionView {
            name: self.name@,
            line: self.line,
            body_source: self.body_source@,
            is_ignored: self.is_ignored,
            has_assertion: self.has_assertion,
            has_sleep: self.has_sleep,
            has_conditional: self.has_conditional,
            has_branching: self.has_branching,
            has_for_loop: self.has_for_loop,
            has_while_loop: self.has_while_loop,
            has_assertion_in_loop: self.has_assertion_in_loop,
            has_print: self.has_print,
            is_empty: self.is_empty,
            assertion_count: self.assertion_count,
            assert_only_count: self.assert_only_count,
            assertions_without_message: self.assertions_without_message,
            assert_only_without_message: self.assert_only_without_message,
            magic_numbers: self.magic_numbers@,
            has_early_return: self.has_early_return,
            has_timeout_dependency: self.has_timeout_dependency,
            body_line_count: self.body_line_count,
        }
    }
}

/// `x + 1`, or `x` itself at the top of the range: counters saturate.
pub open spec fn bump(x: usize) -> usize {
    if x < usize::MAX {
        (x + 1) as usize
    } else {
        x
    }
}

/// `x + 1`, or `x` itself at the top of the range.
pub fn bump_exec(x: usize) -> (r: usize)
    ensures
        r == bump(x),
{
    if x < usize::MAX {
        x + 1
    } else {
        x
    }
}

} // verus!
