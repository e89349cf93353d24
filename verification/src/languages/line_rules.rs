//! Line tests shared by the line-oriented front ends (Go and shell): a line
//! is trimmed, comment lines are skipped, and the rest is searched for
//! substrings or regular expressions.
use vstd::prelude::*;
use crate::model::detector::LineRule;
use crate::pattern::{compile, pattern_matches, re_match, Pattern};
use crate::text::{
    chars_of, contains, contains_exec, has_prefix, lines, starts_with, starts_with_str, trim,
    trim_chars,
};

verus! {

/// How many lines of `ls` the test `f` accepts.
pub open spec fn count_flagged(ls: Seq<Seq<char>>, f: spec_fn(Seq<char>) -> bool) -> nat
    decreases ls.len(),
{
    if ls.len() == 0 {
        0
    } else {
        count_flagged(ls.drop_last(), f) + if f(ls.last()) {
            1nat
        } else {
            0nat
        }
    }
}

/// Whether the test `f` accepts some line of `ls`.
pub open spec fn any_flagged(ls: Seq<Seq<char>>, f: spec_fn(Seq<char>) -> bool) -> bool {
    exists|i: int| 0 <= i < ls.len() && f(#[trigger] ls[i])
}

/// The view of a list of lines.
pub open spec fn lines_view(ls: Seq<Vec<char>>) -> Seq<Seq<char>> {
    ls.map_values(|l: Vec<char>| l@)
}

/// How many lines of `ls` the rule accepts.
pub fn count_lines<R: LineRule>(ls: &Vec<Vec<char>>, rule: &R) -> (r: usize)
    ensures
        r == count_flagged(lines_view(ls@), |l: Seq<char>| rule.flags(l)),
        r <= ls@.len(),
{
    let ghost lv = lines_view(ls@);
    let mut n: usize = 0;
    let mut i: usize = 0;
    while i < ls.len()
        invariant
            i <= ls@.len(),
            lv == lines_view(ls@),
            n == count_flagged(lv.take(i as int), |l: Seq<char>| rule.flags(l)),
            n <= i,
        decreases ls.len() - i,
    {
        proof {
            assert(lv.take(i as int + 1).drop_last() =~= lv.take(i as int));
            assert(lv.take(i as int + 1).last() == ls@[i as int]@);
        }
        if rule.check(&ls[i]) {
            n += 1;
        }
        i += 1;
    }
    proof {
        assert(lv.take(lv.len() as int) =~= lv);
    }
    n
}

/// Whether the rule accepts some line of `ls`.
pub fn any_line<R: LineRule>(ls: &Vec<Vec<char>>, rule: &R) -> (r: bool)
    ensures
        r == any_flagged(lines_view(ls@), |l: Seq<char>| rule.flags(l)),
{
    let ghost lv = lines_view(ls@);
    let mut i: usize = 0;
    while i < ls.len()
        invariant
            i <= ls@.len(),
            lv == lines_view(ls@),
            forall|j: int| 0 <= j < i ==> !rule.flags(#[trigger] lv[j]),
        decreases ls.len() - i,
    {
        if rule.check(&ls[i]) {
            proof {
                assert(lv[i as int] == ls@[i as int]@);
                assert((|l: Seq<char>| rule.flags(l))(lv[i as int]));
            }
            return true;
        }
        proof {
            assert(lv[i as int] == ls@[i as int]@);
        }
        i += 1;
    }
    proof {
        assert forall|j: int| 0 <= j < lv.len() implies !(|l: Seq<char>| rule.flags(l))(
            #[trigger] lv[j],
        ) by {}
    }
    false
}

/// The views of a list of string literals.
pub open spec fn strs_view(ps: Seq<&str>) -> Seq<Seq<char>> {
    ps.map_values(|p: &str| p@)
}

/// Whether the trimmed line is not a comment and contains one of `needles`.
pub open spec fn contains_any(l: Seq<char>, comment: Seq<char>, needles: Seq<Seq<char>>) -> bool {
    let t = trim(l);
    !starts_with(t, comment) && exists|k: int| 0 <= k < needles.len() && contains(t, #[trigger] needles[k])
}

/// A line test: not a comment, and contains one of a list of substrings.
pub struct ContainsAny {
    comment: Vec<char>,
    needles: Vec<Vec<char>>,
}

impl ContainsAny {
    /// The comment marker.
    pub closed spec fn comment(&self) -> Seq<char> {
        self.comment@
    }

    /// The substrings looked for.
    pub closed spec fn needles(&self) -> Seq<Seq<char>> {
        lines_view(self.needles@)
    }

    /// The test for lines that do not start with `comment` and contain one of `needles`.
    pub fn new(comment: &str, needles: &[&str]) -> (r: Self)
        ensures
            r.comment() == comment@,
            r.needles() == strs_view(needles@),
    {
        let mut out: Vec<Vec<char>> = Vec::new();
        let mut i: usize = 0;
        while i < needles.len()
            invariant
                i <= needles@.len(),
                lines_view(out@) == strs_view(needles@.take(i as int)),
            decreases needles.len() - i,
        {
            let c = chars_of(needles[i]);
            let ghost before = lines_view(out@);
            out.push(c);
            proof {
                assert(lines_view(out@) =~= before.push(needles@[i as int]@));
                assert(strs_view(needles@.take(i as int + 1)) =~= strs_view(
                    needles@.take(i as int),
                ).push(needles@[i as int]@));
            }
            i += 1;
        }
        proof {
            assert(needles@.take(needles@.len() as int) =~= needles@);
        }
        ContainsAny { comment: chars_of(comment), needles: out }
    }
}

impl LineRule for ContainsAny {
    open spec fn flags(&self, l: Seq<char>) -> bool {
        contains_any(l, self.comment(), self.needles())
    }

    fn check(&self, l: &[char]) -> (b: bool) {
        let t = trim_chars(l);
        if has_prefix(&t, &self.comment) {
            return false;
        }
        let ghost nv = self.needles();
        let mut k: usize = 0;
        while k < self.needles.len()
            invariant
                k <= self.needles@.len(),
                nv == self.needles(),
                nv == lines_view(self.needles@),
                t@ == trim(l@),
                !starts_with(t@, self.comment()),
                forall|j: int| 0 <= j < k ==> !contains(t@, #[trigger] nv[j]),
            decreases self.needles.len() - k,
        {
            if contains_exec(&t, &self.needles[k]) {
                proof {
                    assert(nv[k as int] == self.needles@[k as int]@);
                    assert(contains(t@, nv[k as int]));
                }
                return true;
            }
            proof {
                assert(nv[k as int] == self.needles@[k as int]@);
            }
            k += 1;
        }
        false
    }
}

/// Whether the trimmed line is not a comment and one of the patterns matches it.
pub open spec fn matches_any(l: Seq<char>, comment: Seq<char>, patterns: Seq<Seq<char>>) -> bool {
    let t = trim(l);
    !starts_with(t, comment) && exists|k: int|
        0 <= k < patterns.len() && re_match(#[trigger] patterns[k], t)
}

/// A line test: not a comment, and one of a list of regular expressions matches.
pub struct MatchesAny {
    comment: Vec<char>,
    compiled: Vec<Option<Pattern>>,
    sources: Ghost<Seq<Seq<char>>>,
}

impl MatchesAny {
    #[verifier::type_invariant]
    spec fn wf(&self) -> bool {
        &&& self.compiled@.len() == self.sources@.len()
        &&& forall|k: int|
            0 <= k < self.compiled@.len() ==> match #[trigger] self.compiled@[k] {
                Some(p) => p.source() == self.sources@[k] && crate::pattern::regex_compiles(
                    self.sources@[k],
                ),
                None => !crate::pattern::regex_compiles(self.sources@[k]),
            }
    }

    /// The comment marker.
    pub closed spec fn comment(&self) -> Seq<char> {
        self.comment@
    }

    /// The patterns tried.
    pub closed spec fn patterns(&self) -> Seq<Seq<char>> {
        self.sources@
    }

    /// The test for lines that do not start with `comment` and match one of `patterns`.
    pub fn new(comment: &str, patterns: &Vec<String>) -> (r: Self)
        ensures
            r.comment() == comment@,
            r.patterns() == patterns@.map_values(|p: String| p@),
    {
        let ghost want = patterns@.map_values(|p: String| p@);
        let mut out: Vec<Option<Pattern>> = Vec::new();
        let mut i: usize = 0;
        while i < patterns.len()
            invariant
                i <= patterns@.len(),
                want == patterns@.map_values(|p: String| p@),
                out@.len() == i,
                forall|k: int|
                    0 <= k < i ==> match #[trigger] out@[k] {
                        Some(p) => p.source() == want[k] && crate::pattern::regex_compiles(
                            want[k],
                        ),
                        None => !crate::pattern::regex_compiles(want[k]),
                    },
            decreases patterns.len() - i,
        {
            let p = compile(patterns[i].as_str());
            out.push(p);
            i += 1;
        }
        MatchesAny { comment: chars_of(comment), compiled: out, sources: Ghost(want) }
    }

    /// The test with a single pattern.
    pub fn single(comment: &str, pattern: &str) -> (r: Self)
        ensures
            r.comment() == comment@,
            r.patterns() == seq![pattern@],
    {
        let v = vec![String::from_str(pattern)];
        let r = Self::new(comment, &v);
        proof {
            assert(v@.map_values(|p: String| p@) =~= seq![pattern@]);
        }
        r
    }
}

impl LineRule for MatchesAny {
    open spec fn flags(&self, l: Seq<char>) -> bool {
        matches_any(l, self.comment(), self.patterns())
    }

    fn check(&self, l: &[char]) -> (b: bool) {
        proof {
            use_type_invariant(self);
        }
        let t = trim_chars(l);
        if has_prefix(&t, &self.comment) {
            return false;
        }
        let ghost pv = self.patterns();
        let mut k: usize = 0;
        while k < self.compiled.len()
            invariant
                k <= self.compiled@.len(),
                pv == self.patterns(),
                self.wf(),
                t@ == trim(l@),
                !starts_with(t@, self.comment()),
                forall|j: int| 0 <= j < k ==> !re_match(#[trigger] pv[j], t@),
            decreases self.compiled.len() - k,
        {
            let hit = match &self.compiled[k] {
                Some(p) => pattern_matches(p, &t),
                None => false,
            };
            proof {
                let e = self.compiled@[k as int];
                assert(hit == re_match(pv[k as int], t@));
            }
            if hit {
                return true;
            }
            k += 1;
        }
        false
    }
}

/// Whether a trimmed line that is not a `comment` starts with `kw` followed by a space or
/// `next`, or is `kw` alone.
pub open spec fn keyword_line(l: Seq<char>, comment: Seq<char>, kw: Seq<char>, next: Seq<char>) -> bool {
    let t = trim(l);
    !starts_with(t, comment) && (starts_with(t, kw + " "@) || starts_with(t, kw + next) || t == kw)
}

/// The test for lines that are not comments, starting with keyword `kw` followed by a
/// space or `next`, or holding `kw` alone.
pub struct KeywordLine {
    pub comment: &'static str,
    pub kw: &'static str,
    pub next: &'static str,
}

impl LineRule for KeywordLine {
    open spec fn flags(&self, l: Seq<char>) -> bool {
        keyword_line(l, self.comment@, self.kw@, self.next@)
    }

    fn check(&self, l: &[char]) -> (b: bool) {
        let t = trim_chars(l);
        if starts_with_str(&t, self.comment) {
            return false;
        }
        let kw = chars_of(self.kw);
        let mut with_space = chars_of(self.kw);
        with_space.push(' ');
        let mut with_next = chars_of(self.kw);
        let nx = chars_of(self.next);
        let mut k: usize = 0;
        let ghost base = with_next@;
        while k < nx.len()
            invariant
                k <= nx@.len(),
                with_next@ =~= base + nx@.subrange(0, k as int),
            decreases nx.len() - k,
        {
            with_next.push(nx[k]);
            k += 1;
        }
        proof {
            assert(with_space@ =~= self.kw@ + " "@) by {
                reveal_strlit(" ");
            }
            assert(nx@.subrange(0, nx@.len() as int) =~= nx@);
        }
        crate::text::has_prefix(&t, &with_space) || crate::text::has_prefix(&t, &with_next)
            || crate::text::equals_str(&t, self.kw)
    }
}

/// Whether the trimmed line starts with `prefix`.
pub open spec fn prefix_line(l: Seq<char>, prefix: Seq<char>) -> bool {
    starts_with(trim(l), prefix)
}

/// The test for lines whose trimmed text starts with a prefix.
pub struct PrefixLine {
    pub prefix: &'static str,
}

impl LineRule for PrefixLine {
    open spec fn flags(&self, l: Seq<char>) -> bool {
        prefix_line(l, self.prefix@)
    }

    fn check(&self, l: &[char]) -> (b: bool) {
        let t = trim_chars(l);
        crate::text::starts_with_str(&t, self.prefix)
    }
}

} // verus!
