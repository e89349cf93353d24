//! Regular expressions, through the `regex` crate.
//!
//! What a regular expression matches takes the `regex` crate's whole syntax
//! to state, so its results carry names here: each is a function of the
//! pattern text and the haystack alone. The line scanners of the Go, shell
//! and Python front ends are then proved against those names.
use vstd::prelude::*;
use regex::Regex;

verus! {

#[verifier::external_type_specification]
#[verifier::external_body]
pub struct ExRegex(Regex);

/// Whether `regex::Regex::new` accepts `pattern`.
pub uninterp spec fn regex_compiles(pattern: Seq<char>) -> bool;

/// Whether the compiled `pattern` matches somewhere in `text` (`Regex::is_match`).
pub uninterp spec fn regex_is_match(pattern: Seq<char>, text: Seq<char>) -> bool;

/// The text of capture group 1 of the leftmost match of `pattern` in `text`,
/// if there is a match and the group took part in it (`Regex::captures`).
pub uninterp spec fn regex_group1(pattern: Seq<char>, text: Seq<char>) -> Option<Seq<char>>;

/// Capture group 1 of each successive non-overlapping match of `pattern` in
/// `text`, `None` where the group took no part (`Regex::captures_iter`).
pub uninterp spec fn regex_group1_each(pattern: Seq<char>, text: Seq<char>) -> Seq<
    Option<Seq<char>>,
>;

/// The view of an optional character vector.
pub open spec fn opt_chars(o: Option<Vec<char>>) -> Option<Seq<char>> {
    match o {
        Some(v) => Some(v@),
        None => None,
    }
}

/// The groups that are present, in order.
pub open spec fn present(gs: Seq<Option<Seq<char>>>) -> Seq<Seq<char>>
    decreases gs.len(),
{
    if gs.len() == 0 {
        Seq::empty()
    } else {
        present(gs.drop_last()) + match gs.last() {
            Some(g) => seq![g],
            None => Seq::empty(),
        }
    }
}

/// Whether `c` has a meaning of its own in a regular expression.
pub open spec fn is_meta_char(c: char) -> bool {
    c == '\\' || c == '.' || c == '+' || c == '*' || c == '?' || c == '(' || c == ')' || c == '|'
        || c == '[' || c == ']' || c == '{' || c == '}' || c == '^' || c == '$' || c == '#' || c
        == '&' || c == '-' || c == '~'
}

/// `text` with a backslash before every regular-expression meta character,
/// so that it matches itself literally.
pub open spec fn regex_escaped(text: Seq<char>) -> Seq<char>
    decreases text.len(),
{
    if text.len() == 0 {
        Seq::empty()
    } else {
        regex_escaped(text.drop_last()) + if is_meta_char(text.last()) {
            seq!['\\', text.last()]
        } else {
            seq![text.last()]
        }
    }
}

/// Whether `pattern` compiles and matches somewhere in `text`.
pub open spec fn re_match(pattern: Seq<char>, text: Seq<char>) -> bool {
    regex_compiles(pattern) && regex_is_match(pattern, text)
}

/// Capture group 1 of the first match of `pattern` in `text`, when `pattern` compiles.
pub open spec fn re_group1(pattern: Seq<char>, text: Seq<char>) -> Option<Seq<char>> {
    if regex_compiles(pattern) {
        regex_group1(pattern, text)
    } else {
        None
    }
}

/// Capture group 1 of every match of `pattern` in `text`, when `pattern` compiles.
pub open spec fn re_group1_all(pattern: Seq<char>, text: Seq<char>) -> Seq<Seq<char>> {
    if regex_compiles(pattern) {
        present(regex_group1_each(pattern, text))
    } else {
        Seq::empty()
    }
}

/// A compiled regular expression together with the pattern it was compiled from.
pub struct Pattern {
    source: String,
    re: Regex,
}

impl Pattern {
    /// The pattern text this expression was compiled from.
    pub closed spec fn source(&self) -> Seq<char> {
        self.source@
    }
}

/// Compiles `pattern` with `regex::Regex::new`. The result is `Some` exactly
/// when the crate accepts the pattern, and then remembers the pattern text.
#[verifier::external_body]
fn regex_new(pattern: &str) -> (r: Option<Pattern>)
    ensures
        r is Some <==> regex_compiles(pattern@),
        r matches Some(p) ==> p.source() == pattern@,
{
    Regex::new(pattern).ok().map(|re| Pattern { source: pattern.to_string(), re })
}

/// `Regex::is_match` of the compiled pattern on `text`.
#[verifier::external_body]
fn regex_matches(p: &Pattern, text: &[char]) -> (r: bool)
    ensures
        r == regex_is_match(p.source(), text@),
{
    p.re.is_match(&String::from_iter(text))
}

/// Capture group 1 of `Regex::captures` of the compiled pattern on `text`.
#[verifier::external_body]
fn regex_captures_group1(p: &Pattern, text: &[char]) -> (r: Option<Vec<char>>)
    ensures
        match r {
            Some(g) => regex_group1(p.source(), text@) == Some(g@),
            None => regex_group1(p.source(), text@) is None,
        },
{
    let hay = String::from_iter(text);
    p.re.captures(&hay).and_then(|c| c.get(1)).map(|m| m.as_str().chars().collect())
}

/// Capture group 1 of each item of `Regex::captures_iter` of the compiled
/// pattern on `text`.
#[verifier::external_body]
fn regex_captures_iter_group1(p: &Pattern, text: &[char]) -> (r: Vec<Option<Vec<char>>>)
    ensures
        r@.map_values(|g: Option<Vec<char>>| opt_chars(g)) == regex_group1_each(p.source(), text@),
{
    let hay = String::from_iter(text);
    p.re.captures_iter(&hay).map(|c| c.get(1).map(|m| m.as_str().chars().collect())).collect()
}

/// `regex::escape` of `text`: each meta character preceded by a backslash.
#[verifier::external_body]
fn regex_escape(text: &str) -> (r: String)
    ensures
        r@ == regex_escaped(text@),
{
    regex::escape(text)
}

/// Compiles `pattern`; `None` when the `regex` crate refuses it.
pub fn compile(pattern: &str) -> (r: Option<Pattern>)
    ensures
        r is Some <==> regex_compiles(pattern@),
        r matches Some(p) ==> p.source() == pattern@,
{
    regex_new(pattern)
}

/// Whether `pattern` compiles and matches somewhere in `text`.
pub fn matches(pattern: &str, text: &[char]) -> (r: bool)
    ensures
        r == re_match(pattern@, text@),
{
    match regex_new(pattern) {
        Some(p) => regex_matches(&p, text),
        None => false,
    }
}

/// Whether the compiled pattern matches somewhere in `text`.
pub fn pattern_matches(p: &Pattern, text: &[char]) -> (r: bool)
    ensures
        r == regex_is_match(p.source(), text@),
{
    regex_matches(p, text)
}

/// Capture group 1 of the first match of the compiled pattern in `text`.
pub fn pattern_group1(p: &Pattern, text: &[char]) -> (r: Option<Vec<char>>)
    ensures
        match r {
            Some(g) => regex_group1(p.source(), text@) == Some(g@),
            None => regex_group1(p.source(), text@) is None,
        },
{
    regex_captures_group1(p, text)
}

/// Capture group 1 of every match of the compiled pattern in `text` where the group is present.
pub fn pattern_group1_all(p: &Pattern, text: &[char]) -> (r: Vec<Vec<char>>)
    ensures
        r@.map_values(|g: Vec<char>| g@) == present(regex_group1_each(p.source(), text@)),
{
    let each = regex_captures_iter_group1(p, text);
    let ghost gs = each@.map_values(|g: Option<Vec<char>>| opt_chars(g));
    let mut out: Vec<Vec<char>> = Vec::new();
    let mut i: usize = 0;
    while i < each.len()
        invariant
            i <= each@.len(),
            gs == each@.map_values(|g: Option<Vec<char>>| opt_chars(g)),
            out@.map_values(|g: Vec<char>| g@) == present(gs.take(i as int)),
        decreases each.len() - i,
    {
        let ghost before = out@.map_values(|g: Vec<char>| g@);
        proof {
            assert(gs.take(i as int + 1).drop_last() =~= gs.take(i as int));
            assert(gs.take(i as int + 1).last() == opt_chars(each@[i as int]));
        }
        match &each[i] {
            Some(g) => {
                let copy = crate::text::slice_chars(g, 0, g.len());
                proof {
                    assert(copy@ =~= g@);
                }
                out.push(copy);
                proof {
                    assert(out@.map_values(|x: Vec<char>| x@) =~= before.push(g@));
                }
            },
            None => {
                proof {
                    assert(before + Seq::<Seq<char>>::empty() =~= before);
                }
            },
        }
        i += 1;
    }
    proof {
        assert(gs.take(gs.len() as int) =~= gs);
    }
    out
}

/// The pattern `\b<word>\b`, with `word` escaped: it matches `word` as a whole word.
pub fn word_pattern(word: &str) -> (r: String)
    ensures
        r@ == "\\b"@ + regex_escaped(word@) + "\\b"@,
{
    let escaped = regex_escape(word);
    let mut out = String::from_str("\\b");
    out.append(escaped.as_str());
    out.append("\\b");
    out
}

} // verus!
