//! Character-level text utilities shared by every language front end.
//!
//! Source text is handled as a sequence of `char`s. Each executable helper is
//! tied to a spec function that says what it computes, so that the detectors
//! can state their behaviour in terms of lines, prefixes and substrings.
use vstd::prelude::*;

verus! {

/// Unicode `White_Space` property, the set that `char::is_whitespace` and
/// `str::trim` use.
pub open spec fn is_ws(c: char) -> bool {
    let n = c as u32;
    (0x09 <= n && n <= 0x0d) || n == 0x20 || n == 0x85 || n == 0xa0 || n == 0x1680 || (0x2000
        <= n && n <= 0x200a) || n == 0x2028 || n == 0x2029 || n == 0x202f || n == 0x205f || n
        == 0x3000
}

/// Whether `c` is white space in the sense of `is_ws`.
pub fn char_is_ws(c: char) -> (r: bool)
    ensures
        r == is_ws(c),
{
    let n = c as u32;
    (0x09 <= n && n <= 0x0d) || n == 0x20 || n == 0x85 || n == 0xa0 || n == 0x1680 || (0x2000
        <= n && n <= 0x200a) || n == 0x2028 || n == 0x2029 || n == 0x202f || n == 0x205f || n
        == 0x3000
}

/// `s` with leading white space removed.
pub open spec fn trim_start(s: Seq<char>) -> Seq<char>
    decreases s.len(),
{
    if s.len() > 0 && is_ws(s[0]) {
        trim_start(s.drop_first())
    } else {
        s
    }
}

/// `s` with trailing white space removed.
pub open spec fn trim_end(s: Seq<char>) -> Seq<char>
    decreases s.len(),
{
    if s.len() > 0 && is_ws(s.last()) {
        trim_end(s.drop_last())
    } else {
        s
    }
}

/// `s` with white space removed on both sides, as `str::trim` does.
pub open spec fn trim(s: Seq<char>) -> Seq<char> {
    trim_end(trim_start(s))
}

/// The characters of `a` followed by those of `b`.
pub fn concat_chars(a: &[char], b: &[char]) -> (r: Vec<char>)
    ensures
        r@ == a@ + b@,
{
    let mut out = slice_chars(a, 0, a.len());
    let mut i: usize = 0;
    while i < b.len()
        invariant
            i <= b@.len(),
            out@ =~= a@ + b@.subrange(0, i as int),
        decreases b.len() - i,
    {
        out.push(b[i]);
        i += 1;
    }
    proof {
        assert(b@.subrange(0, b@.len() as int) =~= b@);
    }
    out
}

/// Whether `s` is one of the strings `opts`.
pub open spec fn one_of(s: Seq<char>, opts: Seq<&str>) -> bool {
    exists|i: int| 0 <= i < opts.len() && s == (#[trigger] opts[i])@
}

/// Whether `s` is one of the strings `opts`.
pub fn one_of_exec(s: &[char], opts: &[&str]) -> (r: bool)
    ensures
        r == one_of(s@, opts@),
{
    let mut i: usize = 0;
    while i < opts.len()
        invariant
            i <= opts@.len(),
            forall|j: int| 0 <= j < i ==> s@ != (#[trigger] opts@[j])@,
        decreases opts.len() - i,
    {
        if equals_str(s, opts[i]) {
            return true;
        }
        i += 1;
    }
    false
}

/// `s` without any occurrence of `c`.
pub open spec fn remove_char(s: Seq<char>, c: char) -> Seq<char>
    decreases s.len(),
{
    if s.len() == 0 {
        s
    } else {
        remove_char(s.drop_last(), c) + if s.last() == c {
            Seq::empty()
        } else {
            seq![s.last()]
        }
    }
}

/// `s` without any occurrence of `c`.
pub fn remove_char_exec(s: &[char], c: char) -> (r: Vec<char>)
    ensures
        r@ == remove_char(s@, c),
{
    let mut out: Vec<char> = Vec::new();
    let mut i: usize = 0;
    while i < s.len()
        invariant
            i <= s@.len(),
            out@ == remove_char(s@.take(i as int), c),
        decreases s.len() - i,
    {
        proof {
            assert(s@.take(i as int + 1).drop_last() =~= s@.take(i as int));
        }
        if s[i] != c {
            out.push(s[i]);
        }
        proof {
            assert(out@ =~= remove_char(s@.take(i as int + 1), c));
        }
        i += 1;
    }
    proof {
        assert(s@.take(s@.len() as int) =~= s@);
    }
    out
}

/// Whether `p` is a prefix of `s`.
pub open spec fn starts_with(s: Seq<char>, p: Seq<char>) -> bool {
    p.len() <= s.len() && s.subrange(0, p.len() as int) =~= p
}

/// Whether `p` is a suffix of `s`.
pub open spec fn ends_with(s: Seq<char>, p: Seq<char>) -> bool {
    p.len() <= s.len() && s.subrange(s.len() - p.len(), s.len() as int) =~= p
}

/// Whether `p` occurs in `s` starting at index `i`.
pub open spec fn occurs_at(s: Seq<char>, p: Seq<char>, i: int) -> bool {
    0 <= i && i + p.len() <= s.len() && s.subrange(i, i + p.len()) =~= p
}

/// Whether `p` occurs anywhere in `s`.
#[verifier::opaque]
pub open spec fn contains(s: Seq<char>, p: Seq<char>) -> bool {
    exists|i: int| occurs_at(s, p, i)
}

/// The index of the first occurrence of `p` in `s`, if any.
#[verifier::opaque]
pub open spec fn find(s: Seq<char>, p: Seq<char>) -> Option<int> {
    if contains(s, p) {
        Some(choose|i: int| occurs_at(s, p, i) && forall|j: int| 0 <= j < i ==> !occurs_at(s, p, j))
    } else {
        None
    }
}

/// The index of the last occurrence of the character `c` in `s`, if any.
pub open spec fn rfind_char(s: Seq<char>, c: char) -> Option<int>
    decreases s.len(),
{
    if s.len() == 0 {
        None
    } else if s.last() == c {
        Some(s.len() - 1)
    } else {
        rfind_char(s.drop_last(), c)
    }
}

/// How many times the character `c` occurs in `s`.
pub open spec fn count_char(s: Seq<char>, c: char) -> nat
    decreases s.len(),
{
    if s.len() == 0 {
        0
    } else {
        count_char(s.drop_last(), c) + if s.last() == c {
            1nat
        } else {
            0nat
        }
    }
}

/// The index of the first `'\n'` in `s`, or `s.len()` when there is none.
pub open spec fn newline_index(s: Seq<char>) -> int
    decreases s.len(),
{
    if s.len() == 0 {
        0
    } else if s[0] == '\n' {
        0
    } else {
        1 + newline_index(s.drop_first())
    }
}

/// The first line of `s` and the text after its line end, as `str::lines`
/// splits them: a `'\r'` is dropped only where it stands before the `'\n'`.
pub open spec fn first_line(s: Seq<char>) -> (Seq<char>, Seq<char>) {
    let i = newline_index(s);
    if i < s.len() {
        let raw = s.subrange(0, i);
        let line = if raw.len() > 0 && raw.last() == '\r' {
            raw.drop_last()
        } else {
            raw
        };
        (line, s.subrange(i + 1, s.len() as int))
    } else {
        (s, Seq::empty())
    }
}

/// The lines of `s`, as `str::lines` yields them: the text is split at each
/// `"\n"` or `"\r\n"`, and the final line end is optional.
pub open spec fn lines(s: Seq<char>) -> Seq<Seq<char>>
    decreases s.len(),
{
    if s.len() == 0 {
        Seq::empty()
    } else {
        proof {
            lemma_newline_index_bounds(s);
        }
        let (line, rest) = first_line(s);
        seq![line] + lines(rest)
    }
}

/// Joins `parts` with `"\n"` between them.
pub open spec fn join_lines(parts: Seq<Seq<char>>) -> Seq<char>
    decreases parts.len(),
{
    if parts.len() == 0 {
        Seq::empty()
    } else if parts.len() == 1 {
        parts[0]
    } else {
        join_lines(parts.drop_last()) + seq!['\n'] + parts.last()
    }
}

pub proof fn lemma_newline_index_bounds(s: Seq<char>)
    ensures
        0 <= newline_index(s) <= s.len(),
        newline_index(s) < s.len() ==> s[newline_index(s)] == '\n',
        forall|j: int| 0 <= j < newline_index(s) ==> s[j] != '\n',
    decreases s.len(),
{
    if s.len() > 0 && s[0] != '\n' {
        let t = s.drop_first();
        lemma_newline_index_bounds(t);
        assert forall|j: int| 0 <= j < newline_index(s) implies s[j] != '\n' by {
            if j > 0 {
                assert(s[j] == t[j - 1]);
            }
        }
    }
}

pub proof fn lemma_newline_index_at(s: Seq<char>, k: int)
    requires
        0 <= k <= s.len(),
        k < s.len() ==> s[k] == '\n',
        forall|j: int| 0 <= j < k ==> s[j] != '\n',
    ensures
        newline_index(s) == k,
    decreases s.len(),
{
    if s.len() > 0 && s[0] != '\n' {
        assert(k > 0);
        let t = s.drop_first();
        assert forall|j: int| 0 <= j < k - 1 implies t[j] != '\n' by {
            assert(t[j] == s[j + 1]);
        }
        lemma_newline_index_at(t, k - 1);
    }
}

pub proof fn lemma_trim_start_skip(s: Seq<char>, k: int)
    requires
        0 <= k <= s.len(),
        forall|j: int| 0 <= j < k ==> is_ws(s[j]),
    ensures
        trim_start(s) == trim_start(s.subrange(k, s.len() as int)),
    decreases k,
{
    if k > 0 {
        let t = s.drop_first();
        assert forall|j: int| 0 <= j < k - 1 implies is_ws(t[j]) by {
            assert(t[j] == s[j + 1]);
        }
        lemma_trim_start_skip(t, k - 1);
        assert(t.subrange(k - 1, t.len() as int) =~= s.subrange(k, s.len() as int));
    } else {
        assert(s.subrange(0, s.len() as int) =~= s);
    }
}

pub proof fn lemma_trim_end_take(s: Seq<char>, k: int)
    requires
        0 <= k <= s.len(),
        forall|j: int| k <= j < s.len() ==> is_ws(s[j]),
    ensures
        trim_end(s) == trim_end(s.subrange(0, k)),
    decreases s.len() - k,
{
    if k < s.len() {
        let t = s.drop_last();
        lemma_trim_end_take(t, k);
        assert(t.subrange(0, k) =~= s.subrange(0, k));
    } else {
        assert(s.subrange(0, k) =~= s);
    }
}

/// The characters of `s`, in order.
pub fn chars_of(s: &str) -> (r: Vec<char>)
    ensures
        r@ == s@,
{
    let mut out: Vec<char> = Vec::new();
    for c in it: s.chars()
        invariant
            it.seq() == s@,
            out@ == s@.take(it.index() as int),
    {
        out.push(c);
        proof {
            assert(out@ =~= s@.take(it.index() as int + 1));
        }
    }
    proof {
        assert(out@ =~= s@);
    }
    out
}

/// A `String` holding exactly the characters `v`.
#[verifier::external_body]
pub(crate) fn string_of(v: &[char]) -> (r: String)
    ensures
        r@ == v@,
{
    String::from_iter(v)
}

/// The characters of `s` from index `lo` up to `hi`.
pub fn slice_chars(s: &[char], lo: usize, hi: usize) -> (r: Vec<char>)
    requires
        lo <= hi <= s@.len(),
    ensures
        r@ == s@.subrange(lo as int, hi as int),
{
    let mut out: Vec<char> = Vec::new();
    let mut i = lo;
    while i < hi
        invariant
            lo <= i <= hi <= s@.len(),
            out@ =~= s@.subrange(lo as int, i as int),
        decreases hi - i,
    {
        out.push(s[i]);
        i += 1;
    }
    out
}

/// `s` with leading and trailing white space removed.
pub fn trim_chars(s: &[char]) -> (r: Vec<char>)
    ensures
        r@ == trim(s@),
{
    let mut lo: usize = 0;
    while lo < s.len() && char_is_ws(s[lo])
        invariant
            lo <= s@.len(),
            forall|j: int| 0 <= j < lo ==> is_ws(s@[j]),
        decreases s.len() - lo,
    {
        lo += 1;
    }
    proof {
        lemma_trim_start_skip(s@, lo as int);
        let t = s@.subrange(lo as int, s@.len() as int);
        assert(lo < s@.len() ==> !is_ws(t[0]));
        assert(trim_start(t) == t);
    }
    let mut hi: usize = s.len();
    while hi > lo && char_is_ws(s[hi - 1])
        invariant
            lo <= hi <= s@.len(),
            forall|j: int| hi <= j < s@.len() ==> is_ws(s@[j]),
        decreases hi,
    {
        hi -= 1;
    }
    proof {
        let t = s@.subrange(lo as int, s@.len() as int);
        let k = hi - lo;
        assert forall|j: int| k <= j < t.len() implies is_ws(t[j]) by {
            assert(t[j] == s@[j + lo]);
        }
        lemma_trim_end_take(t, k as int);
        let u = t.subrange(0, k as int);
        assert(u =~= s@.subrange(lo as int, hi as int));
        assert(u.len() > 0 ==> u.last() == s@[hi - 1]);
        assert(trim_end(u) == u);
    }
    slice_chars(s, lo, hi)
}

/// Whether `p` is a prefix of `s`.
pub fn has_prefix(s: &[char], p: &[char]) -> (r: bool)
    ensures
        r == starts_with(s@, p@),
{
    if p.len() > s.len() {
        return false;
    }
    let mut i: usize = 0;
    while i < p.len()
        invariant
            p@.len() <= s@.len(),
            i <= p@.len(),
            forall|j: int| 0 <= j < i ==> s@[j] == p@[j],
        decreases p.len() - i,
    {
        if s[i] != p[i] {
            assert(s@.subrange(0, p@.len() as int)[i as int] != p@[i as int]);
            return false;
        }
        i += 1;
    }
    true
}

/// Whether `p` is a suffix of `s`.
pub fn has_suffix(s: &[char], p: &[char]) -> (r: bool)
    ensures
        r == ends_with(s@, p@),
{
    if p.len() > s.len() {
        return false;
    }
    let off = s.len() - p.len();
    let mut i: usize = 0;
    while i < p.len()
        invariant
            p@.len() <= s@.len(),
            off + p@.len() == s@.len(),
            s@.len() <= usize::MAX,
            i <= p@.len(),
            forall|j: int| 0 <= j < i ==> s@[off + j] == p@[j],
        decreases p.len() - i,
    {
        if s[off + i] != p[i] {
            assert(s@.subrange(off as int, s@.len() as int)[i as int] != p@[i as int]);
            return false;
        }
        i += 1;
    }
    true
}

/// Whether `p` occurs in `s` at index `i`.
pub fn occurs_at_exec(s: &[char], p: &[char], i: usize) -> (r: bool)
    ensures
        r == occurs_at(s@, p@, i as int),
{
    if i > s.len() || p.len() > s.len() - i {
        return false;
    }
    let mut k: usize = 0;
    while k < p.len()
        invariant
            i + p@.len() <= s@.len(),
            k <= p@.len(),
            i <= s@.len(),
            s@.len() <= usize::MAX,
            forall|j: int| 0 <= j < k ==> s@[i + j] == p@[j],
        decreases p.len() - k,
    {
        if s[i + k] != p[k] {
            assert(s@.subrange(i as int, i + p@.len())[k as int] != p@[k as int]);
            return false;
        }
        k += 1;
    }
    assert(s@.subrange(i as int, i + p@.len()) =~= p@);
    true
}

proof fn lemma_find_first(s: Seq<char>, p: Seq<char>, i: int)
    requires
        occurs_at(s, p, i),
        forall|j: int| 0 <= j < i ==> !occurs_at(s, p, j),
    ensures
        find(s, p) == Some(i),
{
    reveal(find);
    reveal(contains);
    assert(contains(s, p));
    let w = choose|w: int| occurs_at(s, p, w) && forall|j: int| 0 <= j < w ==> !occurs_at(s, p, j);
    assert(occurs_at(s, p, w) && forall|j: int| 0 <= j < w ==> !occurs_at(s, p, j));
    assert(w == i);
}

proof fn lemma_first_occurrence(s: Seq<char>, p: Seq<char>, k: int)
    requires
        occurs_at(s, p, k),
    ensures
        exists|w: int| occurs_at(s, p, w) && forall|j: int| 0 <= j < w ==> !occurs_at(s, p, j),
    decreases k,
{
    if exists|j: int| 0 <= j < k && occurs_at(s, p, j) {
        let j = choose|j: int| 0 <= j < k && occurs_at(s, p, j);
        lemma_first_occurrence(s, p, j);
    } else {
        assert(occurs_at(s, p, k) && forall|j: int| 0 <= j < k ==> !occurs_at(s, p, j));
    }
}

/// Where `find` gives an index, `p` occurs there.
pub proof fn lemma_find_occurs(s: Seq<char>, p: Seq<char>)
    ensures
        find(s, p) matches Some(i) ==> occurs_at(s, p, i),
{
    reveal(find);
    reveal(contains);
    if contains(s, p) {
        let k = choose|k: int| occurs_at(s, p, k);
        lemma_first_occurrence(s, p, k);
    }
}

proof fn lemma_find_none(s: Seq<char>, p: Seq<char>)
    requires
        forall|j: int| !occurs_at(s, p, j),
    ensures
        find(s, p) is None,
        !contains(s, p),
{
    reveal(find);
    reveal(contains);
}

/// The index of the first occurrence of `p` in `s`, if any.
pub fn find_exec(s: &[char], p: &[char]) -> (r: Option<usize>)
    ensures
        r matches Some(i) ==> find(s@, p@) == Some(i as int),
        r matches Some(i) ==> occurs_at(s@, p@, i as int),
        r is None <==> find(s@, p@) is None,
{
    if p.len() > s.len() {
        proof {
            lemma_find_none(s@, p@);
        }
        return None;
    }
    let last = s.len() - p.len();
    let mut i: usize = 0;
    while i <= last
        invariant
            last + p@.len() == s@.len(),
            i <= last + 1,
            forall|j: int| 0 <= j < i ==> !occurs_at(s@, p@, j),
        decreases last + 1 - i,
    {
        if occurs_at_exec(s, p, i) {
            proof {
                lemma_find_first(s@, p@, i as int);
            }
            return Some(i);
        }
        if i == last {
            proof {
                assert forall|j: int| !occurs_at(s@, p@, j) by {
                    if 0 <= j <= last {
                    }
                }
                lemma_find_none(s@, p@);
            }
            return None;
        }
        i += 1;
    }
    proof {
        assert forall|j: int| !occurs_at(s@, p@, j) by {
            if 0 <= j <= last {
            }
        }
        lemma_find_none(s@, p@);
    }
    None
}

/// Whether `p` occurs anywhere in `s`.
pub fn contains_exec(s: &[char], p: &[char]) -> (r: bool)
    ensures
        r == contains(s@, p@),
{
    reveal(find);
    find_exec(s, p).is_some()
}

/// Whether the string literal `p` occurs in `s`.
pub fn contains_str(s: &[char], p: &str) -> (r: bool)
    ensures
        r == contains(s@, p@),
{
    let pc = chars_of(p);
    contains_exec(s, &pc)
}

/// Whether `s` starts with the string literal `p`.
pub fn starts_with_str(s: &[char], p: &str) -> (r: bool)
    ensures
        r == starts_with(s@, p@),
{
    let pc = chars_of(p);
    has_prefix(s, &pc)
}

/// Whether `s` ends with the string literal `p`.
pub fn ends_with_str(s: &[char], p: &str) -> (r: bool)
    ensures
        r == ends_with(s@, p@),
{
    let pc = chars_of(p);
    has_suffix(s, &pc)
}

/// Whether `s` is exactly the string literal `p`.
pub fn equals_str(s: &[char], p: &str) -> (r: bool)
    ensures
        r == (s@ == p@),
{
    let pc = chars_of(p);
    if pc.len() != s.len() {
        return false;
    }
    let b = has_prefix(s, &pc);
    proof {
        if b {
            assert(s@ =~= s@.subrange(0, pc@.len() as int));
        }
        if s@ == p@ {
            assert(s@.subrange(0, pc@.len() as int) =~= s@);
        }
    }
    b
}

/// The number of times `c` occurs in `s`.
pub fn count_char_exec(s: &[char], c: char) -> (r: usize)
    ensures
        r == count_char(s@, c),
{
    let mut n: usize = 0;
    let mut i: usize = 0;
    while i < s.len()
        invariant
            i <= s@.len(),
            n == count_char(s@.subrange(0, i as int), c),
            n <= i,
        decreases s.len() - i,
    {
        proof {
            let t = s@.subrange(0, i as int + 1);
            assert(t.drop_last() =~= s@.subrange(0, i as int));
        }
        if s[i] == c {
            n += 1;
        }
        i += 1;
    }
    proof {
        assert(s@.subrange(0, s@.len() as int) =~= s@);
    }
    n
}

/// The index of the last `c` in `s`, if any.
pub fn rfind_char_exec(s: &[char], c: char) -> (r: Option<usize>)
    ensures
        r matches Some(i) ==> rfind_char(s@, c) == Some(i as int) && i < s@.len(),
        r is None <==> rfind_char(s@, c) is None,
{
    let mut i: usize = s.len();
    proof {
        assert(s@.subrange(0, i as int) =~= s@);
    }
    while i > 0
        invariant
            i <= s@.len(),
            rfind_char(s@, c) == rfind_char(s@.subrange(0, i as int), c),
        decreases i,
    {
        proof {
            let t = s@.subrange(0, i as int);
            assert(t.drop_last() =~= s@.subrange(0, i - 1));
        }
        if s[i - 1] == c {
            return Some(i - 1);
        }
        i -= 1;
    }
    None
}

/// Splits `s` into its lines, as `str::lines` does.
pub fn lines_of(s: &[char]) -> (r: Vec<Vec<char>>)
    ensures
        r@.map_values(|l: Vec<char>| l@) == lines(s@),
{
    let mut out: Vec<Vec<char>> = Vec::new();
    let mut start: usize = 0;
    proof {
        assert(s@.subrange(0, s@.len() as int) =~= s@);
        assert(out@.map_values(|l: Vec<char>| l@) =~= Seq::<Seq<char>>::empty());
        assert(Seq::<Seq<char>>::empty() + lines(s@) =~= lines(s@));
    }
    while start < s.len()
        invariant
            start <= s@.len(),
            out@.map_values(|l: Vec<char>| l@) + lines(s@.subrange(start as int, s@.len() as int))
                == lines(s@),
        decreases s.len() - start,
    {
        let ghost rest = s@.subrange(start as int, s@.len() as int);
        let mut end = start;
        while end < s.len() && s[end] != '\n'
            invariant
                start <= end <= s@.len(),
                forall|j: int| start <= j < end ==> s@[j] != '\n',
            decreases s.len() - end,
        {
            end += 1;
        }
        proof {
            lemma_newline_index_at(rest, end - start);
        }
        let mut line_end = end;
        if end < s.len() && end > start && s[end - 1] == '\r' {
            line_end = end - 1;
        }
        let line = slice_chars(s, start, line_end);
        let next = if end < s.len() {
            end + 1
        } else {
            end
        };
        proof {
            let (fl, fr) = first_line(rest);
            assert(rest.len() > 0);
            if end < s@.len() {
                assert(rest.subrange(0, end - start) =~= s@.subrange(start as int, end as int));
                assert(fr =~= s@.subrange(next as int, s@.len() as int));
                if end > start && s@[end - 1] == '\r' {
                    assert(fl =~= line@);
                } else {
                    assert(fl =~= line@);
                }
            } else {
                assert(fl =~= line@);
                assert(fr =~= s@.subrange(next as int, s@.len() as int));
            }
            assert(lines(rest) == seq![fl] + lines(fr));
        }
        let ghost prev = out@.map_values(|l: Vec<char>| l@);
        let ghost lv = line@;
        out.push(line);
        proof {
            let (fl, fr) = first_line(rest);
            assert(out@.map_values(|l: Vec<char>| l@) =~= prev.push(lv));
            assert(prev.push(lv) + lines(fr) =~= prev + (seq![fl] + lines(fr)));
        }
        start = next;
    }
    proof {
        assert(s@.subrange(start as int, s@.len() as int) =~= Seq::<char>::empty());
        assert(out@.map_values(|l: Vec<char>| l@) + Seq::<Seq<char>>::empty() =~= out@.map_values(
            |l: Vec<char>| l@,
        ));
    }
    out
}

/// The index of the first `c` in `s`, or `s.len()` when there is none.
pub open spec fn char_index(s: Seq<char>, c: char) -> int
    decreases s.len(),
{
    if s.len() == 0 {
        0
    } else if s[0] == c {
        0
    } else {
        1 + char_index(s.drop_first(), c)
    }
}

pub proof fn lemma_char_index_at(s: Seq<char>, c: char, k: int)
    requires
        0 <= k <= s.len(),
        k < s.len() ==> s[k] == c,
        forall|j: int| 0 <= j < k ==> s[j] != c,
    ensures
        char_index(s, c) == k,
    decreases s.len(),
{
    if s.len() > 0 && s[0] != c {
        assert(k > 0);
        let t = s.drop_first();
        assert forall|j: int| 0 <= j < k - 1 implies t[j] != c by {
            assert(t[j] == s[j + 1]);
        }
        lemma_char_index_at(t, c, k - 1);
    }
}

pub proof fn lemma_char_index_bounds(s: Seq<char>, c: char)
    ensures
        0 <= char_index(s, c) <= s.len(),
    decreases s.len(),
{
    if s.len() > 0 && s[0] != c {
        lemma_char_index_bounds(s.drop_first(), c);
    }
}

/// The pieces of `s` between occurrences of `c`, as `str::split` yields them
/// for a single-character separator.
pub open spec fn split_char(s: Seq<char>, c: char) -> Seq<Seq<char>>
    decreases s.len(),
{
    let i = char_index(s, c);
    proof {
        lemma_char_index_bounds(s, c);
    }
    if i < s.len() {
        seq![s.subrange(0, i)] + split_char(s.subrange(i + 1, s.len() as int), c)
    } else {
        seq![s]
    }
}

/// Splits `s` at every `c`, as `str::split` does.
pub fn split_on_char(s: &[char], c: char) -> (r: Vec<Vec<char>>)
    ensures
        r@.map_values(|l: Vec<char>| l@) == split_char(s@, c),
{
    let mut out: Vec<Vec<char>> = Vec::new();
    let mut start: usize = 0;
    proof {
        assert(s@.subrange(0, s@.len() as int) =~= s@);
        assert(out@.map_values(|l: Vec<char>| l@) + split_char(s@, c) =~= split_char(s@, c));
    }
    loop
        invariant
            start <= s@.len(),
            out@.map_values(|l: Vec<char>| l@) + split_char(
                s@.subrange(start as int, s@.len() as int),
                c,
            ) == split_char(s@, c),
        decreases s@.len() - start,
    {
        let ghost rest = s@.subrange(start as int, s@.len() as int);
        let mut end = start;
        while end < s.len() && s[end] != c
            invariant
                start <= end <= s@.len(),
                forall|j: int| start <= j < end ==> s@[j] != c,
            decreases s.len() - end,
        {
            end += 1;
        }
        proof {
            lemma_char_index_at(rest, c, end - start);
        }
        let piece = slice_chars(s, start, end);
        let ghost prev = out@.map_values(|l: Vec<char>| l@);
        let ghost pv = piece@;
        out.push(piece);
        if end < s.len() {
            proof {
                assert(rest.subrange(0, end - start) =~= pv);
                assert(rest.subrange(end - start + 1, rest.len() as int) =~= s@.subrange(
                    end + 1,
                    s@.len() as int,
                ));
                assert(out@.map_values(|l: Vec<char>| l@) =~= prev.push(pv));
                assert(prev.push(pv) + split_char(s@.subrange(end + 1, s@.len() as int), c)
                    =~= prev + split_char(rest, c));
            }
            start = end + 1;
        } else {
            proof {
                assert(rest =~= pv);
                assert(out@.map_values(|l: Vec<char>| l@) =~= prev.push(pv));
                assert(prev.push(pv) =~= prev + split_char(rest, c));
            }
            return out;
        }
    }
}

/// The index of the first `c` in `s`, or `s.len()` when there is none.
pub fn char_index_exec(s: &[char], c: char) -> (r: usize)
    ensures
        r == char_index(s@, c),
{
    let mut i: usize = 0;
    while i < s.len() && s[i] != c
        invariant
            i <= s@.len(),
            forall|j: int| 0 <= j < i ==> s@[j] != c,
        decreases s.len() - i,
    {
        i += 1;
    }
    proof {
        lemma_char_index_at(s@, c, i as int);
    }
    i
}

/// `s` with trailing white space removed.
pub fn trim_end_chars(s: &[char]) -> (r: Vec<char>)
    ensures
        r@ == trim_end(s@),
{
    let mut hi: usize = s.len();
    while hi > 0 && char_is_ws(s[hi - 1])
        invariant
            hi <= s@.len(),
            forall|j: int| hi <= j < s@.len() ==> is_ws(s@[j]),
        decreases hi,
    {
        hi -= 1;
    }
    proof {
        lemma_trim_end_take(s@, hi as int);
        let u = s@.subrange(0, hi as int);
        assert(u.len() > 0 ==> u.last() == s@[hi - 1]);
        assert(trim_end(u) == u);
    }
    slice_chars(s, 0, hi)
}

/// Whether `c` is an ASCII decimal digit.
pub open spec fn is_digit(c: char) -> bool {
    '0' <= c && c <= '9'
}

/// Whether `d` is made of ASCII decimal digits only.
pub open spec fn all_digits(d: Seq<char>) -> bool {
    forall|i: int| 0 <= i < d.len() ==> is_digit(#[trigger] d[i])
}

/// The decimal value of the digit string `d`.
pub open spec fn digits_value(d: Seq<char>) -> int
    decreases d.len(),
{
    if d.len() == 0 {
        0
    } else {
        digits_value(d.drop_last()) * 10 + (d.last() as int - '0' as int)
    }
}

/// What `str::parse::<i64>` gives for `s`: an optional `+` or `-` sign
/// followed by at least one ASCII digit, with a value inside the `i64` range.
pub open spec fn parse_i64(s: Seq<char>) -> Option<i64> {
    let neg = s.len() > 0 && s[0] == '-';
    let d = if s.len() > 0 && (s[0] == '-' || s[0] == '+') {
        s.drop_first()
    } else {
        s
    };
    let v = if neg {
        -digits_value(d)
    } else {
        digits_value(d)
    };
    if d.len() > 0 && all_digits(d) && i64::MIN <= v <= i64::MAX {
        Some(v as i64)
    } else {
        None
    }
}

proof fn lemma_digits_value_nonneg(d: Seq<char>)
    requires
        all_digits(d),
    ensures
        digits_value(d) >= 0,
    decreases d.len(),
{
    if d.len() > 0 {
        assert(all_digits(d.drop_last())) by {
            assert forall|i: int| 0 <= i < d.drop_last().len() implies is_digit(
                #[trigger] d.drop_last()[i],
            ) by {
                assert(d.drop_last()[i] == d[i]);
            }
        }
        lemma_digits_value_nonneg(d.drop_last());
        assert(is_digit(d[d.len() - 1]));
    }
}

proof fn lemma_digits_value_grows(d: Seq<char>, k: int)
    requires
        all_digits(d),
        0 <= k <= d.len(),
    ensures
        digits_value(d) >= digits_value(d.take(k)),
    decreases d.len() - k,
{
    if k < d.len() {
        let t = d.take(k + 1);
        assert(t.drop_last() =~= d.take(k));
        assert(all_digits(t)) by {
            assert forall|i: int| 0 <= i < t.len() implies is_digit(#[trigger] t[i]) by {
                assert(t[i] == d[i]);
            }
        }
        assert(all_digits(d.take(k))) by {
            assert forall|i: int| 0 <= i < d.take(k).len() implies is_digit(#[trigger] d.take(k)[i]) by {
                assert(d.take(k)[i] == d[i]);
            }
        }
        lemma_digits_value_nonneg(d.take(k));
        assert(is_digit(t[k]));
        lemma_digits_value_grows(d, k + 1);
    } else {
        assert(d.take(k) =~= d);
    }
}

/// Parses `s` as `str::parse::<i64>` does.
pub fn parse_i64_exec(s: &[char]) -> (r: Option<i64>)
    ensures
        r == parse_i64(s@),
{
    let neg = s.len() > 0 && s[0] == '-';
    let start: usize = if s.len() > 0 && (s[0] == '-' || s[0] == '+') {
        1
    } else {
        0
    };
    let ghost d = if s@.len() > 0 && (s@[0] == '-' || s@[0] == '+') {
        s@.drop_first()
    } else {
        s@
    };
    proof {
        assert(d =~= s@.subrange(start as int, s@.len() as int));
    }
    if start >= s.len() {
        return None;
    }
    let mut v: i128 = 0;
    let mut i: usize = start;
    while i < s.len()
        invariant
            start <= i <= s@.len(),
            d =~= s@.subrange(start as int, s@.len() as int),
            d == (if s@.len() > 0 && (s@[0] == '-' || s@[0] == '+') {
                s@.drop_first()
            } else {
                s@
            }),
            all_digits(d.take(i - start)),
            v == digits_value(d.take(i - start)),
            0 <= v <= 9223372036854775808,
        decreases s.len() - i,
    {
        let c = s[i];
        let ghost t = d.take(i - start + 1);
        proof {
            assert(t.drop_last() =~= d.take(i - start));
            assert(t.last() == c);
        }
        if !('0' <= c && c <= '9') {
            proof {
                assert(!is_digit(d[i - start]));
            }
            return None;
        }
        let digit = (c as u32 - '0' as u32) as i128;
        let nv = v * 10 + digit;
        proof {
            assert(all_digits(t)) by {
                assert forall|j: int| 0 <= j < t.len() implies is_digit(#[trigger] t[j]) by {
                    if j < t.len() - 1 {
                        assert(t[j] == d.take(i - start)[j]);
                    }
                }
            }
            assert(nv == digits_value(t));
        }
        if nv > 9223372036854775808 {
            proof {
                if all_digits(d) {
                    lemma_digits_value_grows(d, i - start + 1);
                }
            }
            return None;
        }
        v = nv;
        i += 1;
    }
    proof {
        assert(d.take(d.len() as int) =~= d);
    }
    if neg {
        let w = -v;
        if w < -9223372036854775808 {
            return None;
        }
        Some(w as i64)
    } else {
        if v > 9223372036854775807 {
            return None;
        }
        Some(v as i64)
    }
}

/// Joins the lines `parts` with `"\n"` between them.
pub fn join_lines_exec(parts: &Vec<Vec<char>>) -> (r: Vec<char>)
    ensures
        r@ == join_lines(parts@.map_values(|l: Vec<char>| l@)),
{
    let ghost pv = parts@.map_values(|l: Vec<char>| l@);
    let mut out: Vec<char> = Vec::new();
    if parts.len() == 0 {
        return out;
    }
    let mut k: usize = 0;
    while k < parts[0].len()
        invariant
            k <= parts@[0]@.len(),
            parts@.len() > 0,
            out@ =~= parts@[0]@.subrange(0, k as int),
        decreases parts@[0]@.len() - k,
    {
        out.push(parts[0][k]);
        k += 1;
    }
    proof {
        assert(pv.take(1) =~= seq![parts@[0]@]);
    }
    let mut i: usize = 1;
    while i < parts.len()
        invariant
            1 <= i <= parts@.len(),
            pv == parts@.map_values(|l: Vec<char>| l@),
            out@ == join_lines(pv.take(i as int)),
        decreases parts.len() - i,
    {
        let ghost before = out@;
        out.push('\n');
        let mut k: usize = 0;
        while k < parts[i].len()
            invariant
                k <= parts@[i as int]@.len(),
                i < parts@.len(),
                out@ =~= before + seq!['\n'] + parts@[i as int]@.subrange(0, k as int),
                decreases parts@[i as int]@.len() - k,
        {
            out.push(parts[i][k]);
            k += 1;
        }
        proof {
            assert(pv.take(i as int + 1).drop_last() =~= pv.take(i as int));
            assert(pv.take(i as int + 1).last() == parts@[i as int]@);
            assert(parts@[i as int]@.subrange(0, parts@[i as int]@.len() as int) =~= parts@[i as int]@);
        }
        i += 1;
    }
    proof {
        assert(pv.take(pv.len() as int) =~= pv);
    }
    out
}

} // verus!
