//! The decisions of an agent run: which functions each rule is asked about,
//! the prompt sent for one, how the command line splits into words, and where
//! the JSON answer lies in what the model printed.
use vstd::prelude::*;
use crate::agent::prefilter::{apply_prefilter, passes_prefilter};
use crate::agent::types::{AgentInput, AgentInputMetadata, AgentRule};
use crate::model::smell::{copy_string, TestFile, TestFunction};
use crate::text::{
    char_is_ws, chars_of, find, find_exec, is_ws, slice_chars, starts_with, starts_with_str,
    string_of, trim, trim_chars,
};

verus! {

/// The text between the first `open` of `s` and the next ```` ``` ```` after
/// it, trimmed; `None` when either is missing.
pub open spec fn fenced_after(s: Seq<char>, open: Seq<char>) -> Option<Seq<char>> {
    match find(s, open) {
        Some(st) => {
            let after = s.subrange(st + open.len(), s.len() as int);
            match find(after, "```"@) {
                Some(e) => Some(trim(after.subrange(0, e))),
                None => None,
            }
        },
        None => None,
    }
}

/// The index of the `}` that brings the brace depth back to zero, scanning
/// `s` from index `j` with depth `depth`.
pub open spec fn brace_close(s: Seq<char>, j: int, depth: int) -> Option<int>
    decreases s.len() - j,
{
    if j < 0 || j >= s.len() {
        None
    } else if s[j] == '{' {
        brace_close(s, j + 1, depth + 1)
    } else if s[j] == '}' {
        if depth - 1 == 0 {
            Some(j)
        } else {
            brace_close(s, j + 1, depth - 1)
        }
    } else {
        brace_close(s, j + 1, depth)
    }
}

/// The text from the first `{` of `s` to the `}` that balances it.
pub open spec fn braced(s: Seq<char>) -> Option<Seq<char>> {
    match find(s, "{"@) {
        Some(st) => match brace_close(s, st, 0) {
            Some(e) => Some(s.subrange(st, e + 1)),
            None => None,
        },
        None => None,
    }
}

proof fn lemma_brace_close(s: Seq<char>, j: int, depth: int)
    ensures
        brace_close(s, j, depth) matches Some(e) ==> j <= e < s.len() && s[e] == '}',
    decreases s.len() - j,
{
    if 0 <= j < s.len() {
        if s[j] == '{' {
            lemma_brace_close(s, j + 1, depth + 1);
        } else if s[j] == '}' {
            if depth - 1 != 0 {
                lemma_brace_close(s, j + 1, depth - 1);
            }
        } else {
            lemma_brace_close(s, j + 1, depth);
        }
    }
}

/// The balanced part found in a model's output starts with `{` and ends with `}`.
pub proof fn lemma_braced_shape(s: Seq<char>)
    ensures
        braced(s) matches Some(j) ==> j.len() >= 1 && j[0] == '{' && j.last() == '}',
{
    reveal_strlit("{");
    crate::text::lemma_find_occurs(s, "{"@);
    if let Some(st) = find(s, "{"@) {
        assert(crate::text::occurs_at(s, "{"@, st));
        assert(s.subrange(st, st + 1)[0] == s[st]);
        lemma_brace_close(s, st, 0);
    }
}

/// The JSON part of a model's output: a ```` ```json ```` block, else a
/// ```` ``` ```` block that starts with `{`, else the first balanced `{…}`.
pub open spec fn json_part(s: Seq<char>) -> Option<Seq<char>> {
    match fenced_after(s, "```json"@) {
        Some(j) => Some(j),
        None => {
            let plain = fenced_after(s, "```"@);
            if plain matches Some(c) && starts_with(c, "{"@) {
                plain
            } else {
                braced(s)
            }
        },
    }
}

/// The text between the first `open` of `s` and the next ```` ``` ```` after it, trimmed.
fn fenced_after_exec(s: &[char], open: &str) -> (r: Option<Vec<char>>)
    ensures
        crate::pattern::opt_chars(r) == fenced_after(s@, open@),
{
    let o = chars_of(open);
    let st = match find_exec(s, &o) {
        Some(st) => st,
        None => return None,
    };
    let n = s.len();
    proof {
        assert(st + o@.len() <= n);
    }
    let after = slice_chars(s, st + o.len(), n);
    let fence = chars_of("```");
    match find_exec(&after, &fence) {
        Some(e) => {
            let inner = slice_chars(&after, 0, e);
            Some(trim_chars(&inner))
        },
        None => None,
    }
}

/// The text from the first `{` of `s` to the `}` that balances it.
fn braced_exec(s: &[char]) -> (r: Option<Vec<char>>)
    ensures
        crate::pattern::opt_chars(r) == braced(s@),
{
    let open = chars_of("{");
    let st = match find_exec(s, &open) {
        Some(st) => st,
        None => return None,
    };
    proof {
        reveal_strlit("{");
        assert(s@.subrange(st as int, st + 1) == open@);
        assert(s@.subrange(st as int, st + 1)[0] == s@[st as int]);
    }
    let mut depth: usize = 0;
    let mut j = st;
    while j < s.len()
        invariant
            st <= j <= s@.len(),
            st < s@.len(),
            s@[st as int] == '{',
            j == st ==> depth == 0,
            j > st ==> depth >= 1,
            depth <= j - st,
            brace_close(s@, st as int, 0) == brace_close(s@, j as int, depth as int),
            find(s@, "{"@) == Some(st as int),
        decreases s.len() - j,
    {
        if s[j] == '{' {
            depth += 1;
        } else if s[j] == '}' {
            if depth == 1 {
                return Some(slice_chars(s, st, j + 1));
            }
            depth -= 1;
        }
        j += 1;
    }
    None
}

/// The JSON part of a model's output, as `json_part` says.
pub fn extract_json(s: &str) -> (r: Option<String>)
    ensures
        crate::model::smell::opt_view(r) == json_part(s@),
{
    let cs = chars_of(s);
    match fenced_after_exec(&cs, "```json") {
        Some(j) => return Some(string_of(&j)),
        None => {},
    }
    match fenced_after_exec(&cs, "```") {
        Some(c) => {
            if starts_with_str(&c, "{") {
                return Some(string_of(&c));
            }
        },
        None => {},
    }
    match braced_exec(&cs) {
        Some(b) => Some(string_of(&b)),
        None => None,
    }
}

/// `s` with every occurrence of `pat`, taken from the left without overlap,
/// replaced by `rep`.
pub open spec fn replace_all(s: Seq<char>, pat: Seq<char>, rep: Seq<char>) -> Seq<char>
    recommends
        pat.len() > 0,
    decreases s.len(),
{
    if s.len() == 0 {
        s
    } else if pat.len() > 0 && starts_with(s, pat) {
        rep + replace_all(s.subrange(pat.len() as int, s.len() as int), pat, rep)
    } else {
        seq![s[0]] + replace_all(s.drop_first(), pat, rep)
    }
}

/// The prompt of a rule for one function: `template` with every `{{input}}`
/// replaced by `input_json`.
pub fn render_prompt(template: &str, input_json: &str) -> (r: String)
    ensures
        r@ == replace_all(template@, "{{input}}"@, input_json@),
{
    let t = chars_of(template);
    let pat = chars_of("{{input}}");
    let rep = chars_of(input_json);
    proof {
        reveal_strlit("{{input}}");
    }
    let mut out: Vec<char> = Vec::new();
    let mut i: usize = 0;
    proof {
        assert(t@.subrange(0, t@.len() as int) =~= t@);
    }
    while i < t.len()
        invariant
            i <= t@.len(),
            pat@ == "{{input}}"@,
            pat@.len() == 9,
            out@ + replace_all(t@.subrange(i as int, t@.len() as int), pat@, rep@) == replace_all(
                t@,
                pat@,
                rep@,
            ),
        decreases t.len() - i,
    {
        let ghost rest = t@.subrange(i as int, t@.len() as int);
        let hit = crate::text::occurs_at_exec(&t, &pat, i);
        if hit {
            proof {
                assert(rest.subrange(0, 9) =~= pat@);
                assert(rest.subrange(9, rest.len() as int) =~= t@.subrange(i + 9, t@.len() as int));
            }
            let mut k: usize = 0;
            let ghost base = out@;
            while k < rep.len()
                invariant
                    k <= rep@.len(),
                    out@ =~= base + rep@.subrange(0, k as int),
                decreases rep.len() - k,
            {
                out.push(rep[k]);
                k += 1;
            }
            proof {
                assert(rep@.subrange(0, rep@.len() as int) =~= rep@);
                assert(out@ + replace_all(t@.subrange(i + 9, t@.len() as int), pat@, rep@) =~= base + (
                rep@ + replace_all(t@.subrange(i + 9, t@.len() as int), pat@, rep@)));
            }
            i += 9;
        } else {
            proof {
                assert(!starts_with(rest, pat@)) by {
                    if starts_with(rest, pat@) {
                        assert(t@.subrange(i as int, i + 9) =~= rest.subrange(0, 9));
                    }
                }
                assert(rest.drop_first() =~= t@.subrange(i + 1, t@.len() as int));
                assert((out@ + seq![t@[i as int]]) + replace_all(t@.subrange(i + 1, t@.len() as int), pat@, rep@)
                    =~= out@ + (seq![rest[0]] + replace_all(rest.drop_first(), pat@, rep@)));
            }
            out.push(t[i]);
            i += 1;
        }
    }
    proof {
        assert(out@ + Seq::<char>::empty() =~= out@);
    }
    string_of(&out)
}

/// The words of `s`, scanning from its start with the word `cur` begun and
/// the words `acc` found: white space separates words and empty words are dropped.
pub open spec fn words_from(s: Seq<char>, cur: Seq<char>, acc: Seq<Seq<char>>) -> Seq<Seq<char>>
    decreases s.len(),
{
    if s.len() == 0 {
        if cur.len() > 0 {
            acc.push(cur)
        } else {
            acc
        }
    } else if is_ws(s[0]) {
        words_from(
            s.drop_first(),
            Seq::empty(),
            if cur.len() > 0 {
                acc.push(cur)
            } else {
                acc
            },
        )
    } else {
        words_from(s.drop_first(), cur.push(s[0]), acc)
    }
}

/// The white-space separated words of `s`, as `str::split_whitespace` gives them.
pub open spec fn words_of(s: Seq<char>) -> Seq<Seq<char>> {
    words_from(s, Seq::empty(), Seq::empty())
}

/// The words of a model command line, the program first; an error when it has none.
pub fn command_parts(command: &str) -> (r: Result<Vec<String>, String>)
    ensures
        match r {
            Ok(ws) => words_of(command@).len() > 0 && ws@.map_values(|w: String| w@) == words_of(
                command@,
            ),
            Err(e) => words_of(command@).len() == 0 && e@ == "Empty LLM command"@,
        },
{
    let cs = chars_of(command);
    let mut out: Vec<String> = Vec::new();
    let mut cur: Vec<char> = Vec::new();
    let mut i: usize = 0;
    proof {
        assert(cs@.subrange(0, cs@.len() as int) =~= cs@);
        assert(out@.map_values(|w: String| w@) =~= Seq::<Seq<char>>::empty());
    }
    while i < cs.len()
        invariant
            i <= cs@.len(),
            cs@ == command@,
            words_of(command@) == words_from(
                cs@.subrange(i as int, cs@.len() as int),
                cur@,
                out@.map_values(|w: String| w@),
            ),
        decreases cs.len() - i,
    {
        let ghost rest = cs@.subrange(i as int, cs@.len() as int);
        let ghost before = out@.map_values(|w: String| w@);
        proof {
            assert(rest.drop_first() =~= cs@.subrange(i + 1, cs@.len() as int));
            assert(rest[0] == cs@[i as int]);
        }
        if char_is_ws(cs[i]) {
            if cur.len() > 0 {
                let w = string_of(&cur);
                out.push(w);
                proof {
                    assert(out@.map_values(|x: String| x@) =~= before.push(cur@));
                }
            }
            cur = Vec::new();
            proof {
                assert(cur@ =~= Seq::<char>::empty());
            }
        } else {
            cur.push(cs[i]);
        }
        i += 1;
    }
    if cur.len() > 0 {
        let ghost before = out@.map_values(|w: String| w@);
        let w = string_of(&cur);
        out.push(w);
        proof {
            assert(out@.map_values(|x: String| x@) =~= before.push(cur@));
        }
    }
    if out.len() == 0 {
        Err(String::from_str("Empty LLM command"))
    } else {
        Ok(out)
    }
}

/// What the model is told about `func` of `file`.
pub fn agent_input(file: &TestFile, func: &TestFunction) -> (r: AgentInput)
    ensures
        r.file_path@ == file.path@,
        r.function_name@ == func.name@,
        r.line == func.line,
        r.language@ == file.language@,
        r.body_source@ == func.body_source@,
        r.metadata.assertion_count == func.assertion_count,
        r.metadata.has_conditional == func.has_conditional,
        r.metadata.has_sleep == func.has_sleep,
        r.metadata.has_print == func.has_print,
        r.metadata.is_ignored == func.is_ignored,
{
    AgentInput {
        file_path: copy_string(&file.path),
        function_name: copy_string(&func.name),
        line: func.line,
        language: copy_string(&file.language),
        body_source: copy_string(&func.body_source),
        metadata: AgentInputMetadata {
            assertion_count: func.assertion_count,
            has_conditional: func.has_conditional,
            has_sleep: func.has_sleep,
            has_print: func.has_print,
            is_ignored: func.is_ignored,
        },
    }
}

/// The positions `(r, f, k)` of function `k` of file `f`, among the first
/// `k_end` functions `fs` of that file, that rule `r` with prefilter `p` is asked about.
pub open spec fn file_candidates(
    p: crate::agent::types::PrefilterConfig,
    r: int,
    f: int,
    fs: Seq<TestFunction>,
    k_end: int,
) -> Seq<(usize, usize, usize)>
    decreases k_end,
{
    if k_end <= 0 || k_end > fs.len() {
        Seq::empty()
    } else {
        file_candidates(p, r, f, fs, k_end - 1) + if passes_prefilter(p, fs[k_end - 1]@) {
            seq![(r as usize, f as usize, (k_end - 1) as usize)]
        } else {
            Seq::empty()
        }
    }
}

/// The candidates of rule `r` among the first `n` files.
pub open spec fn rule_candidates(
    p: crate::agent::types::PrefilterConfig,
    r: int,
    files: Seq<TestFile>,
    n: int,
) -> Seq<(usize, usize, usize)>
    decreases n,
{
    if n <= 0 || n > files.len() {
        Seq::empty()
    } else {
        rule_candidates(p, r, files, n - 1) + file_candidates(
            p,
            r,
            n - 1,
            files[n - 1].test_functions@,
            files[n - 1].test_functions@.len() as int,
        )
    }
}

/// The candidates of the first `m` rules: rule by rule, file by file,
/// function by function, each function that passes the rule's prefilter.
pub open spec fn all_candidates(rules: Seq<AgentRule>, files: Seq<TestFile>, m: int) -> Seq<
    (usize, usize, usize),
>
    decreases m,
{
    if m <= 0 || m > rules.len() {
        Seq::empty()
    } else {
        all_candidates(rules, files, m - 1) + rule_candidates(
            rules[m - 1].prefilter,
            m - 1,
            files,
            files.len() as int,
        )
    }
}

/// The functions each rule is asked about, as positions (rule, file,
/// function), in the order an agent run asks.
pub fn agent_candidates(rules: &Vec<AgentRule>, files: &Vec<TestFile>) -> (r: Vec<(usize, usize, usize)>)
    ensures
        r@ == all_candidates(rules@, files@, rules@.len() as int),
{
    let mut out: Vec<(usize, usize, usize)> = Vec::new();
    let mut r: usize = 0;
    while r < rules.len()
        invariant
            r <= rules@.len(),
            out@ == all_candidates(rules@, files@, r as int),
        decreases rules.len() - r,
    {
        let p = &rules[r].prefilter;
        let ghost base_r = out@;
        let mut f: usize = 0;
        while f < files.len()
            invariant
                r < rules@.len(),
                f <= files@.len(),
                *p == rules@[r as int].prefilter,
                base_r == all_candidates(rules@, files@, r as int),
                out@ == base_r + rule_candidates(*p, r as int, files@, f as int),
            decreases files.len() - f,
        {
            let fs = &files[f].test_functions;
            let ghost base_f = out@;
            let mut k: usize = 0;
            while k < fs.len()
                invariant
                    f < files@.len(),
                    k <= fs@.len(),
                    *fs == files@[f as int].test_functions,
                    out@ == base_f + file_candidates(*p, r as int, f as int, fs@, k as int),
                decreases fs.len() - k,
            {
                let ghost before = out@;
                if apply_prefilter(p, &fs[k]) {
                    out.push((r, f, k));
                    proof {
                        assert(out@ =~= base_f + file_candidates(*p, r as int, f as int, fs@, k as int + 1));
                    }
                } else {
                    proof {
                        assert(out@ =~= base_f + file_candidates(*p, r as int, f as int, fs@, k as int + 1));
                    }
                }
                k += 1;
            }
            proof {
                assert(out@ =~= base_r + rule_candidates(*p, r as int, files@, f as int + 1));
            }
            f += 1;
        }
        proof {
            assert(out@ =~= all_candidates(rules@, files@, r as int + 1));
        }
        r += 1;
    }
    out
}

/// A template without the placeholder is sent as it is, whatever the input.
pub proof fn lemma_prompt_without_placeholder(template: Seq<char>, input_json: Seq<char>)
    requires
        !crate::text::contains(template, "{{input}}"@),
    ensures
        replace_all(template, "{{input}}"@, input_json) == template,
    decreases template.len(),
{
    reveal_strlit("{{input}}");
    reveal(crate::text::contains);
    if template.len() > 0 {
        let rest = template.drop_first();
        assert(!starts_with(template, "{{input}}"@)) by {
            if starts_with(template, "{{input}}"@) {
                assert(crate::text::occurs_at(template, "{{input}}"@, 0));
            }
        }
        assert(!crate::text::contains(rest, "{{input}}"@)) by {
            if crate::text::contains(rest, "{{input}}"@) {
                let k = choose|k: int| crate::text::occurs_at(rest, "{{input}}"@, k);
                assert(template.subrange(k + 1, k + 1 + 9) =~= rest.subrange(k, k + 9));
                assert(crate::text::occurs_at(template, "{{input}}"@, k + 1));
            }
        }
        lemma_prompt_without_placeholder(rest, input_json);
        assert(template =~= seq![template[0]] + rest);
    }
}

/// Whether every word of `ws` is non-empty and holds no white space.
pub open spec fn clean_words(ws: Seq<Seq<char>>) -> bool {
    forall|i: int|
        0 <= i < ws.len() ==> (#[trigger] ws[i]).len() > 0 && forall|k: int|
            0 <= k < ws[i].len() ==> !is_ws(#[trigger] ws[i][k])
}

proof fn lemma_words_from_clean(s: Seq<char>, cur: Seq<char>, acc: Seq<Seq<char>>)
    requires
        clean_words(acc),
        forall|k: int| 0 <= k < cur.len() ==> !is_ws(#[trigger] cur[k]),
    ensures
        clean_words(words_from(s, cur, acc)),
    decreases s.len(),
{
    if s.len() == 0 {
        if cur.len() > 0 {
            assert(clean_words(acc.push(cur))) by {
                assert forall|i: int| 0 <= i < acc.push(cur).len() implies (#[trigger] acc.push(
                    cur,
                )[i]).len() > 0 && forall|k: int|
                    0 <= k < acc.push(cur)[i].len() ==> !is_ws(#[trigger] acc.push(cur)[i][k]) by {
                    if i < acc.len() {
                        assert(acc.push(cur)[i] == acc[i]);
                    }
                }
            }
        }
    } else if is_ws(s[0]) {
        let acc2 = if cur.len() > 0 {
            acc.push(cur)
        } else {
            acc
        };
        assert(clean_words(acc2)) by {
            assert forall|i: int| 0 <= i < acc2.len() implies (#[trigger] acc2[i]).len() > 0
                && forall|k: int| 0 <= k < acc2[i].len() ==> !is_ws(#[trigger] acc2[i][k]) by {
                if i < acc.len() {
                    assert(acc2[i] == acc[i]);
                }
            }
        }
        lemma_words_from_clean(s.drop_first(), Seq::empty(), acc2);
    } else {
        let cur2 = cur.push(s[0]);
        assert forall|k: int| 0 <= k < cur2.len() implies !is_ws(#[trigger] cur2[k]) by {
            if k < cur.len() {
                assert(cur2[k] == cur[k]);
            }
        }
        lemma_words_from_clean(s.drop_first(), cur2, acc);
    }
}

/// The words of a command line are non-empty and hold no white space.
pub proof fn lemma_command_words_clean(command: Seq<char>)
    ensures
        clean_words(words_of(command)),
{
    lemma_words_from_clean(command, Seq::empty(), Seq::empty());
}

} // verus!
