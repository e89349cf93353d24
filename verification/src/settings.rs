//! How a run's settings are chosen: the command line, the project file and
//! the defaults, and which front end reads a file.
use vstd::prelude::*;
use crate::host::{extension_of, file_extension};
use crate::text::{chars_of, equals_str};

verus! {

/// The value of a setting: the command line's when it was given there, else
/// the project file's when it has one, else the command line's default.
pub fn pick_setting<T>(given_on_command_line: bool, cli: T, config: Option<T>) -> (r: T)
    ensures
        r == if given_on_command_line {
            cli
        } else {
            match config {
                Some(v) => v,
                None => cli,
            }
        },
{
    if given_on_command_line {
        cli
    } else {
        match config {
            Some(v) => v,
            None => cli,
        }
    }
}

/// Whether a front end with extensions `exts` and name `name` reads files
/// with extension `ext` under the language filter `filter`.
pub open spec fn reads(exts: Seq<&str>, name: Seq<char>, ext: Seq<char>, filter: Option<Seq<char>>) -> bool {
    (exists|k: int| 0 <= k < exts.len() && (#[trigger] exts[k])@ == ext) && match filter {
        Some(l) => name == l,
        None => true,
    }
}

/// The index of the first front end of `table` at or after `i` that reads
/// files with extension `ext` under `filter`.
pub open spec fn first_reader(
    table: Seq<(Vec<&str>, &str)>,
    ext: Seq<char>,
    filter: Option<Seq<char>>,
    i: int,
) -> Option<int>
    decreases table.len() - i,
{
    if i < 0 || i >= table.len() {
        None
    } else if reads(table[i].0@, table[i].1@, ext, filter) {
        Some(i)
    } else {
        first_reader(table, ext, filter, i + 1)
    }
}

/// Whether some of `exts` is `ext`.
fn has_extension(exts: &Vec<&'static str>, ext: &[char]) -> (r: bool)
    ensures
        r == exists|k: int| 0 <= k < exts@.len() && (#[trigger] exts@[k])@ == ext@,
{
    let mut k: usize = 0;
    while k < exts.len()
        invariant
            k <= exts@.len(),
            forall|j: int| 0 <= j < k ==> (#[trigger] exts@[j])@ != ext@,
        decreases exts.len() - k,
    {
        if equals_str(ext, exts[k]) {
            return true;
        }
        k += 1;
    }
    false
}

/// The front end of `table` (extensions and name of each, in order) that
/// reads `path`: the first whose extensions hold the path's extension and,
/// when `language` is given, whose name is `language`.
pub fn parser_for(path: &str, language: Option<&str>, table: &Vec<(Vec<&'static str>, &'static str)>) -> (r:
    Option<usize>)
    ensures
        match extension_of(path@) {
            Some(ext) => match r {
                Some(i) => first_reader(table@, ext, crate::settings::filter_view(language), 0) == Some(
                    i as int,
                ),
                None => first_reader(table@, ext, crate::settings::filter_view(language), 0) is None,
            },
            None => r is None,
        },
{
    let ext = match file_extension(path) {
        Some(e) => chars_of(e.as_str()),
        None => return None,
    };
    let mut i: usize = 0;
    while i < table.len()
        invariant
            i <= table@.len(),
            extension_of(path@) matches Some(e) && e == ext@,
            first_reader(table@, ext@, filter_view(language), 0) == first_reader(
                table@,
                ext@,
                filter_view(language),
                i as int,
            ),
        decreases table.len() - i,
    {
        let entry = &table[i];
        let by_ext = has_extension(&entry.0, &ext);
        let by_name = match language {
            Some(l) => {
                let n = chars_of(entry.1);
                equals_str(&n, l)
            },
            None => true,
        };
        if by_ext && by_name {
            return Some(i);
        }
        i += 1;
    }
    None
}

/// The view of an optional language filter.
pub open spec fn filter_view(language: Option<&str>) -> Option<Seq<char>> {
    match language {
        Some(l) => Some(l@),
        None => None,
    }
}

} // verus!
