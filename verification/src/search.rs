//! The rules by which files are found by name and lines by content.

use crate::text::{
    contains, find_in, from_chars, lines, matches_at, rows, split_lines, to_chars,
};
use vstd::prelude::*;

verus! {

/// How many levels a search by name goes down when no depth is given.
pub const DEFAULT_SEARCH_DEPTH: usize = 5;

/// The depth to which a search by name goes.
pub fn search_depth(max_depth: Option<usize>) -> (r: usize)
    ensures
        r == match max_depth {
            Some(depth) => depth,
            None => DEFAULT_SEARCH_DEPTH,
        },
{
    match max_depth {
        Some(depth) => depth,
        None => DEFAULT_SEARCH_DEPTH,
    }
}

/// Whether a search that stands `depth` levels down may still read the
/// directory there.
pub fn within_depth(depth: usize, max_depth: usize) -> (r: bool)
    ensures
        r == (depth <= max_depth),
{
    depth <= max_depth
}

/// Whether `name` begins with a dot.
pub open spec fn is_hidden(name: Seq<char>) -> bool {
    name.len() > 0 && name[0] == '.'
}

/// Decides whether a search goes down into an entry: only into a directory
/// whose name does not begin with a dot.
pub fn may_descend(is_dir: bool, name: &str) -> (r: bool)
    ensures
        r == (is_dir && !is_hidden(name@)),
{
    if !is_dir {
        return false;
    }
    let text = to_chars(name);
    !(text.len() > 0 && text[0] == '.')
}

/// Whether `text` ends with `suffix`.
pub open spec fn ends_with(text: Seq<char>, suffix: Seq<char>) -> bool {
    suffix.len() <= text.len() && text.subrange(text.len() - suffix.len(), text.len() as int)
        == suffix
}

/// Decides whether a file is to be read by a content search: every file
/// where no extension is asked for, else those whose path ends with it.
pub fn has_wanted_extension(path: &str, extension: Option<&str>) -> (r: bool)
    ensures
        r == match extension {
            Some(wanted) => ends_with(path@, wanted@),
            None => true,
        },
{
    match extension {
        None => true,
        Some(wanted) => {
            let text = to_chars(path);
            let suffix = to_chars(wanted);
            if suffix.len() > text.len() {
                false
            } else {
                matches_at(&text, &suffix, text.len() - suffix.len())
            }
        },
    }
}

/// The lines from `from` on that hold `pattern`, each with its number,
/// counted from 1.
pub open spec fn line_hits(ls: Seq<Seq<char>>, pattern: Seq<char>, from: int) -> Seq<
    (int, Seq<char>),
>
    decreases ls.len() - from,
{
    if from < 0 || from >= ls.len() {
        Seq::empty()
    } else {
        let here = if contains(ls[from], pattern) {
            seq![(from + 1, ls[from])]
        } else {
            Seq::empty()
        };
        here + line_hits(ls, pattern, from + 1)
    }
}

/// The lines of `content` that hold `pattern`, each with its number.
pub open spec fn matches_in(content: Seq<char>, pattern: Seq<char>) -> Seq<(int, Seq<char>)> {
    line_hits(lines(content), pattern, 0)
}

/// The views of numbered lines.
pub open spec fn numbered(v: Seq<(usize, String)>) -> Seq<(int, Seq<char>)> {
    Seq::new(v.len(), |i: int| (v[i].0 as int, v[i].1@))
}

/// Finds the lines of `content` that hold `pattern`, each with its number,
/// counted from 1.
pub fn matching_lines(content: &str, pattern: &str) -> (r: Vec<(usize, String)>)
    ensures
        numbered(r@) == matches_in(content@, pattern@),
{
    let all = split_lines(&to_chars(content));
    let wanted = to_chars(pattern);
    let ghost ls = lines(content@);
    let mut out: Vec<(usize, String)> = Vec::new();
    let mut i: usize = 0;
    while i < all.len()
        invariant
            i <= all.len(),
            rows(all@) == ls,
            wanted@ == pattern@,
            numbered(out@) + line_hits(ls, pattern@, i as int) == line_hits(ls, pattern@, 0),
        decreases all.len() - i,
    {
        if find_in(&all[i], &wanted) {
            let line = from_chars(&all[i]);
            out.push((i + 1, line));
        }
        i += 1;
    }
    out
}

} // verus!
