//! Detection of repeated runs of lines in a text.

use crate::text::{chars_equal, lines, rows, split_lines, to_chars, trim, trimmed};
use vstd::prelude::*;

verus! {

/// The number of lines a run must have to count as a duplicate.
pub const MIN_DUPLICATE_LINES: usize = 3;

/// Lines `a` and `b` exist, are not blank and agree once trimmed.
pub open spec fn lines_match(ls: Seq<Seq<char>>, a: int, b: int) -> bool {
    &&& 0 <= a < ls.len()
    &&& 0 <= b < ls.len()
    &&& trimmed(ls[a]).len() > 0
    &&& trimmed(ls[a]) == trimmed(ls[b])
}

/// The lines `k` places after `i` and after `j` match.
pub open spec fn offset_matches(ls: Seq<Seq<char>>, i: int, j: int, k: int) -> bool {
    lines_match(ls, i + k, j + k)
}

/// The runs that start at lines `i` and `j` do not overlap and agree on their
/// first `MIN_DUPLICATE_LINES` lines.
pub open spec fn is_duplicate_pair(ls: Seq<Seq<char>>, i: int, j: int) -> bool {
    &&& 0 <= i
    &&& i + MIN_DUPLICATE_LINES <= j
    &&& forall|k: int| 0 <= k < MIN_DUPLICATE_LINES ==> #[trigger] offset_matches(ls, i, j, k)
}

/// The number of duplicate pairs `(i, j2)` with `j <= j2`.
pub open spec fn pairs_in_row(ls: Seq<Seq<char>>, i: int, j: int) -> nat
    decreases ls.len() - j,
{
    if j >= ls.len() {
        0
    } else {
        let here: nat = if is_duplicate_pair(ls, i, j) {
            1
        } else {
            0
        };
        here + pairs_in_row(ls, i, j + 1)
    }
}

/// The number of duplicate pairs `(i2, j)` with `i <= i2`.
pub open spec fn pairs_from(ls: Seq<Seq<char>>, i: int) -> nat
    decreases ls.len() - i,
{
    if i >= ls.len() {
        0
    } else {
        pairs_in_row(ls, i, i + MIN_DUPLICATE_LINES) + pairs_from(ls, i + 1)
    }
}

/// The number of duplicate pairs among the lines `ls`.
pub open spec fn duplicate_pairs(ls: Seq<Seq<char>>) -> nat {
    pairs_from(ls, 0)
}

/// What the detector reports for `code`: nothing without a duplicate pair,
/// else the number of pairs.
pub open spec fn duplicate_findings(code: Seq<char>) -> Option<nat> {
    let count = duplicate_pairs(lines(code));
    if count == 0 {
        None
    } else {
        Some(count)
    }
}

proof fn lemma_row_bound(ls: Seq<Seq<char>>, i: int, j: int)
    requires
        0 <= j <= ls.len(),
    ensures
        pairs_in_row(ls, i, j) <= ls.len() - j,
    decreases ls.len() - j,
{
    if j < ls.len() {
        lemma_row_bound(ls, i, j + 1);
    }
}

proof fn lemma_pairs_bound(ls: Seq<Seq<char>>, i: int)
    requires
        0 <= i <= ls.len(),
    ensures
        pairs_from(ls, i) <= (ls.len() - i) * ls.len(),
    decreases ls.len() - i,
{
    if i < ls.len() {
        lemma_pairs_bound(ls, i + 1);
        if i + MIN_DUPLICATE_LINES <= ls.len() {
            lemma_row_bound(ls, i, i + MIN_DUPLICATE_LINES);
        }
        assert((ls.len() - i) * ls.len() == (ls.len() - (i + 1)) * ls.len() + ls.len())
            by (nonlinear_arith);
    }
}

proof fn lemma_row_positive(ls: Seq<Seq<char>>, i: int, from: int, j: int)
    requires
        0 <= from <= j < ls.len(),
        is_duplicate_pair(ls, i, j),
    ensures
        pairs_in_row(ls, i, from) >= 1,
    decreases j - from,
{
    if from < j {
        lemma_row_positive(ls, i, from + 1, j);
    }
}

proof fn lemma_pairs_positive(ls: Seq<Seq<char>>, from: int, i: int, j: int)
    requires
        0 <= from <= i,
        is_duplicate_pair(ls, i, j),
    ensures
        pairs_from(ls, from) >= 1,
    decreases i - from,
{
    assert(offset_matches(ls, i, j, 0));
    if from < i {
        lemma_pairs_positive(ls, from + 1, i, j);
    } else {
        lemma_row_positive(ls, i, i + MIN_DUPLICATE_LINES, j);
    }
}

proof fn lemma_row_zero(ls: Seq<Seq<char>>, i: int, j: int)
    requires
        forall|j2: int| !is_duplicate_pair(ls, i, j2),
    ensures
        pairs_in_row(ls, i, j) == 0,
    decreases ls.len() - j,
{
    if j < ls.len() {
        lemma_row_zero(ls, i, j + 1);
    }
}

proof fn lemma_pairs_zero(ls: Seq<Seq<char>>, i: int)
    requires
        forall|i2: int, j2: int| !is_duplicate_pair(ls, i2, j2),
    ensures
        pairs_from(ls, i) == 0,
    decreases ls.len() - i,
{
    if i < ls.len() {
        lemma_row_zero(ls, i, i + MIN_DUPLICATE_LINES);
        lemma_pairs_zero(ls, i + 1);
    }
}

/// A text in which two runs of lines that do not overlap agree on three
/// lines, none of them blank, has at least one finding.
pub proof fn lemma_repeated_block_is_found(code: Seq<char>, i: int, j: int)
    requires
        is_duplicate_pair(lines(code), i, j),
    ensures
        duplicate_findings(code) is Some,
        duplicate_findings(code)->0 >= 1,
{
    lemma_pairs_positive(lines(code), 0, i, j);
}

/// A text without such a pair of runs has no finding.
pub proof fn lemma_no_repeat_no_finding(code: Seq<char>)
    requires
        forall|i: int, j: int| !is_duplicate_pair(lines(code), i, j),
    ensures
        duplicate_findings(code) is None,
{
    lemma_pairs_zero(lines(code), 0);
}

/// Counts the pairs of line runs in `code` that repeat each other.
pub fn detect_duplicates(code: &str) -> (r: Option<u128>)
    ensures
        r.is_some() == duplicate_findings(code@).is_some(),
        r.is_some() ==> r.unwrap() == duplicate_findings(code@).unwrap(),
{
    let text = to_chars(code);
    let raw = split_lines(&text);
    let n: usize = raw.len();
    let ghost ls = lines(code@);
    let mut clean: Vec<Vec<char>> = Vec::new();
    let mut k: usize = 0;
    while k < n
        invariant
            k <= n,
            n == raw.len(),
            rows(raw@) == ls,
            clean.len() == k,
            forall|q: int| 0 <= q < k ==> (#[trigger] clean@[q])@ == trimmed(ls[q]),
        decreases n - k,
    {
        let t = trim(&raw[k]);
        clean.push(t);
        k += 1;
    }
    let mut count: u128 = 0;
    let mut i: usize = 0;
    while i < n
        invariant
            i <= n,
            n == ls.len(),
            clean.len() == n,
            forall|q: int| 0 <= q < n ==> (#[trigger] clean@[q])@ == trimmed(ls[q]),
            count + pairs_from(ls, i as int) == pairs_from(ls, 0),
        decreases n - i,
    {
        let mut row: usize = 0;
        if n - i > MIN_DUPLICATE_LINES {
            let mut j: usize = i + MIN_DUPLICATE_LINES;
            while j < n
                invariant
                    i + MIN_DUPLICATE_LINES <= j <= n,
                    n == ls.len(),
                    clean.len() == n,
                    forall|q: int| 0 <= q < n ==> (#[trigger] clean@[q])@ == trimmed(ls[q]),
                    row + pairs_in_row(ls, i as int, j as int) == pairs_in_row(
                        ls,
                        i as int,
                        i + MIN_DUPLICATE_LINES,
                    ),
                    row <= j - i - MIN_DUPLICATE_LINES,
                decreases n - j,
            {
                let mut run: usize = 0;
                while j + run < n && clean[i + run].len() > 0 && chars_equal(
                    &clean[i + run],
                    &clean[j + run],
                )
                    invariant
                        i + MIN_DUPLICATE_LINES <= j < n,
                        j + run <= n,
                        n == ls.len(),
                        clean.len() == n,
                        forall|q: int|
                            0 <= q < n ==> (#[trigger] clean@[q])@ == trimmed(ls[q]),
                        forall|q: int|
                            0 <= q < run ==> #[trigger] offset_matches(ls, i as int, j as int, q),
                    decreases n - j - run,
                {
                    run += 1;
                }
                proof {
                    if run < MIN_DUPLICATE_LINES {
                        assert(!offset_matches(ls, i as int, j as int, run as int));
                    }
                }
                if run >= MIN_DUPLICATE_LINES {
                    row += 1;
                }
                j += 1;
            }
        }
        proof {
            lemma_pairs_bound(ls, 0);
            assert(n * n <= u128::MAX) by (nonlinear_arith)
                requires
                    n <= u64::MAX,
            ;
        }
        count = count + row as u128;
        i += 1;
    }
    if count > 0 {
        Some(count)
    } else {
        None
    }
}

} // verus!
