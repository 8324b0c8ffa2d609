//! Line-by-line differences between two texts, their rendering as text and
//! the replay of a rendered difference.

use crate::text::{
    first_newline, from_chars, lemma_first_newline, lemma_first_newline_is,
    lemma_records_have_no_newline, no_newline, records, rows, split_records, to_chars,
};
use vstd::prelude::*;
use vstd::string::*;

verus! {

/// One line of a difference.
#[derive(Debug)]
pub enum DiffLine {
    /// A line that only the earlier text has.
    Removed(String),
    /// A line that only the later text has.
    Added(String),
    /// A line that both texts have.
    Unchanged(String),
}

/// The mathematical content of a line of a difference.
pub enum DiffEntry {
    Removed(Seq<char>),
    Added(Seq<char>),
    Unchanged(Seq<char>),
}

impl View for DiffLine {
    type V = DiffEntry;

    open spec fn view(&self) -> DiffEntry {
        match self {
            DiffLine::Removed(l) => DiffEntry::Removed(l@),
            DiffLine::Added(l) => DiffEntry::Added(l@),
            DiffLine::Unchanged(l) => DiffEntry::Unchanged(l@),
        }
    }
}

/// The views of a sequence of difference lines.
pub open spec fn entries(v: Seq<DiffLine>) -> Seq<DiffEntry> {
    Seq::new(v.len(), |i: int| v[i]@)
}

/// The text of an entry, without its marker.
pub open spec fn content(e: DiffEntry) -> Seq<char> {
    match e {
        DiffEntry::Removed(l) => l,
        DiffEntry::Added(l) => l,
        DiffEntry::Unchanged(l) => l,
    }
}

/// The lines that a difference is taken over: `text` cut at its line feeds
/// and at nothing else, so that a carriage return stays in its line. A text
/// that ends in a line feed has an empty last line, and the empty text has no
/// line. Joined by line feeds the lines give `text` back.
pub open spec fn diff_lines(text: Seq<char>) -> Seq<Seq<char>> {
    if text.len() > 0 && text.last() == '\n' {
        records(text).push(Seq::empty())
    } else {
        records(text)
    }
}

/// The views of a sequence of strings.
pub open spec fn line_views(v: Seq<String>) -> Seq<Seq<char>> {
    Seq::new(v.len(), |i: int| v[i]@)
}

/// The lines of the earlier text that a difference holds: the removed and the
/// unchanged ones, in order.
pub open spec fn before_side(d: Seq<DiffEntry>) -> Seq<Seq<char>>
    decreases d.len(),
{
    if d.len() == 0 {
        Seq::empty()
    } else {
        match d[0] {
            DiffEntry::Added(_) => before_side(d.drop_first()),
            e => seq![content(e)] + before_side(d.drop_first()),
        }
    }
}

/// The lines of the later text that a difference holds: the added and the
/// unchanged ones, in order.
pub open spec fn after_side(d: Seq<DiffEntry>) -> Seq<Seq<char>>
    decreases d.len(),
{
    if d.len() == 0 {
        Seq::empty()
    } else {
        match d[0] {
            DiffEntry::Removed(_) => after_side(d.drop_first()),
            e => seq![content(e)] + after_side(d.drop_first()),
        }
    }
}

/// The difference between two sequences of lines, in the order in which a
/// longest-common-subsequence comparison gives it.
pub uninterp spec fn line_diff(before: Seq<Seq<char>>, after: Seq<Seq<char>>) -> Seq<DiffEntry>;

/// Whether the comparison table for texts of `before` and `after` lines, one
/// cell of four bytes for every pair of line positions, can be allocated.
pub open spec fn table_fits(before: nat, after: nat) -> bool {
    (before + 1) * (after + 1) * 4 <= isize::MAX
}

/// Whether the comparison table for the two texts can be allocated.
pub open spec fn diff_table_fits(before: Seq<char>, after: Seq<char>) -> bool {
    table_fits(diff_lines(before).len(), diff_lines(after).len())
}

/// Calls `diff::slice` on the two sequences of lines and keeps each fragment
/// with a copy of its line; of a fragment that both have, the earlier copy is
/// kept. Trusted: the fragments depend on the lines alone; read in order,
/// those that the earlier sequence has are its lines and those that the later
/// sequence has are its lines. The function allocates a table of one `u32`
/// for every pair of line positions, which must fit.
#[verifier::external_body]
fn compare_lines(before: &Vec<String>, after: &Vec<String>) -> (r: Vec<DiffLine>)
    requires
        table_fits(before@.len(), after@.len()),
    ensures
        entries(r@) == line_diff(line_views(before@), line_views(after@)),
        before_side(entries(r@)) == line_views(before@),
        after_side(entries(r@)) == line_views(after@),
{
    let mut out = Vec::new();
    for fragment in diff::slice(before, after) {
        out.push(
            match fragment {
                diff::Result::Left(l) => DiffLine::Removed(l.clone()),
                diff::Result::Right(r) => DiffLine::Added(r.clone()),
                diff::Result::Both(l, _) => DiffLine::Unchanged(l.clone()),
            },
        );
    }
    out
}

/// Cuts `text` into the lines that a difference is taken over.
pub fn cut_lines(text: &str) -> (r: Vec<String>)
    ensures
        line_views(r@) == diff_lines(text@),
{
    let chars = to_chars(text);
    let parts = split_records(&chars);
    let mut out: Vec<String> = Vec::new();
    let mut i: usize = 0;
    while i < parts.len()
        invariant
            i <= parts.len(),
            rows(parts@) == records(text@),
            line_views(out@) == records(text@).take(i as int),
        decreases parts.len() - i,
    {
        let line = from_chars(&parts[i]);
        proof {
            assert(rows(parts@)[i as int] == parts@[i as int]@);
            assert(records(text@).take(i + 1) =~= records(text@).take(i as int).push(line@));
        }
        out.push(line);
        assert(line_views(out@) =~= records(text@).take(i + 1));
        i += 1;
    }
    proof {
        assert(records(text@).take(parts.len() as int) =~= records(text@));
    }
    let n: usize = chars.len();
    if n > 0 && chars[n - 1] == '\n' {
        out.push(String::new());
        assert(line_views(out@) =~= records(text@).push(Seq::empty()));
    }
    out
}

/// The marker that opens the rendering of an entry.
pub open spec fn marker(e: DiffEntry) -> char {
    match e {
        DiffEntry::Removed(_) => '-',
        DiffEntry::Added(_) => '+',
        DiffEntry::Unchanged(_) => ' ',
    }
}

/// An entry as one line of text: its marker, a space, its content and a line
/// feed.
pub open spec fn render_entry(e: DiffEntry) -> Seq<char> {
    seq![marker(e), ' '] + content(e) + seq!['\n']
}

/// A difference as text, one line for each entry.
pub open spec fn render(d: Seq<DiffEntry>) -> Seq<char>
    decreases d.len(),
{
    if d.len() == 0 {
        Seq::empty()
    } else {
        render_entry(d[0]) + render(d.drop_first())
    }
}

/// The rendered difference between two texts.
pub open spec fn diff_text(before: Seq<char>, after: Seq<char>) -> Seq<char> {
    render(line_diff(diff_lines(before), diff_lines(after)))
}

/// Renders a difference as text: `- ` before a removed line, `+ ` before an
/// added one and two spaces before an unchanged one.
pub fn render_diff(diff: &Vec<DiffLine>) -> (r: String)
    ensures
        r@ == render(entries(diff@)),
{
    let ghost d = entries(diff@);
    let mut out = String::new();
    let mut i: usize = 0;
    proof {
        assert(d.skip(0) =~= d);
    }
    while i < diff.len()
        invariant
            i <= diff.len(),
            d == entries(diff@),
            out@ + render(d.skip(i as int)) == render(d),
        decreases diff.len() - i,
    {
        let ghost rest = d.skip(i as int);
        proof {
            assert(rest.drop_first() =~= d.skip(i + 1));
            reveal_strlit("- ");
            reveal_strlit("+ ");
            reveal_strlit("  ");
            reveal_strlit("\n");
        }
        match &diff[i] {
            DiffLine::Removed(l) => {
                out.append("- ");
                out.append(l.as_str());
            },
            DiffLine::Added(l) => {
                out.append("+ ");
                out.append(l.as_str());
            },
            DiffLine::Unchanged(l) => {
                out.append("  ");
                out.append(l.as_str());
            },
        }
        out.append("\n");
        i += 1;
    }
    out
}

/// Whether a record of a rendered difference belongs to the side that is
/// marked with `side`: it is unchanged or carries that marker.
pub open spec fn is_kept(record: Seq<char>, side: char) -> bool {
    record.len() >= 2 && record[1] == ' ' && (record[0] == ' ' || record[0] == side)
}

/// The contents of the records that belong to a side, in order.
pub open spec fn replay(recs: Seq<Seq<char>>, side: char) -> Seq<Seq<char>>
    decreases recs.len(),
{
    if recs.len() == 0 {
        Seq::empty()
    } else if is_kept(recs[0], side) {
        seq![recs[0].skip(2)] + replay(recs.drop_first(), side)
    } else {
        replay(recs.drop_first(), side)
    }
}

/// The lines that a rendered difference keeps of the earlier text: the
/// unchanged and the removed ones.
pub open spec fn replay_before(diff: Seq<char>) -> Seq<Seq<char>> {
    replay(records(diff), '-')
}

/// The lines that a rendered difference keeps of the later text: the
/// unchanged and the added ones.
pub open spec fn replay_after(diff: Seq<char>) -> Seq<Seq<char>> {
    replay(records(diff), '+')
}

/// The lines `ls` with a line feed between each two.
pub open spec fn join_lines(ls: Seq<Seq<char>>) -> Seq<char>
    decreases ls.len(),
{
    if ls.len() == 0 {
        Seq::empty()
    } else if ls.len() == 1 {
        ls[0]
    } else {
        ls[0] + seq!['\n'] + join_lines(ls.drop_first())
    }
}

/// Whether no content of the difference holds a line feed.
pub open spec fn plain_contents(d: Seq<DiffEntry>) -> bool {
    forall|i: int| 0 <= i < d.len() ==> no_newline(content(#[trigger] d[i]))
}

/// Whether none of the lines holds a line feed.
pub open spec fn plain_lines(ls: Seq<Seq<char>>) -> bool {
    forall|i: int| 0 <= i < ls.len() ==> no_newline(#[trigger] ls[i])
}

proof fn lemma_records_of_rendered(e: DiffEntry, rest: Seq<char>)
    requires
        no_newline(content(e)),
    ensures
        records(render_entry(e) + rest) == seq![seq![marker(e), ' '] + content(e)] + records(
            rest,
        ),
{
    let s = render_entry(e) + rest;
    let k = 2 + content(e).len() as int;
    lemma_first_newline_is(s, k);
    assert(s.take(k) =~= seq![marker(e), ' '] + content(e));
    assert(s.skip(k + 1) =~= rest);
}

/// Replaying a rendered difference gives back the lines of either side, when
/// no content holds a line feed.
pub proof fn lemma_replay_of_rendered(d: Seq<DiffEntry>)
    requires
        plain_contents(d),
    ensures
        replay_before(render(d)) == before_side(d),
        replay_after(render(d)) == after_side(d),
    decreases d.len(),
{
    if d.len() > 0 {
        let e = d[0];
        let rest = d.drop_first();
        lemma_replay_of_rendered(rest);
        lemma_records_of_rendered(e, render(rest));
        let record = seq![marker(e), ' '] + content(e);
        let recs = records(render(d));
        assert(recs.drop_first() =~= records(render(rest)));
        assert(record.skip(2) =~= content(e));
    }
}

/// A difference whose two sides are free of line feeds holds none at all.
pub proof fn lemma_plain_sides(d: Seq<DiffEntry>)
    requires
        plain_lines(before_side(d)),
        plain_lines(after_side(d)),
    ensures
        plain_contents(d),
    decreases d.len(),
{
    if d.len() > 0 {
        let rest = d.drop_first();
        let b = before_side(d);
        let a = after_side(d);
        let rb = before_side(rest);
        let ra = after_side(rest);
        assert forall|i: int| 0 <= i < rb.len() implies no_newline(#[trigger] rb[i]) by {
            if b.len() == rb.len() {
                assert(rb[i] == b[i]);
            } else {
                assert(rb[i] == b[i + 1]);
            }
        }
        assert forall|i: int| 0 <= i < ra.len() implies no_newline(#[trigger] ra[i]) by {
            if a.len() == ra.len() {
                assert(ra[i] == a[i]);
            } else {
                assert(ra[i] == a[i + 1]);
            }
        }
        lemma_plain_sides(rest);
        match d[0] {
            DiffEntry::Added(l) => {
                assert(a[0] == l);
            },
            DiffEntry::Removed(l) => {
                assert(b[0] == l);
            },
            DiffEntry::Unchanged(l) => {
                assert(b[0] == l);
            },
        }
        assert forall|i: int| 0 <= i < d.len() implies no_newline(content(#[trigger] d[i])) by {
            if i > 0 {
                assert(d[i] == rest[i - 1]);
            }
        }
    }
}

/// The lines that a difference is taken over hold no line feed.
pub proof fn lemma_diff_lines_plain(text: Seq<char>)
    ensures
        plain_lines(diff_lines(text)),
{
    lemma_records_have_no_newline(text);
    let ls = diff_lines(text);
    assert forall|i: int| 0 <= i < ls.len() implies no_newline(#[trigger] ls[i]) by {
        if i < records(text).len() {
            assert(ls[i] == records(text)[i]);
        }
    }
}

/// Joining the lines that a difference is taken over gives the text back.
pub proof fn lemma_join_diff_lines(text: Seq<char>)
    ensures
        join_lines(diff_lines(text)) == text,
    decreases text.len(),
{
    if text.len() > 0 {
        lemma_first_newline(text);
        let k = first_newline(text) as int;
        if k >= text.len() {
            assert(text.last() != '\n');
            assert(diff_lines(text) == seq![text]);
        } else {
            let head = text.take(k);
            let rest = text.skip(k + 1);
            lemma_join_diff_lines(rest);
            assert(text =~= head + seq!['\n'] + rest);
            let ls = diff_lines(text);
            if rest.len() == 0 {
                assert(records(rest) =~= Seq::<Seq<char>>::empty());
                assert(records(text) =~= seq![head]);
                assert(text.last() == '\n');
                assert(ls =~= seq![head, Seq::<char>::empty()]);
                assert(ls.drop_first() =~= seq![Seq::<char>::empty()]);
                assert(join_lines(ls.drop_first()) =~= Seq::<char>::empty());
                assert(join_lines(ls) =~= head + seq!['\n']);
            } else {
                assert(text.last() == rest.last());
                assert(records(rest).len() > 0);
                assert(ls =~= seq![head] + diff_lines(rest));
                assert(ls.drop_first() =~= diff_lines(rest));
                assert(ls[0] == head);
            }
        }
    } else {
        assert(diff_lines(text) =~= Seq::<Seq<char>>::empty());
    }
}

/// Decides whether the comparison table for texts of so many lines can be
/// allocated.
fn lines_fit(rows_before: usize, rows_after: usize) -> (r: bool)
    ensures
        r == table_fits(rows_before as nat, rows_after as nat),
{
    let limit: usize = (isize::MAX as usize) / 4;
    if rows_before >= limit || rows_after >= limit {
        proof {
            let x = rows_before + 1;
            let y = rows_after + 1;
            assert(x * y * 4 > isize::MAX) by (nonlinear_arith)
                requires
                    x >= 1,
                    y >= 1,
                    x > limit || y > limit,
                    limit == (isize::MAX as int) / 4,
            ;
        }
        return false;
    }
    let x: u128 = rows_before as u128 + 1;
    let y: u128 = rows_after as u128 + 1;
    proof {
        assert(x * y <= 0x2000_0000_0000_0000 * 0x2000_0000_0000_0000) by (nonlinear_arith)
            requires
                0 <= x <= 0x2000_0000_0000_0000,
                0 <= y <= 0x2000_0000_0000_0000,
        ;
    }
    x * y * 4 <= isize::MAX as u128
}

/// Decides whether the comparison table for the two texts can be allocated.
pub fn diff_is_feasible(before: &str, after: &str) -> (r: bool)
    ensures
        r == diff_table_fits(before@, after@),
{
    let b = cut_lines(before);
    let a = cut_lines(after);
    proof {
        assert(line_views(b@).len() == b@.len());
        assert(line_views(a@).len() == a@.len());
    }
    lines_fit(b.len(), a.len())
}

/// The line-by-line difference between `before` and `after` as text, in the
/// order of a longest-common-subsequence comparison. The texts are cut at
/// their line feeds. Replaying either side of the difference gives the lines
/// of that input, and joining those lines by line feeds gives the input
/// itself, character for character.
pub fn generate_diff(before: &str, after: &str) -> (r: String)
    requires
        diff_table_fits(before@, after@),
    ensures
        r@ == diff_text(before@, after@),
        replay_before(r@) == diff_lines(before@),
        replay_after(r@) == diff_lines(after@),
        join_lines(replay_before(r@)) == before@,
        join_lines(replay_after(r@)) == after@,
{
    let b = cut_lines(before);
    let a = cut_lines(after);
    proof {
        assert(line_views(b@).len() == b@.len());
        assert(line_views(a@).len() == a@.len());
    }
    let diff = compare_lines(&b, &a);
    let out = render_diff(&diff);
    proof {
        let d = entries(diff@);
        lemma_diff_lines_plain(before@);
        lemma_diff_lines_plain(after@);
        lemma_plain_sides(d);
        lemma_replay_of_rendered(d);
        lemma_join_diff_lines(before@);
        lemma_join_diff_lines(after@);
    }
    out
}

proof fn lemma_join_push(ls: Seq<Seq<char>>, l: Seq<char>)
    ensures
        join_lines(ls.push(l)) == if ls.len() == 0 {
            l
        } else {
            join_lines(ls) + seq!['\n'] + l
        },
    decreases ls.len(),
{
    let all = ls.push(l);
    if ls.len() == 0 {
        assert(all[0] == l);
    } else {
        let rest = ls.drop_first();
        lemma_join_push(rest, l);
        assert(all.drop_first() =~= rest.push(l));
        if rest.len() == 0 {
            assert(join_lines(ls) == ls[0]);
        } else {
            assert(join_lines(all) =~= ls[0] + seq!['\n'] + (join_lines(rest) + seq!['\n'] + l));
        }
    }
}

proof fn lemma_replay_push(recs: Seq<Seq<char>>, rec: Seq<char>, side: char)
    ensures
        replay(recs.push(rec), side) == if is_kept(rec, side) {
            replay(recs, side).push(rec.skip(2))
        } else {
            replay(recs, side)
        },
    decreases recs.len(),
{
    let all = recs.push(rec);
    if recs.len() == 0 {
        assert(replay(all.drop_first(), side) =~= Seq::<Seq<char>>::empty());
        if is_kept(rec, side) {
            assert(replay(all, side) =~= seq![rec.skip(2)]);
        }
    } else {
        let rest = recs.drop_first();
        lemma_replay_push(rest, rec, side);
        assert(all.drop_first() =~= rest.push(rec));
        if is_kept(recs[0], side) {
            if is_kept(rec, side) {
                assert(replay(all, side) =~= (seq![recs[0].skip(2)] + replay(rest, side)).push(
                    rec.skip(2),
                ));
            }
        }
    }
}

/// Joins the records of a rendered difference that belong to a side.
fn reconstruct(diff: &str, side: char) -> (r: String)
    ensures
        r@ == join_lines(replay(records(diff@), side)),
{
    let recs = split_records(&to_chars(diff));
    let ghost rs = records(diff@);
    let mut out: Vec<char> = Vec::new();
    let mut first: bool = true;
    let mut i: usize = 0;
    while i < recs.len()
        invariant
            i <= recs.len(),
            rows(recs@) == rs,
            out@ == join_lines(replay(rs.take(i as int), side)),
            first == (replay(rs.take(i as int), side).len() == 0),
        decreases recs.len() - i,
    {
        let rec = &recs[i];
        let ghost kept = replay(rs.take(i as int), side);
        proof {
            assert(rs.take(i + 1) =~= rs.take(i as int).push(rec@));
            lemma_replay_push(rs.take(i as int), rec@, side);
            lemma_join_push(kept, rec@.skip(2));
        }
        if rec.len() >= 2 && rec[1] == ' ' && (rec[0] == ' ' || rec[0] == side) {
            if !first {
                out.push('\n');
            }
            let ghost base = out@;
            let mut k: usize = 2;
            while k < rec.len()
                invariant
                    2 <= k <= rec.len(),
                    out@ == base + rec@.subrange(2, k as int),
                decreases rec.len() - k,
            {
                out.push(rec[k]);
                k += 1;
            }
            first = false;
        }
        i += 1;
    }
    proof {
        assert(rs.take(recs.len() as int) =~= rs);
    }
    from_chars(&out)
}

/// The earlier text as a rendered difference keeps it: its unchanged and
/// removed lines, joined by line feeds.
pub fn reconstruct_before(diff: &str) -> (r: String)
    ensures
        r@ == join_lines(replay_before(diff@)),
{
    reconstruct(diff, '-')
}

/// The later text as a rendered difference keeps it: its unchanged and added
/// lines, joined by line feeds.
pub fn reconstruct_after(diff: &str) -> (r: String)
    ensures
        r@ == join_lines(replay_after(diff@)),
{
    reconstruct(diff, '+')
}

} // verus!
