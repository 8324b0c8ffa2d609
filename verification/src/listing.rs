//! The arrangement of a directory's entries: files and directories apart,
//! each ordered by name.

use crate::text::to_chars;
use vstd::multiset::Multiset;
use vstd::prelude::*;

verus! {

/// One entry of a directory.
#[derive(Debug)]
pub struct FileInfo {
    pub name: String,
    pub path: String,
    pub is_dir: bool,
    /// The size in bytes.
    pub size: u64,
    /// The time of the last change in seconds since the start of 1970, where
    /// it is known.
    pub modified: Option<u64>,
}

/// The entries of a directory, arranged.
#[derive(Debug)]
pub struct DirectoryContent {
    pub path: String,
    pub files: Vec<FileInfo>,
    pub directories: Vec<FileInfo>,
}

/// Whether `a` comes strictly before `b` in the order of texts: character by
/// character by code point, a proper prefix first. This is the order of
/// strings in the standard library.
pub open spec fn text_before(a: Seq<char>, b: Seq<char>) -> bool
    decreases a.len(),
{
    if b.len() == 0 {
        false
    } else if a.len() == 0 {
        true
    } else if a[0] == b[0] {
        text_before(a.drop_first(), b.drop_first())
    } else {
        (a[0] as int) < (b[0] as int)
    }
}

/// `sorted` with `entry` put in before the first entry whose name does not
/// come before its own.
pub open spec fn insert_by_name(sorted: Seq<FileInfo>, entry: FileInfo) -> Seq<FileInfo>
    decreases sorted.len(),
{
    if sorted.len() == 0 {
        seq![entry]
    } else if text_before(sorted[0].name@, entry.name@) {
        seq![sorted[0]] + insert_by_name(sorted.drop_first(), entry)
    } else {
        seq![entry] + sorted
    }
}

/// The entries ordered by name; entries of one name keep their order.
pub open spec fn sort_by_name(entries: Seq<FileInfo>) -> Seq<FileInfo>
    decreases entries.len(),
{
    if entries.len() == 0 {
        Seq::empty()
    } else {
        insert_by_name(sort_by_name(entries.drop_first()), entries[0])
    }
}

/// The entries that are directories (`dirs`) or those that are not, in order.
pub open spec fn entries_of_kind(entries: Seq<FileInfo>, dirs: bool) -> Seq<FileInfo>
    decreases entries.len(),
{
    if entries.len() == 0 {
        Seq::empty()
    } else if entries[0].is_dir == dirs {
        seq![entries[0]] + entries_of_kind(entries.drop_first(), dirs)
    } else {
        entries_of_kind(entries.drop_first(), dirs)
    }
}

/// Whether no entry's name comes before the name of an entry that stands
/// before it.
pub open spec fn is_sorted_by_name(entries: Seq<FileInfo>) -> bool {
    forall|i: int, j: int|
        0 <= i < j < entries.len() ==> !text_before(
            (#[trigger] entries[j]).name@,
            (#[trigger] entries[i]).name@,
        )
}

/// Of two texts that differ, one comes before the other; a text never comes
/// before itself.
pub proof fn lemma_text_order_total(a: Seq<char>, b: Seq<char>)
    ensures
        !(text_before(a, b) && text_before(b, a)),
        a != b ==> text_before(a, b) || text_before(b, a),
        !text_before(a, a),
    decreases a.len(),
{
    if a.len() > 0 && b.len() > 0 && a[0] == b[0] {
        lemma_text_order_total(a.drop_first(), b.drop_first());
        if a.drop_first() == b.drop_first() {
            assert(a =~= seq![a[0]] + a.drop_first());
            assert(b =~= seq![b[0]] + b.drop_first());
        }
    } else if a.len() == 0 && b.len() == 0 {
        assert(a =~= b);
    }
    if a.len() > 0 {
        lemma_text_order_total(a.drop_first(), a.drop_first());
    }
}

/// The order of texts is transitive.
pub proof fn lemma_text_order_transitive(a: Seq<char>, b: Seq<char>, c: Seq<char>)
    requires
        text_before(a, b),
        text_before(b, c),
    ensures
        text_before(a, c),
    decreases a.len(),
{
    if a.len() > 0 && b.len() > 0 && c.len() > 0 && a[0] == b[0] && b[0] == c[0] {
        lemma_text_order_transitive(a.drop_first(), b.drop_first(), c.drop_first());
    }
}

proof fn lemma_not_before_chain(a: Seq<char>, b: Seq<char>, c: Seq<char>)
    requires
        !text_before(b, a),
        !text_before(c, b),
    ensures
        !text_before(c, a),
{
    lemma_text_order_total(b, c);
    if text_before(c, a) && a != b && b != c {
        lemma_text_order_transitive(b, c, a);
    }
}

/// Putting an entry in at its place is what `insert_by_name` does.
proof fn lemma_insert_at(sorted: Seq<FileInfo>, entry: FileInfo, at: int)
    requires
        0 <= at <= sorted.len(),
        forall|k: int| 0 <= k < at ==> text_before((#[trigger] sorted[k]).name@, entry.name@),
        at < sorted.len() ==> !text_before(sorted[at].name@, entry.name@),
    ensures
        insert_by_name(sorted, entry) == sorted.insert(at, entry),
    decreases at,
{
    if at == 0 {
        if sorted.len() == 0 {
            assert(sorted.insert(0, entry) =~= seq![entry]);
        } else {
            assert(sorted.insert(0, entry) =~= seq![entry] + sorted);
        }
    } else {
        let rest = sorted.drop_first();
        if at < sorted.len() {
            assert(rest[at - 1] == sorted[at]);
        }
        lemma_insert_at(rest, entry, at - 1);
    }
}

proof fn lemma_insert_place(sorted: Seq<FileInfo>, entry: FileInfo) -> (at: int)
    requires
        is_sorted_by_name(sorted),
    ensures
        0 <= at <= sorted.len(),
        forall|k: int| 0 <= k < at ==> text_before((#[trigger] sorted[k]).name@, entry.name@),
        at < sorted.len() ==> !text_before(sorted[at].name@, entry.name@),
        insert_by_name(sorted, entry) == sorted.insert(at, entry),
    decreases sorted.len(),
{
    if sorted.len() == 0 || !text_before(sorted[0].name@, entry.name@) {
        0
    } else {
        let rest = sorted.drop_first();
        let inner = lemma_insert_place(rest, entry);
        let at = inner + 1;
        assert forall|k: int| 0 <= k < at implies text_before(
            (#[trigger] sorted[k]).name@,
            entry.name@,
        ) by {
            if k > 0 {
                assert(sorted[k] == rest[k - 1]);
            }
        }
        if at < sorted.len() {
            assert(sorted[at] == rest[inner]);
        }
        at
    }
}

/// Putting an entry into ordered entries leaves them ordered and adds just
/// that entry.
pub proof fn lemma_insert_keeps_order(sorted: Seq<FileInfo>, entry: FileInfo)
    requires
        is_sorted_by_name(sorted),
    ensures
        is_sorted_by_name(insert_by_name(sorted, entry)),
        insert_by_name(sorted, entry).to_multiset() == sorted.to_multiset().insert(entry),
{
    let at = lemma_insert_place(sorted, entry);
    let out = sorted.insert(at, entry);
    assert forall|i: int, j: int| 0 <= i < j < out.len() implies !text_before(
        (#[trigger] out[j]).name@,
        (#[trigger] out[i]).name@,
    ) by {
        if j == at {
            lemma_text_order_total(entry.name@, sorted[i].name@);
        } else if i == at {
            if j - 1 > at {
                assert(!text_before(sorted[j - 1].name@, sorted[at].name@));
            } else {
                lemma_text_order_total(sorted[at].name@, sorted[at].name@);
            }
            lemma_not_before_chain(entry.name@, sorted[at].name@, sorted[j - 1].name@);
        }
    }
    assert(out.remove(at) =~= sorted);
    out.to_multiset_ensures();
}

/// Ordering by name gives ordered entries and keeps every entry, as often as
/// it occurs.
pub proof fn lemma_sort_by_name(entries: Seq<FileInfo>)
    ensures
        is_sorted_by_name(sort_by_name(entries)),
        sort_by_name(entries).to_multiset() == entries.to_multiset(),
        sort_by_name(entries).len() == entries.len(),
    decreases entries.len(),
{
    if entries.len() == 0 {
        assert(sort_by_name(entries) =~= entries);
    } else {
        let rest = entries.drop_first();
        lemma_sort_by_name(rest);
        lemma_insert_keeps_order(sort_by_name(rest), entries[0]);
        assert(entries =~= seq![entries[0]] + rest);
        vstd::seq_lib::lemma_multiset_commutative(seq![entries[0]], rest);
        let single = seq![entries[0]];
        assert(single.to_multiset() =~= Multiset::<FileInfo>::empty().insert(entries[0])) by {
            single.to_multiset_ensures();
        }
        sort_by_name(entries).to_multiset_ensures();
        entries.to_multiset_ensures();
    }
}

/// Whether entries of one name are one and the same entry, as the entries of
/// a directory are.
pub open spec fn one_entry_per_name(entries: Seq<FileInfo>) -> bool {
    forall|i: int, j: int|
        0 <= i < entries.len() && 0 <= j < entries.len() && (#[trigger] entries[i]).name@ == (
        #[trigger] entries[j]).name@ ==> entries[i] == entries[j]
}

proof fn lemma_first_in_multiset(s: Seq<FileInfo>)
    requires
        s.len() > 0,
    ensures
        s.to_multiset() == s.drop_first().to_multiset().insert(s[0]),
{
    let single = seq![s[0]];
    assert(s =~= single + s.drop_first());
    vstd::seq_lib::lemma_multiset_commutative(single, s.drop_first());
    assert(single.to_multiset() =~= Multiset::<FileInfo>::empty().insert(s[0])) by {
        single.to_multiset_ensures();
        assert(single =~= Seq::<FileInfo>::empty().push(s[0]));
        Seq::<FileInfo>::empty().to_multiset_ensures();
    }
    assert(s.to_multiset() =~= s.drop_first().to_multiset().insert(s[0]));
}

/// How often an entry stands among those of a kind goes by how often it
/// stands among all.
proof fn lemma_kind_count(s: Seq<FileInfo>, dirs: bool, x: FileInfo)
    ensures
        entries_of_kind(s, dirs).to_multiset().count(x) == if x.is_dir == dirs {
            s.to_multiset().count(x)
        } else {
            0
        },
    decreases s.len(),
{
    if s.len() == 0 {
        s.to_multiset_ensures();
        entries_of_kind(s, dirs).to_multiset_ensures();
        assert(s.to_multiset().len() == 0);
        assert(entries_of_kind(s, dirs).to_multiset().len() == 0);
    } else {
        let rest = s.drop_first();
        lemma_kind_count(rest, dirs, x);
        lemma_first_in_multiset(s);
        if s[0].is_dir == dirs {
            let kind = entries_of_kind(s, dirs);
            assert(kind[0] == s[0]);
            assert(kind.drop_first() =~= entries_of_kind(rest, dirs));
            lemma_first_in_multiset(kind);
        }
    }
}

/// Two ordered sequences that hold the same entries equally often are the
/// same sequence, where entries of one name are one entry.
proof fn lemma_sorted_is_unique(s1: Seq<FileInfo>, s2: Seq<FileInfo>)
    requires
        is_sorted_by_name(s1),
        is_sorted_by_name(s2),
        s1.to_multiset() == s2.to_multiset(),
        one_entry_per_name(s1),
    ensures
        s1 == s2,
    decreases s1.len(),
{
    s1.to_multiset_ensures();
    s2.to_multiset_ensures();
    if s1.len() > 0 {
        assert(s2.len() == s1.len());
        let x1 = s1[0];
        let x2 = s2[0];
        assert(s1.contains(x1));
        assert(s2.contains(x2));
        assert(s1.to_multiset().count(x1) > 0);
        assert(s2.to_multiset().count(x2) > 0);
        assert(s2.to_multiset().count(x1) > 0);
        assert(s1.to_multiset().count(x2) > 0);
        assert(s2.contains(x1));
        assert(s1.contains(x2));
        let i = choose|i: int| 0 <= i < s1.len() && s1[i] == x2;
        let j = choose|j: int| 0 <= j < s2.len() && s2[j] == x1;
        lemma_text_order_total(x1.name@, x2.name@);
        if i > 0 {
            assert(!text_before(s1[i].name@, s1[0].name@));
        }
        if j > 0 {
            assert(!text_before(s2[j].name@, s2[0].name@));
        }
        assert(x1.name@ == x2.name@);
        assert(s1[i] == s1[0]);
        let r1 = s1.drop_first();
        let r2 = s2.drop_first();
        assert(s1.remove(0) =~= r1);
        assert(s2.remove(0) =~= r2);
        vstd::seq_lib::to_multiset_remove(s1, 0);
        vstd::seq_lib::to_multiset_remove(s2, 0);
        assert forall|a: int, b: int| 0 <= a < b < r1.len() implies !text_before(
            (#[trigger] r1[b]).name@,
            (#[trigger] r1[a]).name@,
        ) by {
            assert(r1[a] == s1[a + 1]);
            assert(r1[b] == s1[b + 1]);
        }
        assert forall|a: int, b: int| 0 <= a < b < r2.len() implies !text_before(
            (#[trigger] r2[b]).name@,
            (#[trigger] r2[a]).name@,
        ) by {
            assert(r2[a] == s2[a + 1]);
            assert(r2[b] == s2[b + 1]);
        }
        assert forall|a: int, b: int|
            0 <= a < r1.len() && 0 <= b < r1.len() && (#[trigger] r1[a]).name@ == (
            #[trigger] r1[b]).name@ implies r1[a] == r1[b] by {
            assert(r1[a] == s1[a + 1]);
            assert(r1[b] == s1[b + 1]);
        }
        lemma_sorted_is_unique(r1, r2);
        assert(s1 =~= seq![x1] + r1);
        assert(s2 =~= seq![x2] + r2);
    } else {
        assert(s2.len() == 0);
        assert(s1 =~= s2);
    }
}

/// The arrangement of a directory does not depend on the order in which its
/// entries arrive: two listings that hold the same entries equally often are
/// arranged alike, where entries of one name are one entry.
pub proof fn lemma_arrangement_ignores_order(a: Seq<FileInfo>, b: Seq<FileInfo>, dirs: bool)
    requires
        a.to_multiset() == b.to_multiset(),
        one_entry_per_name(a),
    ensures
        sort_by_name(entries_of_kind(a, dirs)) == sort_by_name(entries_of_kind(b, dirs)),
{
    let ka = entries_of_kind(a, dirs);
    let kb = entries_of_kind(b, dirs);
    let sa = sort_by_name(ka);
    let sb = sort_by_name(kb);
    assert forall|x: FileInfo| ka.to_multiset().count(x) == kb.to_multiset().count(x) by {
        lemma_kind_count(a, dirs, x);
        lemma_kind_count(b, dirs, x);
    }
    assert(ka.to_multiset() =~= kb.to_multiset());
    lemma_sort_by_name(ka);
    lemma_sort_by_name(kb);
    sa.to_multiset_ensures();
    a.to_multiset_ensures();
    assert forall|i: int, j: int|
        0 <= i < sa.len() && 0 <= j < sa.len() && (#[trigger] sa[i]).name@ == (
        #[trigger] sa[j]).name@ implies sa[i] == sa[j] by {
        let x = sa[i];
        let y = sa[j];
        assert(sa.contains(x));
        assert(sa.contains(y));
        assert(sa.to_multiset().count(x) > 0);
        assert(sa.to_multiset().count(y) > 0);
        lemma_kind_count(a, dirs, x);
        lemma_kind_count(a, dirs, y);
        assert(a.to_multiset().count(x) > 0);
        assert(a.to_multiset().count(y) > 0);
        assert(a.contains(x));
        assert(a.contains(y));
        let p = choose|p: int| 0 <= p < a.len() && a[p] == x;
        let q = choose|q: int| 0 <= q < a.len() && a[q] == y;
        assert(a[p].name@ == a[q].name@);
    }
    lemma_sorted_is_unique(sa, sb);
}

/// Decides whether the name `a` comes strictly before the name `b`.
pub fn name_before(a: &str, b: &str) -> (r: bool)
    ensures
        r == text_before(a@, b@),
{
    let x = to_chars(a);
    let y = to_chars(b);
    let mut i: usize = 0;
    proof {
        assert(x@.skip(0) =~= x@);
        assert(y@.skip(0) =~= y@);
    }
    while i < x.len() && i < y.len()
        invariant
            i <= x.len(),
            i <= y.len(),
            x@ == a@,
            y@ == b@,
            text_before(x@, y@) == text_before(x@.skip(i as int), y@.skip(i as int)),
        decreases x.len() - i,
    {
        let ghost xs = x@.skip(i as int);
        let ghost ys = y@.skip(i as int);
        proof {
            assert(xs.drop_first() =~= x@.skip(i + 1));
            assert(ys.drop_first() =~= y@.skip(i + 1));
        }
        let p: char = x[i];
        let q: char = y[i];
        if p != q {
            return p < q;
        }
        i += 1;
    }
    i < y.len()
}

/// Arranges the entries of the directory at `path`: the files and the
/// directories apart, each ordered by name.
pub fn arrange(path: String, entries: Vec<FileInfo>) -> (r: DirectoryContent)
    ensures
        r.path == path,
        r.files@ == sort_by_name(entries_of_kind(entries@, false)),
        r.directories@ == sort_by_name(entries_of_kind(entries@, true)),
{
    let ghost all = entries@;
    let mut rest = entries;
    let mut files: Vec<FileInfo> = Vec::new();
    let mut directories: Vec<FileInfo> = Vec::new();
    while rest.len() > 0
        invariant
            rest.len() <= all.len(),
            rest@ == all.take(rest.len() as int),
            files@ == sort_by_name(entries_of_kind(all.skip(rest.len() as int), false)),
            directories@ == sort_by_name(entries_of_kind(all.skip(rest.len() as int), true)),
        decreases rest.len(),
    {
        let ghost n = rest.len() as int;
        let entry = rest.pop().unwrap();
        proof {
            let tail = all.skip(n - 1);
            assert(tail.drop_first() =~= all.skip(n));
            lemma_sort_by_name(entries_of_kind(all.skip(n), false));
            lemma_sort_by_name(entries_of_kind(all.skip(n), true));
            if entry.is_dir {
                let kind = entries_of_kind(tail, true);
                assert(kind.drop_first() =~= entries_of_kind(all.skip(n), true));
            } else {
                let kind = entries_of_kind(tail, false);
                assert(kind.drop_first() =~= entries_of_kind(all.skip(n), false));
            }
        }
        if entry.is_dir {
            insert_entry(&mut directories, entry);
        } else {
            insert_entry(&mut files, entry);
        }
    }
    proof {
        assert(all.skip(0) =~= all);
    }
    DirectoryContent { path, files, directories }
}

/// Puts `entry` into the ordered `sorted` at its place.
fn insert_entry(sorted: &mut Vec<FileInfo>, entry: FileInfo)
    requires
        is_sorted_by_name(old(sorted)@),
    ensures
        final(sorted)@ == insert_by_name(old(sorted)@, entry),
{
    let mut at: usize = 0;
    while at < sorted.len() && name_before(sorted[at].name.as_str(), entry.name.as_str())
        invariant
            at <= sorted.len(),
            sorted@ == old(sorted)@,
            forall|k: int| 0 <= k < at ==> text_before((#[trigger] sorted@[k]).name@, entry.name@),
        decreases sorted.len() - at,
    {
        at += 1;
    }
    proof {
        lemma_insert_at(sorted@, entry, at as int);
    }
    sorted.insert(at, entry);
}

} // verus!
