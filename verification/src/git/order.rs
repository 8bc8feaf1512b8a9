//! The order of the changed-files list.
use crate::git::diff::{FileChange, FileStat};
use crate::git::working::WorktreeStage;
use vstd::prelude::*;

verus! {

/// Byte strings in dictionary order.
pub open spec fn bytes_less(a: Seq<u8>, b: Seq<u8>) -> bool
    decreases b.len(),
{
    if b.len() == 0 {
        false
    } else if a.len() == 0 {
        true
    } else {
        a[0] < b[0] || (a[0] == b[0] && bytes_less(a.drop_first(), b.drop_first()))
    }
}

/// Text in the order of its UTF-8 bytes.
pub open spec fn text_less(a: Seq<char>, b: Seq<char>) -> bool {
    bytes_less(vstd::utf8::encode_utf8(a), vstd::utf8::encode_utf8(b))
}

/// Whether `a` comes before `b` in the order of their UTF-8 bytes.
pub fn comes_before(a: &str, b: &str) -> (r: bool)
    ensures
        r == text_less(a@, b@),
{
    let x = a.as_bytes();
    let y = b.as_bytes();
    let mut i: usize = 0;
    proof {
        assert(x@.skip(0) =~= x@);
        assert(y@.skip(0) =~= y@);
    }
    loop
        invariant
            i <= x@.len(),
            i <= y@.len(),
            bytes_less(x@, y@) == bytes_less(x@.skip(i as int), y@.skip(i as int)),
            x@ == vstd::utf8::encode_utf8(a@),
            y@ == vstd::utf8::encode_utf8(b@),
        decreases y@.len() - i,
    {
        if i >= y.len() {
            return false;
        }
        if i >= x.len() {
            return true;
        }
        if x[i] < y[i] {
            return true;
        }
        if x[i] > y[i] {
            return false;
        }
        proof {
            assert(x@.skip(i as int).drop_first() =~= x@.skip(i + 1));
            assert(y@.skip(i as int).drop_first() =~= y@.skip(i + 1));
        }
        i += 1;
    }
}

proof fn lemma_bytes_less(a: Seq<u8>, b: Seq<u8>, c: Seq<u8>)
    ensures
        !bytes_less(a, a),
        bytes_less(a, b) ==> !bytes_less(b, a),
        !bytes_less(b, a) && !bytes_less(c, b) ==> !bytes_less(c, a),
        !bytes_less(a, b) && !bytes_less(b, a) ==> a == b,
    decreases a.len() + b.len() + c.len(),
{
    if a.len() > 0 && b.len() > 0 && c.len() > 0 {
        lemma_bytes_less(a.drop_first(), b.drop_first(), c.drop_first());
    } else if a.len() > 0 && b.len() > 0 {
        lemma_bytes_less(a.drop_first(), b.drop_first(), c);
    } else if a.len() > 0 {
        lemma_bytes_less(a.drop_first(), b, c);
    }
    if a.len() > 0 && b.len() > 0 && !bytes_less(a, b) && !bytes_less(b, a) {
        assert(a =~= seq![a[0]] + a.drop_first());
        assert(b =~= seq![b[0]] + b.drop_first());
    } else if a.len() == 0 && b.len() == 0 {
        assert(a =~= b);
    }
}

/// How a file changed, by the text it carries.
pub enum ChangeView {
    Added,
    Modified,
    Deleted,
    Renamed { from: Seq<char> },
}

/// A changed file, by the text it carries.
#[verifier::ext_equal]
pub struct StatView {
    pub path: Seq<char>,
    pub stage: Option<WorktreeStage>,
    pub change: ChangeView,
    pub insertions: int,
    pub removals: int,
    pub binary: bool,
    pub unreadable: Option<Seq<char>>,
}

pub open spec fn change_view(c: FileChange) -> ChangeView {
    match c {
        FileChange::Added => ChangeView::Added,
        FileChange::Modified => ChangeView::Modified,
        FileChange::Deleted => ChangeView::Deleted,
        FileChange::Renamed { from } => ChangeView::Renamed { from: from@ },
    }
}

pub open spec fn stat_view(s: FileStat) -> StatView {
    StatView {
        path: s.path@,
        stage: s.stage,
        change: change_view(s.change),
        insertions: s.insertions as int,
        removals: s.removals as int,
        binary: s.binary,
        unreadable: match s.unreadable {
            Some(t) => Some(t@),
            None => None,
        },
    }
}

pub open spec fn stats_view(s: Seq<FileStat>) -> Seq<StatView> {
    s.map_values(|f: FileStat| stat_view(f))
}

/// Where a stage stands in the list: files without one first, then staged,
/// unstaged and untracked ones.
pub open spec fn stage_rank(s: Option<WorktreeStage>) -> int {
    match s {
        None => 0,
        Some(WorktreeStage::Staged) => 1,
        Some(WorktreeStage::Unstaged) => 2,
        Some(WorktreeStage::Untracked) => 3,
    }
}

/// Whether `a` is listed before `b`: by stage, and within a stage by path.
pub open spec fn stat_less(a: StatView, b: StatView) -> bool {
    stage_rank(a.stage) < stage_rank(b.stage) || (stage_rank(a.stage) == stage_rank(b.stage)
        && text_less(a.path, b.path))
}

/// `x` placed in front of the first file that is not listed before it.
pub open spec fn placed(x: StatView, s: Seq<StatView>) -> Seq<StatView>
    decreases s.len(),
{
    if s.len() == 0 || !stat_less(s[0], x) {
        seq![x] + s
    } else {
        seq![s[0]] + placed(x, s.drop_first())
    }
}

/// The files in their listed order; those that share a place keep the order
/// they came in.
pub open spec fn listed(s: Seq<StatView>) -> Seq<StatView>
    decreases s.len(),
{
    if s.len() == 0 {
        s
    } else {
        placed(s[0], listed(s.drop_first()))
    }
}

fn rank(s: Option<WorktreeStage>) -> (r: u8)
    ensures
        r == stage_rank(s),
{
    match s {
        None => 0,
        Some(WorktreeStage::Staged) => 1,
        Some(WorktreeStage::Unstaged) => 2,
        Some(WorktreeStage::Untracked) => 3,
    }
}

fn listed_before(a: &FileStat, b: &FileStat) -> (r: bool)
    ensures
        r == stat_less(stat_view(*a), stat_view(*b)),
{
    let x: u8 = rank(a.stage);
    let y: u8 = rank(b.stage);
    x < y || (x == y && comes_before(a.path.as_str(), b.path.as_str()))
}

proof fn lemma_placed(x: StatView, s: Seq<StatView>, p: int)
    requires
        0 <= p <= s.len(),
        forall|i: int| 0 <= i < p ==> stat_less(#[trigger] s[i], x),
        p < s.len() ==> !stat_less(s[p], x),
    ensures
        placed(x, s) == s.insert(p, x),
    decreases p,
{
    if p == 0 {
        assert(seq![x] + s =~= s.insert(0, x));
    } else {
        let t = s.drop_first();
        assert forall|i: int| 0 <= i < p - 1 implies stat_less(#[trigger] t[i], x) by {
            assert(t[i] == s[i + 1]);
        }
        assert(p < s.len() ==> t[p - 1] == s[p]);
        assert(stat_less(s[0], x));
        lemma_placed(x, t, p - 1);
        assert(seq![s[0]] + t.insert(p - 1, x) =~= s.insert(p, x));
    }
}

/// The files in their listed order.
pub fn sort_files(files: Vec<FileStat>) -> (out: Vec<FileStat>)
    ensures
        stats_view(out@) == listed(stats_view(files@)),
{
    let ghost all = stats_view(files@);
    let mut files = files;
    let mut out: Vec<FileStat> = Vec::new();
    proof {
        assert(all.skip(all.len() as int) =~= Seq::empty());
        assert(stats_view(out@) =~= listed(all.skip(all.len() as int)));
    }
    while files.len() > 0
        invariant
            files@.len() <= all.len(),
            stats_view(files@) == all.take(files@.len() as int),
            stats_view(out@) == listed(all.skip(files@.len() as int)),
        decreases files@.len(),
    {
        let ghost n = files@.len() as int;
        let ghost had = files@;
        let x = files.pop().unwrap();
        let ghost view = stat_view(x);
        proof {
            assert(stats_view(had)[n - 1] == view);
            assert(all.take(n)[n - 1] == all[n - 1]);
            assert(stats_view(files@) =~= all.take(n - 1)) by {
                assert(stats_view(files@) =~= stats_view(had).drop_last());
                assert(all.take(n).drop_last() =~= all.take(n - 1));
            }
            assert(all.skip(n - 1).drop_first() =~= all.skip(n));
            assert(all.skip(n - 1)[0] == view);
        }
        let mut p: usize = 0;
        while p < out.len() && listed_before(&out[p], &x)
            invariant
                p <= out.len(),
                forall|i: int| 0 <= i < p ==> stat_less(#[trigger] stats_view(out@)[i], stat_view(x)),
            decreases out.len() - p,
        {
            assert(stats_view(out@)[p as int] == stat_view(out@[p as int]));
            p += 1;
        }
        let ghost before = out@;
        proof {
            if p < out.len() {
                assert(stats_view(out@)[p as int] == stat_view(out@[p as int]));
            }
            lemma_placed(view, stats_view(out@), p as int);
        }
        out.insert(p, x);
        assert(stats_view(out@) =~= stats_view(before).insert(p as int, view));
    }
    proof {
        assert(all.skip(0) =~= all);
    }
    out
}

/// Whether no file is listed after one that belongs behind it.
pub open spec fn in_order(s: Seq<StatView>) -> bool {
    forall|i: int, j: int| 0 <= i < j < s.len() ==> !stat_less(#[trigger] s[j], #[trigger] s[i])
}

proof fn lemma_stat_less(a: StatView, b: StatView, c: StatView)
    ensures
        stat_less(a, b) ==> !stat_less(b, a),
        !stat_less(b, a) && !stat_less(c, b) ==> !stat_less(c, a),
{
    lemma_bytes_less(
        vstd::utf8::encode_utf8(a.path),
        vstd::utf8::encode_utf8(b.path),
        vstd::utf8::encode_utf8(c.path),
    );
}

proof fn lemma_front(x: StatView, s: Seq<StatView>)
    ensures
        (seq![x] + s).to_multiset() == s.to_multiset().insert(x),
{
    broadcast use vstd::seq_lib::group_to_multiset_ensures;

    vstd::seq_lib::lemma_multiset_commutative(seq![x], s);
    assert(seq![x] =~= Seq::<StatView>::empty().push(x));
    assert(seq![x].to_multiset() =~= vstd::multiset::Multiset::<StatView>::empty().insert(x));
    assert((seq![x] + s).to_multiset() =~= s.to_multiset().insert(x));
}

proof fn lemma_placed_in_order(x: StatView, s: Seq<StatView>)
    requires
        in_order(s),
    ensures
        in_order(placed(x, s)),
        placed(x, s).to_multiset() == s.to_multiset().insert(x),
        placed(x, s).len() == s.len() + 1,
        placed(x, s)[0] == x || (s.len() > 0 && placed(x, s)[0] == s[0] && stat_less(s[0], x)),
    decreases s.len(),
{
    let r = placed(x, s);
    if s.len() == 0 || !stat_less(s[0], x) {
        assert(r =~= s.insert(0, x));
        assert forall|i: int, j: int| 0 <= i < j < r.len() implies !stat_less(
            #[trigger] r[j],
            #[trigger] r[i],
        ) by {
            if i == 0 {
                lemma_stat_less(x, s[0], s[j - 1]);
                if j > 1 {
                    assert(!stat_less(s[j - 1], s[0]));
                }
            } else {
                assert(r[i] == s[i - 1] && r[j] == s[j - 1]);
            }
        }
        assert(seq![x] + s =~= s.insert(0, x));
        lemma_front(x, s);
    } else {
        let t = s.drop_first();
        assert forall|i: int, j: int| 0 <= i < j < t.len() implies !stat_less(
            #[trigger] t[j],
            #[trigger] t[i],
        ) by {
            assert(t[i] == s[i + 1] && t[j] == s[j + 1]);
        }
        lemma_placed_in_order(x, t);
        let p = placed(x, t);
        assert(r =~= seq![s[0]] + p);
        assert forall|i: int, j: int| 0 <= i < j < r.len() implies !stat_less(
            #[trigger] r[j],
            #[trigger] r[i],
        ) by {
            assert(r[j] == p[j - 1]);
            if i > 0 {
                assert(r[i] == p[i - 1]);
            } else {
                assert(p.to_multiset().contains(p[j - 1])) by {
                    p.to_multiset_ensures();
                }
                t.to_multiset_ensures();
                if p[j - 1] == x {
                    lemma_stat_less(s[0], x, x);
                } else {
                    assert(t.to_multiset().contains(p[j - 1]));
                    assert(t.contains(p[j - 1]));
                    let k = choose|k: int| 0 <= k < t.len() && t[k] == p[j - 1];
                    assert(s[k + 1] == p[j - 1]);
                }
            }
        }
        assert(s =~= seq![s[0]] + t);
        lemma_front(s[0], t);
        lemma_front(s[0], p);
        assert(r.to_multiset() =~= s.to_multiset().insert(x));
    }
}

/// Law: the listed files are the files, each as often as it came, and no file
/// stands behind one that belongs after it.
pub proof fn law_listed(s: Seq<StatView>)
    ensures
        in_order(listed(s)),
        listed(s).to_multiset() == s.to_multiset(),
        listed(s).len() == s.len(),
    decreases s.len(),
{
    if s.len() > 0 {
        let t = s.drop_first();
        law_listed(t);
        lemma_placed_in_order(s[0], listed(t));
        lemma_front(s[0], t);
        assert(s =~= seq![s[0]] + t);
    }
}

/// Law: files without a stage are listed first, then what is staged, what is not and
/// what is untracked; within a stage no path stands behind a greater one.
pub proof fn law_listed_by_stage_and_path(s: Seq<StatView>, i: int, j: int)
    requires
        0 <= i < j < listed(s).len(),
    ensures
        ({
            let a = listed(s)[i];
            let b = listed(s)[j];
            &&& b.stage is None ==> a.stage is None
            &&& b.stage == Some(WorktreeStage::Staged) ==> a.stage is None || a.stage == Some(
                WorktreeStage::Staged,
            )
            &&& b.stage == Some(WorktreeStage::Unstaged) ==> a.stage != Some(
                WorktreeStage::Untracked,
            )
            &&& a.stage == b.stage ==> !text_less(b.path, a.path)
        }),
{
    law_listed(s);
}

/// Law: files that stand in order stay as they are.
pub proof fn law_in_order_stays(s: Seq<StatView>)
    requires
        in_order(s),
    ensures
        listed(s) == s,
    decreases s.len(),
{
    if s.len() > 0 {
        let t = s.drop_first();
        assert forall|i: int, j: int| 0 <= i < j < t.len() implies !stat_less(
            #[trigger] t[j],
            #[trigger] t[i],
        ) by {
            assert(t[j] == s[j + 1] && t[i] == s[i + 1]);
        }
        law_in_order_stays(t);
        if t.len() > 0 {
            assert(t[0] == s[1]);
        }
        assert(s =~= seq![s[0]] + t);
    }
}

proof fn lemma_same_start(p: Seq<u8>, a: Seq<u8>, b: Seq<u8>)
    ensures
        bytes_less(p + a, p + b) == bytes_less(a, b),
    decreases p.len(),
{
    if p.len() == 0 {
        assert(p + a =~= a);
        assert(p + b =~= b);
    } else {
        assert((p + a).drop_first() =~= p.drop_first() + a);
        assert((p + b).drop_first() =~= p.drop_first() + b);
        lemma_same_start(p.drop_first(), a, b);
    }
}

proof fn lemma_encoded(a: Seq<char>, b: Seq<char>)
    ensures
        vstd::utf8::encode_utf8(a + b) == vstd::utf8::encode_utf8(a) + vstd::utf8::encode_utf8(b),
    decreases a.len(),
{
    if a.len() == 0 {
        assert(a + b =~= b);
        assert(vstd::utf8::encode_utf8(a) =~= Seq::empty());
        assert(vstd::utf8::encode_utf8(a) + vstd::utf8::encode_utf8(b)
            =~= vstd::utf8::encode_utf8(b));
    } else {
        assert((a + b).drop_first() =~= a.drop_first() + b);
        lemma_encoded(a.drop_first(), b);
        let first = vstd::utf8::encode_scalar(a[0] as u32);
        let front = vstd::utf8::encode_utf8(a.drop_first());
        let back = vstd::utf8::encode_utf8(b);
        assert(first + (front + back) =~= first + front + back);
    }
}

proof fn lemma_encoded_ascii(c: char, rest: Seq<char>)
    requires
        (c as u32) < 128,
    ensures
        vstd::utf8::encode_utf8(seq![c] + rest)[0] == c as u8,
        vstd::utf8::encode_utf8(seq![c] + rest).len() > 0,
{
    assert((seq![c] + rest).drop_first() =~= rest);
    let one = seq![c];
    assert(vstd::utf8::is_ascii_chars(one));
    vstd::utf8::is_ascii_chars_encode_utf8(one);
    lemma_encoded(one, rest);
    assert(vstd::utf8::encode_utf8(one)[0] == one[0] as u8);
}

/// Law: paths are ordered by the first character in which they differ, and a path
/// stands in front of those that go on behind it.
pub proof fn law_paths_are_ordered(p: Seq<char>, a: char, x: Seq<char>, b: char, y: Seq<char>)
    requires
        (a as u32) < 128,
        (b as u32) < 128,
    ensures
        a < b ==> text_less(p + (seq![a] + x), p + (seq![b] + y)),
        b < a ==> !text_less(p + (seq![a] + x), p + (seq![b] + y)),
        text_less(p, p + (seq![a] + x)),
        !text_less(p + (seq![a] + x), p),
{
    let start = vstd::utf8::encode_utf8(p);
    let one = vstd::utf8::encode_utf8(seq![a] + x);
    let two = vstd::utf8::encode_utf8(seq![b] + y);
    lemma_encoded(p, seq![a] + x);
    lemma_encoded(p, seq![b] + y);
    lemma_encoded_ascii(a, x);
    lemma_encoded_ascii(b, y);
    lemma_same_start(start, one, two);
    lemma_same_start(start, Seq::empty(), one);
    lemma_same_start(start, one, Seq::empty());
    assert(start + Seq::empty() =~= start);
}

} // verus!
