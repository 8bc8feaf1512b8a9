//! Branch and tag decorations, resolved to the commits they label.
use crate::git::commit::ObjectId;
use vstd::prelude::*;

verus! {

#[derive(Debug, Clone, Copy, PartialEq, Eq, Structural)]
pub enum RefKind {
    LocalBranch,
    RemoteBranch,
    Tag,
}

impl RefKind {
    /// Whether a ref of this kind is drawn under the `o`/`t` toggles.
    pub open spec fn shown(self, show_remotes: bool, show_tags: bool) -> bool {
        match self {
            RefKind::LocalBranch => true,
            RefKind::RemoteBranch => show_remotes,
            RefKind::Tag => show_tags,
        }
    }

    /// Whether a ref of this kind is drawn under the `o`/`t` toggles.
    ///
    /// Local branches are always shown; `o` hides remote branches and `t`
    /// hides tags.
    pub fn visible(self, show_remotes: bool, show_tags: bool) -> (r: bool)
        ensures
            r == self.shown(show_remotes, show_tags),
    {
        match self {
            RefKind::LocalBranch => true,
            RefKind::RemoteBranch => show_remotes,
            RefKind::Tag => show_tags,
        }
    }
}

/// One decoration. `name` is the short form (`main`, `origin/main`, `v1.2`),
/// which is what a graph row has room to print.
#[derive(Debug, Clone, PartialEq, Eq)]
pub struct RefInfo {
    pub name: String,
    pub target: ObjectId,
    pub kind: RefKind,
}

/// The refs of one commit.
#[derive(Debug, Clone, PartialEq, Eq)]
pub struct Decorated {
    pub commit: ObjectId,
    pub refs: Vec<RefInfo>,
}

/// The refs of `refs` that label `id`, in their order.
pub open spec fn labelling(refs: Seq<RefInfo>, id: ObjectId) -> Seq<RefInfo> {
    refs.filter(|r: RefInfo| r.target == id)
}

/// The refs that `groups` holds for `id`: none where it holds no group for it.
pub open spec fn refs_of(groups: Seq<Decorated>, id: ObjectId) -> Seq<RefInfo>
    decreases groups.len(),
{
    if groups.len() == 0 {
        Seq::empty()
    } else if groups[0].commit == id {
        groups[0].refs@
    } else {
        refs_of(groups.drop_first(), id)
    }
}

/// Whether no commit has two groups, and no group is empty.
pub open spec fn grouped(groups: Seq<Decorated>) -> bool {
    &&& forall|i: int, j: int|
        0 <= i < j < groups.len() ==> (#[trigger] groups[i]).commit != (#[trigger] groups[j]).commit
    &&& forall|i: int| 0 <= i < groups.len() ==> (#[trigger] groups[i]).refs@.len() > 0
}

proof fn lemma_refs_of_found(groups: Seq<Decorated>, k: int)
    requires
        0 <= k < groups.len(),
        forall|i: int| 0 <= i < k ==> (#[trigger] groups[i]).commit != groups[k].commit,
    ensures
        refs_of(groups, groups[k].commit) == groups[k].refs@,
    decreases k,
{
    if k > 0 {
        let t = groups.drop_first();
        assert(t[k - 1] == groups[k]);
        assert forall|i: int| 0 <= i < k - 1 implies (#[trigger] t[i]).commit != t[k - 1].commit by {
            assert(t[i] == groups[i + 1]);
        }
        lemma_refs_of_found(t, k - 1);
    }
}

proof fn lemma_refs_of_absent(groups: Seq<Decorated>, id: ObjectId)
    requires
        forall|i: int| 0 <= i < groups.len() ==> (#[trigger] groups[i]).commit != id,
    ensures
        refs_of(groups, id).len() == 0,
    decreases groups.len(),
{
    if groups.len() > 0 {
        let t = groups.drop_first();
        assert forall|i: int| 0 <= i < t.len() implies (#[trigger] t[i]).commit != id by {
            assert(t[i] == groups[i + 1]);
        }
        lemma_refs_of_absent(t, id);
    }
}

/// Where `groups` holds the group of `id`.
fn group_of(groups: &Vec<Decorated>, id: ObjectId) -> (r: Option<usize>)
    ensures
        match r {
            Some(k) => k < groups.len() && groups@[k as int].commit == id && refs_of(groups@, id)
                == groups@[k as int].refs@,
            None => refs_of(groups@, id).len() == 0 && forall|i: int|
                0 <= i < groups.len() ==> (#[trigger] groups@[i]).commit != id,
        },
{
    let mut i: usize = 0;
    while i < groups.len()
        invariant
            i <= groups.len(),
            forall|k: int| 0 <= k < i ==> (#[trigger] groups@[k]).commit != id,
        decreases groups.len() - i,
    {
        if groups[i].commit == id {
            proof {
                lemma_refs_of_found(groups@, i as int);
            }
            return Some(i);
        }
        i += 1;
    }
    proof {
        lemma_refs_of_absent(groups@, id);
    }
    None
}

/// The refs that `groups` holds for `id`.
pub fn refs_at(groups: &Vec<Decorated>, id: ObjectId) -> (r: Option<&Vec<RefInfo>>)
    ensures
        match r {
            Some(refs) => refs@ == refs_of(groups@, id),
            None => refs_of(groups@, id).len() == 0,
        },
{
    match group_of(groups, id) {
        Some(k) => Some(&groups[k].refs),
        None => None,
    }
}

/// Indexes decorations by the commit they label: each commit's refs are those
/// that label it, in the order they came.
pub fn group_refs(refs: Vec<RefInfo>) -> (out: Vec<Decorated>)
    ensures
        grouped(out@),
        forall|id: ObjectId| #[trigger] refs_of(out@, id) == labelling(refs@, id),
{
    let mut out: Vec<Decorated> = Vec::new();
    let ghost all = refs@;
    proof {
        assert forall|id: ObjectId| #[trigger]
            refs_of(out@, id) == labelling(all.take(0), id) by {
            reveal_with_fuel(Seq::filter, 2);
            assert(labelling(all.take(0), id) =~= Seq::empty());
        }
    }
    for r in it: refs
        invariant
            it.seq() == all,
            grouped(out@),
            forall|id: ObjectId| #[trigger]
                refs_of(out@, id) == labelling(all.take(it.index() as int), id),
    {
        let ghost i = it.index() as int;
        let id = r.target;
        let ghost before = out@;
        proof {
            assert(r == all[i]);
            assert(all.take(i + 1).drop_last() =~= all.take(i));
            assert forall|t: ObjectId| #[trigger]
                labelling(all.take(i + 1), t) == if t == id {
                    labelling(all.take(i), t).push(r)
                } else {
                    labelling(all.take(i), t)
                } by {
                reveal(Seq::filter);
            }
        }
        match group_of(&out, id) {
            Some(k) => {
                let ghost kept = out@[k as int].refs@;
                out[k].refs.push(r);
                proof {
                    assert forall|t: ObjectId| #[trigger]
                        refs_of(out@, t) == labelling(all.take(i + 1), t) by {
                        assert(refs_of(before, t) == labelling(all.take(i), t));
                        lemma_refs_of_update(before, out@, k as int, t);
                    }
                }
            },
            None => {
                let mut v: Vec<RefInfo> = Vec::new();
                v.push(r);
                out.push(Decorated { commit: id, refs: v });
                proof {
                    assert(v@ =~= seq![r]);
                    assert forall|t: ObjectId| #[trigger]
                        refs_of(out@, t) == labelling(all.take(i + 1), t) by {
                        assert(refs_of(before, t) == labelling(all.take(i), t));
                        lemma_refs_of_push(before, out@.last(), t);
                        assert(out@ =~= before.push(out@.last()));
                        assert(labelling(all.take(i), id) =~= Seq::empty());
                        assert(labelling(all.take(i), id).push(r) =~= seq![r]);
                    }
                }
            },
        }
    }
    proof {
        assert(all.take(all.len() as int) =~= all);
    }
    out
}

proof fn lemma_refs_of_update(a: Seq<Decorated>, b: Seq<Decorated>, k: int, t: ObjectId)
    requires
        0 <= k < a.len(),
        a.len() == b.len(),
        grouped(a),
        forall|i: int| 0 <= i < a.len() && i != k ==> a[i] == b[i],
        b[k].commit == a[k].commit,
    ensures
        refs_of(b, t) == if t == a[k].commit {
            b[k].refs@
        } else {
            refs_of(a, t)
        },
    decreases a.len(),
{
    if k == 0 {
        assert(a.drop_first() =~= b.drop_first());
    } else {
        let a1 = a.drop_first();
        let b1 = b.drop_first();
        assert(a[0] == b[0]);
        assert forall|i: int, j: int| 0 <= i < j < a1.len() implies (#[trigger] a1[i]).commit != (
        #[trigger] a1[j]).commit by {
            assert(a1[i] == a[i + 1]);
            assert(a1[j] == a[j + 1]);
        }
        assert forall|i: int| 0 <= i < a1.len() implies (#[trigger] a1[i]).refs@.len() > 0 by {
            assert(a1[i] == a[i + 1]);
        }
        assert(a1[k - 1] == a[k]);
        assert(b1[k - 1] == b[k]);
        assert(a[0].commit != a[k].commit);
        lemma_refs_of_update(a1, b1, k - 1, t);
    }
}

proof fn lemma_refs_of_push(a: Seq<Decorated>, d: Decorated, t: ObjectId)
    requires
        forall|i: int| 0 <= i < a.len() ==> (#[trigger] a[i]).commit != d.commit,
    ensures
        refs_of(a.push(d), t) == if t == d.commit {
            d.refs@
        } else {
            refs_of(a, t)
        },
    decreases a.len(),
{
    let b = a.push(d);
    if a.len() == 0 {
        assert(b.drop_first() =~= Seq::empty());
        assert(b[0] == d);
        assert(refs_of(b.drop_first(), t) =~= Seq::<RefInfo>::empty());
    } else {
        assert(b[0] == a[0]);
        assert(b.drop_first() =~= a.drop_first().push(d));
        let a1 = a.drop_first();
        assert forall|i: int| 0 <= i < a1.len() implies (#[trigger] a1[i]).commit != d.commit by {
            assert(a1[i] == a[i + 1]);
        }
        lemma_refs_of_push(a1, d, t);
    }
}

/// Law: the refs that label a commit are those that lead to it, in their order.
pub proof fn law_labels_lead_to_their_commit(refs: Seq<RefInfo>, r: RefInfo, id: ObjectId)
    ensures
        r.target == id ==> labelling(refs.push(r), id) == labelling(refs, id).push(r),
        r.target != id ==> labelling(refs.push(r), id) == labelling(refs, id),
        labelling(Seq::empty(), id).len() == 0,
{
    reveal(Seq::filter);
    assert(refs.push(r).drop_last() =~= refs);
}

} // verus!
