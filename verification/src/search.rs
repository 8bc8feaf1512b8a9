//! Fuzzy search over the loaded rows.
//!
//! Only rows already paged in are searchable. Nothing here reads the
//! repository.
use crate::git::commit::CommitInfo;
use crate::git::graph::GraphNode;
use crate::text;
use fuzzy_matcher::skim::SkimMatcherV2;
use fuzzy_matcher::FuzzyMatcher;
use vstd::prelude::*;

verus! {

/// How well `query` matches `choice`; `None` where it does not.
pub uninterp spec fn match_score(choice: Seq<char>, query: Seq<char>) -> Option<i64>;

/// `SkimMatcherV2::fuzzy_match` of a default matcher, named `match_score`.
#[verifier::external_body]
fn fuzzy_score(choice: &str, query: &str) -> (r: Option<i64>)
    ensures
        r == match_score(choice@, query@),
{
    SkimMatcherV2::default().fuzzy_match(choice, query)
}

/// What a row is searched by: its commit's summary and author. A row that
/// stands for no commit matches nothing.
pub open spec fn commit_score(commit: Option<CommitInfo>, query: Seq<char>) -> Option<i64> {
    match commit {
        Some(c) => match_score(c.summary@ + " "@ + c.author@, query),
        None => None,
    }
}

/// A row's score.
pub open spec fn node_score(node: GraphNode, query: Seq<char>) -> Option<i64> {
    commit_score(node.commit, query)
}

/// Every row's score.
pub open spec fn node_scores(nodes: Seq<GraphNode>, query: Seq<char>) -> Seq<Option<i64>> {
    nodes.map_values(|n: GraphNode| node_score(n, query))
}

/// Whether row `a` ranks ahead of row `b`: it scores higher, or as high and
/// comes first in the graph.
pub open spec fn ahead(scores: Seq<Option<i64>>, a: usize, b: usize) -> bool {
    scores[a as int]->0 > scores[b as int]->0 || (scores[a as int]->0 == scores[b as int]->0 && a
        < b)
}

/// Whether `r` lists the rows that match, each once, best first.
pub open spec fn is_ranking(scores: Seq<Option<i64>>, r: Seq<usize>) -> bool {
    &&& forall|i: int| 0 <= i < r.len() ==> #[trigger] r[i] < scores.len() && scores[r[i] as int] is Some
    &&& forall|k: usize|
        k < scores.len() && (#[trigger] scores[k as int]) is Some ==> r.contains(k)
    &&& forall|i: int, j: int|
        0 <= i < j < r.len() ==> ahead(scores, #[trigger] r[i], #[trigger] r[j])
}

/// Law: the scores of the rows leave only one ranking.
pub proof fn law_one_ranking(scores: Seq<Option<i64>>, a: Seq<usize>, b: Seq<usize>)
    requires
        is_ranking(scores, a),
        is_ranking(scores, b),
    ensures
        a == b,
{
    lemma_prefix(scores, a, b, a.len());
    lemma_prefix(scores, b, a, b.len());
    assert(a =~= b);
}

/// The ranking that the scores leave.
pub open spec fn ranking(scores: Seq<Option<i64>>) -> Seq<usize> {
    choose|r: Seq<usize>| is_ranking(scores, r)
}

/// What a query finds: nothing where nothing was typed.
pub open spec fn found_by(scores: Seq<Option<i64>>, query: Seq<char>) -> Seq<usize> {
    if query.len() == 0 {
        Seq::empty()
    } else {
        ranking(scores)
    }
}

proof fn lemma_prefix(scores: Seq<Option<i64>>, a: Seq<usize>, b: Seq<usize>, n: nat)
    requires
        is_ranking(scores, a),
        is_ranking(scores, b),
        n <= a.len(),
    ensures
        n <= b.len(),
        forall|i: int| 0 <= i < n ==> a[i] == b[i],
    decreases n,
{
    if n > 0 {
        let k = n - 1;
        lemma_prefix(scores, a, b, k as nat);
        let x = a[k];
        assert(scores[x as int] is Some);
        assert(b.contains(x));
        let p = choose|p: int| 0 <= p < b.len() && b[p] == x;
        assert(p >= k) by {
            if p < k {
                assert(a[p] == b[p]);
                assert(ahead(scores, a[p], a[k]));
            }
        }
        let y = b[k];
        assert(scores[y as int] is Some);
        assert(a.contains(y));
        let q = choose|q: int| 0 <= q < a.len() && a[q] == y;
        assert(q >= k) by {
            if q < k {
                assert(a[q] == b[q]);
                assert(ahead(scores, b[q], b[k]));
            }
        }
        if p > k && q > k {
            assert(ahead(scores, b[k], b[p]));
            assert(ahead(scores, a[k], a[q]));
        }
    }
}

/// The rows that match, best first, from every row's score.
pub fn rank_scores(scores: &Vec<Option<i64>>) -> (r: Vec<usize>)
    ensures
        is_ranking(scores@, r@),
{
    let mut out: Vec<usize> = Vec::new();
    let mut k: usize = 0;
    while k < scores.len()
        invariant
            k <= scores.len(),
            forall|i: int|
                0 <= i < out@.len() ==> #[trigger] out@[i] < k && scores@[out@[i] as int] is Some,
            forall|m: usize|
                m < k && (#[trigger] scores@[m as int]) is Some ==> out@.contains(m),
            forall|i: int, j: int|
                0 <= i < j < out@.len() ==> ahead(scores@, #[trigger] out@[i], #[trigger] out@[j]),
        decreases scores.len() - k,
    {
        match scores[k] {
            Some(score) => {
                let mut p: usize = out.len();
                while p > 0 && scores[out[p - 1]].unwrap() < score
                    invariant
                        p <= out@.len(),
                        k < scores.len(),
                        scores@[k as int] == Some(score),
                        forall|i: int|
                            0 <= i < out@.len() ==> #[trigger] out@[i] < k && scores@[out@[i] as int] is Some,
                        forall|i: int|
                            p <= i < out@.len() ==> ahead(scores@, k, #[trigger] out@[i]),
                    decreases p,
                {
                    p -= 1;
                }
                let ghost had = out@;
                proof {
                    if p > 0 {
                        assert(!(scores@[had[p - 1] as int]->0 < score));
                        assert forall|i: int| 0 <= i < p implies ahead(
                            scores@,
                            #[trigger] had[i],
                            k,
                        ) by {
                            if i < p - 1 {
                                assert(ahead(scores@, had[i], had[p - 1]));
                            }
                        }
                    }
                }
                out.insert(p, k);
                proof {
                    assert forall|m: usize|
                        m < k + 1 && (#[trigger] scores@[m as int]) is Some implies out@.contains(
                        m,
                    ) by {
                        if m == k {
                            assert(out@[p as int] == k);
                        } else {
                            assert(had.contains(m));
                            let i = choose|i: int| 0 <= i < had.len() && had[i] == m;
                            if i < p {
                                assert(out@[i] == m);
                            } else {
                                assert(out@[i + 1] == m);
                            }
                        }
                    }
                    assert forall|i: int, j: int| 0 <= i < j < out@.len() implies ahead(
                        scores@,
                        #[trigger] out@[i],
                        #[trigger] out@[j],
                    ) by {
                        let a = if i < p {
                            i
                        } else {
                            i - 1
                        };
                        let b = if j < p {
                            j
                        } else {
                            j - 1
                        };
                        if i == p {
                            assert(out@[j] == had[b]);
                        } else if j == p {
                            assert(out@[i] == had[a]);
                        } else {
                            assert(out@[i] == had[a] && out@[j] == had[b]);
                        }
                    }
                    assert forall|i: int| 0 <= i < out@.len() implies #[trigger] out@[i] < k + 1
                        && scores@[out@[i] as int] is Some by {
                        if i < p {
                            assert(out@[i] == had[i]);
                        } else if i > p {
                            assert(out@[i] == had[i - 1]);
                        }
                    }
                }
            },
            None => {},
        }
        k += 1;
    }
    out
}

/// Row indices whose commit matches `query`, best first.
///
/// An empty query matches nothing: an empty dropdown is a clearer signal than
/// every row at once.
pub fn rank(nodes: &[GraphNode], query: &str) -> (r: Vec<usize>)
    ensures
        query@.len() == 0 ==> r@.len() == 0,
        query@.len() > 0 ==> is_ranking(node_scores(nodes@, query@), r@),
{
    if query.is_empty() {
        return Vec::new();
    }
    let mut scores: Vec<Option<i64>> = Vec::new();
    let mut i: usize = 0;
    let ghost want = node_scores(nodes@, query@);
    while i < nodes.len()
        invariant
            i <= nodes@.len(),
            want == node_scores(nodes@, query@),
            scores@ == want.take(i as int),
        decreases nodes@.len() - i,
    {
        let score = match &nodes[i].commit {
            Some(c) => {
                let choice = text::join3(c.summary.as_str(), " ", c.author.as_str());
                fuzzy_score(choice.as_str(), query)
            },
            None => None,
        };
        scores.push(score);
        i += 1;
        assert(scores@ =~= want.take(i as int));
    }
    assert(want.take(i as int) =~= want);
    rank_scores(&scores)
}

/// The place behind `at` among `n`, round from the last to the first.
pub open spec fn one_on(at: nat, n: nat) -> nat {
    if n == 0 {
        at
    } else {
        (at + 1) % n
    }
}

/// The place before `at` among `n`, round from the first to the last.
pub open spec fn one_back(at: nat, n: nat) -> nat {
    if n == 0 {
        at
    } else {
        ((at + n - 1) % n as int) as nat
    }
}

/// The search box's state.
///
/// What is selected is an entry of the matches, not a row of the graph:
/// `selected` is which entry of the dropdown is highlighted, `selected_row` the
/// graph row that entry points at.
#[derive(Debug, Clone)]
pub struct Search {
    query: String,
    matches: Vec<usize>,
    selected: usize,
}

impl Default for Search {
    fn default() -> (r: Self)
        ensures
            r.wf(),
            r.typed().len() == 0,
            r.found().len() == 0,
            r.highlighted() == 0,
    {
        Search { query: String::new(), matches: Vec::new(), selected: 0 }
    }
}

impl Search {
    /// What was typed.
    pub closed spec fn typed(&self) -> Seq<char> {
        self.query@
    }

    /// The rows that match, best first.
    pub closed spec fn found(&self) -> Seq<usize> {
        self.matches@
    }

    /// Which match is highlighted.
    pub closed spec fn highlighted(&self) -> nat {
        self.selected as nat
    }

    /// A match is highlighted wherever there is one.
    pub open spec fn wf(&self) -> bool {
        self.found().len() > 0 ==> self.highlighted() < self.found().len()
    }

    pub fn query(&self) -> (r: &str)
        ensures
            r@ == self.typed(),
    {
        self.query.as_str()
    }

    /// Row indices, best match first.
    pub fn matches(&self) -> (r: &[usize])
        ensures
            r@ == self.found(),
    {
        self.matches.as_slice()
    }

    /// Which entry of the dropdown is highlighted. `None` when nothing matched.
    pub fn selected(&self) -> (r: Option<usize>)
        requires
            self.wf(),
        ensures
            r == if self.found().len() == 0 {
                None::<usize>
            } else {
                Some(self.highlighted() as usize)
            },
    {
        if self.selected < self.matches.len() {
            Some(self.selected)
        } else {
            None
        }
    }

    /// The graph row the highlighted entry refers to, for jumping to it.
    pub fn selected_row(&self) -> (r: Option<usize>)
        requires
            self.wf(),
        ensures
            r == if self.found().len() == 0 {
                None::<usize>
            } else {
                Some(self.found()[self.highlighted() as int])
            },
    {
        if self.selected < self.matches.len() {
            Some(self.matches[self.selected])
        } else {
            None
        }
    }

    /// Whether the matches are those of what was typed, the best highlighted.
    pub open spec fn fresh(&self, nodes: Seq<GraphNode>) -> bool {
        &&& self.wf()
        &&& self.highlighted() == 0
        &&& self.typed().len() == 0 ==> self.found().len() == 0
        &&& self.typed().len() > 0 ==> is_ranking(node_scores(nodes, self.typed()), self.found())
    }

    pub fn push(&mut self, c: char, nodes: &[GraphNode])
        ensures
            final(self).typed() == old(self).typed().push(c),
            final(self).fresh(nodes@),
    {
        self.query.push(c);
        self.rerank(nodes);
    }

    pub fn backspace(&mut self, nodes: &[GraphNode])
        ensures
            final(self).typed() == if old(self).typed().len() > 0 {
                old(self).typed().drop_last()
            } else {
                old(self).typed()
            },
            final(self).fresh(nodes@),
    {
        let _ = self.query.pop();
        self.rerank(nodes);
    }

    pub fn next(&mut self)
        requires
            old(self).wf(),
        ensures
            final(self).wf(),
            final(self).typed() == old(self).typed(),
            final(self).found() == old(self).found(),
            final(self).highlighted() == one_on(old(self).highlighted(), old(self).found().len()),
    {
        if self.matches.len() == 0 {
            return ;
        }
        self.selected = (self.selected + 1) % self.matches.len();
    }

    pub fn previous(&mut self)
        requires
            old(self).wf(),
        ensures
            final(self).wf(),
            final(self).typed() == old(self).typed(),
            final(self).found() == old(self).found(),
            final(self).highlighted() == one_back(
                old(self).highlighted(),
                old(self).found().len(),
            ),
    {
        if self.matches.len() == 0 {
            return ;
        }
        let n: usize = self.matches.len();
        let ghost at = self.selected as int;
        self.selected = if self.selected == 0 {
            n - 1
        } else {
            self.selected - 1
        };
        proof {
            if at == 0 {
                vstd::arithmetic::div_mod::lemma_small_mod((n - 1) as nat, n as nat);
            } else {
                vstd::arithmetic::div_mod::lemma_mod_add_multiples_vanish(at - 1, n as int);
                vstd::arithmetic::div_mod::lemma_small_mod((at - 1) as nat, n as nat);
            }
        }
    }

    fn rerank(&mut self, nodes: &[GraphNode])
        ensures
            final(self).typed() == old(self).typed(),
            final(self).fresh(nodes@),
    {
        self.matches = rank(nodes, self.query.as_str());
        self.selected = 0;
    }
}

/// Law: where something matched, moving on and moving back undo each other.
pub proof fn law_next_and_previous(at: nat, n: nat)
    requires
        at < n,
    ensures
        one_back(one_on(at, n), n) == at,
        one_on(one_back(at, n), n) == at,
{
    if at + 1 < n {
        vstd::arithmetic::div_mod::lemma_small_mod((at + 1) as nat, n);
        vstd::arithmetic::div_mod::lemma_mod_add_multiples_vanish(at as int, n as int);
        vstd::arithmetic::div_mod::lemma_small_mod(at, n);
    } else {
        vstd::arithmetic::div_mod::lemma_mod_self_0(n as int);
        vstd::arithmetic::div_mod::lemma_small_mod((n - 1) as nat, n);
    }
    if at == 0 {
        vstd::arithmetic::div_mod::lemma_small_mod((n - 1) as nat, n);
        vstd::arithmetic::div_mod::lemma_mod_self_0(n as int);
    } else {
        vstd::arithmetic::div_mod::lemma_mod_add_multiples_vanish(at - 1, n as int);
        vstd::arithmetic::div_mod::lemma_small_mod((at - 1) as nat, n);
        vstd::arithmetic::div_mod::lemma_small_mod(at, n);
    }
}

/// Law: a row is searched by its commit's summary and author; one without a commit
/// is never found, and neither is anything without a query.
pub proof fn law_rows_are_searched_by(node: GraphNode, c: CommitInfo, query: Seq<char>, scores: Seq<
    Option<i64>,
>)
    ensures
        node.commit == Some(c) ==> node_score(node, query) == match_score(
            c.summary@ + seq![' '] + c.author@,
            query,
        ),
        node.commit is None ==> node_score(node, query) is None,
        query.len() == 0 ==> found_by(scores, query).len() == 0,
{
    reveal_strlit(" ");
    assert(" "@ =~= seq![' ']);
}

/// Law: the matches are the rows that score, each once, from the highest score down;
/// rows with the same score stand in the order of the graph.
pub proof fn law_matches_are_ranked(scores: Seq<Option<i64>>, r: Seq<usize>, i: int, j: int)
    requires
        is_ranking(scores, r),
    ensures
        0 <= i < r.len() ==> r[i] < scores.len() && scores[r[i] as int] is Some,
        0 <= i < scores.len() && i <= usize::MAX && scores[i] is Some ==> r.contains(i as usize),
        0 <= i < j < r.len() ==> scores[r[i] as int]->0 >= scores[r[j] as int]->0,
        0 <= i < j < r.len() && scores[r[i] as int] == scores[r[j] as int] ==> r[i] < r[j],
        0 <= i < j < r.len() ==> r[i] != r[j],
{
    if 0 <= i < r.len() {
        assert(r[i] < scores.len());
    }
    if 0 <= i < j < r.len() {
        assert(r[j] < scores.len());
        assert(ahead(scores, r[i], r[j]));
    }
    if 0 <= i < scores.len() && i <= usize::MAX && scores[i] is Some {
        assert(scores[(i as usize) as int] is Some);
    }
}

} // verus!
