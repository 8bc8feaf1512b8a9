//! What the lanes of a history keep, however many commits are fed.
use crate::git::commit::ObjectId;
use crate::git::graph;
use crate::git::graph::{CellType, Layout};
use vstd::prelude::*;

verus! {

/// A commit and its parents.
pub type Step = (ObjectId, Seq<ObjectId>);

/// The lane the next commit is drawn on.
pub open spec fn lane_of(l: Layout, id: ObjectId) -> int {
    graph::lane_for(l.lanes, id) as int
}

/// The row the next commit is drawn as.
pub open spec fn row_for(l: Layout, id: ObjectId) -> Seq<CellType> {
    graph::row_of(
        l,
        graph::lane_for(l.lanes, id),
        graph::color_for(l, graph::lane_for(l.lanes, id)),
    )
}

/// The layout once these commits were fed.
pub open spec fn after(l: Layout, steps: Seq<Step>) -> Layout
    decreases steps.len(),
{
    if steps.len() == 0 {
        l
    } else {
        graph::fed(after(l, steps.drop_last()), steps.last().0, steps.last().1)
    }
}

/// Whether lane `i` tracks a commit.
pub open spec fn busy(l: Layout, i: int) -> bool {
    0 <= i < l.lanes.len() && l.lanes[i] is Some
}

/// Whether no row is too narrow for the lanes, every lane that tracks a commit has
/// a colour and no other has one, and no two lanes share a colour.
pub open spec fn sound(l: Layout) -> bool {
    &&& l.lanes.len() <= l.max_lane + 1
    &&& l.max_lane == 0 || l.max_lane < l.lanes.len()
    &&& l.lanes.len() < usize::MAX
    &&& forall|i: usize| #[trigger] l.colors.dom().contains(i) <==> busy(l, i as int)
    &&& forall|i: usize| #[trigger] l.colors.dom().contains(i) ==> l.colors[i] < l.next_color
    &&& forall|i: usize, j: usize|
        #[trigger] l.colors.dom().contains(i) && #[trigger] l.colors.dom().contains(j) && i != j
            ==> l.colors[i] != l.colors[j]
}

proof fn lemma_lane(l: Layout, id: ObjectId)
    ensures
        ({
            let lane = lane_of(l, id);
            &&& 0 <= lane <= l.lanes.len()
            &&& lane < l.lanes.len() ==> l.lanes[lane] == Some(id) || l.lanes[lane] is None
            &&& l.lanes.contains(Some(id)) ==> lane < l.lanes.len() && l.lanes[lane] == Some(id)
            &&& l.lanes.contains(Some(id)) ==> forall|i: int|
                0 <= i < lane ==> #[trigger] l.lanes[i] != Some(id)
            &&& !l.lanes.contains(Some(id)) ==> (lane == l.lanes.len() || l.lanes[lane] is None)
            &&& !l.lanes.contains(Some(id)) ==> forall|i: int|
                0 <= i < lane ==> #[trigger] l.lanes[i] is Some
        }),
{
    l.lanes.index_of_first_ensures(Some(id));
    l.lanes.index_of_first_ensures(None);
    if !l.lanes.contains(Some(id)) {
        let lane = lane_of(l, id);
        assert forall|i: int| 0 <= i < lane implies #[trigger] l.lanes[i] is Some by {
            if l.lanes[i] is None {
                assert(l.lanes[i] == None::<ObjectId>);
                assert(l.lanes.contains(None));
            }
        }
    }
}

/// Law: a row shows the lines that are open. On the commit's own lane it has the
/// commit's marker; on every other lane that tracks a commit a line running past,
/// and on a lane that tracks none nothing. No open line is left out.
pub proof fn law_row_shows_the_open_lines(l: Layout, id: ObjectId, i: int)
    requires
        sound(l),
        0 <= i,
    ensures
        ({
            let row = row_for(l, id);
            let lane = lane_of(l, id);
            &&& lane < row.len()
            &&& row[lane] is Commit
            &&& i < row.len() && i != lane && busy(l, i) ==> row[i] is Pipe
            &&& i < row.len() && i != lane && !busy(l, i) ==> row[i] is Empty
            &&& busy(l, i) ==> i < row.len()
        }),
{
    lemma_lane(l, id);
}

/// Law: a commit is drawn where its line comes down: on the leftmost lane that
/// tracks it. One that no lane tracks begins a line of its own, on the leftmost
/// free lane, and takes no lane from another line.
pub proof fn law_commit_continues_its_line(l: Layout, id: ObjectId, i: int)
    ensures
        ({
            let lane = lane_of(l, id);
            &&& 0 <= i < l.lanes.len() && l.lanes[i] == Some(id) ==> lane <= i && l.lanes[lane]
                == Some(id)
            &&& lane <= l.lanes.len()
            &&& lane < l.lanes.len() ==> l.lanes[lane] == Some(id) || l.lanes[lane] is None
            &&& !l.lanes.contains(Some(id)) && 0 <= i < lane ==> l.lanes[i] is Some
        }),
{
    lemma_lane(l, id);
    if 0 <= i < l.lanes.len() && l.lanes[i] == Some(id) {
        assert(l.lanes.contains(l.lanes[i]));
    }
}

/// Law: below a commit its lane tracks the first parent, and a commit without
/// parents ends its line. Every other lane goes on as before.
pub proof fn law_line_leads_to_the_first_parent(l: Layout, id: ObjectId, parents: Seq<ObjectId>, i: int)
    ensures
        ({
            let lane = lane_of(l, id);
            let next = graph::fed(l, id, parents);
            &&& parents.len() > 0 ==> busy(next, lane) && next.lanes[lane] == Some(parents[0])
            &&& parents.len() == 0 ==> !busy(next, lane)
            &&& 0 <= i && i != lane ==> (busy(next, i) <==> busy(l, i))
            &&& 0 <= i < l.lanes.len() && i != lane ==> next.lanes[i] == l.lanes[i]
        }),
{
    lemma_lane(l, id);
}

/// Law: the first parent of a commit is drawn right below it, on the same lane,
/// unless a lane further left already waits for it.
pub proof fn law_first_parent_comes_below(l: Layout, id: ObjectId, parents: Seq<ObjectId>)
    requires
        parents.len() > 0,
        forall|i: int| 0 <= i < lane_of(l, id) ==> #[trigger] l.lanes[i] != Some(parents[0]),
    ensures
        lane_of(graph::fed(l, id, parents), parents[0]) == lane_of(l, id),
{
    let next = graph::fed(l, id, parents);
    lemma_lane(l, id);
    lemma_lane(next, parents[0]);
    assert(next.lanes[lane_of(l, id)] == Some(parents[0]));
    assert(next.lanes.contains(Some(parents[0])));
    if lane_of(next, parents[0]) < lane_of(l, id) {
        assert(next.lanes[lane_of(next, parents[0])] == l.lanes[lane_of(next, parents[0])]);
    }
}

proof fn lemma_sound(l: Layout, id: ObjectId, parents: Seq<ObjectId>)
    requires
        sound(l),
        l.lanes.len() + 1 < usize::MAX,
        l.next_color < usize::MAX,
    ensures
        sound(graph::fed(l, id, parents)),
        graph::fed(l, id, parents).lanes.len() <= l.lanes.len() + 1,
        graph::fed(l, id, parents).next_color <= l.next_color + 1,
{
    lemma_lane(l, id);
    let lane = lane_of(l, id);
    let next = graph::fed(l, id, parents);
    assert(l.colors.dom().contains(lane as usize) <==> busy(l, lane));
    assert forall|i: usize| #[trigger] next.colors.dom().contains(i) <==> busy(next, i as int) by {
        assert(l.colors.dom().contains(i) <==> busy(l, i as int));
    }
    assert forall|i: usize| #[trigger] next.colors.dom().contains(i) implies next.colors[i]
        < next.next_color by {
        if i != lane {
            assert(l.colors.dom().contains(i));
        }
    }
    assert forall|i: usize, j: usize|
        #[trigger] next.colors.dom().contains(i) && #[trigger] next.colors.dom().contains(j) && i
            != j implies next.colors[i] != next.colors[j] by {
        if i != lane {
            assert(l.colors.dom().contains(i));
        }
        if j != lane {
            assert(l.colors.dom().contains(j));
        }
    }
}

/// Law: whatever commits are fed, lines that are open at once have different
/// colours, and there is a place in the next row for each of them.
pub proof fn law_open_lines_have_colors_of_their_own(l: Layout, steps: Seq<Step>)
    requires
        sound(l),
        l.lanes.len() + steps.len() < usize::MAX,
        l.next_color + steps.len() <= usize::MAX,
    ensures
        sound(after(l, steps)),
        after(l, steps).lanes.len() <= l.lanes.len() + steps.len(),
        after(l, steps).next_color <= l.next_color + steps.len(),
        forall|i: usize, j: usize|
            i != j && busy(after(l, steps), i as int) && busy(after(l, steps), j as int)
                ==> #[trigger] after(l, steps).colors[i] != #[trigger] after(l, steps).colors[j],
    decreases steps.len(),
{
    if steps.len() > 0 {
        law_open_lines_have_colors_of_their_own(l, steps.drop_last());
        lemma_sound(after(l, steps.drop_last()), steps.last().0, steps.last().1);
    }
    let end = after(l, steps);
    assert forall|i: usize, j: usize|
        i != j && busy(end, i as int) && busy(end, j as int) implies #[trigger] end.colors[i]
        != #[trigger] end.colors[j] by {
        assert(end.colors.dom().contains(i));
        assert(end.colors.dom().contains(j));
    }
}

/// The layout before anything was fed.
pub open spec fn nothing_fed() -> Layout {
    Layout { lanes: Seq::empty(), colors: Map::empty(), max_lane: 0, next_color: 0 }
}

/// Law: what holds of sound layouts holds of every history.
pub proof fn law_every_history_is_sound(steps: Seq<Step>)
    requires
        steps.len() < usize::MAX,
    ensures
        sound(after(nothing_fed(), steps)),
{
    law_open_lines_have_colors_of_their_own(nothing_fed(), steps);
}

/// Law: a line runs on, past every row, until the commit it leads to is reached. A
/// lane that tracks a commit keeps tracking it while other commits are fed; each
/// of their rows shows the line on that lane, in the lane's colour, and none of
/// them takes the lane.
pub proof fn law_a_line_runs_past_other_commits(l: Layout, steps: Seq<Step>, i: int, goal: ObjectId)
    requires
        sound(l),
        l.lanes.len() + steps.len() < usize::MAX,
        l.next_color + steps.len() <= usize::MAX,
        0 <= i < l.lanes.len(),
        l.lanes[i] == Some(goal),
        forall|k: int| 0 <= k < steps.len() ==> (#[trigger] steps[k]).0 != goal,
    ensures
        i < after(l, steps).lanes.len() && after(l, steps).lanes[i] == Some(goal),
        after(l, steps).colors[i as usize] == l.colors[i as usize],
        forall|k: int|
            0 <= k < steps.len() ==> {
                let before = after(l, steps.take(k));
                let row = row_for(before, (#[trigger] steps[k]).0);
                &&& i < row.len()
                &&& row[i] == CellType::Pipe(l.colors[i as usize])
                &&& lane_of(before, steps[k].0) != i
            },
    decreases steps.len(),
{
    if steps.len() > 0 {
        let front = steps.drop_last();
        law_a_line_runs_past_other_commits(l, front, i, goal);
        law_open_lines_have_colors_of_their_own(l, front);
        let before = after(l, front);
        let id = steps.last().0;
        assert(steps.last() == steps[steps.len() - 1]);
        lemma_lane(before, id);
        law_row_shows_the_open_lines(before, id, i);
        assert(before.colors.dom().contains(i as usize));
        assert forall|k: int| 0 <= k < steps.len() implies {
            let before = after(l, steps.take(k));
            let row = row_for(before, (#[trigger] steps[k]).0);
            &&& i < row.len()
            &&& row[i] == CellType::Pipe(l.colors[i as usize])
            &&& lane_of(before, steps[k].0) != i
        } by {
            if k < front.len() {
                assert(front[k] == steps[k]);
                assert(front.take(k) =~= steps.take(k));
            } else {
                assert(steps.take(k) =~= front);
            }
        }
    }
}

/// Law: two commits neither of which leads to the other are drawn on two lanes. The
/// row of the later one has its marker on its own lane and, on the lane of the
/// earlier one, the line that leads from it to its parent, in its colour.
pub proof fn law_branches_run_side_by_side(
    l: Layout,
    id: ObjectId,
    parents: Seq<ObjectId>,
    other: ObjectId,
)
    requires
        sound(l),
        l.lanes.len() + 2 < usize::MAX,
        l.next_color + 2 <= usize::MAX,
        parents.len() > 0,
        parents[0] != other,
    ensures
        ({
            let lane = lane_of(l, id);
            let next = graph::fed(l, id, parents);
            let row = row_for(next, other);
            &&& lane_of(next, other) != lane
            &&& row[lane_of(next, other)] is Commit
            &&& row[lane] is Pipe
            &&& row_for(l, id)[lane] matches CellType::Commit(c) && row[lane] == CellType::Pipe(c)
        }),
{
    lemma_lane(l, id);
    let lane = lane_of(l, id);
    let next = graph::fed(l, id, parents);
    lemma_sound(l, id, parents);
    assert(l.colors.dom().contains(lane as usize) <==> busy(l, lane));
    lemma_lane(next, other);
    law_row_shows_the_open_lines(next, other, lane);
    assert(next.colors.dom().contains(lane as usize));
}

/// Law: a line keeps one colour from a commit to its first parent: both markers and
/// the line between them are drawn in it, where the parent comes down that lane.
/// A commit that begins a line has a colour that no open line has.
pub proof fn law_a_line_keeps_its_color(l: Layout, id: ObjectId, parents: Seq<ObjectId>, i: int)
    requires
        sound(l),
        l.lanes.len() + 1 < usize::MAX,
        l.next_color < usize::MAX,
    ensures
        ({
            let lane = lane_of(l, id);
            let next = graph::fed(l, id, parents);
            &&& row_for(l, id)[lane] matches CellType::Commit(c) && {
                &&& busy(l, lane) ==> c == l.colors[lane as usize]
                &&& !busy(l, lane) && busy(l, i) ==> c != l.colors[i as usize]
                &&& parents.len() > 0 ==> next.colors[lane as usize] == c
                &&& parents.len() > 0 && lane_of(next, parents[0]) == lane ==> row_for(
                    next,
                    parents[0],
                )[lane] == CellType::Commit(c)
            }
        }),
{
    lemma_lane(l, id);
    lemma_sound(l, id, parents);
    let lane = lane_of(l, id);
    let next = graph::fed(l, id, parents);
    assert(l.colors.dom().contains(lane as usize) <==> busy(l, lane));
    if busy(l, i) {
        assert(l.colors.dom().contains(i as usize));
    }
    if parents.len() > 0 {
        assert(next.colors.dom().contains(lane as usize));
        lemma_lane(next, parents[0]);
    }
}

} // verus!
