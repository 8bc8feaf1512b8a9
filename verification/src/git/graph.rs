//! Lane layout: turning a stream of commits into rows of drawable cells.
//!
//! The builder is fed incrementally, so a lane holding an id that has not been
//! reached yet is the normal state: lanes still open at the end of what has
//! been loaded render as pipes running off the bottom edge.
use crate::geometry;
use crate::git::commit::{CommitInfo, ObjectId};
use std::collections::HashMap;
use vstd::prelude::*;

verus! {

broadcast use vstd::std_specs::hash::group_hash_axioms;

/// What to draw in one cell of one row. The `usize` is an index into the lane
/// palette. A cell that a horizontal run passes through carries the run's
/// colour and then the colour of the lane it crosses.
#[derive(Debug, Clone, Copy, PartialEq, Eq, Structural)]
pub enum CellType {
    Empty,
    /// A lane continuing straight down.
    Pipe(usize),
    /// The commit marker itself.
    Commit(usize),
    /// `╭`: a branch leaving to the up-right.
    BranchRight(usize),
    /// `╮`: a branch leaving to the up-left.
    BranchLeft(usize),
    /// `╯`: a branch joining from the down-left.
    MergeLeft(usize),
    /// `─`: a horizontal run.
    Horizontal(usize),
    /// `┼`: a horizontal run crossing a vertical lane.
    HorizontalPipe(usize, usize),
    /// `├`
    TeeRight(usize),
    /// `┤`
    TeeLeft(usize),
    /// `┬`
    TeeDown(usize, usize),
    /// `┴`
    TeeUp(usize, usize),
}

/// One drawable row.
///
/// `commit: None` marks a row that stands for no commit: a connector row, or
/// the uncommitted-changes row, which carries its count in `uncommitted`.
#[derive(Debug, Clone, PartialEq, Eq)]
pub struct GraphNode {
    pub commit: Option<CommitInfo>,
    pub lane: usize,
    pub color_index: usize,
    pub cells: Vec<CellType>,
    /// How many changes the uncommitted-changes row stands for.
    pub uncommitted: Option<usize>,
}

/// Accumulates rows as commits are fed in. Rows already emitted are never
/// recomputed.
#[derive(Debug)]
pub struct GraphBuilder {
    /// The id each lane is currently tracking. `None` is a free lane.
    lanes: Vec<Option<ObjectId>>,
    /// Colour currently owned by each lane, so a fork keeps its hue.
    lane_color: HashMap<usize, usize>,
    nodes: Vec<GraphNode>,
    max_lane: usize,
    next_color: usize,
}

/// What the builder has laid out, and what its lanes are tracking.
pub struct Layout {
    pub lanes: Seq<Option<ObjectId>>,
    pub colors: Map<usize, usize>,
    pub max_lane: nat,
    pub next_color: nat,
}

/// The lane of a commit: the first that tracks it, else the first free one,
/// else a new one.
pub open spec fn lane_for(lanes: Seq<Option<ObjectId>>, id: ObjectId) -> nat {
    match lanes.index_of_first(Some(id)) {
        Some(i) => i as nat,
        None => match lanes.index_of_first(None) {
            Some(i) => i as nat,
            None => lanes.len(),
        },
    }
}

/// The colour of the commit on `lane`: the lane's own, or the next one.
pub open spec fn color_for(l: Layout, lane: nat) -> nat {
    if l.colors.dom().contains(lane as usize) {
        l.colors[lane as usize] as nat
    } else {
        l.next_color
    }
}

/// The row of a commit on `lane`: its marker, a pipe on every other busy lane,
/// nothing elsewhere.
pub open spec fn row_of(l: Layout, lane: nat, color: nat) -> Seq<CellType> {
    Seq::new(
        (geometry::most(l.max_lane as int, lane as int) + 1) as nat,
        |i: int|
            if i == lane {
                CellType::Commit(color as usize)
            } else if i < l.lanes.len() && l.lanes[i] is Some {
                CellType::Pipe(
                    if l.colors.dom().contains(i as usize) {
                        l.colors[i as usize]
                    } else {
                        i as usize
                    },
                )
            } else {
                CellType::Empty
            },
    )
}

/// The layout once a commit was fed: its first parent takes the lane and keeps
/// the colour; without a parent the lane is free and has no colour.
pub open spec fn fed(l: Layout, id: ObjectId, parents: Seq<ObjectId>) -> Layout {
    let lane = lane_for(l.lanes, id);
    let color = color_for(l, lane);
    let lanes = if lane < l.lanes.len() {
        l.lanes
    } else {
        l.lanes.push(None)
    };
    Layout {
        lanes: lanes.update(
            lane as int,
            if parents.len() > 0 {
                Some(parents[0])
            } else {
                None
            },
        ),
        colors: if parents.len() > 0 {
            l.colors.insert(lane as usize, color as usize)
        } else {
            l.colors.remove(lane as usize)
        },
        max_lane: geometry::most(l.max_lane as int, lane as int) as nat,
        next_color: if l.colors.dom().contains(lane as usize) {
            l.next_color
        } else {
            l.next_color + 1
        },
    }
}

impl GraphBuilder {
    /// The rows laid out so far.
    pub closed spec fn rows(&self) -> Seq<GraphNode> {
        self.nodes@
    }

    /// What the lanes are tracking.
    pub closed spec fn layout(&self) -> Layout {
        Layout {
            lanes: self.lanes@,
            colors: self.lane_color@,
            max_lane: self.max_lane as nat,
            next_color: self.next_color as nat,
        }
    }

    /// No colour was handed out that has no row, and the widest lane exists.
    pub closed spec fn wf(&self) -> bool {
        &&& self.next_color <= self.nodes@.len()
        &&& self.max_lane == 0 || self.max_lane < self.lanes@.len()
    }

    pub fn new() -> (r: Self)
        ensures
            r.wf(),
            r.rows() == Seq::<GraphNode>::empty(),
            r.layout() == (Layout {
                lanes: Seq::empty(),
                colors: Map::empty(),
                max_lane: 0,
                next_color: 0,
            }),
    {
        GraphBuilder {
            lanes: Vec::new(),
            lane_color: HashMap::new(),
            nodes: Vec::new(),
            max_lane: 0,
            next_color: 0,
        }
    }

    pub fn nodes(&self) -> (r: &[GraphNode])
        ensures
            r@ == self.rows(),
    {
        self.nodes.as_slice()
    }

    pub fn max_lane(&self) -> (r: usize)
        ensures
            r == self.layout().max_lane,
    {
        self.max_lane
    }

    /// The first lane holding `want`, if any.
    fn lane_of(&self, want: Option<ObjectId>) -> (r: Option<usize>)
        ensures
            match r {
                Some(i) => i < self.lanes@.len() && self.lanes@.index_of_first(want) == Some(
                    i as int,
                ),
                None => self.lanes@.index_of_first(want) is None,
            },
    {
        let mut i: usize = 0;
        proof {
            self.lanes@.index_of_first_ensures(want);
        }
        while i < self.lanes.len()
            invariant
                i <= self.lanes.len(),
                forall|k: int| 0 <= k < i ==> self.lanes@[k] != want,
            decreases self.lanes.len() - i,
        {
            if self.lanes[i] == want {
                proof {
                    self.lanes@.index_of_first_ensures(want);
                    assert(self.lanes@.contains(self.lanes@[i as int]));
                }
                return Some(i);
            }
            i += 1;
        }
        proof {
            self.lanes@.index_of_first_ensures(want);
            assert(!self.lanes@.contains(want));
        }
        None
    }

    /// Paints one row: a pipe for every busy lane, then the commit marker.
    fn row_cells(&self, lane: usize, color: usize) -> (r: Vec<CellType>)
        requires
            lane < self.lanes@.len(),
            self.max_lane < self.lanes@.len(),
            lane <= self.max_lane,
        ensures
            r@ == row_of(self.layout(), lane as nat, color as nat),
    {
        assert(self.max_lane < self.lanes.len());
        let width: usize = self.max_lane + 1;
        let mut cells: Vec<CellType> = Vec::new();
        let mut i: usize = 0;
        while i < width
            invariant
                i <= width,
                width == self.max_lane + 1,
                width <= self.lanes@.len(),
                lane < width,
                cells@ == row_of(self.layout(), lane as nat, color as nat).take(i as int),
            decreases width - i,
        {
            let cell = if i == lane {
                CellType::Commit(color)
            } else if self.lanes[i].is_some() {
                match self.lane_color.get(&i) {
                    Some(c) => CellType::Pipe(*c),
                    None => CellType::Pipe(i),
                }
            } else {
                CellType::Empty
            };
            cells.push(cell);
            i += 1;
            assert(cells@ =~= row_of(self.layout(), lane as nat, color as nat).take(i as int));
        }
        assert(cells@ =~= row_of(self.layout(), lane as nat, color as nat));
        cells
    }

    /// Adds one commit, appending its row.
    pub fn feed(&mut self, commit: CommitInfo)
        requires
            old(self).wf(),
        ensures
            final(self).wf(),
            final(self).layout() == fed(old(self).layout(), commit.id, commit.parents@),
            final(self).rows().len() == old(self).rows().len() + 1,
            final(self).rows().drop_last() == old(self).rows(),
            ({
                let row = final(self).rows().last();
                let lane = lane_for(old(self).layout().lanes, commit.id);
                let color = color_for(old(self).layout(), lane);
                &&& row.commit == Some(commit)
                &&& row.lane == lane
                &&& row.color_index == color
                &&& row.cells@ == row_of(old(self).layout(), lane, color)
                &&& row.uncommitted is None
            }),
            ({
                let row = final(self).rows().last();
                let lanes = old(self).layout().lanes;
                &&& row.lane < row.cells@.len()
                &&& row.cells@[row.lane as int] == CellType::Commit(row.color_index)
                &&& forall|i: int|
                    0 <= i < row.cells@.len() && i != row.lane ==> {
                        &&& #[trigger] row.cells@[i] is Pipe <==> i < lanes.len() && lanes[i] is Some
                        &&& row.cells@[i] is Empty <==> i >= lanes.len() || lanes[i] is None
                    }
            }),
    {
        let ghost before = self.layout();
        let lane: usize = match self.lane_of(Some(commit.id)) {
            Some(l) => l,
            None => match self.lane_of(None) {
                Some(l) => l,
                None => {
                    self.lanes.push(None);
                    self.lanes.len() - 1
                },
            },
        };
        let ghost lanes = self.lanes@;
        assert(lane == lane_for(before.lanes, commit.id));
        if lane > self.max_lane {
            self.max_lane = lane;
        }
        let owned: Option<usize> = match self.lane_color.get(&lane) {
            Some(c) => Some(*c),
            None => None,
        };
        let color: usize = match owned {
            Some(c) => c,
            None => self.next_color,
        };
        let cells = self.row_cells(lane, color);
        assert(cells@ =~= row_of(before, lane as nat, color as nat));
        if commit.parents.len() > 0 {
            let first = commit.parents[0];
            self.lanes.set(lane, Some(first));
            self.lane_color.insert(lane, color);
        } else {
            self.lanes.set(lane, None);
            self.lane_color.remove(&lane);
        }
        self.nodes.push(
            GraphNode {
                commit: Some(commit),
                lane,
                color_index: color,
                cells,
                uncommitted: None,
            },
        );
        if owned.is_none() {
            assert(self.nodes.len() == old(self).nodes@.len() + 1);
            self.next_color = self.next_color + 1;
        }
        proof {
            assert(self.rows().drop_last() =~= old(self).rows());
            assert(self.lanes@ =~= fed(before, commit.id, commit.parents@).lanes);
            assert(self.lane_color@ =~= fed(before, commit.id, commit.parents@).colors);
        }
    }

    /// Adds the row that stands for `count` uncommitted changes. It takes no
    /// lane and no colour of its own.
    pub fn feed_uncommitted(&mut self, count: usize)
        requires
            old(self).wf(),
        ensures
            final(self).wf(),
            final(self).layout() == old(self).layout(),
            final(self).rows().len() == old(self).rows().len() + 1,
            final(self).rows().drop_last() == old(self).rows(),
            final(self).rows().last().commit is None,
            final(self).rows().last().lane == 0,
            final(self).rows().last().color_index == 0,
            final(self).rows().last().cells@ == seq![CellType::Commit(0)],
            final(self).rows().last().uncommitted == Some(count),
    {
        let mut cells: Vec<CellType> = Vec::new();
        cells.push(CellType::Commit(0));
        assert(cells@ =~= seq![CellType::Commit(0)]);
        self.nodes.push(
            GraphNode { commit: None, lane: 0, color_index: 0, cells, uncommitted: Some(count) },
        );
        assert(self.rows().drop_last() =~= old(self).rows());
    }
}

/// Law: a linear history never leaves lane 0. Where lane 0 alone tracks the
/// commit that comes next, that commit takes lane 0, its row is its marker
/// alone, and lane 0 alone tracks its parent after it.
pub proof fn law_linear_history(l: Layout, id: ObjectId, parents: Seq<ObjectId>)
    requires
        l.lanes.len() == 0 || l.lanes == seq![Some(id)],
        l.max_lane == 0,
    ensures
        lane_for(l.lanes, id) == 0,
        fed(l, id, parents).max_lane == 0,
        row_of(l, 0, color_for(l, 0)) == seq![CellType::Commit(color_for(l, 0) as usize)],
        parents.len() > 0 ==> fed(l, id, parents).lanes == seq![Some(parents[0])],
{
    l.lanes.index_of_first_ensures(Some(id));
    l.lanes.index_of_first_ensures(None);
    if l.lanes.len() > 0 {
        assert(l.lanes.contains(l.lanes[0]));
    }
    assert(row_of(l, 0, color_for(l, 0)) =~= seq![CellType::Commit(color_for(l, 0) as usize)]);
    if parents.len() > 0 {
        assert(fed(l, id, parents).lanes =~= seq![Some(parents[0])]);
    }
}

/// Law: along a first-parent line a lane keeps its colour. The commit that a
/// lane tracks after a commit was fed is drawn in that commit's colour.
pub proof fn law_lane_keeps_its_color(l: Layout, id: ObjectId, parents: Seq<ObjectId>)
    requires
        parents.len() > 0,
        color_for(l, lane_for(l.lanes, id)) <= usize::MAX,
        lane_for(l.lanes, id) <= usize::MAX,
    ensures
        fed(l, id, parents).lanes[lane_for(l.lanes, id) as int] == Some(parents[0]),
        color_for(fed(l, id, parents), lane_for(l.lanes, id)) == color_for(
            l,
            lane_for(l.lanes, id),
        ),
{
    l.lanes.index_of_first_ensures(Some(id));
    l.lanes.index_of_first_ensures(None);
}

} // verus!
