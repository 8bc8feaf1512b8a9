//! Where the overlay's three panes sit, and which one a mouse event hit.
use crate::geometry;
use crate::geometry::Rect;
use vstd::prelude::*;

verus! {

/// The overlay's panes.
#[derive(Debug, Clone, Copy, PartialEq, Eq, Structural)]
pub enum Pane {
    Graph,
    Detail,
    Files,
}

/// Pane rectangles for one frame. A zero-height detail and files pane means
/// the area was too short to split and the graph took all of it.
#[derive(Debug, Clone, Copy, PartialEq, Eq, Structural)]
pub struct LayoutMap {
    pub graph: Rect,
    pub detail: Rect,
    pub files: Rect,
}

impl Default for LayoutMap {
    fn default() -> (r: Self)
        ensures
            r == empty_layout(),
    {
        LayoutMap { graph: Rect::default(), detail: Rect::default(), files: Rect::default() }
    }
}

/// The layout before anything was drawn.
pub open spec fn empty_layout() -> LayoutMap {
    let none = Rect { x: 0, y: 0, width: 0, height: 0 };
    LayoutMap { graph: none, detail: none, files: none }
}

/// Below this many rows the lower half is not worth having.
pub const MIN_SPLIT_HEIGHT: u16 = 12;

/// A rectangle whose far edges stay within 16 bits.
pub open spec fn clipped(x: int, y: int, width: int, height: int) -> Rect {
    Rect {
        x: x as u16,
        y: y as u16,
        width: geometry::least(width, 65535 - x) as u16,
        height: geometry::least(height, 65535 - y) as u16,
    }
}

/// The panes of `inner`: the graph above, detail and files side by side below
/// it; the graph alone where `inner` is too short or has no width.
pub open spec fn panes(inner: Rect) -> LayoutMap {
    if inner.height < MIN_SPLIT_HEIGHT || inner.width == 0 {
        LayoutMap {
            graph: inner,
            detail: clipped(inner.x as int, inner.end_y(), inner.width as int, 0),
            files: clipped(inner.x as int, inner.end_y(), 0, 0),
        }
    } else {
        let lower = inner.height / 2;
        let upper = inner.height - lower;
        let left = inner.width / 2;
        let below = geometry::sat16(inner.y as int, upper);
        LayoutMap {
            graph: clipped(inner.x as int, inner.y as int, inner.width as int, upper),
            detail: clipped(inner.x as int, below, left as int, lower as int),
            files: clipped(
                geometry::sat16(inner.x as int, left as int),
                below,
                inner.width - left,
                lower as int,
            ),
        }
    }
}

/// Splits the overlay's inner area: graph on top, detail and files side by side
/// beneath it.
pub fn split(inner: Rect) -> (r: LayoutMap)
    ensures
        r == panes(inner),
{
    if inner.height < MIN_SPLIT_HEIGHT || inner.width == 0 {
        let below: u16 = inner.bottom();
        return LayoutMap {
            graph: inner,
            detail: Rect::new(inner.x, below, inner.width, 0),
            files: Rect::new(inner.x, below, 0, 0),
        };
    }
    let lower_h: u16 = inner.height / 2;
    let graph_h: u16 = inner.height - lower_h;
    let detail_w: u16 = inner.width / 2;
    let files_w: u16 = inner.width - detail_w;
    let lower_y: u16 = inner.y.saturating_add(graph_h);
    let files_x: u16 = inner.x.saturating_add(detail_w);
    LayoutMap {
        graph: Rect::new(inner.x, inner.y, inner.width, graph_h),
        detail: Rect::new(inner.x, lower_y, detail_w, lower_h),
        files: Rect::new(files_x, lower_y, files_w, lower_h),
    }
}

/// Law: the panes cover the area and nothing else, and no cell lies in two of
/// them.
pub proof fn law_panes_tile(inner: Rect, x: int, y: int)
    ensures
        inner.has(x, y) <==> panes(inner).graph.has(x, y) || panes(inner).detail.has(x, y) || panes(
            inner,
        ).files.has(x, y),
        !(panes(inner).graph.has(x, y) && panes(inner).detail.has(x, y)),
        !(panes(inner).graph.has(x, y) && panes(inner).files.has(x, y)),
        !(panes(inner).detail.has(x, y) && panes(inner).files.has(x, y)),
{
}

/// Law: every pane lies in the area.
pub proof fn law_panes_within(inner: Rect)
    ensures
        panes(inner).graph.within(inner),
        panes(inner).detail.within(inner),
        panes(inner).files.within(inner),
{
}

fn hit(r: &Rect, x: u16, y: u16) -> (b: bool)
    ensures
        b == r.has(x as int, y as int),
{
    r.width > 0 && r.height > 0 && x >= r.x && x < r.right() && y >= r.y && y < r.bottom()
}

/// The pane that contains `(x, y)`.
pub open spec fn pane_over(map: LayoutMap, x: int, y: int) -> Option<Pane> {
    if map.graph.has(x, y) {
        Some(Pane::Graph)
    } else if map.detail.has(x, y) {
        Some(Pane::Detail)
    } else if map.files.has(x, y) {
        Some(Pane::Files)
    } else {
        None
    }
}

/// Which pane contains `(x, y)`, if any.
pub fn pane_at(map: &LayoutMap, x: u16, y: u16) -> (r: Option<Pane>)
    ensures
        r == pane_over(*map, x as int, y as int),
{
    if hit(&map.graph, x, y) {
        Some(Pane::Graph)
    } else if hit(&map.detail, x, y) {
        Some(Pane::Detail)
    } else if hit(&map.files, x, y) {
        Some(Pane::Files)
    } else {
        None
    }
}

/// Law: the graph has the whole width above the other two panes, which share the
/// width below it, the detail left of the files; each half is no more than a cell
/// larger than the other. An area too short for that is the graph's alone.
pub proof fn law_panes_are_halves(inner: Rect)
    requires
        inner.x + inner.width <= 65535,
        inner.y + inner.height <= 65535,
    ensures
        ({
            let p = panes(inner);
            &&& p.graph.x == inner.x && p.graph.y == inner.y && p.graph.width == inner.width
            &&& inner.height < 12 || inner.width == 0 ==> p.graph == inner && p.detail.height == 0
                && p.files.height == 0
            &&& inner.height >= 12 && inner.width > 0 ==> {
                &&& p.detail.y == p.graph.y + p.graph.height && p.files.y == p.detail.y
                &&& p.detail.x == inner.x && p.files.x == p.detail.x + p.detail.width
                &&& p.graph.height + p.detail.height == inner.height && p.files.height
                    == p.detail.height
                &&& 0 <= p.graph.height - p.detail.height <= 1
                &&& p.detail.width + p.files.width == inner.width
                &&& 0 <= p.files.width - p.detail.width <= 1
            }
        }),
{
}

/// Law: the pane at a place is the one that has the place in it.
pub proof fn law_pane_at_a_place(map: LayoutMap, x: int, y: int)
    ensures
        pane_over(map, x, y) == Some(Pane::Graph) ==> map.graph.has(x, y),
        pane_over(map, x, y) == Some(Pane::Detail) ==> map.detail.has(x, y),
        pane_over(map, x, y) == Some(Pane::Files) ==> map.files.has(x, y),
        map.graph.has(x, y) ==> pane_over(map, x, y) == Some(Pane::Graph),
        map.detail.has(x, y) && !map.graph.has(x, y) ==> pane_over(map, x, y) == Some(Pane::Detail),
        map.files.has(x, y) && !map.graph.has(x, y) && !map.detail.has(x, y) ==> pane_over(
            map,
            x,
            y,
        ) == Some(Pane::Files),
{
}

} // verus!
