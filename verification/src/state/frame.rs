//! What a frame of the overlay shows, and what it leaves behind.
use crate::geometry::Rect;
use crate::screen;
use crate::screen::Cells;
use crate::state::graph::GitGraph;
use crate::state::model::Model;
use crate::state::render::{empty_message, note_of, overlay_cells, rendered, title_of};
use crate::state::{FileDiffState, Mode};
use crate::style::Color;
use crate::ui::file_diff;
use crate::ui::file_list;
use crate::ui::graph_view;
use crate::ui::layout;
use crate::ui::writing::{law_text_is_put, narrow, reads};
use vstd::prelude::*;
use vstd::string::*;

verus! {

/// Law: a frame changes nothing but what it measured. Where it drew the panes, the
/// panes lie where they were drawn and a page is the graph's height; where it drew a
/// message or a file's diff, a page is the height within the border. A frame without
/// room measures nothing.
pub proof fn law_a_frame_only_measures(g: GitGraph, bounds: Rect, area: Rect, date: Seq<char>)
    ensures
        ({
            let inner = area.shared(bounds).inside();
            let room = inner.width > 0 && inner.height > 0;
            let was = g.model();
            let is = rendered(g, bounds, area, date);
            let panes = g.mode != Mode::FileDiff && was.rows.len() > 0;
            &&& is == Model {
                layout: is.layout,
                viewport: is.viewport,
                detail_rows: is.detail_rows,
                file_diff_rows: is.file_diff_rows,
                ..was
            }
            &&& !room ==> is == was
            &&& room && panes ==> is.layout == layout::panes(inner) && is.viewport
                == is.layout.graph.height && is.file_diff_rows == was.file_diff_rows
            &&& room && !panes ==> is.layout == was.layout && is.viewport == inner.height
                && is.detail_rows == was.detail_rows
            &&& room && g.mode == Mode::FileDiff && inner.width > 2 && inner.height > 2
                ==> is.file_diff_rows == inner.height - 2
            &&& room && g.mode != Mode::FileDiff ==> is.file_diff_rows == was.file_diff_rows
        }),
{
}

/// Law: the overlay's border names the repository. Its bottom tells of a read that
/// failed where there are rows to be seen all the same, and of nothing else.
pub proof fn law_border_names_the_repository(g: GitGraph, root: Seq<char>)
    ensures
        title_of(root) == " Git Graph — "@ + root + seq![' '],
        note_of(g) is Some <==> g.model().error is Some && g.model().rows.len() > 0,
        note_of(g) matches Some((text, color)) ==> text == " partial read: "@ + g.model().error->0
            + seq![' '] && color == (0xD8u8, 0x6Cu8, 0x6Cu8),
        g.model().error is None ==> empty_message(g) == "no commits yet"@,
        g.model().error matches Some(e) ==> empty_message(g) == "cannot read this repository: "@
            + e,
{
    reveal_strlit(" ");
    assert(" "@ =~= seq![' ']);
}

/// Law: a message stands on the middle row, as far from the left edge as from the
/// right, or a column nearer to the left.
pub proof fn law_message_is_centred(cells: Cells, area: Rect, msg: Seq<char>) -> (x: int)
    requires
        narrow(msg),
        screen::text_columns(msg) == msg.len(),
        msg.len() <= area.width,
        area.width > 0 && area.height > 0,
        area.end_x() < 65535,
        area.x + area.width <= 65535,
        area.y + area.height <= 65535,
    ensures
        reads(
            graph_view::message_cells(cells, area, msg),
            x,
            (area.y + area.height / 2) as u16,
            msg,
        ),
        0 <= (area.x + area.width - (x + msg.len())) - (x - area.x) <= 1,
{
    let spare = area.width - msg.len();
    let x = area.x + spare / 2;
    let y = (area.y + area.height / 2) as u16;
    let after = graph_view::message_cells(cells, area, msg);
    assert forall|i: int| 0 <= i < msg.len() implies (#[trigger] after[(
        (x + i) as u16,
        y,
    )]).symbol == seq![msg[i]] by {
        law_text_is_put(
            cells,
            area,
            x as u16,
            y,
            msg,
            crate::style::plain().with_fg(Color::DarkGray),
            i,
        );
    }
    x
}

/// Law: the pane in focus has the bright border, the others the quiet one.
pub proof fn law_focus_is_shown(focused: bool)
    ensures
        file_list::border_of(focused) == (0xF3u8, 0xB2u8, 0x4Cu8) <==> focused,
        file_list::border_of(focused) == (0x8Bu8, 0x94u8, 0xA2u8) <==> !focused,
{
}

/// Law: the view of a file's diff is named by the file's path once it is known. While
/// the diff is read, and where it could not be, the first row says so.
pub proof fn law_file_view(cells: Cells, bounds: Rect, area: Rect, state: FileDiffState, scroll: nat, i: int)
    requires
        area.width > 2 && area.height > 2,
        area.x + area.width < 65535,
        area.y + area.height < 65535,
    ensures
        ({
            let after = file_diff::view_cells(cells, bounds, area, state, scroll);
            let at = ((area.x + 1 + i) as u16, (area.y + 1) as u16);
            &&& state matches FileDiffState::Loading(path) ==> file_diff::view_title(state)
                == seq![' '] + path@ + seq![' ']
            &&& state matches FileDiffState::Ready(h) ==> file_diff::view_title(state) == seq![' ']
                + h.diff.path@ + seq![' ']
            &&& state matches FileDiffState::Failed(msg) ==> narrow(msg@) && msg@.len()
                <= area.width - 2 && 0 <= i < msg@.len() ==> after[at].symbol == seq![msg@[i]]
            &&& state is Loading && narrow("Loading…"@) && "Loading…"@.len() <= area.width - 2
                && 0 <= i < "Loading…"@.len() ==> after[at].symbol == seq!["Loading…"@[i]]
        }),
{
    reveal_strlit(" ");
    assert(" "@ =~= seq![' ']);
    let inner = area.inside();
    let quiet = crate::style::plain().with_fg(crate::style::dim_color());
    let boxed = screen::block_cells(
        cells,
        bounds,
        area,
        file_diff::view_title(state),
        (0xF3, 0xB2, 0x4C),
        None,
    );
    assert(inner.x == area.x + 1 && inner.y == area.y + 1 && inner.width == area.width - 2);
    match state {
        FileDiffState::Failed(msg) => {
            if narrow(msg@) && msg@.len() <= area.width - 2 && 0 <= i < msg@.len() {
                law_text_is_put(boxed, inner, inner.x, inner.y, msg@, quiet, i);
            }
        },
        FileDiffState::Loading(_) => {
            if narrow("Loading…"@) && "Loading…"@.len() <= area.width - 2 && 0 <= i
                < "Loading…"@.len() {
                law_text_is_put(boxed, inner, inner.x, inner.y, "Loading…"@, quiet, i);
            }
        },
        _ => {},
    }
}

/// Law: while a file's diff is on view, the frame is the same whatever the graph, the
/// commit and the list of files under it.
pub proof fn law_file_view_covers_the_panes(
    g: GitGraph,
    h: GitGraph,
    cells: Cells,
    bounds: Rect,
    area: Rect,
    a: Seq<char>,
    b: Seq<char>,
)
    requires
        g.mode == Mode::FileDiff,
        h.mode == Mode::FileDiff,
        g.file_diff == h.file_diff,
        g.file_diff_scroll == h.file_diff_scroll,
        g.model().root == h.model().root,
        g.model().error is None,
        h.model().error is None,
    ensures
        overlay_cells(g, cells, bounds, area, a) == overlay_cells(h, cells, bounds, area, b),
{
}

} // verus!
