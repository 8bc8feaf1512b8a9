//! Drawing the overlay.
use crate::geometry;
use crate::geometry::Rect;
use crate::screen;
use crate::screen::{bounds, draw_block, Cells, TITLE_MAX};
use crate::state::graph::GitGraph;
use crate::state::model::Model;
use crate::state::Mode;
use crate::text;
use crate::ui::commit_detail;
use crate::ui::commit_detail::{draw_detail, format_time};
use crate::ui::file_diff;
use crate::ui::file_diff::{draw_file_diff, title_text};
use crate::ui::file_list;
use crate::ui::file_list::draw_files;
use crate::ui::graph_view;
use crate::ui::graph_view::{draw_message, draw_rows, RefToggles};
use crate::ui::help;
use crate::ui::help::draw_help;
use crate::ui::layout;
use crate::ui::layout::{split, Pane};
use crate::ui::search as dropdown;
use crate::ui::search::draw_search;
use ratatui::buffer::Buffer;
use vstd::prelude::*;
use vstd::string::*;

verus! {

/// The overlay's title.
pub open spec fn title_of(root: Seq<char>) -> Seq<char> {
    " Git Graph — "@ + root + " "@
}

/// What the bottom border says: a read that failed part of the way, where there
/// are rows to show beside it.
pub open spec fn note_of(g: GitGraph) -> Option<(Seq<char>, (u8, u8, u8))> {
    match g.model().error {
        Some(e) if g.model().rows.len() > 0 => Some(
            (" partial read: "@ + e + " "@, (0xD8u8, 0x6Cu8, 0x6Cu8)),
        ),
        _ => None,
    }
}

/// What stands in for the graph where there are no rows.
pub open spec fn empty_message(g: GitGraph) -> Seq<char> {
    match g.model().error {
        Some(e) => "cannot read this repository: "@ + e,
        None => "no commits yet"@,
    }
}

/// Whether a text may stand for the time of the selected commit.
pub open spec fn dates_selection(g: GitGraph, date: Seq<char>) -> bool {
    match g.model().commit_at(g.model().selected) {
        Some(c) => commit_detail::tells(c.time, date),
        None => date.len() == 0,
    }
}

/// The cells once the layers over the panes were drawn: the search dropdown over
/// the graph, the help popup over everything.
pub open spec fn layered(g: GitGraph, cells: Cells, bounds: Rect, graph_area: Rect, inner: Rect) -> Cells {
    if g.mode == Mode::Search {
        dropdown::dropdown_cells(
            cells,
            bounds,
            graph_area,
            g.builder.rows(),
            g.model().typed,
            g.model().found,
            g.model().highlighted,
            g.model().pending.len(),
        )
    } else if g.mode == Mode::Help {
        help::help_cells(cells, bounds, inner)
    } else {
        cells
    }
}

/// The cells once the three panes were drawn.
pub open spec fn panes_cells(g: GitGraph, cells: Cells, bounds: Rect, inner: Rect, date: Seq<char>) -> Cells {
    let map = layout::panes(inner);
    let graphed = graph_view::graph_painted(
        cells,
        map.graph,
        g.builder.rows(),
        g.decorations@,
        RefToggles { show_remotes: g.show_remotes, show_tags: g.show_tags },
        g.first_row as int,
        g.selected as int,
    );
    let detailed = commit_detail::detail_cells(
        graphed,
        bounds,
        map.detail,
        g.model().commit_at(g.model().selected),
        date,
        g.detail,
        g.detail_scroll as nat,
        g.focus == Pane::Detail,
    );
    file_list::pane_cells(
        detailed,
        bounds,
        map.files,
        g.detail,
        g.file_selected as nat,
        g.file_scroll as nat,
        g.focus == Pane::Files,
    )
}

/// The cells once the overlay was drawn into `area`, clipped to the buffer.
pub open spec fn overlay_cells(
    g: GitGraph,
    cells: Cells,
    bounds: Rect,
    area: Rect,
    date: Seq<char>,
) -> Cells {
    let clipped = area.shared(bounds);
    let inner = clipped.inside();
    let boxed = screen::block_cells(
        cells,
        bounds,
        clipped,
        title_of(g.model().root),
        (0x8B, 0x94, 0xA2),
        note_of(g),
    );
    if inner.is_blank() {
        boxed
    } else if g.mode == Mode::FileDiff {
        file_diff::view_cells(boxed, bounds, inner, g.file_diff, g.file_diff_scroll as nat)
    } else if g.model().rows.len() == 0 {
        layered(g, graph_view::message_cells(boxed, inner, empty_message(g)), bounds, inner, inner)
    } else {
        layered(
            g,
            panes_cells(g, boxed, bounds, inner, date),
            bounds,
            layout::panes(inner).graph,
            inner,
        )
    }
}

/// What a frame leaves behind: the room it found, for paging, scrolling and the
/// pointer.
pub open spec fn rendered(g: GitGraph, bounds: Rect, area: Rect, date: Seq<char>) -> Model {
    let inner = area.shared(bounds).inside();
    let m = g.model();
    let map = layout::panes(inner);
    if inner.is_blank() {
        m
    } else if g.mode == Mode::FileDiff {
        Model {
            viewport: inner.height as nat,
            file_diff_rows: file_diff::view_rows(inner),
            ..m
        }
    } else if m.rows.len() == 0 {
        Model { viewport: inner.height as nat, ..m }
    } else {
        Model {
            layout: map,
            viewport: map.graph.height as nat,
            detail_rows: commit_detail::detail_count(
                map.detail,
                m.commit_at(m.selected),
                date,
                g.detail,
            ),
            ..m
        }
    }
}

/// Whether the commit's rows are drawn wherever the panes show and the rows are
/// of ordinary length.
pub open spec fn draws_detail(g: GitGraph, bounds: Rect, area: Rect, date: Seq<char>) -> bool {
    let inner = area.shared(bounds).inside();
    !inner.is_blank() && g.mode != Mode::FileDiff && g.model().rows.len() > 0
        ==> commit_detail::draws_short_rows(
        layout::panes(inner).detail,
        g.model().commit_at(g.model().selected),
        date,
        g.detail,
        g.detail_scroll as nat,
    )
}

/// Whether a terminal of this size can be drawn to: columns and rows are counted
/// in 16 bits.
pub open spec fn paintable(bounds: Rect) -> bool {
    &&& bounds.end_x() < 65535
    &&& bounds.width <= 0x7fff
    &&& bounds.y + bounds.height <= 65535
}

/// Whether a text is short enough for a border.
fn fits_border(s: &str) -> (r: bool)
    ensures
        r == (s@.len() <= screen::TITLE_MAX),
{
    text::chars_of(s).len() <= TITLE_MAX
}

impl GitGraph {
    /// Whether what goes into a border is short enough for one.
    pub open spec fn titles_fit(&self) -> bool {
        &&& title_of(self.model().root).len() <= screen::TITLE_MAX
        &&& note_of(*self) matches Some((note, _)) ==> note.len() <= screen::TITLE_MAX
        &&& self.mode == Mode::FileDiff ==> file_diff::view_title(self.file_diff).len()
            <= screen::TITLE_MAX
    }

    /// Whether the overlay can be drawn into `buf`: the terminal is not too large,
    /// and what goes into a border is short enough for one.
    pub fn can_render(&self, buf: &Buffer) -> (r: bool)
        ensures
            r == (self.titles_fit() && paintable(screen::buffer_area(*buf))),
    {
        let extent = bounds(buf);
        let title = text::join3(" Git Graph — ", self.workdir(), " ");
        let note = match &self.error {
            Some(e) if self.row_count() > 0 => text::join3(" partial read: ", e.as_str(), " "),
            _ => String::new(),
        };
        let view = if self.mode == Mode::FileDiff {
            title_text(&self.file_diff)
        } else {
            String::new()
        };
        fits_border(title.as_str()) && fits_border(note.as_str()) && fits_border(view.as_str())
            && extent.right() < 65535 && extent.width <= 0x7fff && extent.y as u32
            + extent.height as u32 <= 65535
    }

    /// Draws the layer over the panes.
    fn draw_layer(&self, buf: &mut Buffer, graph_area: Rect, inner: Rect)
        requires
            self.wf(),
            screen::drawable(inner, screen::buffer_area(*old(buf))),
            inner.y + inner.height <= 65535,
            graph_area.within(inner),
            graph_area.y + graph_area.height <= 65535,
        ensures
            screen::buffer_area(*final(buf)) == screen::buffer_area(*old(buf)),
            screen::buffer_cells(*final(buf)) == layered(
                *self,
                screen::buffer_cells(*old(buf)),
                screen::buffer_area(*old(buf)),
                graph_area,
                inner,
            ),
            screen::same_outside(
                screen::buffer_cells(*old(buf)),
                screen::buffer_cells(*final(buf)),
                inner,
            ),
    {
        let ghost c0 = screen::buffer_cells(*buf);
        proof {
            reveal(screen::same_outside);
        }
        if self.mode == Mode::Search {
            draw_search(buf, graph_area, &self.search, self.builder.nodes(), self.pending.len());
            proof {
                let shown = dropdown::dropdown(graph_area, self.search.typed(), self.search.found());
                screen::lemma_also(c0, c0, screen::buffer_cells(*buf), shown, inner);
            }
        } else if self.mode == Mode::Help {
            draw_help(buf, inner);
        }
    }

    /// Draws the overlay into `area`, or as much of it as lies in the buffer.
    /// `date` is the selected commit's time as text.
    pub fn render_dated(&mut self, area: Rect, buf: &mut Buffer, date: &str)
        requires
            old(self).wf(),
            old(self).titles_fit(),
            paintable(screen::buffer_area(*old(buf))),
        ensures
            final(self).wf(),
            final(self).model() == rendered(
                *old(self),
                screen::buffer_area(*old(buf)),
                area,
                date@,
            ),
            screen::buffer_area(*final(buf)) == screen::buffer_area(*old(buf)),
            screen::buffer_cells(*final(buf)) == overlay_cells(
                *old(self),
                screen::buffer_cells(*old(buf)),
                screen::buffer_area(*old(buf)),
                area,
                date@,
            ),
            draws_detail(*old(self), screen::buffer_area(*old(buf)), area, date@),
            screen::same_outside(
                screen::buffer_cells(*old(buf)),
                screen::buffer_cells(*final(buf)),
                area,
            ),
    {
        let ghost c0 = screen::buffer_cells(*buf);
        let ghost whole = screen::buffer_area(*buf);
        let extent = bounds(buf);
        let area_in = area.intersection(&extent);
        proof {
            reveal_strlit(" Git Graph — ");
            reveal_strlit(" partial read: ");
            reveal_strlit(" ");
        }
        let title = text::join3(" Git Graph — ", self.workdir(), " ");
        let rows: usize = self.row_count();
        match &self.error {
            Some(e) if rows > 0 => {
                let note = text::join3(" partial read: ", e.as_str(), " ");
                draw_block(
                    buf,
                    area_in,
                    title.as_str(),
                    (0x8B, 0x94, 0xA2),
                    Some((note.as_str(), (0xD8, 0x6C, 0x6C))),
                );
            },
            _ => {
                draw_block(buf, area_in, title.as_str(), (0x8B, 0x94, 0xA2), None);
            },
        }
        let ghost c1 = screen::buffer_cells(*buf);
        let inner = area_in.inset();
        proof {
            assert(screen::same_outside(c0, c1, area)) by {
                reveal(screen::same_outside);
            }
        }
        if inner.is_empty() {
            return ;
        }
        proof {
            assert(area_in.within(whole));
            assert(area_in.within(area));
            geometry::law_inside(area_in, whole);
            geometry::law_inside(area_in, area);
            layout::law_panes_within(inner);
        }
        self.viewport_rows = inner.height as usize;
        if self.mode == Mode::FileDiff {
            self.file_diff_rows = draw_file_diff(buf, inner, &self.file_diff, self.file_diff_scroll);
            proof {
                screen::lemma_also(c0, c1, screen::buffer_cells(*buf), inner, area);
            }
            return ;
        }
        if rows == 0 {
            let msg = match &self.error {
                Some(e) => text::join2("cannot read this repository: ", e.as_str()),
                None => "no commits yet".to_owned(),
            };
            draw_message(buf, inner, msg.as_str());
            let ghost c2 = screen::buffer_cells(*buf);
            self.draw_layer(buf, inner, inner);
            proof {
                screen::lemma_also(c0, c1, c2, inner, area);
                screen::lemma_also(c0, c2, screen::buffer_cells(*buf), inner, area);
            }
            return ;
        }
        let map = split(inner);
        self.layout = map;
        self.viewport_rows = map.graph.height as usize;
        draw_rows(
            buf,
            map.graph,
            self.builder.nodes(),
            &self.decorations,
            RefToggles { show_remotes: self.show_remotes, show_tags: self.show_tags },
            self.first_row,
            self.selected,
        );
        let ghost c2 = screen::buffer_cells(*buf);
        let count: usize = draw_detail(
            buf,
            map.detail,
            self.selected_commit(),
            date,
            &self.detail,
            self.detail_scroll,
            self.focus == Pane::Detail,
        );
        self.detail_rows = count;
        let ghost c3 = screen::buffer_cells(*buf);
        draw_files(
            buf,
            map.files,
            &self.detail,
            self.file_selected,
            self.file_scroll,
            self.focus == Pane::Files,
        );
        let ghost c4 = screen::buffer_cells(*buf);
        self.draw_layer(buf, map.graph, inner);
        proof {
            screen::lemma_also(c0, c1, c2, map.graph, area);
            screen::lemma_also(c0, c2, c3, map.detail, area);
            screen::lemma_also(c0, c3, c4, map.files, area);
            screen::lemma_also(c0, c4, screen::buffer_cells(*buf), inner, area);
        }
    }

    /// Draws the overlay into `area`, or as much of it as lies in the buffer.
    /// Nothing outside `area` changes.
    pub fn render(&mut self, area: Rect, buf: &mut Buffer)
        requires
            old(self).wf(),
            old(self).titles_fit(),
            paintable(screen::buffer_area(*old(buf))),
        ensures
            final(self).wf(),
            screen::buffer_area(*final(buf)) == screen::buffer_area(*old(buf)),
            exists|date: Seq<char>|
                dates_selection(*old(self), date) && final(self).model() == #[trigger] rendered(
                    *old(self),
                    screen::buffer_area(*old(buf)),
                    area,
                    date,
                ) && screen::buffer_cells(*final(buf)) == overlay_cells(
                    *old(self),
                    screen::buffer_cells(*old(buf)),
                    screen::buffer_area(*old(buf)),
                    area,
                    date,
                ) && draws_detail(*old(self), screen::buffer_area(*old(buf)), area, date),
            screen::same_outside(
                screen::buffer_cells(*old(buf)),
                screen::buffer_cells(*final(buf)),
                area,
            ),
    {
        let date = match self.selected_commit() {
            Some(c) => format_time(c.time),
            None => String::new(),
        };
        assert(dates_selection(*self, date@));
        self.render_dated(area, buf, date.as_str());
    }
}

} // verus!
