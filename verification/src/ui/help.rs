//! The help popup, drawn over the whole overlay.
//!
//! A fixed key table, centred in whatever area it is given and clamped to it.
//! It is drawn over live panes, so its rectangle is emptied first, border ring
//! included.
use crate::geometry;
use crate::geometry::Rect;
use crate::screen;
use crate::screen::{blank, draw_block, put, text_width, Cells};
use crate::style;
use crate::style::{accent, dim, Style};
use crate::text;
use ratatui::buffer::Buffer;
use vstd::prelude::*;
use vstd::string::*;

verus! {

/// Columns between the key column and the description that follows it.
pub const GAP: u16 = 2;

/// Rows of the key table.
pub const KEYS: usize = 14;

/// A row of the key table: the keys, and what they do. Grouped by what the keys
/// act on.
pub open spec fn key_row(i: int) -> (Seq<char>, Seq<char>) {
    if i == 0 {
        ("j/k, ↑/↓"@, "move the focused pane"@)
    } else if i == 1 {
        ("Ctrl+d/Ctrl+u"@, "half page down/up"@)
    } else if i == 2 {
        ("PageDown/PageUp"@, "page down/up"@)
    } else if i == 3 {
        ("g/Home, G/End"@, "jump to newest/oldest"@)
    } else if i == 4 {
        ("@"@, "jump to HEAD"@)
    } else if i == 5 {
        ("[ / ]"@, "jump between decorated commits"@)
    } else if i == 6 {
        ("Tab, Shift+Tab"@, "cycle focus: graph, detail, files"@)
    } else if i == 7 {
        ("Enter"@, "open the selected file's diff"@)
    } else if i == 8 {
        ("/"@, "search commit summaries and authors"@)
    } else if i == 9 {
        ("o / t"@, "toggle remote branches / tags"@)
    } else if i == 10 {
        ("y"@, "copy the selected commit's hash"@)
    } else if i == 11 {
        ("R"@, "re-read the repository"@)
    } else if i == 12 {
        ("?"@, "show this help"@)
    } else {
        ("q, Esc"@, "close"@)
    }
}

/// A row of the key table.
fn row_at(i: usize) -> (r: (&'static str, &'static str))
    requires
        i < KEYS,
    ensures
        (r.0@, r.1@) == key_row(i as int),
        r.0@.len() <= 40,
        r.1@.len() <= 40,
{
    proof {
        reveal_strlit("j/k, ↑/↓");
        reveal_strlit("move the focused pane");
        reveal_strlit("Ctrl+d/Ctrl+u");
        reveal_strlit("half page down/up");
        reveal_strlit("PageDown/PageUp");
        reveal_strlit("page down/up");
        reveal_strlit("g/Home, G/End");
        reveal_strlit("jump to newest/oldest");
        reveal_strlit("@");
        reveal_strlit("jump to HEAD");
        reveal_strlit("[ / ]");
        reveal_strlit("jump between decorated commits");
        reveal_strlit("Tab, Shift+Tab");
        reveal_strlit("cycle focus: graph, detail, files");
        reveal_strlit("Enter");
        reveal_strlit("open the selected file's diff");
        reveal_strlit("/");
        reveal_strlit("search commit summaries and authors");
        reveal_strlit("o / t");
        reveal_strlit("toggle remote branches / tags");
        reveal_strlit("y");
        reveal_strlit("copy the selected commit's hash");
        reveal_strlit("R");
        reveal_strlit("re-read the repository");
        reveal_strlit("?");
        reveal_strlit("show this help");
        reveal_strlit("q, Esc");
        reveal_strlit("close");
    }
    if i == 0 {
        ("j/k, ↑/↓", "move the focused pane")
    } else if i == 1 {
        ("Ctrl+d/Ctrl+u", "half page down/up")
    } else if i == 2 {
        ("PageDown/PageUp", "page down/up")
    } else if i == 3 {
        ("g/Home, G/End", "jump to newest/oldest")
    } else if i == 4 {
        ("@", "jump to HEAD")
    } else if i == 5 {
        ("[ / ]", "jump between decorated commits")
    } else if i == 6 {
        ("Tab, Shift+Tab", "cycle focus: graph, detail, files")
    } else if i == 7 {
        ("Enter", "open the selected file's diff")
    } else if i == 8 {
        ("/", "search commit summaries and authors")
    } else if i == 9 {
        ("o / t", "toggle remote branches / tags")
    } else if i == 10 {
        ("y", "copy the selected commit's hash")
    } else if i == 11 {
        ("R", "re-read the repository")
    } else if i == 12 {
        ("?", "show this help")
    } else {
        ("q, Esc", "close")
    }
}

/// The widest key label of the first `n` rows.
pub open spec fn keys_width(n: int) -> int
    decreases n,
{
    if n <= 0 {
        0
    } else {
        geometry::most(keys_width(n - 1), screen::text_columns(key_row(n - 1).0) as int)
    }
}

/// The widest description of the first `n` rows.
pub open spec fn meanings_width(n: int) -> int
    decreases n,
{
    if n <= 0 {
        0
    } else {
        geometry::most(meanings_width(n - 1), screen::text_columns(key_row(n - 1).1) as int)
    }
}

/// Where the popup sits in `area`: centred, as large as the table needs and no
/// larger than `area`.
pub open spec fn popup(area: Rect) -> Rect {
    let content = keys_width(KEYS as int) + GAP + meanings_width(KEYS as int);
    let width = geometry::least(geometry::sat16(content, 2), area.width as int);
    let height = geometry::least(KEYS + 2, area.height as int);
    Rect {
        x: (area.x + (area.width - width) / 2) as u16,
        y: (area.y + (area.height - height) / 2) as u16,
        width: width as u16,
        height: height as u16,
    }
}

/// A key label filled up with blanks, so that every description lines up.
pub open spec fn padded_key(key: Seq<char>, width: int) -> Seq<char> {
    key + text::repeated(' ', geometry::most(width - key.len(), 0) as nat)
}

/// The cells once the first `n` rows of the table were drawn.
pub open spec fn table_cells(cells: Cells, inner: Rect, n: int) -> Cells
    decreases n,
{
    if n <= 0 {
        cells
    } else {
        let before = table_cells(cells, inner, n - 1);
        let y = (inner.y + n - 1) as u16;
        let (key, meaning) = key_row(n - 1);
        let label = padded_key(key, keys_width(KEYS as int));
        let bright = style::plain().with_fg(style::accent_color());
        let keyed = screen::put_cells(before, inner, inner.x, y, label, bright);
        let next = screen::put_end(before, inner, inner.x, y, label, bright);
        screen::put_cells(
            keyed,
            inner,
            geometry::sat16(next as int, GAP as int) as u16,
            y,
            meaning,
            style::plain().with_fg(style::dim_color()),
        )
    }
}

/// The cells once the popup was drawn over `area`: its rectangle emptied, then
/// bordered, then as many rows of the table as fit.
pub open spec fn help_cells(cells: Cells, bounds: Rect, area: Rect) -> Cells {
    if area.is_blank() {
        cells
    } else {
        let rect = popup(area);
        let inner = rect.inside();
        let boxed = screen::block_cells(
            screen::cleared(cells, rect),
            bounds,
            rect,
            " Help "@,
            (0xF3, 0xB2, 0x4C),
            None,
        );
        if inner.is_blank() {
            boxed
        } else {
            table_cells(boxed, inner, geometry::least(KEYS as int, inner.height as int))
        }
    }
}

/// Renders the popup, centred in `area` and never larger than it.
pub fn draw_help(buf: &mut Buffer, area: Rect)
    requires
        screen::drawable(area, screen::buffer_area(*old(buf))),
        area.y + area.height <= 65535,
    ensures
        screen::buffer_area(*final(buf)) == screen::buffer_area(*old(buf)),
        screen::buffer_cells(*final(buf)) == help_cells(
            screen::buffer_cells(*old(buf)),
            screen::buffer_area(*old(buf)),
            area,
        ),
        screen::same_outside(
            screen::buffer_cells(*old(buf)),
            screen::buffer_cells(*final(buf)),
            area,
        ),
{
    let ghost c0 = screen::buffer_cells(*buf);
    let ghost bounds = screen::buffer_area(*buf);
    proof {
        reveal(screen::same_outside);
        reveal_strlit(" Help ");
    }
    if area.is_empty() {
        return ;
    }
    let mut key_w: usize = 0;
    let mut desc_w: usize = 0;
    let mut i: usize = 0;
    while i < KEYS
        invariant
            i <= KEYS,
            key_w == keys_width(i as int),
            desc_w == meanings_width(i as int),
            key_w <= 120,
            desc_w <= 120,
        decreases KEYS - i,
    {
        let row = row_at(i);
        let k: usize = text_width(row.0);
        let d: usize = text_width(row.1);
        if k > key_w {
            key_w = k;
        }
        if d > desc_w {
            desc_w = d;
        }
        i += 1;
    }
    let content_w: u16 = (key_w + 2 + desc_w) as u16;
    let wanted_w: u16 = content_w + 2;
    let width: u16 = if wanted_w <= area.width {
        wanted_w
    } else {
        area.width
    };
    let height: u16 = if 16 <= area.height {
        16
    } else {
        area.height
    };
    let x: u16 = area.x + (area.width - width) / 2;
    let y: u16 = area.y + (area.height - height) / 2;
    let rect = Rect { x, y, width, height };
    assert(rect == popup(area));
    assert(rect.within(area));
    blank(buf, rect);
    let ghost c1 = screen::buffer_cells(*buf);
    draw_block(buf, rect, " Help ", (0xF3, 0xB2, 0x4C), None);
    let ghost c2 = screen::buffer_cells(*buf);
    let inner = rect.inset();
    proof {
        geometry::law_inside(rect, area);
        screen::lemma_also(c0, c0, c1, rect, area);
        screen::lemma_also(c0, c1, c2, rect, area);
    }
    if inner.is_empty() {
        return ;
    }
    let rows: usize = if KEYS <= inner.height as usize {
        KEYS
    } else {
        inner.height as usize
    };
    let mut row: usize = 0;
    while row < rows
        invariant
            row <= rows,
            rows <= KEYS,
            rows <= inner.height,
            key_w == keys_width(KEYS as int),
            key_w <= 120,
            inner.within(area),
            inner.y + inner.height <= 65535,
            screen::drawable(inner, bounds),
            screen::buffer_area(*buf) == bounds,
            screen::buffer_cells(*buf) == table_cells(c2, inner, row as int),
            screen::same_outside(c0, screen::buffer_cells(*buf), area),
        decreases rows - row,
    {
        let y: u16 = inner.y + row as u16;
        let pair = row_at(row);
        let key_len: usize = text::chars_of(pair.0).len();
        let fill = text::repeat(' ', key_w.saturating_sub(key_len));
        let padded = text::join2(pair.0, fill.as_str());
        let ghost b0 = screen::buffer_cells(*buf);
        let next: u16 = put(buf, inner, inner.x, y, padded.as_str(), Style::default().fg(accent()));
        let ghost b1 = screen::buffer_cells(*buf);
        put(buf, inner, next.saturating_add(GAP), y, pair.1, Style::default().fg(dim()));
        proof {
            screen::lemma_also(c0, b0, b1, inner, area);
            screen::lemma_also(c0, b1, screen::buffer_cells(*buf), inner, area);
        }
        row += 1;
    }
}

} // verus!
