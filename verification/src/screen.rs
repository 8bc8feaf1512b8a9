//! Writing into the terminal's cell buffer.
//!
//! The buffer is `ratatui`'s own. What it holds is named by `buffer_cells`, its
//! extent by `buffer_area`; every write the overlay makes goes through the few
//! functions here, and `put` is the only one that writes text.
use crate::geometry;
use crate::geometry::Rect;
use crate::style::{Color, Style, ALL_MODIFIERS};
use ratatui::buffer::Buffer;
use ratatui::layout::Rect as ScreenRect;
use ratatui::style::Color as ScreenColor;
use ratatui::style::Modifier as ScreenModifier;
use ratatui::style::Style as ScreenStyle;
use ratatui::text::Line as ScreenLine;
use ratatui::text::Span as ScreenSpan;
use ratatui::widgets::{Block, Borders, Paragraph, Widget};
use unicode_segmentation::UnicodeSegmentation;
use unicode_width::{UnicodeWidthChar, UnicodeWidthStr};
use vstd::prelude::*;

verus! {

/// `ratatui::buffer::Buffer`, the grid of cells a frame is drawn into.
#[verifier::external_type_specification]
#[verifier::external_body]
pub struct ExBuffer(ratatui::buffer::Buffer);

/// What one cell shows: its text, its two colours and its modifiers.
pub struct ScreenCell {
    pub symbol: Seq<char>,
    pub fg: Color,
    pub bg: Color,
    pub modifiers: u16,
}

/// The cells of a buffer, by column and row.
pub type Cells = Map<(u16, u16), ScreenCell>;

/// What the buffer's cells show.
pub uninterp spec fn buffer_cells(buf: ratatui::buffer::Buffer) -> Map<(u16, u16), ScreenCell>;

/// The rectangle the buffer covers.
pub uninterp spec fn buffer_area(buf: ratatui::buffer::Buffer) -> Rect;

/// The columns a character takes on screen, `None` for a control character.
pub uninterp spec fn char_columns(c: char) -> Option<usize>;

/// The columns a string takes on screen.
pub uninterp spec fn text_columns(s: Seq<char>) -> usize;

/// The grapheme clusters of a text.
pub uninterp spec fn clusters(s: Seq<char>) -> Seq<Seq<char>>;

/// What the cells hold once a bordered block was drawn over them. `note` is the
/// title on the bottom border, with its colour.
pub uninterp spec fn block_cells(
    cells: Map<(u16, u16), ScreenCell>,
    bounds: Rect,
    area: Rect,
    title: Seq<char>,
    border: (u8, u8, u8),
    note: Option<(Seq<char>, (u8, u8, u8))>,
) -> Map<(u16, u16), ScreenCell>;

/// What the cells hold once lines of styled text were drawn over them.
pub uninterp spec fn paragraph_cells(
    cells: Map<(u16, u16), ScreenCell>,
    bounds: Rect,
    area: Rect,
    rows: Seq<Seq<(Style, Seq<char>)>>,
) -> Map<(u16, u16), ScreenCell>;

/// A cell after one character was written into it: the style sets the colours
/// it names and turns its modifiers on, and leaves the rest as it was.
pub open spec fn written(cell: ScreenCell, symbol: char, style: Style) -> ScreenCell {
    ScreenCell {
        symbol: seq![symbol],
        fg: match style.fg {
            Some(c) => c,
            None => cell.fg,
        },
        bg: match style.bg {
            Some(c) => c,
            None => cell.bg,
        },
        modifiers: (cell.modifiers | style.add_modifier) & ALL_MODIFIERS,
    }
}

/// An empty cell: a blank, in the terminal's own colours, without modifiers.
pub open spec fn blank_cell() -> ScreenCell {
    ScreenCell { symbol: seq![' '], fg: Color::Reset, bg: Color::Reset, modifiers: 0 }
}

/// `Buffer::index_mut`, `Cell::set_char` and `Cell::set_style`: replaces the
/// cell's text and lays the style over it. Outside the buffer the index panics.
#[verifier::external_body]
pub(crate) fn write_cell(buf: &mut Buffer, x: u16, y: u16, symbol: char, style: Style)
    requires
        buffer_area(*old(buf)).has(x as int, y as int),
    ensures
        buffer_area(*final(buf)) == buffer_area(*old(buf)),
        buffer_cells(*final(buf)) == buffer_cells(*old(buf)).insert(
            (x, y),
            written(buffer_cells(*old(buf))[(x, y)], symbol, style),
        ),
{
    let c = |c: Color| match c {
        Color::Reset => ScreenColor::Reset,
        Color::Gray => ScreenColor::Gray,
        Color::DarkGray => ScreenColor::DarkGray,
        Color::Cyan => ScreenColor::Cyan,
        Color::Yellow => ScreenColor::Yellow,
        Color::Blue => ScreenColor::Blue,
        Color::Rgb(r, g, b) => ScreenColor::Rgb(r, g, b),
    };
    let m = ScreenModifier::from_bits_truncate(style.add_modifier);
    let s = ScreenStyle { fg: style.fg.map(c), bg: style.bg.map(c), ..ScreenStyle::new() };
    buf[(x, y)].set_char(symbol).set_style(s.add_modifier(m));
}

/// `Buffer::index_mut`, `Cell::set_char` and `Cell::set_style` with
/// `Style::reset`: empties the cell. Outside the buffer the index panics.
#[verifier::external_body]
fn clear_cell(buf: &mut Buffer, x: u16, y: u16)
    requires
        buffer_area(*old(buf)).has(x as int, y as int),
    ensures
        buffer_area(*final(buf)) == buffer_area(*old(buf)),
        buffer_cells(*final(buf)) == buffer_cells(*old(buf)).insert((x, y), blank_cell()),
{
    buf[(x, y)].set_char(' ').set_style(ScreenStyle::reset());
}

/// `Buffer::area`: the rectangle the buffer covers.
#[verifier::external_body]
pub(crate) fn bounds(buf: &Buffer) -> (r: Rect)
    ensures
        r == buffer_area(*buf),
{
    let a = buf.area();
    Rect { x: a.x, y: a.y, width: a.width, height: a.height }
}

/// `UnicodeWidthChar::width`, named `char_columns`. No character takes more
/// than three columns; printable ASCII takes one, and a control character has
/// no width.
#[verifier::external_body]
pub(crate) fn char_width(c: char) -> (r: Option<usize>)
    ensures
        r == char_columns(c),
        r matches Some(w) ==> w <= 3,
        ' ' <= c <= '~' ==> r == Some(1usize),
        c < ' ' ==> r is None,
{
    UnicodeWidthChar::width(c)
}

/// `UnicodeWidthStr::width`, named `text_columns`. No character adds more than
/// three columns, and an ellipsis on its own takes one.
#[verifier::external_body]
pub(crate) fn text_width(s: &str) -> (r: usize)
    ensures
        r == text_columns(s@),
        r <= 3 * s@.len(),
        s@ == seq!['…'] ==> r == 1,
{
    UnicodeWidthStr::width(s)
}

/// The texts of strings in order.
pub open spec fn texts(v: Seq<String>) -> Seq<Seq<char>> {
    v.map_values(|s: String| s@)
}

/// Texts one behind the other.
pub open spec fn glued(v: Seq<Seq<char>>) -> Seq<char>
    decreases v.len(),
{
    if v.len() == 0 {
        Seq::empty()
    } else {
        glued(v.drop_last()) + v.last()
    }
}

/// `UnicodeSegmentation::graphemes`: the extended grapheme clusters of a text, in
/// order. Named `clusters`; together they are the text.
#[verifier::external_body]
pub(crate) fn graphemes(s: &str) -> (r: Vec<String>)
    ensures
        texts(r@) == clusters(s@),
        glued(texts(r@)) == s@,
{
    s.graphemes(true).map(|g| g.to_string()).collect()
}

/// The text of a bottom title and its colour, by view.
pub open spec fn note_view(note: Option<(&str, (u8, u8, u8))>) -> Option<
    (Seq<char>, (u8, u8, u8)),
> {
    match note {
        Some((text, color)) => Some((text@, color)),
        None => None,
    }
}

/// The longest title that `Block` is given: `Block::render` counts a title's
/// columns in 16 bits, and a character takes at most three.
pub const TITLE_MAX: usize = 21_840;

/// `Block::render` with borders on all sides, a title on the top border and,
/// where there is a note, a title on the bottom one. Named `block_cells`; it
/// writes no cell outside `area`.
#[verifier::external_body]
pub(crate) fn draw_block(
    buf: &mut Buffer,
    area: Rect,
    title: &str,
    border: (u8, u8, u8),
    note: Option<(&str, (u8, u8, u8))>,
)
    requires
        title@.len() <= TITLE_MAX,
        note matches Some((text, _)) ==> text@.len() <= TITLE_MAX,
    ensures
        buffer_area(*final(buf)) == buffer_area(*old(buf)),
        buffer_cells(*final(buf)) == block_cells(
            buffer_cells(*old(buf)),
            buffer_area(*old(buf)),
            area,
            title@,
            border,
            note_view(note),
        ),
        same_outside(buffer_cells(*old(buf)), buffer_cells(*final(buf)), area),
{
    let c = ScreenColor::Rgb(border.0, border.1, border.2);
    let mut block = Block::default().borders(Borders::ALL).title(title).border_style(c);
    if let Some((text, (r, g, b))) = note {
        block = block.title_bottom(ScreenLine::styled(text, ScreenColor::Rgb(r, g, b)));
    }
    block.render(ScreenRect { x: area.x, y: area.y, width: area.width, height: area.height }, buf);
}

/// A run of text in one style.
#[derive(Debug, Clone, PartialEq, Eq)]
pub struct Span {
    pub style: Style,
    pub text: String,
}

/// One line of styled text.
#[derive(Debug, Clone, PartialEq, Eq)]
pub struct TextLine {
    pub spans: Vec<Span>,
}

/// A line's runs, each with its style.
pub open spec fn line_view(spans: Seq<Span>) -> Seq<(Style, Seq<char>)> {
    spans.map_values(|s: Span| (s.style, s.text@))
}

/// Every line's runs.
pub open spec fn lines_view(lines: Seq<TextLine>) -> Seq<Seq<(Style, Seq<char>)>> {
    lines.map_values(|l: TextLine| line_view(l.spans@))
}

/// A style as the terminal has it: without the bits that are no modifier.
pub open spec fn shown(style: Style) -> Style {
    Style { add_modifier: style.add_modifier & ALL_MODIFIERS, ..style }
}

/// A line's runs as the terminal has them.
pub open spec fn shown_line(runs: Seq<(Style, Seq<char>)>) -> Seq<(Style, Seq<char>)> {
    runs.map_values(|p: (Style, Seq<char>)| (shown(p.0), p.1))
}

/// Every line's runs as the terminal has them.
pub open spec fn shown_lines(rows: Seq<Seq<(Style, Seq<char>)>>) -> Seq<Seq<(Style, Seq<char>)>> {
    rows.map_values(|runs: Seq<(Style, Seq<char>)>| shown_line(runs))
}

/// `ratatui::text::Line`, a line of styled runs.
#[verifier::external_type_specification]
#[verifier::external_body]
pub struct ExLine<'a>(ratatui::prelude::Line<'a>);

/// The runs of a line, each with its style.
pub uninterp spec fn line_runs(line: ratatui::prelude::Line<'_>) -> Seq<(Style, Seq<char>)>;

/// `Span::styled`, collected into a `Line`: the line has these runs, in order.
/// Named `line_runs`. A bit that is no modifier is dropped.
#[verifier::external_body]
fn screen_line(line: &TextLine) -> (r: ScreenLine<'static>)
    ensures
        line_runs(r) == shown_line(line_view(line.spans@)),
{
    let c = |c: Color| match c {
        Color::Reset => ScreenColor::Reset,
        Color::Gray => ScreenColor::Gray,
        Color::DarkGray => ScreenColor::DarkGray,
        Color::Cyan => ScreenColor::Cyan,
        Color::Yellow => ScreenColor::Yellow,
        Color::Blue => ScreenColor::Blue,
        Color::Rgb(r, g, b) => ScreenColor::Rgb(r, g, b),
    };
    let m = |s: Style| ScreenModifier::from_bits_truncate(s.add_modifier);
    let s = |s: Style| ScreenStyle { fg: s.fg.map(c), bg: s.bg.map(c), add_modifier: m(s), ..ScreenStyle::new() };
    line.spans.iter().map(|p| ScreenSpan::styled(p.text.clone(), s(p.style))).collect()
}

/// Whether 16 bits hold the columns of every cluster of a text.
pub open spec fn countable_text(s: Seq<char>) -> bool {
    forall|k: int|
        0 <= k < clusters(s).len() ==> text_columns(#[trigger] clusters(s)[k]) <= u16::MAX
}

/// Whether 16 bits hold the columns of every cluster of every run.
pub open spec fn countable(rows: Seq<Seq<(Style, Seq<char>)>>) -> bool {
    forall|i: int, j: int|
        0 <= i < rows.len() && 0 <= j < rows[i].len() ==> countable_text(
            (#[trigger] rows[i][j]).1,
        )
}

/// Whether no run is longer than a title may be, which makes it countable.
pub open spec fn short_runs(rows: Seq<Seq<(Style, Seq<char>)>>) -> bool {
    forall|i: int, j: int|
        0 <= i < rows.len() && 0 <= j < rows[i].len() ==> (#[trigger] rows[i][j]).1.len()
            <= TITLE_MAX
}

proof fn lemma_glued_len(v: Seq<Seq<char>>, k: int)
    requires
        0 <= k < v.len(),
    ensures
        v[k].len() <= glued(v).len(),
    decreases v.len(),
{
    if k < v.len() - 1 {
        lemma_glued_len(v.drop_last(), k);
    }
}

/// Whether 16 bits hold the columns of every cluster of a text.
fn can_count_text(s: &str) -> (r: bool)
    ensures
        r == countable_text(s@),
        s@.len() <= TITLE_MAX ==> r,
{
    let parts = graphemes(s);
    let mut k: usize = 0;
    while k < parts.len()
        invariant
            k <= parts.len(),
            texts(parts@) == clusters(s@),
            glued(texts(parts@)) == s@,
            forall|i: int| 0 <= i < k ==> text_columns(#[trigger] clusters(s@)[i]) <= u16::MAX,
        decreases parts.len() - k,
    {
        assert(clusters(s@)[k as int] == parts@[k as int]@);
        if text_width(parts[k].as_str()) > 0xffff {
            proof {
                lemma_glued_len(clusters(s@), k as int);
            }
            return false;
        }
        k += 1;
    }
    true
}

/// Whether 16 bits hold the columns of every cluster of every run.
pub fn can_count(lines: &Vec<TextLine>) -> (r: bool)
    ensures
        r == countable(lines_view(lines@)),
        short_runs(lines_view(lines@)) ==> r,
{
    let ghost rows = lines_view(lines@);
    let mut i: usize = 0;
    while i < lines.len()
        invariant
            i <= lines.len(),
            rows == lines_view(lines@),
            forall|a: int, b: int|
                0 <= a < i && 0 <= b < rows[a].len() ==> countable_text((#[trigger] rows[a][b]).1),
        decreases lines.len() - i,
    {
        let line = &lines[i];
        let mut j: usize = 0;
        while j < line.spans.len()
            invariant
                i < lines.len(),
                line == lines@[i as int],
                j <= line.spans.len(),
                rows == lines_view(lines@),
                forall|a: int, b: int|
                    0 <= a < i && 0 <= b < rows[a].len() ==> countable_text(
                        (#[trigger] rows[a][b]).1,
                    ),
                forall|b: int| 0 <= b < j ==> countable_text((#[trigger] rows[i as int][b]).1),
            decreases line.spans.len() - j,
        {
            assert(rows[i as int][j as int].1 == line.spans@[j as int].text@);
            if !can_count_text(line.spans[j].text.as_str()) {
                return false;
            }
            j += 1;
        }
        i += 1;
    }
    true
}

/// `Paragraph::render`: draws one line per row of `area`, from its top, each cut
/// at the right edge. Named `paragraph_cells`; it writes no cell outside `area`.
/// Outside the buffer it panics, and it counts a cluster's columns in 16 bits.
#[verifier::external_body]
fn render_lines(buf: &mut Buffer, area: Rect, rows: Vec<ScreenLine<'static>>)
    requires
        area.within(buffer_area(*old(buf))),
        area.width <= 0x7fff,
        countable(rows@.map_values(|l: ScreenLine<'static>| line_runs(l))),
    ensures
        buffer_area(*final(buf)) == buffer_area(*old(buf)),
        buffer_cells(*final(buf)) == paragraph_cells(
            buffer_cells(*old(buf)),
            buffer_area(*old(buf)),
            area,
            rows@.map_values(|l: ScreenLine<'static>| line_runs(l)),
        ),
        same_outside(buffer_cells(*old(buf)), buffer_cells(*final(buf)), area),
{
    let a = ScreenRect { x: area.x, y: area.y, width: area.width, height: area.height };
    Paragraph::new(rows).render(a, buf);
}

/// Draws one line per row of `area`, from its top, each cut at the right edge.
/// `can_count` tells whether the lines can be drawn.
pub fn draw_lines(buf: &mut Buffer, area: Rect, lines: &Vec<TextLine>)
    requires
        area.within(buffer_area(*old(buf))),
        area.width <= 0x7fff,
        countable(lines_view(lines@)),
    ensures
        buffer_area(*final(buf)) == buffer_area(*old(buf)),
        buffer_cells(*final(buf)) == paragraph_cells(
            buffer_cells(*old(buf)),
            buffer_area(*old(buf)),
            area,
            shown_lines(lines_view(lines@)),
        ),
        same_outside(buffer_cells(*old(buf)), buffer_cells(*final(buf)), area),
{
    let mut rows: Vec<ScreenLine<'static>> = Vec::new();
    let mut i: usize = 0;
    while i < lines.len()
        invariant
            i <= lines.len(),
            rows@.len() == i,
            forall|k: int| 0 <= k < i ==> line_runs(#[trigger] rows@[k]) == shown_line(
                line_view(lines@[k].spans@),
            ),
        decreases lines.len() - i,
    {
        rows.push(screen_line(&lines[i]));
        i += 1;
    }
    assert(rows@.map_values(|l: ScreenLine<'static>| line_runs(l)) =~= shown_lines(
        lines_view(lines@),
    ));
    proof {
        let drawn = shown_lines(lines_view(lines@));
        assert forall|i: int, j: int|
            0 <= i < drawn.len() && 0 <= j < drawn[i].len() implies countable_text(
            (#[trigger] drawn[i][j]).1,
        ) by {
            assert(drawn[i][j].1 == lines_view(lines@)[i][j].1);
        }
    }
    render_lines(buf, area, rows);
}

/// Whether `a` and `b` show the same outside `area`.
#[verifier::opaque]
pub open spec fn same_outside(a: Cells, b: Cells, area: Rect) -> bool {
    forall|x: u16, y: u16| !area.has(x as int, y as int) ==> #[trigger] a[(x, y)] == b[(x, y)]
}

/// What is unchanged outside two rectangles within `area`, one change after the
/// other, is unchanged outside `area`.
pub proof fn lemma_same_outside(a: Cells, b: Cells, c: Cells, first: Rect, second: Rect, area: Rect)
    requires
        same_outside(a, b, first),
        same_outside(b, c, second),
        first.within(area),
        second.within(area),
    ensures
        same_outside(a, c, area),
{
    reveal(same_outside);
    assert forall|x: u16, y: u16|
        !area.has(x as int, y as int) implies #[trigger] a[(x, y)] == c[(x, y)] by {
        assert(a[(x, y)] == b[(x, y)]);
        assert(b[(x, y)] == c[(x, y)]);
    }
}

/// A further change within `area` leaves what is outside it as it was.
pub proof fn lemma_also(a: Cells, b: Cells, c: Cells, inner: Rect, area: Rect)
    requires
        same_outside(a, b, area),
        same_outside(b, c, inner),
        inner.within(area),
    ensures
        same_outside(a, c, area),
{
    lemma_same_outside(a, b, c, area, inner, area);
}

/// The columns `put` moves on by for a character: none for one without a width.
pub open spec fn advance(c: char) -> nat {
    match char_columns(c) {
        Some(w) => w as nat,
        None => 0,
    }
}

/// The cells, and the column reached, once `text` was written on row `y` from
/// column `cx` up to `right`: a character without a width is skipped, the first
/// one that does not fit ends the text, and the second cell of a double-width
/// one is blanked.
pub open spec fn put_from(
    cells: Cells,
    right: u16,
    cx: u16,
    y: u16,
    text: Seq<char>,
    style: Style,
) -> (Cells, u16)
    decreases text.len(),
{
    if text.len() == 0 {
        (cells, cx)
    } else {
        let c = text[0];
        let next = geometry::sat16(cx as int, advance(c) as int) as u16;
        if advance(c) == 0 {
            put_from(cells, right, cx, y, text.drop_first(), style)
        } else if next > right {
            (cells, cx)
        } else {
            let one = cells.insert((cx, y), written(cells[(cx, y)], c, style));
            let beside = (cx + 1) as u16;
            let two = if advance(c) == 2 && beside < right {
                one.insert((beside, y), written(one[(beside, y)], ' ', style))
            } else {
                one
            };
            put_from(two, right, next, y, text.drop_first(), style)
        }
    }
}

/// The column text starts at: `x`, or the left edge of `area` where that is
/// further right.
pub open spec fn put_start(area: Rect, x: u16) -> u16 {
    geometry::most(x as int, area.x as int) as u16
}

/// The cells once `text` was written at `(x, y)` within `area`.
pub open spec fn put_cells(
    cells: Cells,
    area: Rect,
    x: u16,
    y: u16,
    text: Seq<char>,
    style: Style,
) -> Cells {
    put_from(cells, area.end_x() as u16, put_start(area, x), y, text, style).0
}

/// The column just past `text` written at `(x, y)` within `area`.
pub open spec fn put_end(
    cells: Cells,
    area: Rect,
    x: u16,
    y: u16,
    text: Seq<char>,
    style: Style,
) -> u16 {
    put_from(cells, area.end_x() as u16, put_start(area, x), y, text, style).1
}

/// Whether text can be written anywhere in `area`: it lies in the buffer and
/// ends before the last column that 16 bits can name, where the column past a
/// character could not be told from the character's own.
pub open spec fn drawable(area: Rect, bounds: Rect) -> bool {
    area.within(bounds) && area.end_x() < 65535
}

/// Writes `text` at `(x, y)`, from no further left than `area` and stopping at
/// its right edge. Returns the column just past what was written.
pub fn put(buf: &mut Buffer, area: Rect, x: u16, y: u16, text: &str, style: Style) -> (r: u16)
    requires
        drawable(area, buffer_area(*old(buf))),
        area.y <= y < area.end_y(),
    ensures
        buffer_area(*final(buf)) == buffer_area(*old(buf)),
        buffer_cells(*final(buf)) == put_cells(buffer_cells(*old(buf)), area, x, y, text@, style),
        r == put_end(buffer_cells(*old(buf)), area, x, y, text@, style),
        same_outside(buffer_cells(*old(buf)), buffer_cells(*final(buf)), area),
        geometry::most(x as int, area.x as int) <= r,
        r <= geometry::most(geometry::most(x as int, area.x as int), area.end_x()),
{
    let mut cx: u16 = if x >= area.x {
        x
    } else {
        area.x
    };
    let right: u16 = area.right();
    let ghost start = buffer_cells(*buf);
    let ghost goal = put_from(start, right, cx, y, text@, style);
    proof {
        reveal(same_outside);
        assert(text@.skip(0) =~= text@);
    }
    let mut done = false;
    for c in it: text.chars()
        invariant
            it.seq() == text@,
            right == area.end_x(),
            drawable(area, buffer_area(*old(buf))),
            buffer_area(*buf) == buffer_area(*old(buf)),
            area.y <= y < area.end_y(),
            area.x <= cx,
            x <= cx,
            cx <= geometry::most(geometry::most(x as int, area.x as int), area.end_x()),
            start == buffer_cells(*old(buf)),
            done ==> goal == (buffer_cells(*buf), cx),
            !done ==> goal == put_from(
                buffer_cells(*buf),
                right,
                cx,
                y,
                text@.skip(it.index() as int),
                style,
            ),
            same_outside(start, buffer_cells(*buf), area),
    {
        let ghost rest = text@.skip(it.index() as int);
        proof {
            assert(rest[0] == c);
            assert(rest.drop_first() =~= text@.skip(it.index() + 1 as int));
            reveal(same_outside);
        }
        if !done {
            let w: u16 = match char_width(c) {
                Some(w) => w as u16,
                None => 0,
            };
            if w != 0 {
                let next: u16 = cx.saturating_add(w);
                if next > right {
                    done = true;
                } else {
                    write_cell(buf, cx, y, c, style);
                    if w == 2 && cx.saturating_add(1) < right {
                        write_cell(buf, cx.saturating_add(1), y, ' ', style);
                    }
                    cx = next;
                }
            }
        }
    }
    proof {
        assert(text@.skip(text@.len() as int) =~= Seq::<char>::empty());
    }
    cx
}

/// The cells once `area` was emptied.
pub open spec fn cleared(cells: Cells, area: Rect) -> Cells {
    Map::new(
        |k: (u16, u16)| cells.dom().contains(k) || area.has(k.0 as int, k.1 as int),
        |k: (u16, u16)|
            if area.has(k.0 as int, k.1 as int) {
                blank_cell()
            } else {
                cells[k]
            },
    )
}

/// Empties every cell of `area`.
pub fn blank(buf: &mut Buffer, area: Rect)
    requires
        area.within(buffer_area(*old(buf))),
    ensures
        buffer_area(*final(buf)) == buffer_area(*old(buf)),
        buffer_cells(*final(buf)) == cleared(buffer_cells(*old(buf)), area),
        same_outside(buffer_cells(*old(buf)), buffer_cells(*final(buf)), area),
{
    let right: u16 = area.right();
    let bottom: u16 = area.bottom();
    let ghost start = buffer_cells(*buf);
    let ghost gone = |k: (u16, u16), x: u16, y: u16|
        area.has(k.0 as int, k.1 as int) && (k.1 < y || (k.1 == y && k.0 < x));
    let mut y: u16 = area.y;
    while y < bottom
        invariant
            right == area.end_x(),
            bottom == area.end_y(),
            area.y <= y,
            y <= bottom || y == area.y,
            area.within(buffer_area(*old(buf))),
            buffer_area(*buf) == buffer_area(*old(buf)),
            gone == (|k: (u16, u16), x: u16, y: u16|
                area.has(k.0 as int, k.1 as int) && (k.1 < y || (k.1 == y && k.0 < x))),
            forall|k: (u16, u16)|
                #![trigger buffer_cells(*buf)[k]]
                buffer_cells(*buf)[k] == (if gone(k, area.x, y) {
                    blank_cell()
                } else {
                    start[k]
                }),
            forall|k: (u16, u16)|
                #![trigger buffer_cells(*buf).dom().contains(k)]
                buffer_cells(*buf).dom().contains(k) <==> start.dom().contains(k) || gone(
                    k,
                    area.x,
                    y,
                ),
        decreases bottom - y,
    {
        let mut x: u16 = area.x;
        while x < right
            invariant
                right == area.end_x(),
                bottom == area.end_y(),
                area.y <= y < bottom,
                area.x <= x,
                x <= right || x == area.x,
                area.within(buffer_area(*old(buf))),
                buffer_area(*buf) == buffer_area(*old(buf)),
                gone == (|k: (u16, u16), x: u16, y: u16|
                    area.has(k.0 as int, k.1 as int) && (k.1 < y || (k.1 == y && k.0 < x))),
                forall|k: (u16, u16)|
                    #![trigger buffer_cells(*buf)[k]]
                    buffer_cells(*buf)[k] == (if gone(k, x, y) {
                        blank_cell()
                    } else {
                        start[k]
                    }),
                forall|k: (u16, u16)|
                    #![trigger buffer_cells(*buf).dom().contains(k)]
                    buffer_cells(*buf).dom().contains(k) <==> start.dom().contains(k) || gone(
                        k,
                        x,
                        y,
                    ),
            decreases right - x,
        {
            clear_cell(buf, x, y);
            x += 1;
        }
        y += 1;
    }
    proof {
        reveal(same_outside);
        assert(buffer_cells(*buf) =~= cleared(start, area));
    }
}

} // verus!
