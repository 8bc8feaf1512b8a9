//! The help popup.
use asd::geometry::Rect;
use asd::ui::help::draw_help;
use ratatui::buffer::{Buffer, Cell};
use ratatui::style::{Color, Modifier, Style};

/// The same rectangle for the buffer.
fn screen(area: Rect) -> ratatui::layout::Rect {
    ratatui::layout::Rect::new(area.x, area.y, area.width, area.height)
}

/// An empty buffer that covers an area.
fn empty(area: Rect) -> Buffer {
    Buffer::empty(screen(area))
}

/// A buffer that covers an area with one cell all over.
fn filled(area: Rect, cell: Cell) -> Buffer {
    Buffer::filled(screen(area), cell)
}

/// Whether a cell is in an area.
fn inside(area: Rect, x: u16, y: u16) -> bool {
    x >= area.x && x < area.x + area.width && y >= area.y && y < area.y + area.height
}

/// What an area shows, row by row.
fn text_of(buf: &Buffer, area: Rect) -> String {
    (area.y..area.y + area.height)
        .map(|y| {
            (area.x..area.x + area.width)
                .map(|x| buf[(x, y)].symbol().to_string())
                .collect::<String>()
        })
        .collect::<Vec<_>>()
        .join("\n")
}

/// How wide and high the popup is where there is room for it: its widest row and
/// all its rows, within a border.
fn popup_size() -> (u16, u16) {
    let area = Rect::new(0, 0, 120, 40);
    let mut buf = filled(area, Cell::new("#"));
    draw_help(&mut buf, area);
    let cells = (0..area.height).flat_map(|y| (0..area.width).map(move |x| (x, y)));
    let drawn: Vec<(u16, u16)> = cells.filter(|at| buf[*at].symbol() != "#").collect();
    let left = drawn.iter().map(|at| at.0).min().unwrap();
    let right = drawn.iter().map(|at| at.0).max().unwrap();
    let top = drawn.iter().map(|at| at.1).min().unwrap();
    let bottom = drawn.iter().map(|at| at.1).max().unwrap();
    (right - left + 1, bottom - top + 1)
}

#[test]
fn shows_the_key_table() {
    let area = Rect::new(0, 0, 90, 20);
    let mut buf = empty(area);
    draw_help(&mut buf, area);
    let text = text_of(&buf, area);
    assert!(text.contains("Help"), "the popup has its title:\n{text}");
    assert!(text.contains('?'), "the help key itself is listed:\n{text}");
    assert!(
        text.contains("jump between decorated commits"),
        "the bracket keys are documented:\n{text}"
    );
    assert!(
        text.contains("toggle remote branches / tags"),
        "the o/t toggles are documented:\n{text}"
    );
}

#[test]
fn the_popup_is_centred_in_its_area() {
    let area = Rect::new(0, 0, 90, 20);
    let mut buf = empty(area);
    draw_help(&mut buf, area);
    // The top-left border corner must not be at the area's own corner:
    // a popup that fills or hugs the edge of a generously sized area is
    // not "centred", whatever else it draws correctly.
    assert_ne!(
        buf[(0, 0)].symbol(),
        "┌",
        "the popup must not hug the corner"
    );
}

#[test]
fn the_popup_paints_over_whatever_was_underneath_it() {
    // Wide enough that the popup sits with margin on every side: the
    // "outside" checks below need cells that are genuinely outside the
    // popup, not the popup's own edge wrapping around at 0.
    let area = Rect::new(0, 0, 90, 20);
    let mut under = Cell::new("#");
    under.set_style(
        Style::default()
            .fg(Color::Rgb(0x11, 0x22, 0x33))
            .add_modifier(Modifier::REVERSED),
    );
    let mut buf = filled(area, under);
    draw_help(&mut buf, area);

    let (width, height) = popup_size();
    let x = area.x + (area.width - width) / 2;
    let y = area.y + (area.height - height) / 2;
    let rect = Rect::new(x, y, width, height);

    for py in rect.y..rect.y + rect.height {
        for px in rect.x..rect.x + rect.width {
            assert_ne!(
                buf[(px, py)].symbol(),
                "#",
                "the pane underneath showed through at ({px}, {py})"
            );
            assert!(
                !buf[(px, py)]
                    .style()
                    .add_modifier
                    .contains(Modifier::REVERSED),
                "the pane's REVERSED survived at ({px}, {py})"
            );
        }
    }
    // The area is chosen wide enough that the popup has margin on every
    // side; otherwise `saturating_sub(1)` below would land back on the
    // popup's own edge instead of a cell genuinely outside it.
    assert!(
        rect.x > 0 && rect.y > 0,
        "the popup must have margin: {rect:?}"
    );
    assert!(
        rect.x + rect.width < area.width && rect.y + rect.height < area.height,
        "the popup must have margin: {rect:?}"
    );
    // A cell just outside the popup, on every side, must be untouched.
    let outside = [
        (rect.x - 1, rect.y),
        (rect.x + rect.width, rect.y),
        (rect.x, rect.y - 1),
        (rect.x, rect.y + rect.height),
    ];
    for (px, py) in outside {
        assert_eq!(
            buf[(px, py)].symbol(),
            "#",
            "the popup grew past its content at ({px}, {py})"
        );
    }
}

#[test]
fn help_nothing_is_written_outside_the_area() {
    for &(ox, oy) in &[(0u16, 0u16), (1, 1), (5, 3)] {
        for width in 0..=20u16 {
            for height in 0..=16u16 {
                let area = Rect::new(ox, oy, width, height);
                let full = Rect::new(
                    0,
                    0,
                    ox.saturating_add(width).saturating_add(3),
                    oy.saturating_add(height).saturating_add(3),
                );
                let mut buf = filled(full, Cell::new("\u{2591}"));
                draw_help(&mut buf, area);
                for y in full.y..full.y + full.height {
                    for x in full.x..full.x + full.width {
                        if inside(area, x, y) {
                            continue;
                        }
                        assert_eq!(
                            buf[(x, y)].symbol(),
                            "\u{2591}",
                            "wrote to ({x}, {y}), outside {area:?}"
                        );
                    }
                }
            }
        }
    }
}

#[test]
fn help_a_zero_sized_area_draws_nothing() {
    let mut buf = empty(Rect::new(0, 0, 10, 2));
    draw_help(&mut buf, Rect::new(0, 0, 0, 0));
    assert_eq!(buf[(0, 0)].symbol(), " ");
}

#[test]
fn the_popup_has_a_row_for_every_key_within_its_border() {
    assert_eq!(popup_size().1, 16);
}
