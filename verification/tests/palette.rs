//! The panes of the overlay, and its colours.
use asd::geometry::Rect;
use asd::style::Color;
use asd::ui::colors::{branch_background, branch_label_colors, lane_color, LANE_COLORS};
use asd::ui::layout::{pane_at, split, Pane};


#[test]
fn the_graph_takes_the_upper_half_and_the_lower_half_splits_in_two() {
    let map = split(Rect::new(0, 0, 100, 40));
    assert_eq!(map.graph.height + map.detail.height, 40);
    assert_eq!(map.detail.height, map.files.height);
    assert_eq!(map.detail.width + map.files.width, 100);
    // The lower panes sit side by side, below the graph.
    assert_eq!(map.detail.y, map.graph.y + map.graph.height);
    assert_eq!(map.files.y, map.detail.y);
    assert_eq!(map.files.x, map.detail.x + map.detail.width);
}

#[test]
fn a_short_area_gives_everything_to_the_graph() {
    // Below this there is no room for a useful detail pane, and half of
    // four rows is not a pane, it is a sliver.
    let map = split(Rect::new(0, 0, 80, 8));
    assert_eq!(map.graph.height, 8);
    assert_eq!(map.detail.height, 0);
    assert_eq!(map.files.height, 0);
}

#[test]
fn a_degenerate_area_produces_no_panes_and_does_not_panic() {
    for (w, h) in [(0, 0), (0, 40), (100, 0), (1, 1), (2, 3)] {
        let map = split(Rect::new(0, 0, w, h));
        assert!(map.graph.width <= w && map.graph.height <= h);
        assert!(map.detail.width <= w && map.files.width <= w);
    }
}

#[test]
fn a_rect_at_the_u16_edge_does_not_panic() {
    // Every sum sits at the type's ceiling here: a raw `+` would overflow.
    for r in [
        // Short-area branch (height < MIN_SPLIT_HEIGHT).
        Rect::new(u16::MAX - 4, u16::MAX - 4, 10, 4),
        // Side-by-side branch (height >= MIN_SPLIT_HEIGHT): exercises
        // both `inner.y + graph_h` and `inner.x + detail_w`.
        Rect::new(u16::MAX - 4, u16::MAX - 4, 10, 20),
        Rect::new(0, u16::MAX, 10, 20),
        Rect::new(u16::MAX, 0, 20, 20),
    ] {
        let map = split(r);
        assert!(map.graph.width <= r.width && map.graph.height <= r.height);
        assert!(map.detail.width <= r.width && map.files.width <= r.width);
    }
}

#[test]
fn a_point_maps_to_the_pane_that_contains_it() {
    let map = split(Rect::new(0, 0, 100, 40));
    assert_eq!(pane_at(&map, 5, 1), Some(Pane::Graph));
    assert_eq!(pane_at(&map, 5, map.detail.y), Some(Pane::Detail));
    assert_eq!(
        pane_at(&map, map.files.x + 1, map.files.y),
        Some(Pane::Files)
    );
    assert_eq!(pane_at(&map, 200, 200), None);
}

#[test]
fn a_non_origin_area_keeps_its_offset() {
    let map = split(Rect::new(7, 3, 60, 30));
    assert_eq!(map.graph.x, 7);
    assert_eq!(map.graph.y, 3);
    assert_eq!(pane_at(&map, 8, 4), Some(Pane::Graph));
    assert_eq!(
        pane_at(&map, 0, 0),
        None,
        "outside the area belongs to no pane"
    );
}

/// The colour that `0xRRGGBB` stands for.
fn rgb(packed: u32) -> Color {
    let [_, r, g, b] = packed.to_be_bytes();
    Color::Rgb(r, g, b)
}

fn relative_luminance(color: Color) -> f64 {
    let Color::Rgb(r, g, b) = color else {
        panic!("expected RGB, got {color:?}");
    };
    let linear = |channel: u8| {
        let channel = f64::from(channel) / 255.0;
        if channel <= 0.04045 {
            channel / 12.92
        } else {
            ((channel + 0.055) / 1.055).powf(2.4)
        }
    };
    0.2126 * linear(r) + 0.7152 * linear(g) + 0.0722 * linear(b)
}

fn contrast_ratio(a: Color, b: Color) -> f64 {
    let a = relative_luminance(a);
    let b = relative_luminance(b);
    (a.max(b) + 0.05) / (a.min(b) + 0.05)
}

/// The colours of a branch's label, with the text that stands out better.
fn label_colors(name: &str) -> (Color, Color) {
    let (r, g, b) = branch_background(name);
    let background = Color::Rgb(r, g, b);
    let dark = contrast_ratio(Color::Rgb(0, 0, 0), background)
        >= contrast_ratio(Color::Rgb(255, 255, 255), background);
    branch_label_colors(name, dark)
}

#[test]
fn the_palette_rotates_and_never_panics() {
    // Any index is valid: lane indices are unbounded, the palette is not.
    assert_eq!(lane_color(0), rgb(LANE_COLORS[0]));
    assert_eq!(lane_color(LANE_COLORS.len()), rgb(LANE_COLORS[0]));
    assert_eq!(lane_color(LANE_COLORS.len() + 3), rgb(LANE_COLORS[3]));
    assert_eq!(
        lane_color(usize::MAX),
        rgb(LANE_COLORS[usize::MAX % LANE_COLORS.len()])
    );
}

#[test]
fn every_lane_colour_is_rgb() {
    // Named ANSI colours would follow the host terminal's theme and clash
    // with asd's own palette, which is RGB throughout.
    for (i, c) in LANE_COLORS.iter().enumerate() {
        assert!(
            matches!(lane_color(i), Color::Rgb(..)),
            "LANE_COLORS[{i}] is {c:?}, expected an Rgb value"
        );
    }
}

#[test]
fn lane_colours_are_distinct() {
    for (i, a) in LANE_COLORS.iter().enumerate() {
        for (j, b) in LANE_COLORS.iter().enumerate() {
            if i != j {
                assert_ne!(a, b, "LANE_COLORS[{i}] and [{j}] are the same colour");
            }
        }
    }
}

#[test]
fn branch_colours_are_stable_distinct_and_rgb() {
    let main = label_colors("main");
    assert_eq!(main, label_colors("main"));
    assert_ne!(main.1, label_colors("origin/main").1);
    assert!(matches!(main.0, Color::Rgb(..)));
    assert!(matches!(main.1, Color::Rgb(..)));
}

#[test]
fn branch_text_keeps_accessible_contrast_on_a_bright_green() {
    // A green on which white would stand out by only about 2.6:1.
    let (foreground, background) = label_colors("feature/160");
    assert!(
        contrast_ratio(foreground, background) >= 4.5,
        "foreground {foreground:?} is too close to {background:?}"
    );
}

#[test]
fn branch_text_keeps_accessible_contrast_on_a_mid_blue() {
    // The worst part of the wheel for a near-black and a near-white text.
    let (foreground, background) = label_colors("feature/966");
    assert!(
        contrast_ratio(foreground, background) >= 4.5,
        "foreground {foreground:?} is too close to {background:?}"
    );
}
