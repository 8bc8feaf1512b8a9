//! The lane palette, and the colours of a branch label.
use crate::style::Color;
use vstd::prelude::*;

verus! {

/// The colours lanes rotate through, each as `0xRRGGBB`.
pub const LANE_COLORS: [u32; 11] = [
    0xF3B24C,
    0x79D18C,
    0x6FB3E0,
    0xD98DD4,
    0xE5895E,
    0x5FC9A8,
    0x8B94A2,
    0xC4D16B,
    0xE5595E,
    0x9A8CE0,
    0x5AC8C8,
];

/// The colour that `0xRRGGBB` stands for.
pub open spec fn rgb(packed: u32) -> Color {
    Color::Rgb(
        ((packed / 0x10000) % 0x100) as u8,
        ((packed / 0x100) % 0x100) as u8,
        (packed % 0x100) as u8,
    )
}

/// The colour for a lane index.
pub open spec fn lane_hue(index: usize) -> Color {
    rgb(LANE_COLORS@[(index % 11) as int])
}

/// The colour for a lane index, rotating through the palette. It is always RGB,
/// so that it does not follow the host terminal's theme.
pub fn lane_color(index: usize) -> (r: Color)
    ensures
        r == lane_hue(index),
{
    let packed: u32 = LANE_COLORS[index % 11];
    Color::Rgb(
        ((packed / 0x10000) % 0x100) as u8,
        ((packed / 0x100) % 0x100) as u8,
        (packed % 0x100) as u8,
    )
}

/// The FNV-1a hash of a byte string.
pub open spec fn fnv1a(bytes: Seq<u8>) -> u64
    decreases bytes.len(),
{
    if bytes.len() == 0 {
        0xcbf2_9ce4_8422_2325
    } else {
        (fnv1a(bytes.drop_last()) ^ (bytes.last() as u64)).wrapping_mul(0x0000_0100_0000_01b3)
    }
}

/// The point of the colour wheel that a hue names: 256 steps in each of six
/// sectors, every channel between 48 and 176.
pub open spec fn wheel(hue: int) -> (int, int, int) {
    let rising = 48 + 128 * (hue % 256) / 255;
    let falling = 224 - rising;
    let sector = hue / 256;
    if sector == 0 {
        (176, rising, 48)
    } else if sector == 1 {
        (falling, 176, 48)
    } else if sector == 2 {
        (48, 176, rising)
    } else if sector == 3 {
        (48, falling, 176)
    } else if sector == 4 {
        (rising, 48, 176)
    } else {
        (176, 48, falling)
    }
}

/// The background of the label of the branch `name`.
pub open spec fn label_background(name: Seq<char>) -> (int, int, int) {
    wheel((fnv1a(vstd::utf8::encode_utf8(name)) % 1536) as int)
}

/// Law: a label's background is never grey and never too bright: one channel is
/// at the top of its range, one at the bottom, and none outside it.
pub proof fn law_label_background(name: Seq<char>)
    ensures
        ({
            let (r, g, b) = label_background(name);
            &&& 48 <= r <= 176 && 48 <= g <= 176 && 48 <= b <= 176
            &&& r == 176 || g == 176 || b == 176
            &&& r == 48 || g == 48 || b == 48
        }),
{
}

/// The background of the label of the branch `name`, red, green and blue.
pub fn branch_background(name: &str) -> (r: (u8, u8, u8))
    ensures
        (r.0 as int, r.1 as int, r.2 as int) == label_background(name@),
{
    let bytes = name.as_bytes();
    let mut hash: u64 = 0xcbf2_9ce4_8422_2325;
    let mut i: usize = 0;
    assert(bytes@.take(0) =~= Seq::empty());
    while i < bytes.len()
        invariant
            i <= bytes@.len(),
            hash == fnv1a(bytes@.take(i as int)),
        decreases bytes@.len() - i,
    {
        assert(bytes@.take(i + 1).drop_last() =~= bytes@.take(i as int));
        hash = (hash ^ (bytes[i] as u64)).wrapping_mul(0x0000_0100_0000_01b3);
        i += 1;
    }
    assert(bytes@.take(i as int) =~= bytes@);
    let hue: u16 = (hash % 1536) as u16;
    let sector: u16 = hue / 256;
    let offset: u16 = hue % 256;
    let rising: u8 = (48 + 128 * offset / 255) as u8;
    let falling: u8 = 224 - rising;
    if sector == 0 {
        (176, rising, 48)
    } else if sector == 1 {
        (falling, 176, 48)
    } else if sector == 2 {
        (48, 176, rising)
    } else if sector == 3 {
        (48, falling, 176)
    } else if sector == 4 {
        (rising, 48, 176)
    } else {
        (176, 48, falling)
    }
}

/// Stable foreground and background colours for one branch-name label.
/// `dark_reads_better` is whether black stands out from the background at least
/// as well as white.
pub fn branch_label_colors(name: &str, dark_reads_better: bool) -> (r: (Color, Color))
    ensures
        r.0 == if dark_reads_better {
            Color::Rgb(0x00, 0x00, 0x00)
        } else {
            Color::Rgb(0xFF, 0xFF, 0xFF)
        },
        r.1 matches Color::Rgb(red, green, blue) && (red as int, green as int, blue as int)
            == label_background(name@),
{
    let (red, green, blue) = branch_background(name);
    let foreground = if dark_reads_better {
        Color::Rgb(0x00, 0x00, 0x00)
    } else {
        Color::Rgb(0xFF, 0xFF, 0xFF)
    };
    (foreground, Color::Rgb(red, green, blue))
}

/// Law: the colours of the lanes come round: lanes eleven apart share one, and a
/// packed colour is red, green and blue from its highest byte down.
pub proof fn law_lane_colors_come_round(index: usize, r: u8, g: u8, b: u8)
    requires
        index + 11 <= usize::MAX,
    ensures
        lane_hue((index + 11) as usize) == lane_hue(index),
        rgb((r as u32 * 0x10000 + g as u32 * 0x100 + b as u32) as u32) == Color::Rgb(r, g, b),
        index < 11 ==> lane_hue(index) == rgb(LANE_COLORS@[index as int]),
{
    let packed = (r as u32 * 0x10000 + g as u32 * 0x100 + b as u32) as u32;
    assert(packed == r as int * 0x10000 + g as int * 0x100 + b as int);
    assert(packed / 0x10000 == r) by (nonlinear_arith)
        requires
            packed == r as int * 0x10000 + g as int * 0x100 + b as int,
            g <= 255,
            b <= 255,
    ;
    assert((packed / 0x100) % 0x100 == g) by (nonlinear_arith)
        requires
            packed == r as int * 0x10000 + g as int * 0x100 + b as int,
            g <= 255,
            b <= 255,
    ;
    assert((index + 11) % 11 == index % 11) by (nonlinear_arith);
}

} // verus!
