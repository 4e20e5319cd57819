//! The colours in which the blocks are drawn.

use vstd::prelude::*;

verus! {

/// A colour by its red, green and blue parts.
#[derive(Clone, Copy, Debug, PartialEq, Eq, Structural)]
pub struct Rgb {
    pub r: u8,
    pub g: u8,
    pub b: u8,
}

/// How a block is drawn: the colour of the glyph and the colour behind it.
#[derive(Clone, Copy, Debug, PartialEq, Eq, Structural)]
pub struct Style {
    pub fg: Rgb,
    pub bg: Rgb,
}

/// The style of the blocks with palette index `i`: one for each of the
/// seven shapes, and white on grey for any other index.
pub open spec fn style_of(i: int) -> Style {
    if i == 0 {
        Style { fg: Rgb { r: 255, g: 128, b: 128 }, bg: Rgb { r: 196, g: 128, b: 128 } }
    } else if i == 1 {
        Style { fg: Rgb { r: 255, g: 255, b: 128 }, bg: Rgb { r: 196, g: 196, b: 128 } }
    } else if i == 2 {
        Style { fg: Rgb { r: 128, g: 255, b: 128 }, bg: Rgb { r: 128, g: 196, b: 128 } }
    } else if i == 3 {
        Style { fg: Rgb { r: 128, g: 255, b: 255 }, bg: Rgb { r: 128, g: 196, b: 196 } }
    } else if i == 4 {
        Style { fg: Rgb { r: 128, g: 128, b: 255 }, bg: Rgb { r: 128, g: 128, b: 196 } }
    } else if i == 5 {
        Style { fg: Rgb { r: 255, g: 128, b: 255 }, bg: Rgb { r: 196, g: 128, b: 196 } }
    } else if i == 6 {
        Style { fg: Rgb { r: 226, g: 128, b: 128 }, bg: Rgb { r: 196, g: 128, b: 128 } }
    } else {
        Style { fg: Rgb { r: 255, g: 255, b: 255 }, bg: Rgb { r: 196, g: 196, b: 196 } }
    }
}

/// A style from the six parts of its two colours.
fn style(fr: u8, fg: u8, fb: u8, br: u8, bg: u8, bb: u8) -> (s: Style)
    ensures
        s == (Style { fg: Rgb { r: fr, g: fg, b: fb }, bg: Rgb { r: br, g: bg, b: bb } }),
{
    Style { fg: Rgb { r: fr, g: fg, b: fb }, bg: Rgb { r: br, g: bg, b: bb } }
}

/// The style of the blocks with palette index `i`.
pub fn block_style(i: usize) -> (s: Style)
    ensures
        s == style_of(i as int),
{
    match i {
        0 => style(255, 128, 128, 196, 128, 128),
        1 => style(255, 255, 128, 196, 196, 128),
        2 => style(128, 255, 128, 128, 196, 128),
        3 => style(128, 255, 255, 128, 196, 196),
        4 => style(128, 128, 255, 128, 128, 196),
        5 => style(255, 128, 255, 196, 128, 196),
        6 => style(226, 128, 128, 196, 128, 128),
        _ => style(255, 255, 255, 196, 196, 196),
    }
}

} // verus!
