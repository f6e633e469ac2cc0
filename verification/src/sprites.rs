//! The player's pre-authored sprite bitmaps, one per sprite size: small
//! grids of character cells with optional foreground and background
//! colours. A missing colour means that channel is transparent and the
//! paint under it shows through.

use vstd::prelude::*;

use crate::colors::Rgb;
use crate::grid::PixGrid;
use crate::grid::pix_grid;
use crate::grid::pix_grid_from_vec;
use crate::grid::pix_grid_get;

verus! {

/// One sprite cell: a character with optional foreground and background
/// colours; an absent colour paints nothing on that channel.
#[derive(Debug, Clone, Copy, PartialEq)]
pub struct CharPixel {
    pub glyph: char,
    pub fg: Option<Rgb>,
    pub bg: Option<Rgb>,
}

/// A sprite: a rectangular grid of sprite cells.
#[derive(Debug)]
pub struct Sprite {
    pub chars: PixGrid,
}

impl Sprite {
    /// The sprite cell at row `y`, column `x`.
    pub fn get(&self, y: usize, x: usize) -> (c: CharPixel)
        requires
            y < pix_grid(self.chars).len(),
            x < pix_grid(self.chars)[y as int].len(),
        ensures
            c == pix_grid(self.chars)[y as int][x as int],
    {
        pix_grid_get(&self.chars, y, x)
    }
}


/// The 8-wide flat-shaded player sprite, row by row.
pub open spec fn spec_player_sprite_8_simple() -> Seq<Seq<CharPixel>> {
    seq![
        seq![
            CharPixel { glyph: '\u{2580}', fg: Some(Rgb { r: 0, g: 0, b: 0 }), bg: None },
            CharPixel { glyph: '\u{2580}', fg: None, bg: Some(Rgb { r: 52, g: 32, b: 33 }) },
            CharPixel { glyph: '\u{2580}', fg: Some(Rgb { r: 52, g: 32, b: 33 }), bg: Some(Rgb { r: 72, g: 42, b: 43 }) },
            CharPixel { glyph: '\u{2580}', fg: Some(Rgb { r: 52, g: 32, b: 33 }), bg: Some(Rgb { r: 72, g: 42, b: 43 }) },
            CharPixel { glyph: '\u{2580}', fg: Some(Rgb { r: 52, g: 32, b: 33 }), bg: Some(Rgb { r: 72, g: 42, b: 43 }) },
            CharPixel { glyph: '\u{2580}', fg: Some(Rgb { r: 72, g: 42, b: 43 }), bg: Some(Rgb { r: 52, g: 32, b: 33 }) },
            CharPixel { glyph: '\u{2580}', fg: None, bg: Some(Rgb { r: 52, g: 32, b: 33 }) },
            CharPixel { glyph: '\u{2580}', fg: None, bg: None }
        ],
        seq![
            CharPixel { glyph: '\u{2580}', fg: None, bg: None },
            CharPixel { glyph: '\u{2580}', fg: Some(Rgb { r: 52, g: 32, b: 33 }), bg: None },
            CharPixel { glyph: '\u{2580}', fg: Some(Rgb { r: 19, g: 19, b: 19 }), bg: Some(Rgb { r: 239, g: 204, b: 165 }) },
            CharPixel { glyph: '\u{2580}', fg: Some(Rgb { r: 239, g: 204, b: 165 }), bg: Some(Rgb { r: 239, g: 204, b: 165 }) },
            CharPixel { glyph: '\u{2580}', fg: Some(Rgb { r: 19, g: 19, b: 19 }), bg: Some(Rgb { r: 239, g: 204, b: 165 }) },
            CharPixel { glyph: '\u{2580}', fg: Some(Rgb { r: 52, g: 32, b: 33 }), bg: Some(Rgb { r: 239, g: 204, b: 165 }) },
            CharPixel { glyph: '\u{2580}', fg: Some(Rgb { r: 52, g: 32, b: 33 }), bg: None },
            CharPixel { glyph: '\u{2580}', fg: Some(Rgb { r: 0, g: 0, b: 0 }), bg: None }
        ],
        seq![
            CharPixel { glyph: '\u{2580}', fg: None, bg: None },
            CharPixel { glyph: '\u{2580}', fg: None, bg: Some(Rgb { r: 8, g: 25, b: 61 }) },
            CharPixel { glyph: '\u{2580}', fg: Some(Rgb { r: 37, g: 75, b: 75 }), bg: Some(Rgb { r: 56, g: 109, b: 82 }) },
            CharPixel { glyph: '\u{2580}', fg: Some(Rgb { r: 37, g: 75, b: 75 }), bg: Some(Rgb { r: 37, g: 75, b: 75 }) },
            CharPixel { glyph: '\u{2580}', fg: Some(Rgb { r: 37, g: 75, b: 75 }), bg: Some(Rgb { r: 37, g: 75, b: 75 }) },
            CharPixel { glyph: '\u{2580}', fg: None, bg: Some(Rgb { r: 37, g: 75, b: 75 }) },
            CharPixel { glyph: '\u{2580}', fg: None, bg: None },
            CharPixel { glyph: '\u{2580}', fg: None, bg: None }
        ],
        seq![
            CharPixel { glyph: '\u{2580}', fg: None, bg: None },
            CharPixel { glyph: '\u{2580}', fg: Some(Rgb { r: 8, g: 25, b: 61 }), bg: None },
            CharPixel { glyph: '\u{2580}', fg: Some(Rgb { r: 8, g: 25, b: 61 }), bg: Some(Rgb { r: 8, g: 25, b: 61 }) },
            CharPixel { glyph: '\u{2580}', fg: Some(Rgb { r: 56, g: 109, b: 82 }), bg: Some(Rgb { r: 56, g: 109, b: 82 }) },
            CharPixel { glyph: '\u{2580}', fg: Some(Rgb { r: 37, g: 75, b: 75 }), bg: Some(Rgb { r: 56, g: 109, b: 82 }) },
            CharPixel { glyph: '\u{2580}', fg: Some(Rgb { r: 37, g: 75, b: 75 }), bg: Some(Rgb { r: 56, g: 109, b: 82 }) },
            CharPixel { glyph: '\u{2580}', fg: Some(Rgb { r: 37, g: 75, b: 75 }), bg: Some(Rgb { r: 56, g: 109, b: 82 }) },
            CharPixel { glyph: '\u{2580}', fg: None, bg: None }
        ]
    ]
}

/// Builds the 8-wide flat-shaded player sprite.
pub fn get_player_sprite_8_simple() -> (r: Sprite)
    ensures
        pix_grid(r.chars) == spec_player_sprite_8_simple(),
{
    let mut cells: Vec<CharPixel> = Vec::new();
    cells.push(CharPixel { glyph: '\u{2580}', fg: Some(Rgb { r: 0, g: 0, b: 0 }), bg: None });
    cells.push(CharPixel { glyph: '\u{2580}', fg: None, bg: Some(Rgb { r: 52, g: 32, b: 33 }) });
    cells.push(CharPixel { glyph: '\u{2580}', fg: Some(Rgb { r: 52, g: 32, b: 33 }), bg: Some(Rgb { r: 72, g: 42, b: 43 }) });
    cells.push(CharPixel { glyph: '\u{2580}', fg: Some(Rgb { r: 52, g: 32, b: 33 }), bg: Some(Rgb { r: 72, g: 42, b: 43 }) });
    cells.push(CharPixel { glyph: '\u{2580}', fg: Some(Rgb { r: 52, g: 32, b: 33 }), bg: Some(Rgb { r: 72, g: 42, b: 43 }) });
    cells.push(CharPixel { glyph: '\u{2580}', fg: Some(Rgb { r: 72, g: 42, b: 43 }), bg: Some(Rgb { r: 52, g: 32, b: 33 }) });
    cells.push(CharPixel { glyph: '\u{2580}', fg: None, bg: Some(Rgb { r: 52, g: 32, b: 33 }) });
    cells.push(CharPixel { glyph: '\u{2580}', fg: None, bg: None });
    cells.push(CharPixel { glyph: '\u{2580}', fg: None, bg: None });
    cells.push(CharPixel { glyph: '\u{2580}', fg: Some(Rgb { r: 52, g: 32, b: 33 }), bg: None });
    cells.push(CharPixel { glyph: '\u{2580}', fg: Some(Rgb { r: 19, g: 19, b: 19 }), bg: Some(Rgb { r: 239, g: 204, b: 165 }) });
    cells.push(CharPixel { glyph: '\u{2580}', fg: Some(Rgb { r: 239, g: 204, b: 165 }), bg: Some(Rgb { r: 239, g: 204, b: 165 }) });
    cells.push(CharPixel { glyph: '\u{2580}', fg: Some(Rgb { r: 19, g: 19, b: 19 }), bg: Some(Rgb { r: 239, g: 204, b: 165 }) });
    cells.push(CharPixel { glyph: '\u{2580}', fg: Some(Rgb { r: 52, g: 32, b: 33 }), bg: Some(Rgb { r: 239, g: 204, b: 165 }) });
    cells.push(CharPixel { glyph: '\u{2580}', fg: Some(Rgb { r: 52, g: 32, b: 33 }), bg: None });
    cells.push(CharPixel { glyph: '\u{2580}', fg: Some(Rgb { r: 0, g: 0, b: 0 }), bg: None });
    cells.push(CharPixel { glyph: '\u{2580}', fg: None, bg: None });
    cells.push(CharPixel { glyph: '\u{2580}', fg: None, bg: Some(Rgb { r: 8, g: 25, b: 61 }) });
    cells.push(CharPixel { glyph: '\u{2580}', fg: Some(Rgb { r: 37, g: 75, b: 75 }), bg: Some(Rgb { r: 56, g: 109, b: 82 }) });
    cells.push(CharPixel { glyph: '\u{2580}', fg: Some(Rgb { r: 37, g: 75, b: 75 }), bg: Some(Rgb { r: 37, g: 75, b: 75 }) });
    cells.push(CharPixel { glyph: '\u{2580}', fg: Some(Rgb { r: 37, g: 75, b: 75 }), bg: Some(Rgb { r: 37, g: 75, b: 75 }) });
    cells.push(CharPixel { glyph: '\u{2580}', fg: None, bg: Some(Rgb { r: 37, g: 75, b: 75 }) });
    cells.push(CharPixel { glyph: '\u{2580}', fg: None, bg: None });
    cells.push(CharPixel { glyph: '\u{2580}', fg: None, bg: None });
    cells.push(CharPixel { glyph: '\u{2580}', fg: None, bg: None });
    cells.push(CharPixel { glyph: '\u{2580}', fg: Some(Rgb { r: 8, g: 25, b: 61 }), bg: None });
    cells.push(CharPixel { glyph: '\u{2580}', fg: Some(Rgb { r: 8, g: 25, b: 61 }), bg: Some(Rgb { r: 8, g: 25, b: 61 }) });
    cells.push(CharPixel { glyph: '\u{2580}', fg: Some(Rgb { r: 56, g: 109, b: 82 }), bg: Some(Rgb { r: 56, g: 109, b: 82 }) });
    cells.push(CharPixel { glyph: '\u{2580}', fg: Some(Rgb { r: 37, g: 75, b: 75 }), bg: Some(Rgb { r: 56, g: 109, b: 82 }) });
    cells.push(CharPixel { glyph: '\u{2580}', fg: Some(Rgb { r: 37, g: 75, b: 75 }), bg: Some(Rgb { r: 56, g: 109, b: 82 }) });
    cells.push(CharPixel { glyph: '\u{2580}', fg: Some(Rgb { r: 37, g: 75, b: 75 }), bg: Some(Rgb { r: 56, g: 109, b: 82 }) });
    cells.push(CharPixel { glyph: '\u{2580}', fg: None, bg: None });
    let chars = pix_grid_from_vec(4, 8, cells);
    proof {
        assert(pix_grid(chars) =~~= spec_player_sprite_8_simple());
    }
    Sprite { chars }
}

/// The 8-wide detailed player sprite, row by row.
pub open spec fn spec_player_sprite_8() -> Seq<Seq<CharPixel>> {
    seq![
        seq![
            CharPixel { glyph: '@', fg: Some(Rgb { r: 0, g: 0, b: 0 }), bg: None },
            CharPixel { glyph: '\u{2585}', fg: None, bg: Some(Rgb { r: 52, g: 32, b: 33 }) },
            CharPixel { glyph: '\u{259a}', fg: Some(Rgb { r: 52, g: 32, b: 33 }), bg: Some(Rgb { r: 72, g: 42, b: 43 }) },
            CharPixel { glyph: '\u{259a}', fg: Some(Rgb { r: 52, g: 32, b: 33 }), bg: Some(Rgb { r: 72, g: 42, b: 43 }) },
            CharPixel { glyph: '\u{259a}', fg: Some(Rgb { r: 52, g: 32, b: 33 }), bg: Some(Rgb { r: 72, g: 42, b: 43 }) },
            CharPixel { glyph: '\u{259d}', fg: Some(Rgb { r: 72, g: 42, b: 43 }), bg: Some(Rgb { r: 52, g: 32, b: 33 }) },
            CharPixel { glyph: '\u{2580}', fg: None, bg: Some(Rgb { r: 52, g: 32, b: 33 }) },
            CharPixel { glyph: '\u{2580}', fg: None, bg: None }
        ],
        seq![
            CharPixel { glyph: '\u{2580}', fg: None, bg: None },
            CharPixel { glyph: '\u{2582}', fg: None, bg: Some(Rgb { r: 52, g: 32, b: 33 }) },
            CharPixel { glyph: '\u{25e0}', fg: Some(Rgb { r: 19, g: 19, b: 19 }), bg: Some(Rgb { r: 239, g: 204, b: 165 }) },
            CharPixel { glyph: '\u{203f}', fg: Some(Rgb { r: 19, g: 19, b: 19 }), bg: Some(Rgb { r: 239, g: 204, b: 165 }) },
            CharPixel { glyph: '\u{25e0}', fg: Some(Rgb { r: 19, g: 19, b: 19 }), bg: Some(Rgb { r: 239, g: 204, b: 165 }) },
            CharPixel { glyph: '\u{273f}', fg: Some(Rgb { r: 255, g: 192, b: 203 }), bg: Some(Rgb { r: 52, g: 32, b: 33 }) },
            CharPixel { glyph: '\u{2580}', fg: Some(Rgb { r: 52, g: 32, b: 33 }), bg: None },
            CharPixel { glyph: '@', fg: Some(Rgb { r: 0, g: 0, b: 0 }), bg: None }
        ],
        seq![
            CharPixel { glyph: '\u{2580}', fg: None, bg: None },
            CharPixel { glyph: '\u{2580}', fg: None, bg: Some(Rgb { r: 8, g: 25, b: 61 }) },
            CharPixel { glyph: '\u{259a}', fg: Some(Rgb { r: 56, g: 109, b: 82 }), bg: Some(Rgb { r: 37, g: 75, b: 75 }) },
            CharPixel { glyph: '\u{2580}', fg: Some(Rgb { r: 37, g: 75, b: 75 }), bg: Some(Rgb { r: 37, g: 75, b: 75 }) },
            CharPixel { glyph: '\u{259a}', fg: Some(Rgb { r: 37, g: 75, b: 75 }), bg: Some(Rgb { r: 45, g: 95, b: 65 }) },
            CharPixel { glyph: '\u{2596}', fg: Some(Rgb { r: 37, g: 75, b: 75 }), bg: None },
            CharPixel { glyph: '\u{2580}', fg: None, bg: None },
            CharPixel { glyph: '\u{2580}', fg: None, bg: None }
        ],
        seq![
            CharPixel { glyph: '\u{2580}', fg: None, bg: None },
            CharPixel { glyph: '\u{259d}', fg: Some(Rgb { r: 8, g: 25, b: 61 }), bg: None },
            CharPixel { glyph: '\u{2599}', fg: Some(Rgb { r: 8, g: 25, b: 61 }), bg: Some(Rgb { r: 37, g: 75, b: 75 }) },
            CharPixel { glyph: '\u{2599}', fg: Some(Rgb { r: 56, g: 109, b: 82 }), bg: Some(Rgb { r: 37, g: 75, b: 75 }) },
            CharPixel { glyph: '\u{2580}', fg: Some(Rgb { r: 37, g: 75, b: 75 }), bg: Some(Rgb { r: 56, g: 109, b: 82 }) },
            CharPixel { glyph: '\u{2582}', fg: Some(Rgb { r: 56, g: 109, b: 82 }), bg: Some(Rgb { r: 37, g: 75, b: 75 }) },
            CharPixel { glyph: '\u{2582}', fg: Some(Rgb { r: 56, g: 109, b: 82 }), bg: None },
            CharPixel { glyph: '\u{2580}', fg: None, bg: None }
        ]
    ]
}

/// Builds the 8-wide detailed player sprite.
pub fn get_player_sprite_8() -> (r: Sprite)
    ensures
        pix_grid(r.chars) == spec_player_sprite_8(),
{
    let mut cells: Vec<CharPixel> = Vec::new();
    cells.push(CharPixel { glyph: '@', fg: Some(Rgb { r: 0, g: 0, b: 0 }), bg: None });
    cells.push(CharPixel { glyph: '\u{2585}', fg: None, bg: Some(Rgb { r: 52, g: 32, b: 33 }) });
    cells.push(CharPixel { glyph: '\u{259a}', fg: Some(Rgb { r: 52, g: 32, b: 33 }), bg: Some(Rgb { r: 72, g: 42, b: 43 }) });
    cells.push(CharPixel { glyph: '\u{259a}', fg: Some(Rgb { r: 52, g: 32, b: 33 }), bg: Some(Rgb { r: 72, g: 42, b: 43 }) });
    cells.push(CharPixel { glyph: '\u{259a}', fg: Some(Rgb { r: 52, g: 32, b: 33 }), bg: Some(Rgb { r: 72, g: 42, b: 43 }) });
    cells.push(CharPixel { glyph: '\u{259d}', fg: Some(Rgb { r: 72, g: 42, b: 43 }), bg: Some(Rgb { r: 52, g: 32, b: 33 }) });
    cells.push(CharPixel { glyph: '\u{2580}', fg: None, bg: Some(Rgb { r: 52, g: 32, b: 33 }) });
    cells.push(CharPixel { glyph: '\u{2580}', fg: None, bg: None });
    cells.push(CharPixel { glyph: '\u{2580}', fg: None, bg: None });
    cells.push(CharPixel { glyph: '\u{2582}', fg: None, bg: Some(Rgb { r: 52, g: 32, b: 33 }) });
    cells.push(CharPixel { glyph: '\u{25e0}', fg: Some(Rgb { r: 19, g: 19, b: 19 }), bg: Some(Rgb { r: 239, g: 204, b: 165 }) });
    cells.push(CharPixel { glyph: '\u{203f}', fg: Some(Rgb { r: 19, g: 19, b: 19 }), bg: Some(Rgb { r: 239, g: 204, b: 165 }) });
    cells.push(CharPixel { glyph: '\u{25e0}', fg: Some(Rgb { r: 19, g: 19, b: 19 }), bg: Some(Rgb { r: 239, g: 204, b: 165 }) });
    cells.push(CharPixel { glyph: '\u{273f}', fg: Some(Rgb { r: 255, g: 192, b: 203 }), bg: Some(Rgb { r: 52, g: 32, b: 33 }) });
    cells.push(CharPixel { glyph: '\u{2580}', fg: Some(Rgb { r: 52, g: 32, b: 33 }), bg: None });
    cells.push(CharPixel { glyph: '@', fg: Some(Rgb { r: 0, g: 0, b: 0 }), bg: None });
    cells.push(CharPixel { glyph: '\u{2580}', fg: None, bg: None });
    cells.push(CharPixel { glyph: '\u{2580}', fg: None, bg: Some(Rgb { r: 8, g: 25, b: 61 }) });
    cells.push(CharPixel { glyph: '\u{259a}', fg: Some(Rgb { r: 56, g: 109, b: 82 }), bg: Some(Rgb { r: 37, g: 75, b: 75 }) });
    cells.push(CharPixel { glyph: '\u{2580}', fg: Some(Rgb { r: 37, g: 75, b: 75 }), bg: Some(Rgb { r: 37, g: 75, b: 75 }) });
    cells.push(CharPixel { glyph: '\u{259a}', fg: Some(Rgb { r: 37, g: 75, b: 75 }), bg: Some(Rgb { r: 45, g: 95, b: 65 }) });
    cells.push(CharPixel { glyph: '\u{2596}', fg: Some(Rgb { r: 37, g: 75, b: 75 }), bg: None });
    cells.push(CharPixel { glyph: '\u{2580}', fg: None, bg: None });
    cells.push(CharPixel { glyph: '\u{2580}', fg: None, bg: None });
    cells.push(CharPixel { glyph: '\u{2580}', fg: None, bg: None });
    cells.push(CharPixel { glyph: '\u{259d}', fg: Some(Rgb { r: 8, g: 25, b: 61 }), bg: None });
    cells.push(CharPixel { glyph: '\u{2599}', fg: Some(Rgb { r: 8, g: 25, b: 61 }), bg: Some(Rgb { r: 37, g: 75, b: 75 }) });
    cells.push(CharPixel { glyph: '\u{2599}', fg: Some(Rgb { r: 56, g: 109, b: 82 }), bg: Some(Rgb { r: 37, g: 75, b: 75 }) });
    cells.push(CharPixel { glyph: '\u{2580}', fg: Some(Rgb { r: 37, g: 75, b: 75 }), bg: Some(Rgb { r: 56, g: 109, b: 82 }) });
    cells.push(CharPixel { glyph: '\u{2582}', fg: Some(Rgb { r: 56, g: 109, b: 82 }), bg: Some(Rgb { r: 37, g: 75, b: 75 }) });
    cells.push(CharPixel { glyph: '\u{2582}', fg: Some(Rgb { r: 56, g: 109, b: 82 }), bg: None });
    cells.push(CharPixel { glyph: '\u{2580}', fg: None, bg: None });
    let chars = pix_grid_from_vec(4, 8, cells);
    proof {
        assert(pix_grid(chars) =~~= spec_player_sprite_8());
    }
    Sprite { chars }
}

/// The 6-wide player sprite, row by row.
pub open spec fn spec_player_sprite_6() -> Seq<Seq<CharPixel>> {
    seq![
        seq![
            CharPixel { glyph: '@', fg: Some(Rgb { r: 0, g: 0, b: 0 }), bg: None },
            CharPixel { glyph: '\u{2585}', fg: None, bg: Some(Rgb { r: 52, g: 32, b: 33 }) },
            CharPixel { glyph: '\u{259a}', fg: Some(Rgb { r: 52, g: 32, b: 33 }), bg: Some(Rgb { r: 72, g: 42, b: 42 }) },
            CharPixel { glyph: '\u{259d}', fg: Some(Rgb { r: 72, g: 42, b: 42 }), bg: Some(Rgb { r: 52, g: 32, b: 33 }) },
            CharPixel { glyph: '\u{2580}', fg: None, bg: Some(Rgb { r: 52, g: 32, b: 33 }) },
            CharPixel { glyph: '\u{2580}', fg: None, bg: None }
        ],
        seq![
            CharPixel { glyph: '\u{2580}', fg: None, bg: None },
            CharPixel { glyph: '\u{2582}', fg: None, bg: Some(Rgb { r: 52, g: 32, b: 33 }) },
            CharPixel { glyph: '\u{2586}', fg: Some(Rgb { r: 239, g: 204, b: 165 }), bg: Some(Rgb { r: 52, g: 32, b: 33 }) },
            CharPixel { glyph: '\u{2586}', fg: Some(Rgb { r: 239, g: 204, b: 165 }), bg: Some(Rgb { r: 52, g: 32, b: 33 }) },
            CharPixel { glyph: '\u{2582}', fg: Some(Rgb { r: 239, g: 204, b: 165 }), bg: Some(Rgb { r: 52, g: 32, b: 33 }) },
            CharPixel { glyph: '\u{2580}', fg: Some(Rgb { r: 52, g: 32, b: 33 }), bg: None }
        ],
        seq![
            CharPixel { glyph: '\u{2580}', fg: None, bg: None },
            CharPixel { glyph: '\u{259d}', fg: Some(Rgb { r: 8, g: 25, b: 61 }), bg: None },
            CharPixel { glyph: '\u{259a}', fg: Some(Rgb { r: 56, g: 109, b: 82 }), bg: Some(Rgb { r: 37, g: 75, b: 75 }) },
            CharPixel { glyph: '\u{2580}', fg: Some(Rgb { r: 37, g: 75, b: 75 }), bg: Some(Rgb { r: 37, g: 75, b: 75 }) },
            CharPixel { glyph: '\u{2599}', fg: Some(Rgb { r: 37, g: 75, b: 75 }), bg: None },
            CharPixel { glyph: '\u{2596}', fg: Some(Rgb { r: 37, g: 75, b: 75 }), bg: None }
        ]
    ]
}

/// Builds the 6-wide player sprite.
pub fn get_player_sprite_6() -> (r: Sprite)
    ensures
        pix_grid(r.chars) == spec_player_sprite_6(),
{
    let mut cells: Vec<CharPixel> = Vec::new();
    cells.push(CharPixel { glyph: '@', fg: Some(Rgb { r: 0, g: 0, b: 0 }), bg: None });
    cells.push(CharPixel { glyph: '\u{2585}', fg: None, bg: Some(Rgb { r: 52, g: 32, b: 33 }) });
    cells.push(CharPixel { glyph: '\u{259a}', fg: Some(Rgb { r: 52, g: 32, b: 33 }), bg: Some(Rgb { r: 72, g: 42, b: 42 }) });
    cells.push(CharPixel { glyph: '\u{259d}', fg: Some(Rgb { r: 72, g: 42, b: 42 }), bg: Some(Rgb { r: 52, g: 32, b: 33 }) });
    cells.push(CharPixel { glyph: '\u{2580}', fg: None, bg: Some(Rgb { r: 52, g: 32, b: 33 }) });
    cells.push(CharPixel { glyph: '\u{2580}', fg: None, bg: None });
    cells.push(CharPixel { glyph: '\u{2580}', fg: None, bg: None });
    cells.push(CharPixel { glyph: '\u{2582}', fg: None, bg: Some(Rgb { r: 52, g: 32, b: 33 }) });
    cells.push(CharPixel { glyph: '\u{2586}', fg: Some(Rgb { r: 239, g: 204, b: 165 }), bg: Some(Rgb { r: 52, g: 32, b: 33 }) });
    cells.push(CharPixel { glyph: '\u{2586}', fg: Some(Rgb { r: 239, g: 204, b: 165 }), bg: Some(Rgb { r: 52, g: 32, b: 33 }) });
    cells.push(CharPixel { glyph: '\u{2582}', fg: Some(Rgb { r: 239, g: 204, b: 165 }), bg: Some(Rgb { r: 52, g: 32, b: 33 }) });
    cells.push(CharPixel { glyph: '\u{2580}', fg: Some(Rgb { r: 52, g: 32, b: 33 }), bg: None });
    cells.push(CharPixel { glyph: '\u{2580}', fg: None, bg: None });
    cells.push(CharPixel { glyph: '\u{259d}', fg: Some(Rgb { r: 8, g: 25, b: 61 }), bg: None });
    cells.push(CharPixel { glyph: '\u{259a}', fg: Some(Rgb { r: 56, g: 109, b: 82 }), bg: Some(Rgb { r: 37, g: 75, b: 75 }) });
    cells.push(CharPixel { glyph: '\u{2580}', fg: Some(Rgb { r: 37, g: 75, b: 75 }), bg: Some(Rgb { r: 37, g: 75, b: 75 }) });
    cells.push(CharPixel { glyph: '\u{2599}', fg: Some(Rgb { r: 37, g: 75, b: 75 }), bg: None });
    cells.push(CharPixel { glyph: '\u{2596}', fg: Some(Rgb { r: 37, g: 75, b: 75 }), bg: None });
    let chars = pix_grid_from_vec(3, 6, cells);
    proof {
        assert(pix_grid(chars) =~~= spec_player_sprite_6());
    }
    Sprite { chars }
}

/// The 4-wide player sprite, row by row.
pub open spec fn spec_player_sprite_4() -> Seq<Seq<CharPixel>> {
    seq![
        seq![
            CharPixel { glyph: '\u{259d}', fg: Some(Rgb { r: 52, g: 32, b: 33 }), bg: None },
            CharPixel { glyph: '\u{2585}', fg: Some(Rgb { r: 239, g: 204, b: 165 }), bg: Some(Rgb { r: 52, g: 32, b: 33 }) },
            CharPixel { glyph: '\u{2582}', fg: Some(Rgb { r: 239, g: 204, b: 165 }), bg: Some(Rgb { r: 52, g: 32, b: 33 }) },
            CharPixel { glyph: '\u{2599}', fg: Some(Rgb { r: 52, g: 32, b: 33 }), bg: None }
        ],
        seq![
            CharPixel { glyph: '\u{259d}', fg: Some(Rgb { r: 8, g: 25, b: 61 }), bg: None },
            CharPixel { glyph: '\u{259a}', fg: Some(Rgb { r: 56, g: 109, b: 82 }), bg: Some(Rgb { r: 37, g: 75, b: 75 }) },
            CharPixel { glyph: '\u{2580}', fg: Some(Rgb { r: 37, g: 75, b: 75 }), bg: Some(Rgb { r: 37, g: 75, b: 75 }) },
            CharPixel { glyph: '\u{2596}', fg: Some(Rgb { r: 37, g: 75, b: 75 }), bg: None }
        ]
    ]
}

/// Builds the 4-wide player sprite used at close zoom.
pub fn get_player_sprite_4() -> (r: Sprite)
    ensures
        pix_grid(r.chars) == spec_player_sprite_4(),
{
    let mut cells: Vec<CharPixel> = Vec::new();
    cells.push(CharPixel { glyph: '\u{259d}', fg: Some(Rgb { r: 52, g: 32, b: 33 }), bg: None });
    cells.push(CharPixel { glyph: '\u{2585}', fg: Some(Rgb { r: 239, g: 204, b: 165 }), bg: Some(Rgb { r: 52, g: 32, b: 33 }) });
    cells.push(CharPixel { glyph: '\u{2582}', fg: Some(Rgb { r: 239, g: 204, b: 165 }), bg: Some(Rgb { r: 52, g: 32, b: 33 }) });
    cells.push(CharPixel { glyph: '\u{2599}', fg: Some(Rgb { r: 52, g: 32, b: 33 }), bg: None });
    cells.push(CharPixel { glyph: '\u{259d}', fg: Some(Rgb { r: 8, g: 25, b: 61 }), bg: None });
    cells.push(CharPixel { glyph: '\u{259a}', fg: Some(Rgb { r: 56, g: 109, b: 82 }), bg: Some(Rgb { r: 37, g: 75, b: 75 }) });
    cells.push(CharPixel { glyph: '\u{2580}', fg: Some(Rgb { r: 37, g: 75, b: 75 }), bg: Some(Rgb { r: 37, g: 75, b: 75 }) });
    cells.push(CharPixel { glyph: '\u{2596}', fg: Some(Rgb { r: 37, g: 75, b: 75 }), bg: None });
    let chars = pix_grid_from_vec(2, 4, cells);
    proof {
        assert(pix_grid(chars) =~~= spec_player_sprite_4());
    }
    Sprite { chars }
}

} // verus!
