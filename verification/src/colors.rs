//! Paul Tol's qualitative/sequential colour schemes as a fixed lookup
//! from named palette entries to RGB triples.

use vstd::prelude::*;

verus! {

/// An RGB colour triple. The terminal backend owns the conversion to its
/// own colour type; the library only ever speaks of plain channel values.
#[derive(Debug, Clone, Copy, PartialEq, Eq, Structural)]
pub struct Rgb {
    pub r: u8,
    pub g: u8,
    pub b: u8,
}

/// The named entries of the palette.
#[derive(Debug, Clone, Copy, PartialEq, Eq, Structural)]
pub enum TolColor {
    BriBlue,
    BriCyan,
    BriGreen,
    BriYellow,
    BriRed,
    BriPurple,
    BriGrey,
    VibBlue,
    VibCyan,
    VibTeal,
    VibOrange,
    VibRed,
    VibMagenta,
    VibGrey,
    MutIndigo,
    MutCyan,
    MutTeal,
    MutGreen,
    MutOlive,
    MutSand,
    MutRose,
    MutWine,
    MutPurple,
    MutPaleGrey,
    LigLightBlue,
    LigLightCyan,
    LigMint,
    LigPear,
    LigOlive,
    LigLightYellow,
    LigOrange,
    LigPink,
    LigPaleGrey,
    PurRed,
    PurGreen,
    PurBlue,
    PurYellow,
    PurCyan,
    PurMagenta,
    CstLigBlue,
    BadData,
}

/// The palette table: the RGB value of each named entry.
pub open spec fn spec_color(color: TolColor) -> Rgb {
    match color {
        TolColor::BriBlue => Rgb { r: 68, g: 119, b: 170 },
        TolColor::BriCyan => Rgb { r: 102, g: 204, b: 238 },
        TolColor::BriGreen => Rgb { r: 34, g: 136, b: 51 },
        TolColor::BriYellow => Rgb { r: 204, g: 187, b: 68 },
        TolColor::BriRed => Rgb { r: 238, g: 102, b: 119 },
        TolColor::BriPurple => Rgb { r: 170, g: 51, b: 119 },
        TolColor::BriGrey => Rgb { r: 187, g: 187, b: 187 },
        TolColor::VibBlue => Rgb { r: 0, g: 119, b: 187 },
        TolColor::VibCyan => Rgb { r: 51, g: 187, b: 238 },
        TolColor::VibTeal => Rgb { r: 0, g: 153, b: 136 },
        TolColor::VibOrange => Rgb { r: 238, g: 119, b: 51 },
        TolColor::VibRed => Rgb { r: 204, g: 51, b: 17 },
        TolColor::VibMagenta => Rgb { r: 238, g: 51, b: 119 },
        TolColor::VibGrey => Rgb { r: 187, g: 187, b: 187 },
        TolColor::MutIndigo => Rgb { r: 51, g: 34, b: 136 },
        TolColor::MutCyan => Rgb { r: 136, g: 204, b: 238 },
        TolColor::MutTeal => Rgb { r: 68, g: 170, b: 153 },
        TolColor::MutGreen => Rgb { r: 17, g: 119, b: 51 },
        TolColor::MutOlive => Rgb { r: 153, g: 153, b: 51 },
        TolColor::MutSand => Rgb { r: 221, g: 204, b: 119 },
        TolColor::MutRose => Rgb { r: 204, g: 102, b: 119 },
        TolColor::MutWine => Rgb { r: 136, g: 34, b: 85 },
        TolColor::MutPurple => Rgb { r: 170, g: 68, b: 153 },
        TolColor::MutPaleGrey => Rgb { r: 221, g: 221, b: 221 },
        TolColor::LigLightBlue => Rgb { r: 119, g: 170, b: 221 },
        TolColor::LigLightCyan => Rgb { r: 153, g: 221, b: 255 },
        TolColor::LigMint => Rgb { r: 68, g: 187, b: 153 },
        TolColor::LigPear => Rgb { r: 187, g: 204, b: 51 },
        TolColor::LigOlive => Rgb { r: 170, g: 170, b: 0 },
        TolColor::LigLightYellow => Rgb { r: 238, g: 221, b: 136 },
        TolColor::LigOrange => Rgb { r: 238, g: 136, b: 102 },
        TolColor::LigPink => Rgb { r: 255, g: 170, b: 187 },
        TolColor::LigPaleGrey => Rgb { r: 221, g: 221, b: 221 },
        TolColor::PurRed => Rgb { r: 255, g: 0, b: 0 },
        TolColor::PurBlue => Rgb { r: 0, g: 255, b: 0 },
        TolColor::PurGreen => Rgb { r: 0, g: 0, b: 255 },
        TolColor::PurYellow => Rgb { r: 255, g: 255, b: 0 },
        TolColor::PurCyan => Rgb { r: 0, g: 255, b: 255 },
        TolColor::PurMagenta => Rgb { r: 255, g: 0, b: 255 },
        TolColor::CstLigBlue => Rgb { r: 222, g: 255, b: 255 },
        TolColor::BadData => Rgb { r: 255, g: 238, b: 153 },
    }
}

/// Looks a named palette entry up in the colour table.
pub fn get_color(color: TolColor) -> (rgb: Rgb)
    ensures
        rgb == spec_color(color),
{
    match color {
        TolColor::BriBlue => Rgb { r: 68, g: 119, b: 170 },
        TolColor::BriCyan => Rgb { r: 102, g: 204, b: 238 },
        TolColor::BriGreen => Rgb { r: 34, g: 136, b: 51 },
        TolColor::BriYellow => Rgb { r: 204, g: 187, b: 68 },
        TolColor::BriRed => Rgb { r: 238, g: 102, b: 119 },
        TolColor::BriPurple => Rgb { r: 170, g: 51, b: 119 },
        TolColor::BriGrey => Rgb { r: 187, g: 187, b: 187 },
        TolColor::VibBlue => Rgb { r: 0, g: 119, b: 187 },
        TolColor::VibCyan => Rgb { r: 51, g: 187, b: 238 },
        TolColor::VibTeal => Rgb { r: 0, g: 153, b: 136 },
        TolColor::VibOrange => Rgb { r: 238, g: 119, b: 51 },
        TolColor::VibRed => Rgb { r: 204, g: 51, b: 17 },
        TolColor::VibMagenta => Rgb { r: 238, g: 51, b: 119 },
        TolColor::VibGrey => Rgb { r: 187, g: 187, b: 187 },
        TolColor::MutIndigo => Rgb { r: 51, g: 34, b: 136 },
        TolColor::MutCyan => Rgb { r: 136, g: 204, b: 238 },
        TolColor::MutTeal => Rgb { r: 68, g: 170, b: 153 },
        TolColor::MutGreen => Rgb { r: 17, g: 119, b: 51 },
        TolColor::MutOlive => Rgb { r: 153, g: 153, b: 51 },
        TolColor::MutSand => Rgb { r: 221, g: 204, b: 119 },
        TolColor::MutRose => Rgb { r: 204, g: 102, b: 119 },
        TolColor::MutWine => Rgb { r: 136, g: 34, b: 85 },
        TolColor::MutPurple => Rgb { r: 170, g: 68, b: 153 },
        TolColor::MutPaleGrey => Rgb { r: 221, g: 221, b: 221 },
        TolColor::LigLightBlue => Rgb { r: 119, g: 170, b: 221 },
        TolColor::LigLightCyan => Rgb { r: 153, g: 221, b: 255 },
        TolColor::LigMint => Rgb { r: 68, g: 187, b: 153 },
        TolColor::LigPear => Rgb { r: 187, g: 204, b: 51 },
        TolColor::LigOlive => Rgb { r: 170, g: 170, b: 0 },
        TolColor::LigLightYellow => Rgb { r: 238, g: 221, b: 136 },
        TolColor::LigOrange => Rgb { r: 238, g: 136, b: 102 },
        TolColor::LigPink => Rgb { r: 255, g: 170, b: 187 },
        TolColor::LigPaleGrey => Rgb { r: 221, g: 221, b: 221 },
        TolColor::PurRed => Rgb { r: 255, g: 0, b: 0 },
        TolColor::PurBlue => Rgb { r: 0, g: 255, b: 0 },
        TolColor::PurGreen => Rgb { r: 0, g: 0, b: 255 },
        TolColor::PurYellow => Rgb { r: 255, g: 255, b: 0 },
        TolColor::PurCyan => Rgb { r: 0, g: 255, b: 255 },
        TolColor::PurMagenta => Rgb { r: 255, g: 0, b: 255 },
        TolColor::CstLigBlue => Rgb { r: 222, g: 255, b: 255 },
        TolColor::BadData => Rgb { r: 255, g: 238, b: 153 },
    }
}

} // verus!
