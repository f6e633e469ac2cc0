use termban::colors::get_color;
use termban::colors::Rgb;
use termban::colors::TolColor;
use termban::types::Coordinate;
use termban::types::Entity;
use termban::types::GlyphCell;
use termban::types::SaveFile;
use termban::types::Tile;

#[test]
fn palette_holds_the_exact_rgb_values() {
    assert_eq!(get_color(TolColor::BriBlue), Rgb { r: 68, g: 119, b: 170 });
    assert_eq!(get_color(TolColor::PurRed), Rgb { r: 255, g: 0, b: 0 });
    assert_eq!(get_color(TolColor::CstLigBlue), Rgb { r: 222, g: 255, b: 255 });
    assert_eq!(get_color(TolColor::LigLightBlue), Rgb { r: 119, g: 170, b: 221 });
    assert_eq!(get_color(TolColor::BriGrey), Rgb { r: 187, g: 187, b: 187 });
    assert_eq!(get_color(TolColor::BadData), Rgb { r: 255, g: 238, b: 153 });
    assert_eq!(get_color(TolColor::MutWine), Rgb { r: 136, g: 34, b: 85 });
}

#[test]
fn tile_colors_follow_the_palette_and_empty_paints_nothing() {
    assert_eq!(Tile::Wall.color(), Some(Rgb { r: 119, g: 170, b: 221 }));
    assert_eq!(Tile::Goal.color(), Some(Rgb { r: 187, g: 187, b: 187 }));
    assert_eq!(Tile::Floor.color(), Some(Rgb { r: 222, g: 255, b: 255 }));
    assert_eq!(Tile::Empty.color(), None);
}

#[test]
fn entity_colors_and_positions() {
    let p = Entity::Player { position: Coordinate { x: 3, y: 4 } };
    let b = Entity::SokoBox { position: Coordinate { x: 1, y: 2 } };
    assert_eq!(p.color(), Rgb { r: 255, g: 0, b: 0 });
    assert_eq!(b.color(), Rgb { r: 68, g: 119, b: 170 });
    assert_eq!(p.get_position(), Coordinate { x: 3, y: 4 });
    assert_eq!(b.get_position(), Coordinate { x: 1, y: 2 });
}

#[test]
fn arr_index_is_row_major() {
    let c = Coordinate { x: 7, y: 9 };
    assert_eq!(c.arr_index(), [9, 7]);
}

#[test]
fn glyph_cell_starts_blank() {
    let c = GlyphCell::new();
    assert_eq!(c.glyph, ' ');
    assert_eq!(c.fg, None);
    assert_eq!(c.bg, None);
    assert_eq!(GlyphCell::default(), c);
}

#[test]
fn save_file_starts_with_one_profile_at_level_zero() {
    let s = SaveFile::new();
    assert_eq!(s.saves.len(), 1);
    assert_eq!(s.saves[0].name, "My Save");
    assert_eq!(s.saves[0].level, 0);
}
