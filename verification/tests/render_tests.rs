use termban::colors::Rgb;
use termban::grid::Board;
use termban::grid::GlyphCells;
use termban::render::draw_square;
use termban::render::is_in_bounds;
use termban::render::render_world;
use termban::types::Coordinate;
use termban::types::Entity;
use termban::types::Tile;
use termban::types::World;
use termban::types::Zoom;

#[test]
fn coordinate_is_inside_the_bounds() {
    let glyph_cells_buffer = GlyphCells::new(5, 5);

    assert!(is_in_bounds(&Coordinate { x: 1, y: 1 }, &glyph_cells_buffer));

    assert!(is_in_bounds(&Coordinate { x: 4, y: 4 }, &glyph_cells_buffer));

    assert!(is_in_bounds(&Coordinate { x: 0, y: 4 }, &glyph_cells_buffer));
}

#[test]
fn coordinate_is_outside_the_bounds() {
    let glyph_cells_buffer = GlyphCells::new(5, 5);

    assert!(!is_in_bounds(&Coordinate { x: 100, y: 100 }, &glyph_cells_buffer));

    assert!(!is_in_bounds(&Coordinate { x: 4, y: 100 }, &glyph_cells_buffer));

    assert!(!is_in_bounds(&Coordinate { x: 100, y: 1 }, &glyph_cells_buffer));

    assert!(!is_in_bounds(&Coordinate { x: 5, y: 1 }, &glyph_cells_buffer));
}

fn world_of(board: Board, entities: Vec<Entity>) -> World {
    World { name: "test".to_owned(), board, entities, camera_position: Coordinate { x: 0, y: 0 } }
}

const FLOOR_RGB: Rgb = Rgb { r: 222, g: 255, b: 255 };
const WALL_RGB: Rgb = Rgb { r: 119, g: 170, b: 221 };
const PLAYER_RGB: Rgb = Rgb { r: 255, g: 0, b: 0 };
const BOX_RGB: Rgb = Rgb { r: 68, g: 119, b: 170 };

#[test]
fn far_zoom_packs_two_board_rows_per_glyph_row() {
    // two board rows, one column: wall over floor lands in one glyph
    // cell, wall as the foreground (top pixel), floor as the background
    let mut board = Board::new(2, 1, Tile::Floor);
    board.set(0, 0, Tile::Wall);
    let world = world_of(board, Vec::new());

    let buf = render_world(&world, 1, 2, Zoom::Far);
    let cell = buf.get(0, 0);
    assert_eq!(cell.glyph, '\u{2580}');
    assert_eq!(cell.fg, Some(WALL_RGB));
    assert_eq!(cell.bg, Some(FLOOR_RGB));

    // the column right of the board stays blank
    let off = buf.get(0, 1);
    assert_eq!(off.glyph, ' ');
    assert_eq!(off.fg, None);
    assert_eq!(off.bg, None);
}

#[test]
fn empty_tiles_paint_nothing() {
    // an empty (exterior) tile leaves the terminal background visible
    let board = Board::new(2, 1, Tile::Empty);
    let world = world_of(board, Vec::new());
    let buf = render_world(&world, 1, 1, Zoom::Far);
    let cell = buf.get(0, 0);
    assert_eq!(cell.glyph, ' ');
    assert_eq!(cell.fg, None);
    assert_eq!(cell.bg, None);
}

#[test]
fn far_zoom_entities_paint_over_the_board() {
    // the player's pixel replaces the floor colour on its channel
    let board = Board::new(2, 1, Tile::Floor);
    let world = world_of(
        board,
        vec![
            Entity::Player { position: Coordinate { x: 0, y: 0 } },
            Entity::SokoBox { position: Coordinate { x: 0, y: 1 } },
        ],
    );
    let buf = render_world(&world, 1, 1, Zoom::Far);
    let cell = buf.get(0, 0);
    assert_eq!(cell.glyph, '\u{2580}');
    assert_eq!(cell.fg, Some(PLAYER_RGB));
    assert_eq!(cell.bg, Some(BOX_RGB));
}

#[test]
fn middle_zoom_expands_each_cell_to_a_two_by_two_block() {
    let board = Board::new(1, 1, Tile::Floor);
    let world = world_of(board, Vec::new());
    let buf = render_world(&world, 2, 3, Zoom::Middle);
    for gx in 0..2 {
        let cell = buf.get(0, gx);
        assert_eq!(cell.glyph, '\u{2580}');
        assert_eq!(cell.fg, Some(FLOOR_RGB));
        assert_eq!(cell.bg, Some(FLOOR_RGB));
    }
    // beyond the scaled board everything is blank
    assert_eq!(buf.get(0, 2).fg, None);
    assert_eq!(buf.get(1, 0).fg, None);
}

#[test]
fn close_zoom_overlays_the_player_sprite_with_transparency() {
    // one floor tile with the player on it: the sprite's top-left cell
    // has a foreground of its own but no background, so the floor's
    // colour shows through on the background channel
    let board = Board::new(1, 1, Tile::Floor);
    let world = world_of(board, vec![Entity::Player { position: Coordinate { x: 0, y: 0 } }]);
    let buf = render_world(&world, 2, 4, Zoom::Close);

    let hair = Rgb { r: 52, g: 32, b: 33 };
    let top_left = buf.get(0, 0);
    assert_eq!(top_left.glyph, '\u{259d}');
    assert_eq!(top_left.fg, Some(hair));
    assert_eq!(top_left.bg, Some(FLOOR_RGB));

    // sprite row 1, column 2 paints both channels in cloth colours
    let cloth2 = Rgb { r: 37, g: 75, b: 75 };
    let lower = buf.get(1, 2);
    assert_eq!(lower.glyph, '\u{2580}');
    assert_eq!(lower.fg, Some(cloth2));
    assert_eq!(lower.bg, Some(cloth2));
}

#[test]
fn close_zoom_draws_boxes_as_full_blocks() {
    let board = Board::new(1, 1, Tile::Floor);
    let world = world_of(board, vec![Entity::SokoBox { position: Coordinate { x: 0, y: 0 } }]);
    let buf = render_world(&world, 2, 4, Zoom::Close);
    for gy in 0..2 {
        for gx in 0..4 {
            let cell = buf.get(gy, gx);
            assert_eq!(cell.glyph, '\u{2580}');
            assert_eq!(cell.fg, Some(BOX_RGB));
            assert_eq!(cell.bg, Some(BOX_RGB));
        }
    }
}

#[test]
fn draw_square_clips_at_the_buffer_edge() {
    // a square drawn past the buffer changes nothing
    let buf = GlyphCells::new(2, 2);
    let out = draw_square(PLAYER_RGB, Coordinate { x: 5, y: 5 }, 2, buf);
    for gy in 0..2 {
        for gx in 0..2 {
            let cell = out.get(gy, gx);
            assert_eq!(cell.glyph, ' ');
            assert_eq!(cell.fg, None);
            assert_eq!(cell.bg, None);
        }
    }
}

#[test]
fn sprite_table_matches_the_authored_bitmap() {
    let sprite = termban::sprites::get_player_sprite_4();
    let c00 = sprite.get(0, 0);
    assert_eq!(c00.glyph, '\u{259d}');
    assert_eq!(c00.fg, Some(Rgb { r: 52, g: 32, b: 33 }));
    assert_eq!(c00.bg, None);
    let c13 = sprite.get(1, 3);
    assert_eq!(c13.glyph, '\u{2596}');
    assert_eq!(c13.fg, Some(Rgb { r: 37, g: 75, b: 75 }));
    assert_eq!(c13.bg, None);
}

#[test]
fn larger_sprites_match_their_authored_bitmaps() {
    let hair1 = Rgb { r: 52, g: 32, b: 33 };
    let skin = Rgb { r: 239, g: 204, b: 165 };
    let eye = Rgb { r: 19, g: 19, b: 19 };

    let s8 = termban::sprites::get_player_sprite_8();
    let c = s8.get(1, 2);
    assert_eq!(c.glyph, '\u{25e0}');
    assert_eq!(c.fg, Some(eye));
    assert_eq!(c.bg, Some(skin));

    let s8s = termban::sprites::get_player_sprite_8_simple();
    let c2 = s8s.get(0, 2);
    assert_eq!(c2.glyph, '\u{2580}');
    assert_eq!(c2.fg, Some(hair1));
    assert_eq!(c2.bg, Some(Rgb { r: 72, g: 42, b: 43 }));

    let s6 = termban::sprites::get_player_sprite_6();
    let c3 = s6.get(1, 2);
    assert_eq!(c3.glyph, '\u{2586}');
    assert_eq!(c3.fg, Some(skin));
    assert_eq!(c3.bg, Some(hair1));
}

#[test]
fn graph_pipeline_matches_direct_rendering() {
    let mut board = Board::new(1, 2, Tile::Floor);
    board.set(0, 1, Tile::Wall);
    let world = world_of(board, vec![Entity::SokoBox { position: Coordinate { x: 0, y: 0 } }]);

    let graph = termban::render::generate_render_graph(&world);
    let via_graph = termban::render::glypherize_graph(graph, 1, 2, Zoom::Far);
    let direct = render_world(&world, 1, 2, Zoom::Far);
    for gx in 0..2 {
        assert_eq!(via_graph.get(0, gx), direct.get(0, gx));
    }
    assert_eq!(via_graph.get(0, 0).fg, Some(BOX_RGB));
    assert_eq!(via_graph.get(0, 1).fg, Some(WALL_RGB));
}
