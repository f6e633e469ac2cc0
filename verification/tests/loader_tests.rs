use termban::soko_loader::get_board_dimensions;
use termban::soko_loader::group_sokoban_tokens;
use termban::soko_loader::parse_sokoban_level;
use termban::soko_loader::parse_sokoban_worlds;
use termban::soko_loader::tokenize;
use termban::soko_loader::Token;
use termban::types::Coordinate;
use termban::types::Entity;
use termban::types::Tile;

#[test]
fn title_extraction_strips_exactly_two_characters() {
    // the marker and exactly one further character go; a one-character
    // strip would leave the marker's companion in the title
    let tokens = tokenize(";xMy Title").unwrap();
    assert_eq!(tokens, vec![Token::Text("My Title".to_string())]);
}

#[test]
fn title_keeps_everything_after_the_two_character_prefix() {
    // the second stripped character is whatever follows the marker;
    // any further spacing stays part of the title text
    let tokens = tokenize(";x My Title").unwrap();
    assert_eq!(tokens, vec![Token::Text(" My Title".to_string())]);
}

#[test]
fn tokenize_maps_each_tile_character() {
    let tokens = tokenize("#@$.*+ \n").unwrap();
    assert_eq!(
        tokens,
        vec![
            Token::Wall,
            Token::Player,
            Token::SokoBox,
            Token::Goal,
            Token::SokoBoxAndGoal,
            Token::PlayerAndGoal,
            Token::Empty,
            Token::NewLine,
        ]
    );
}

#[test]
fn tokenize_rejects_unknown_characters() {
    assert_eq!(tokenize(";t\nxyz"), None);
    assert_eq!(tokenize("#?#"), None);
}

#[test]
fn tokenize_skips_blank_lines() {
    let tokens = tokenize(";t\n\n##\n").unwrap();
    assert_eq!(
        tokens,
        vec![Token::Text("".to_string()), Token::Wall, Token::Wall, Token::NewLine]
    );
}

#[test]
fn board_dimensions_take_the_longest_row() {
    let tokens = tokenize("##\n####\n#\n").unwrap();
    let (x, y) = get_board_dimensions(&tokens);
    assert_eq!(x, 4);
    assert_eq!(y, 3);
}

#[test]
fn grouping_splits_on_title_tokens() {
    let tokens = tokenize(";aone\n#\n;btwo\n##\n").unwrap();
    let groups = group_sokoban_tokens(&tokens);
    assert_eq!(groups.len(), 2);
    assert_eq!(
        groups[0],
        vec![Token::Text("one".to_string()), Token::Wall, Token::NewLine]
    );
    assert_eq!(
        groups[1],
        vec![Token::Text("two".to_string()), Token::Wall, Token::Wall, Token::NewLine]
    );
}

#[test]
fn grouping_without_titles_yields_no_groups() {
    let tokens = tokenize("###\n").unwrap();
    let groups = group_sokoban_tokens(&tokens);
    assert_eq!(groups.len(), 0);
}

#[test]
fn parse_level_builds_board_and_entities() {
    let text = ";xLv\n#####\n#@$.#\n#####\n";
    let tokens = tokenize(text).unwrap();
    let groups = group_sokoban_tokens(&tokens);
    let world = parse_sokoban_level(&groups[0]).unwrap();

    assert_eq!(world.name, "Lv");
    assert_eq!(world.board.rows(), 3);
    assert_eq!(world.board.cols(), 5);
    // the border is wall, the inside keeps its classification
    for x in 0..5 {
        assert_eq!(world.board.get(0, x), Tile::Wall);
        assert_eq!(world.board.get(2, x), Tile::Wall);
    }
    assert_eq!(world.board.get(1, 0), Tile::Wall);
    assert_eq!(world.board.get(1, 1), Tile::Floor);
    assert_eq!(world.board.get(1, 2), Tile::Floor);
    assert_eq!(world.board.get(1, 3), Tile::Goal);
    assert_eq!(world.board.get(1, 4), Tile::Wall);

    assert_eq!(
        world.entities,
        vec![
            Entity::Player { position: Coordinate { x: 1, y: 1 } },
            Entity::SokoBox { position: Coordinate { x: 2, y: 1 } },
        ]
    );
    assert_eq!(world.camera_position, Coordinate { x: 0, y: 0 });
}

#[test]
fn parse_level_without_title_is_rejected() {
    let err = parse_sokoban_level(&[Token::Wall, Token::NewLine]).unwrap_err();
    assert_eq!(err, "Level must start with a title");
}

#[test]
fn parse_level_pads_short_rows_and_culls_them() {
    // ragged rows are padded by the floor fill; the padding is exterior
    // and culling reclassifies it as empty
    let text = ";xr\n####\n##\n####\n";
    let tokens = tokenize(text).unwrap();
    let groups = group_sokoban_tokens(&tokens);
    let world = parse_sokoban_level(&groups[0]).unwrap();
    assert_eq!(world.board.rows(), 3);
    assert_eq!(world.board.cols(), 4);
    assert_eq!(world.board.get(1, 2), Tile::Empty);
    assert_eq!(world.board.get(1, 3), Tile::Empty);
}

#[test]
fn parse_worlds_splits_levels() {
    let text = ";xone\n####\n#@.#\n####\n;xtwo\n#####\n#@$.#\n#####\n";
    let worlds = parse_sokoban_worlds(text).unwrap();
    assert_eq!(worlds.len(), 2);
    assert_eq!(worlds[0].name, "one");
    assert_eq!(worlds[1].name, "two");
    assert_eq!(worlds[0].entities.len(), 1);
    assert_eq!(worlds[1].entities.len(), 2);
}

#[test]
fn parse_worlds_reports_malformed_tiles() {
    let err = parse_sokoban_worlds(";xone\n#q#\n").unwrap_err();
    assert_eq!(err, "Level failed to load");
}

#[test]
fn parse_worlds_rejects_a_pack_without_levels() {
    let err = parse_sokoban_worlds("").unwrap_err();
    assert_eq!(err, "No Levels were loaded");
    let err2 = parse_sokoban_worlds("####\n").unwrap_err();
    assert_eq!(err2, "No Levels were loaded");
}

#[test]
fn parsing_twice_yields_identical_worlds() {
    // parsing is a pure function of its input text
    let text = ";xone\n#####\n#@$.#\n#####\n;xtwo\n###\n#.#\n###\n";
    let first = parse_sokoban_worlds(text).unwrap();
    let second = parse_sokoban_worlds(text).unwrap();
    assert_eq!(first.len(), second.len());
    for (a, b) in first.iter().zip(second.iter()) {
        assert_eq!(a.name, b.name);
        assert_eq!(a.board.rows(), b.board.rows());
        assert_eq!(a.board.cols(), b.board.cols());
        for y in 0..a.board.rows() {
            for x in 0..a.board.cols() {
                assert_eq!(a.board.get(y, x), b.board.get(y, x));
            }
        }
        assert_eq!(a.entities, b.entities);
    }
}
