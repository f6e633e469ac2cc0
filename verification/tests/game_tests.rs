use termban::grid::Board;
use termban::level_select;
use termban::menu;
use termban::soko_game::get_new_position;
use termban::soko_game::handle_move;
use termban::soko_game::update;
use termban::types::Coordinate;
use termban::types::Direction;
use termban::types::Entity;
use termban::types::GameAction;
use termban::types::LevelSelectAction;
use termban::types::MenuAction;
use termban::types::Model;
use termban::types::RunningState;
use termban::types::SaveFile;
use termban::types::SokoModel;
use termban::types::Tile;
use termban::types::World;
use termban::types::Zoom;

fn row_world(tiles: &[Tile], entities: Vec<Entity>) -> World {
    let mut board = Board::new(1, tiles.len(), Tile::Floor);
    for (x, t) in tiles.iter().enumerate() {
        board.set(0, x, *t);
    }
    World { name: "w".to_owned(), board, entities, camera_position: Coordinate { x: 0, y: 0 } }
}

fn positions(w: &World) -> Vec<Coordinate> {
    w.entities.iter().map(|e| e.get_position()).collect()
}

#[test]
fn new_position_steps_and_clamps_at_zero() {
    let c = Coordinate { x: 2, y: 2 };
    assert_eq!(get_new_position(c, &Direction::Up), Coordinate { x: 2, y: 1 });
    assert_eq!(get_new_position(c, &Direction::Down), Coordinate { x: 2, y: 3 });
    assert_eq!(get_new_position(c, &Direction::Left), Coordinate { x: 1, y: 2 });
    assert_eq!(get_new_position(c, &Direction::Right), Coordinate { x: 3, y: 2 });
    let origin = Coordinate { x: 0, y: 0 };
    assert_eq!(get_new_position(origin, &Direction::Up), origin);
    assert_eq!(get_new_position(origin, &Direction::Left), origin);
}

#[test]
fn move_into_wall_is_rejected() {
    // the candidate destination tile is a wall: the world is unchanged
    let world = row_world(
        &[Tile::Floor, Tile::Wall, Tile::Floor],
        vec![Entity::Player { position: Coordinate { x: 0, y: 0 } }],
    );
    assert!(handle_move(&world, Direction::Right).is_none());
    // the input world is untouched: moves are resolved functionally
    assert_eq!(positions(&world), vec![Coordinate { x: 0, y: 0 }]);
}

#[test]
fn push_into_wall_rejects_the_whole_move() {
    // player next to box next to wall: neither the player nor the box moves
    let world = row_world(
        &[Tile::Floor, Tile::Floor, Tile::Wall],
        vec![
            Entity::Player { position: Coordinate { x: 0, y: 0 } },
            Entity::SokoBox { position: Coordinate { x: 1, y: 0 } },
        ],
    );
    assert!(handle_move(&world, Direction::Right).is_none());
}

#[test]
fn push_into_another_box_rejects_the_whole_move() {
    let world = row_world(
        &[Tile::Floor, Tile::Floor, Tile::Floor, Tile::Floor],
        vec![
            Entity::Player { position: Coordinate { x: 0, y: 0 } },
            Entity::SokoBox { position: Coordinate { x: 1, y: 0 } },
            Entity::SokoBox { position: Coordinate { x: 2, y: 0 } },
        ],
    );
    assert!(handle_move(&world, Direction::Right).is_none());
}

#[test]
fn push_onto_open_floor_moves_player_and_box() {
    // player takes the box's old cell, the box takes the next cell over
    let world = row_world(
        &[Tile::Floor, Tile::Floor, Tile::Floor],
        vec![
            Entity::Player { position: Coordinate { x: 0, y: 0 } },
            Entity::SokoBox { position: Coordinate { x: 1, y: 0 } },
        ],
    );
    let moved = handle_move(&world, Direction::Right).unwrap();
    assert_eq!(
        moved.entities,
        vec![
            Entity::Player { position: Coordinate { x: 1, y: 0 } },
            Entity::SokoBox { position: Coordinate { x: 2, y: 0 } },
        ]
    );
    assert_eq!(moved.name, world.name);
}

#[test]
fn move_off_the_board_is_rejected() {
    let world = row_world(
        &[Tile::Floor],
        vec![Entity::Player { position: Coordinate { x: 0, y: 0 } }],
    );
    assert!(handle_move(&world, Direction::Right).is_none());
    assert!(handle_move(&world, Direction::Down).is_none());
}

#[test]
fn clamped_move_at_the_origin_is_a_no_op() {
    // stepping up from row zero keeps the position; the move is not an
    // error, just a move to the same cell
    let world = row_world(
        &[Tile::Floor, Tile::Floor],
        vec![Entity::Player { position: Coordinate { x: 0, y: 0 } }],
    );
    let moved = handle_move(&world, Direction::Up).unwrap();
    assert_eq!(positions(&moved), vec![Coordinate { x: 0, y: 0 }]);
}

#[test]
fn win_detection_checks_every_box() {
    // a box on floor leaves the level unsolved; pushing it onto the
    // goal solves it; a world without boxes is vacuously solved
    let world = row_world(
        &[Tile::Floor, Tile::Floor, Tile::Goal],
        vec![
            Entity::Player { position: Coordinate { x: 0, y: 0 } },
            Entity::SokoBox { position: Coordinate { x: 1, y: 0 } },
        ],
    );
    assert!(!world.is_sokoban_solved());

    let solved = handle_move(&world, Direction::Right).unwrap();
    assert!(solved.is_sokoban_solved());

    let empty = row_world(&[Tile::Floor], vec![]);
    assert!(empty.is_sokoban_solved());
}

#[test]
fn occupancy_sees_walls_and_entities() {
    let world = row_world(
        &[Tile::Wall, Tile::Floor, Tile::Floor],
        vec![Entity::SokoBox { position: Coordinate { x: 1, y: 0 } }],
    );
    assert!(world.is_tile_occupied(&Coordinate { x: 0, y: 0 }));
    assert!(world.is_tile_occupied(&Coordinate { x: 1, y: 0 }));
    assert!(!world.is_tile_occupied(&Coordinate { x: 2, y: 0 }));
}

fn test_model() -> Model {
    let world = row_world(
        &[Tile::Floor, Tile::Floor, Tile::Goal],
        vec![
            Entity::Player { position: Coordinate { x: 0, y: 0 } },
            Entity::SokoBox { position: Coordinate { x: 1, y: 0 } },
        ],
    );
    let worlds = vec![world.duplicate(), row_world(&[Tile::Floor], vec![])];
    Model {
        running_state: RunningState::Game,
        soko_game: SokoModel::from(world),
        worlds,
        world_index: 0,
        save_file: SaveFile::new(),
    }
}

#[test]
fn update_move_pushes_history_and_undo_pops_it() {
    let mut model = test_model();
    assert_eq!(update(&mut model, GameAction::Move(Direction::Right)), None);
    assert_eq!(model.soko_game.history.len(), 1);
    assert_eq!(
        positions(&model.soko_game.current_state),
        vec![Coordinate { x: 1, y: 0 }, Coordinate { x: 2, y: 0 }]
    );

    update(&mut model, GameAction::Undo);
    assert_eq!(model.soko_game.history.len(), 0);
    assert_eq!(
        positions(&model.soko_game.current_state),
        vec![Coordinate { x: 0, y: 0 }, Coordinate { x: 1, y: 0 }]
    );
}

#[test]
fn update_rejected_move_leaves_history_alone() {
    let world = row_world(
        &[Tile::Wall, Tile::Floor, Tile::Floor],
        vec![Entity::Player { position: Coordinate { x: 1, y: 0 } }],
    );
    let mut model = Model {
        running_state: RunningState::Game,
        soko_game: SokoModel::from(world),
        worlds: Vec::new(),
        world_index: 0,
        save_file: SaveFile::new(),
    };
    update(&mut model, GameAction::Move(Direction::Left));
    assert_eq!(model.soko_game.history.len(), 0);
    assert_eq!(positions(&model.soko_game.current_state), vec![Coordinate { x: 1, y: 0 }]);
}

#[test]
fn update_reset_restores_the_oldest_snapshot() {
    let mut model = test_model();
    update(&mut model, GameAction::Move(Direction::Right));
    update(&mut model, GameAction::Reset);
    assert_eq!(
        positions(&model.soko_game.current_state),
        vec![Coordinate { x: 0, y: 0 }, Coordinate { x: 1, y: 0 }]
    );
}

#[test]
fn update_switches_zoom_and_quits_to_menu() {
    let mut model = test_model();
    update(&mut model, GameAction::ZoomClose);
    assert_eq!(model.soko_game.zoom, Zoom::Close);
    update(&mut model, GameAction::ZoomFar);
    assert_eq!(model.soko_game.zoom, Zoom::Far);
    update(&mut model, GameAction::ZoomMiddle);
    assert_eq!(model.soko_game.zoom, Zoom::Middle);
    update(&mut model, GameAction::Quit);
    assert_eq!(model.running_state, RunningState::Menu);
}

#[test]
fn menu_update_transitions() {
    let mut model = test_model();
    menu::update(&mut model, MenuAction::StartGame);
    assert_eq!(model.running_state, RunningState::LevelSelect);
    menu::update(&mut model, MenuAction::Quit);
    assert_eq!(model.running_state, RunningState::Done);
}

#[test]
fn menu_erase_save_data_resets_progress() {
    let mut model = test_model();
    model.world_index = 1;
    model.save_file.saves[0].level = 1;
    menu::update(&mut model, MenuAction::EraseSaveData);
    assert_eq!(model.world_index, 0);
    assert_eq!(model.save_file.saves[0].level, 0);
    assert_eq!(model.soko_game.history.len(), 0);
}

#[test]
fn level_select_update_moves_the_selection() {
    let mut model = test_model();
    level_select::update(&mut model, LevelSelectAction::Down);
    assert_eq!(model.world_index, 1);
    level_select::update(&mut model, LevelSelectAction::Down);
    assert_eq!(model.world_index, 1);
    level_select::update(&mut model, LevelSelectAction::Up);
    assert_eq!(model.world_index, 0);
    level_select::update(&mut model, LevelSelectAction::Up);
    assert_eq!(model.world_index, 0);
    level_select::update(&mut model, LevelSelectAction::Select);
    assert_eq!(model.running_state, RunningState::Game);
    level_select::update(&mut model, LevelSelectAction::Quit);
    assert_eq!(model.running_state, RunningState::Menu);
}

#[test]
fn model_level_changes_rebuild_the_game_state() {
    let mut model = test_model();
    update(&mut model, GameAction::Move(Direction::Right));
    model.change_level(1);
    assert_eq!(model.world_index, 1);
    assert_eq!(model.soko_game.history.len(), 0);
    assert_eq!(model.soko_game.current_state.entities.len(), 0);
    model.decrement_level();
    assert_eq!(model.world_index, 0);
    assert_eq!(model.soko_game.current_state.entities.len(), 2);
}

#[test]
fn refresh_window_restores_the_first_snapshot() {
    let mut model = test_model();
    update(&mut model, GameAction::Move(Direction::Right));
    model.refresh_window();
    assert_eq!(model.soko_game.history.len(), 0);
    assert_eq!(
        positions(&model.soko_game.current_state),
        vec![Coordinate { x: 0, y: 0 }, Coordinate { x: 1, y: 0 }]
    );
}

#[test]
fn only_the_first_player_moves_in_a_degenerate_world() {
    // two players is unsupported by the rules; the resolver moves the
    // first one found and leaves the other alone
    let world = row_world(
        &[Tile::Floor, Tile::Floor, Tile::Floor],
        vec![
            Entity::Player { position: Coordinate { x: 0, y: 0 } },
            Entity::Player { position: Coordinate { x: 2, y: 0 } },
        ],
    );
    let moved = handle_move(&world, Direction::Right).unwrap();
    assert_eq!(
        positions(&moved),
        vec![Coordinate { x: 1, y: 0 }, Coordinate { x: 2, y: 0 }]
    );
}

#[test]
fn world_without_a_player_never_moves() {
    let world = row_world(
        &[Tile::Floor, Tile::Floor],
        vec![Entity::SokoBox { position: Coordinate { x: 0, y: 0 } }],
    );
    assert!(handle_move(&world, Direction::Right).is_none());
}
