//! In-game state transitions: push-move resolution and the update step
//! that folds decoded intents into the game model.

use vstd::prelude::*;

use crate::types::Coordinate;
use crate::types::Direction;
use crate::types::Entity;
use crate::types::GameAction;
use crate::types::Model;
use crate::types::RunningState;
use crate::types::Tile;
use crate::types::World;
use crate::types::Zoom;
use crate::types::coord_in_grid;

verus! {

/// Where one step in `direction` leads: coordinates clamp at zero, so a
/// step up or left from row or column 0 stays in place.
pub open spec fn spec_new_position(position: Coordinate, direction: Direction) -> Coordinate {
    match direction {
        Direction::Up => Coordinate {
            x: position.x,
            y: if position.y > 0 {
                (position.y - 1) as usize
            } else {
                0
            },
        },
        Direction::Down => Coordinate { x: position.x, y: (position.y + 1) as usize },
        Direction::Left => Coordinate {
            x: if position.x > 0 {
                (position.x - 1) as usize
            } else {
                0
            },
            y: position.y,
        },
        Direction::Right => Coordinate { x: (position.x + 1) as usize, y: position.y },
    }
}

/// One step in `direction`, clamped at zero on the low edges.
pub fn get_new_position(position: Coordinate, direction: &Direction) -> (r: Coordinate)
    requires
        *direction is Down ==> position.y < usize::MAX,
        *direction is Right ==> position.x < usize::MAX,
    ensures
        r == spec_new_position(position, *direction),
{
    match direction {
        Direction::Up => Coordinate {
            x: position.x,
            y: if position.y > 0 {
                position.y - 1
            } else {
                0
            },
        },
        Direction::Down => Coordinate { x: position.x, y: position.y + 1 },
        Direction::Left => Coordinate {
            x: if position.x > 0 {
                position.x - 1
            } else {
                0
            },
            y: position.y,
        },
        Direction::Right => Coordinate { x: position.x + 1, y: position.y },
    }
}

/// `i` is the first index holding a player entity.
pub open spec fn is_first_player(es: Seq<Entity>, i: int) -> bool {
    &&& 0 <= i < es.len()
    &&& es[i] is Player
    &&& forall|j: int| 0 <= j < i ==> !((#[trigger] es[j]) is Player)
}

/// Some box entity stands at `c`.
pub open spec fn spec_box_at(es: Seq<Entity>, c: Coordinate) -> bool {
    exists|i: int|
        0 <= i < es.len() && (#[trigger] es[i]) is SokoBox && es[i].spec_position() == c
}

/// `i` is the last index holding a box entity at `c`.
pub open spec fn is_last_box_at(es: Seq<Entity>, i: int, c: Coordinate) -> bool {
    &&& 0 <= i < es.len()
    &&& es[i] is SokoBox
    &&& es[i].spec_position() == c
    &&& forall|j: int|
        i < j < es.len() ==> !((#[trigger] es[j]) is SokoBox && es[j].spec_position() == c)
}

/// A box stands on the player's destination and its own destination is
/// out of bounds or occupied: the whole compound move is rejected.
pub open spec fn spec_push_blocked(w: World, np: Coordinate, d: Direction) -> bool {
    spec_box_at(w.entities@, np) && (!coord_in_grid(spec_new_position(np, d), w.board@)
        || w.spec_tile_occupied(spec_new_position(np, d)))
}

/// `w2` is `w` with its entity list replaced by `es`: same name, board,
/// camera, and well-formed.
pub open spec fn world_matches(w2: World, w: World, es: Seq<Entity>) -> bool {
    &&& w2.name@ == w.name@
    &&& w2.board@ == w.board@
    &&& w2.camera_position == w.camera_position
    &&& w2.entities@ == es
    &&& w2.wf()
}

/// What resolving a move returns, given that `pi` is the first player
/// index: rejection exactly when the destination leaves the board, is a
/// wall, or holds a box that cannot be pushed; otherwise a new world in
/// which the player, and the pushed box if any, moved one step.
pub open spec fn spec_move_outcome(w: World, d: Direction, pi: int, r: Option<World>) -> bool {
    let p = w.entities@[pi].spec_position();
    let np = spec_new_position(p, d);
    let npp = spec_new_position(np, d);
    if !coord_in_grid(np, w.board@) {
        r is None
    } else if w.board@[np.y as int][np.x as int] == Tile::Wall {
        r is None
    } else if spec_push_blocked(w, np, d) {
        r is None
    } else if spec_box_at(w.entities@, np) {
        exists|bi: int|
            #[trigger] is_last_box_at(w.entities@, bi, np) && (r matches Some(w2)
                && world_matches(
                w2,
                w,
                w.entities@.update(pi, Entity::Player { position: np }).update(
                    bi,
                    Entity::SokoBox { position: npp },
                ),
            ))
    } else {
        r matches Some(w2) && world_matches(
            w2,
            w,
            w.entities@.update(pi, Entity::Player { position: np }),
        )
    }
}

/// The full contract of move resolution: without a player nothing
/// happens, and with one the outcome is `spec_move_outcome` at the
/// first player index.
pub open spec fn spec_move_applies(w: World, d: Direction, r: Option<World>) -> bool {
    &&& (forall|i: int| 0 <= i < w.entities@.len() ==> !((#[trigger] w.entities@[i]) is Player))
        ==> r is None
    &&& forall|pi: int| #[trigger] is_first_player(w.entities@, pi) ==> spec_move_outcome(w, d, pi, r)
}

/// Resolves one move: finds the player, steps it in `direction`, pushes
/// a box standing in the way if its own destination is free, and
/// rejects the whole move otherwise. Pure: the input world is never
/// mutated; a successful move returns a structurally new world.
#[verifier::rlimit(60)]
pub fn handle_move(prev_level: &World, direction: Direction) -> (r: Option<World>)
    requires
        prev_level.wf(),
    ensures
        spec_move_applies(*prev_level, direction, r),
{
    let ghost es = prev_level.entities@;
    let mut level = prev_level.duplicate();
    // find the player; if the level has none, there is nothing to move
    let mut pi: usize = 0;
    let mut found = false;
    while pi < level.entities.len() && !found
        invariant
            level.entities@ == es,
            pi <= es.len(),
            !found ==> forall|j: int| 0 <= j < pi ==> !((#[trigger] es[j]) is Player),
            found ==> is_first_player(es, pi as int),
            found ==> pi < es.len(),
        decreases es.len() - pi + (if found { 0int } else { 1int }),
    {
        match &level.entities[pi] {
            Entity::Player { .. } => {
                found = true;
            },
            _ => {
                pi = pi + 1;
            },
        }
    }
    if !found {
        return None;
    }
    proof {
        assert forall|pj: int| #[trigger] is_first_player(es, pj) implies pj == pi as int by {}
    }
    let p = level.entities[pi].get_position();
    let rows = level.board.rows();
    let cols = level.board.cols();
    let np = get_new_position(p, &direction);
    // a destination off the board rejects the move
    if np.y >= rows || np.x >= cols {
        return None;
    }
    // a wall at the destination rejects the move
    if matches!(level.board.get(np.y, np.x), Tile::Wall) {
        return None;
    }
    // find the box standing at the destination, if any: the last one in
    // entity-list order is the one that moves
    let mut bi: usize = 0;
    let mut box_at: Option<usize> = None;
    while bi < level.entities.len()
        invariant
            level.entities@ == es,
            bi <= es.len(),
            box_at is None ==> forall|j: int|
                0 <= j < bi ==> !((#[trigger] es[j]) is SokoBox && es[j].spec_position() == np),
            box_at matches Some(k) ==> 0 <= k < bi && es[k as int] is SokoBox
                && es[k as int].spec_position() == np && forall|j: int|
                k < j < bi ==> !((#[trigger] es[j]) is SokoBox && es[j].spec_position() == np),
        decreases es.len() - bi,
    {
        match &level.entities[bi] {
            Entity::SokoBox { position } => {
                if position.x == np.x && position.y == np.y {
                    box_at = Some(bi);
                }
            },
            _ => {},
        }
        bi = bi + 1;
    }
    match box_at {
        Some(k) => {
            proof {
                assert(is_last_box_at(es, k as int, np));
                assert(spec_box_at(es, np));
            }
            // if there is a box where the player wants to move, see if
            // we can push it
            let npp = get_new_position(np, &direction);
            if npp.y >= rows || npp.x >= cols {
                // the push destination leaves the board: both moves are
                // invalid
                proof {
                    assert(spec_push_blocked(*prev_level, np, direction));
                }
                return None;
            }
            if level.is_tile_occupied(&npp) {
                // the push destination is occupied: both moves are
                // invalid
                proof {
                    assert(spec_push_blocked(*prev_level, np, direction));
                }
                return None;
            }
            proof {
                assert(!spec_push_blocked(*prev_level, np, direction));
            }
            level.entities.set(pi, Entity::Player { position: np });
            level.entities.set(k, Entity::SokoBox { position: npp });
            proof {
                assert(level.wf()) by {
                    assert forall|i: int|
                        0 <= i < level.entities@.len() implies coord_in_grid(
                        (#[trigger] level.entities@[i]).spec_position(),
                        level.board@,
                    ) by {
                        if i != pi as int && i != k as int {
                            assert(level.entities@[i] == es[i]);
                        }
                    }
                }
                assert forall|pj: int| #[trigger] is_first_player(es, pj) implies spec_move_outcome(
                    *prev_level,
                    direction,
                    pj,
                    Some(level),
                ) by {
                    assert(pj == pi as int);
                    assert(is_last_box_at(es, k as int, np));
                }
            }
            Some(level)
        },
        None => {
            proof {
                assert(!spec_box_at(es, np));
                assert(!spec_push_blocked(*prev_level, np, direction));
            }
            // no box in the way: only the player moves
            level.entities.set(pi, Entity::Player { position: np });
            proof {
                assert(level.wf()) by {
                    assert forall|i: int|
                        0 <= i < level.entities@.len() implies coord_in_grid(
                        (#[trigger] level.entities@[i]).spec_position(),
                        level.board@,
                    ) by {
                        if i != pi as int {
                            assert(level.entities@[i] == es[i]);
                        }
                    }
                }
            }
            Some(level)
        },
    }
}

/// Folds one decoded intent into the game model: moving pushes the old
/// world onto the undo history, undo pops it, reset restores the oldest
/// snapshot, and the zoom intents switch the rendering density.
pub fn update(model: &mut Model, msg: GameAction) -> (r: Option<GameAction>)
    requires
        old(model).soko_game.current_state.wf(),
    ensures
        r is None,
        final(model).worlds@ == old(model).worlds@,
        final(model).world_index == old(model).world_index,
        final(model).save_file == old(model).save_file,
        match msg {
            GameAction::Quit => final(model).running_state == RunningState::Menu && final(model).soko_game.current_state == old(model).soko_game.current_state && final(model).soko_game.history@ == old(model).soko_game.history@ && final(model).soko_game.zoom
                == old(model).soko_game.zoom,
            GameAction::Move(direction) => final(model).running_state == old(model).running_state
                && final(model).soko_game.zoom == old(model).soko_game.zoom && (((final(model).soko_game.current_state == old(model).soko_game.current_state) && final(model).soko_game.history@ == old(model).soko_game.history@ && spec_move_applies(
                old(model).soko_game.current_state,
                direction,
                None,
            )) || (final(model).soko_game.history@.len() == old(model).soko_game.history@.len() + 1
                && final(model).soko_game.history@.subrange(
                0,
                old(model).soko_game.history@.len() as int,
            ) == old(model).soko_game.history@ && final(model).soko_game.history@.last().name@
                == old(model).soko_game.current_state.name@ && final(model).soko_game.history@.last().board@ == old(model).soko_game.current_state.board@
                && final(model).soko_game.history@.last().entities@ == old(model).soko_game.current_state.entities@
                && final(model).soko_game.history@.last().camera_position == old(model).soko_game.current_state.camera_position && spec_move_applies(
                old(model).soko_game.current_state,
                direction,
                Some(final(model).soko_game.current_state),
            ))),
            GameAction::Undo => final(model).running_state == old(model).running_state && final(model).soko_game.zoom == old(model).soko_game.zoom && (if old(model).soko_game.history@.len() > 0 {
                final(model).soko_game.current_state == old(model).soko_game.history@.last()
                    && final(model).soko_game.history@ == old(model).soko_game.history@.drop_last()
            } else {
                final(model).soko_game.current_state == old(model).soko_game.current_state && final(model).soko_game.history@ == old(model).soko_game.history@
            }),
            GameAction::Reset => final(model).running_state == old(model).running_state && final(model).soko_game.zoom == old(model).soko_game.zoom && final(model).soko_game.history@.len()
                == old(model).soko_game.history@.len() + 1 && final(model).soko_game.history@.subrange(0, old(model).soko_game.history@.len() as int) == old(model).soko_game.history@
                && final(model).soko_game.history@.last().name@ == old(model).soko_game.current_state.name@
                && final(model).soko_game.history@.last().board@ == old(model).soko_game.current_state.board@
                && final(model).soko_game.history@.last().entities@ == old(model).soko_game.current_state.entities@
                && final(model).soko_game.history@.last().camera_position == old(model).soko_game.current_state.camera_position && (if old(model).soko_game.history@.len() > 0 {
                final(model).soko_game.current_state.name@ == old(model).soko_game.history@[0].name@ && final(model).soko_game.current_state.board@ == old(model).soko_game.history@[0].board@ && final(model).soko_game.current_state.entities@
                    == old(model).soko_game.history@[0].entities@ && final(model).soko_game.current_state.camera_position == old(model).soko_game.history@[0].camera_position
            } else {
                final(model).soko_game.current_state.name@ == old(model).soko_game.current_state.name@ && final(model).soko_game.current_state.board@
                    == old(model).soko_game.current_state.board@ && final(model).soko_game.current_state.entities@ == old(model).soko_game.current_state.entities@
                    && final(model).soko_game.current_state.camera_position == old(model).soko_game.current_state.camera_position
            }),
            GameAction::ZoomClose => final(model).soko_game.zoom == Zoom::Close && final(model).soko_game.current_state == old(model).soko_game.current_state && final(model).soko_game.history@ == old(model).soko_game.history@ && final(model).running_state
                == old(model).running_state,
            GameAction::ZoomMiddle => final(model).soko_game.zoom == Zoom::Middle && final(model).soko_game.current_state == old(model).soko_game.current_state && final(model).soko_game.history@ == old(model).soko_game.history@ && final(model).running_state
                == old(model).running_state,
            GameAction::ZoomFar => final(model).soko_game.zoom == Zoom::Far && final(model).soko_game.current_state == old(model).soko_game.current_state && final(model).soko_game.history@ == old(model).soko_game.history@ && final(model).running_state
                == old(model).running_state,
            GameAction::Idle => final(model).soko_game.current_state == old(model).soko_game.current_state && final(model).soko_game.history@ == old(model).soko_game.history@ && final(model).soko_game.zoom == old(model).soko_game.zoom
                && final(model).running_state == old(model).running_state,
            GameAction::Win => final(model).soko_game.current_state == old(model).soko_game.current_state && final(model).soko_game.history@ == old(model).soko_game.history@ && final(model).soko_game.zoom == old(model).soko_game.zoom
                && final(model).running_state == old(model).running_state,
        },
{
    match msg {
        GameAction::Quit => {
            model.running_state = RunningState::Menu;
        },
        GameAction::Move(direction) => {
            let new_level = handle_move(&model.soko_game.current_state, direction);
            match new_level {
                Some(new_level) => {
                    let snapshot = model.soko_game.current_state.duplicate();
                    model.soko_game.history.push(snapshot);
                    model.soko_game.current_state = new_level;
                    proof {
                        assert(final(model).soko_game.history@.subrange(
                            0,
                            old(model).soko_game.history@.len() as int,
                        ) =~= old(model).soko_game.history@);
                    }
                },
                None => {},
            }
        },
        GameAction::Undo => {
            match model.soko_game.history.pop() {
                Some(prev_level) => {
                    model.soko_game.current_state = prev_level;
                },
                None => {},
            }
        },
        GameAction::Reset => {
            let snapshot = model.soko_game.current_state.duplicate();
            model.soko_game.history.push(snapshot);
            let oldest = model.soko_game.history[0].duplicate();
            model.soko_game.current_state = oldest;
            proof {
                assert(final(model).soko_game.history@.subrange(
                    0,
                    old(model).soko_game.history@.len() as int,
                ) =~= old(model).soko_game.history@);
            }
        },
        GameAction::ZoomClose => {
            model.soko_game.zoom = Zoom::Close;
        },
        GameAction::ZoomMiddle => {
            model.soko_game.zoom = Zoom::Middle;
        },
        GameAction::ZoomFar => {
            model.soko_game.zoom = Zoom::Far;
        },
        GameAction::Idle => {},
        GameAction::Win => {},
    }
    None
}

/// Movement rejects wall entry: when the player's destination tile is a
/// wall, resolving the move changes nothing.
pub proof fn lemma_move_rejects_wall(w: World, d: Direction, pi: int, r: Option<World>)
    requires
        is_first_player(w.entities@, pi),
        coord_in_grid(spec_new_position(w.entities@[pi].spec_position(), d), w.board@),
        w.board@[spec_new_position(w.entities@[pi].spec_position(), d).y as int][spec_new_position(
            w.entities@[pi].spec_position(),
            d,
        ).x as int] == Tile::Wall,
        spec_move_applies(w, d, r),
    ensures
        r is None,
{
}

/// Push validity: with the player next to a box and a wall behind the
/// box in the push direction, the compound move is fully rejected.
pub proof fn lemma_push_into_wall_rejected(w: World, d: Direction, pi: int, r: Option<World>)
    requires
        is_first_player(w.entities@, pi),
        spec_box_at(w.entities@, spec_new_position(w.entities@[pi].spec_position(), d)),
        coord_in_grid(
            spec_new_position(spec_new_position(w.entities@[pi].spec_position(), d), d),
            w.board@,
        ),
        w.board@[spec_new_position(
            spec_new_position(w.entities@[pi].spec_position(), d),
            d,
        ).y as int][spec_new_position(
            spec_new_position(w.entities@[pi].spec_position(), d),
            d,
        ).x as int] == Tile::Wall,
        spec_move_applies(w, d, r),
    ensures
        r is None,
{
    let np = spec_new_position(w.entities@[pi].spec_position(), d);
    let npp = spec_new_position(np, d);
    assert(w.spec_tile_occupied(npp));
    assert(spec_push_blocked(w, np, d));
}

/// Push success: with the player next to a box and open, unoccupied
/// floor behind it, the player takes the box's old cell and the box
/// takes the next cell along the direction.
pub proof fn lemma_push_success(w: World, d: Direction, pi: int, bi: int, r: Option<World>)
    requires
        is_first_player(w.entities@, pi),
        coord_in_grid(spec_new_position(w.entities@[pi].spec_position(), d), w.board@),
        w.board@[spec_new_position(w.entities@[pi].spec_position(), d).y as int][spec_new_position(
            w.entities@[pi].spec_position(),
            d,
        ).x as int] != Tile::Wall,
        is_last_box_at(w.entities@, bi, spec_new_position(w.entities@[pi].spec_position(), d)),
        coord_in_grid(
            spec_new_position(spec_new_position(w.entities@[pi].spec_position(), d), d),
            w.board@,
        ),
        !w.spec_tile_occupied(
            spec_new_position(spec_new_position(w.entities@[pi].spec_position(), d), d),
        ),
        spec_move_applies(w, d, r),
    ensures
        r matches Some(w2) && w2.entities@[pi].spec_position() == spec_new_position(
            w.entities@[pi].spec_position(),
            d,
        ) && w2.entities@[bi].spec_position() == spec_new_position(
            spec_new_position(w.entities@[pi].spec_position(), d),
            d,
        ),
{
    let np = spec_new_position(w.entities@[pi].spec_position(), d);
    assert(spec_box_at(w.entities@, np));
    assert(!spec_push_blocked(w, np, d));
    assert(spec_move_outcome(w, d, pi, r));
    let bj = choose|bj: int|
        #[trigger] is_last_box_at(w.entities@, bj, np) && (r matches Some(w2) && world_matches(
            w2,
            w,
            w.entities@.update(pi, Entity::Player { position: np }).update(
                bj,
                Entity::SokoBox { position: spec_new_position(np, d) },
            ),
        ));
    assert(bj == bi);
    assert(pi != bi);
}

} // verus!
