//! The data model: tiles, coordinates, entities, worlds, the game model
//! and the renderer's cell and scene-graph types.

use vstd::prelude::*;

use crate::colors::spec_color;
use crate::colors::get_color;
use crate::colors::Rgb;
use crate::colors::TolColor;
use crate::grid::Board;

verus! {

/// A profile's saved progress: the level to resume at.
#[derive(Debug, Clone, PartialEq)]
pub struct Save {
    pub name: String,
    pub level: usize,
}

/// The save file: a list of saves (a single profile in practice).
#[derive(Debug, Clone, PartialEq)]
pub struct SaveFile {
    pub saves: Vec<Save>,
}

impl SaveFile {
    /// A fresh save file: one profile named `My Save`, starting at level 0.
    pub fn new() -> (s: Self)
        ensures
            s.saves@.len() == 1,
            s.saves@[0].name@ == "My Save"@,
            s.saves@[0].level == 0,
    {
        let name: String = "My Save".to_owned();
        let mut saves: Vec<Save> = Vec::new();
        saves.push(Save { name, level: 0 });
        Self { saves }
    }
}

/// Which screen the host loop is on.
#[derive(Debug, PartialEq, Eq, Structural)]
pub enum RunningState {
    Menu,
    LevelSelect,
    Game,
    Done,
}

/// A decoded intent on the menu screen.
#[derive(Debug, Clone, Copy, PartialEq, Eq, Structural)]
pub enum MenuAction {
    StartGame,
    Quit,
    EraseSaveData,
}

/// A decoded intent on the level-select screen.
#[derive(Debug, Clone, Copy, PartialEq, Eq, Structural)]
pub enum LevelSelectAction {
    Up,
    Down,
    Select,
    Quit,
}

/// A movement direction on the board.
#[derive(Debug, Clone, Copy, PartialEq, Eq, Structural)]
pub enum Direction {
    Left,
    Right,
    Up,
    Down,
}

/// A decoded intent during play. `Idle` is the do-nothing intent.
#[derive(Debug, Clone, PartialEq)]
pub enum GameAction {
    Idle,
    Quit,
    Move(Direction),
    Undo,
    Reset,
    ZoomClose,
    ZoomMiddle,
    ZoomFar,
    Win,
}

/// One of the three fixed rendering densities.
#[derive(Debug, Clone, Copy, PartialEq, Eq, Structural)]
pub enum Zoom {
    Close,
    Middle,
    Far,
}

/// A board cell's static classification.
///
/// `Empty` is definitively non-playable exterior space; only the culling
/// pass produces it. `Floor` is provisionally walkable interior space.
/// `Wall` and `Goal` are authoritative and never reclassified.
#[derive(Debug, Clone, Copy, PartialEq, Eq, Structural)]
pub enum Tile {
    Empty,
    Floor,
    Wall,
    Goal,
}

/// The colour a tile is drawn in; `Empty` paints nothing.
pub open spec fn spec_tile_color(t: Tile) -> Option<Rgb> {
    match t {
        Tile::Wall => Some(spec_color(TolColor::LigLightBlue)),
        Tile::Goal => Some(spec_color(TolColor::BriGrey)),
        Tile::Floor => Some(spec_color(TolColor::CstLigBlue)),
        Tile::Empty => None,
    }
}

impl Tile {
    /// The colour this tile is drawn in; `Empty` paints nothing.
    pub fn color(&self) -> (c: Option<Rgb>)
        ensures
            c == spec_tile_color(*self),
    {
        match self {
            Tile::Wall => Some(get_color(TolColor::LigLightBlue)),
            Tile::Goal => Some(get_color(TolColor::BriGrey)),
            Tile::Floor => Some(get_color(TolColor::CstLigBlue)),
            Tile::Empty => None,
        }
    }
}

/// A board-relative grid position: `x` is the column, `y` the row.
#[derive(Debug, Clone, Copy, PartialEq, Eq, Structural)]
pub struct Coordinate {
    pub x: usize,
    pub y: usize,
}

impl Coordinate {
    /// The position as a row-major index pair, row first.
    pub fn arr_index(&self) -> (r: [usize; 2])
        ensures
            r@.len() == 2,
            r@[0] == self.y,
            r@[1] == self.x,
    {
        [self.y, self.x]
    }
}

/// A movable piece: the player, or a pushable box.
#[derive(Debug, Clone, Copy, PartialEq, Eq, Structural)]
pub enum Entity {
    Player { position: Coordinate },
    SokoBox { position: Coordinate },
}

impl Entity {
    /// The entity's position, whichever kind it is.
    pub open spec fn spec_position(self) -> Coordinate {
        match self {
            Entity::Player { position } => position,
            Entity::SokoBox { position } => position,
        }
    }

    /// The entity's position, whichever kind it is.
    pub fn get_position(&self) -> (c: Coordinate)
        ensures
            c == self.spec_position(),
    {
        match self {
            Entity::Player { position } => *position,
            Entity::SokoBox { position } => *position,
        }
    }

    /// The colour this entity is drawn in.
    pub open spec fn spec_entity_color(self) -> Rgb {
        match self {
            Entity::Player { .. } => spec_color(TolColor::PurRed),
            Entity::SokoBox { .. } => spec_color(TolColor::BriBlue),
        }
    }

    /// The colour this entity is drawn in.
    pub fn color(&self) -> (c: Rgb)
        ensures
            c == self.spec_entity_color(),
    {
        match self {
            Entity::Player { .. } => get_color(TolColor::PurRed),
            Entity::SokoBox { .. } => get_color(TolColor::BriBlue),
        }
    }
}

/// Copies a list of entities element for element.
pub fn copy_entities(entities: &Vec<Entity>) -> (r: Vec<Entity>)
    ensures
        r@ == entities@,
{
    let mut r: Vec<Entity> = Vec::new();
    let mut i: usize = 0;
    while i < entities.len()
        invariant
            i <= entities@.len(),
            r@ == entities@.subrange(0, i as int),
        decreases entities@.len() - i,
    {
        r.push(entities[i]);
        i = i + 1;
    }
    proof {
        assert(r@ =~= entities@);
    }
    r
}

/// One playable level: a named board plus its movable entities.
#[derive(Debug)]
pub struct World {
    pub name: String,
    pub board: Board,
    pub entities: Vec<Entity>,
    pub camera_position: Coordinate,
}

/// Whether `c` is a valid cell of the board view `g`.
pub open spec fn coord_in_grid(c: Coordinate, g: Seq<Seq<Tile>>) -> bool {
    c.y < g.len() && c.x < g[c.y as int].len()
}

impl World {
    /// A world is well formed when its board is rectangular and every
    /// entity stands on a valid board cell.
    pub open spec fn wf(self) -> bool {
        &&& self.board.wf()
        &&& forall|i: int|
            0 <= i < self.entities@.len() ==> coord_in_grid(
                (#[trigger] self.entities@[i]).spec_position(),
                self.board@,
            )
    }

    /// Whether some entity stands at `c`.
    pub open spec fn spec_entity_at(self, c: Coordinate) -> bool {
        exists|i: int| 0 <= i < self.entities@.len() && (#[trigger] self.entities@[i]).spec_position() == c
    }

    /// Whether the cell at `c` is occupied: a wall, or an entity stands there.
    pub open spec fn spec_tile_occupied(self, c: Coordinate) -> bool {
        self.board@[c.y as int][c.x as int] == Tile::Wall || self.spec_entity_at(c)
    }

    /// True iff the tile at `coord` is a wall or some entity stands there.
    pub fn is_tile_occupied(&self, coord: &Coordinate) -> (r: bool)
        requires
            coord_in_grid(*coord, self.board@),
        ensures
            r == self.spec_tile_occupied(*coord),
    {
        match self.board.get(coord.y, coord.x) {
            Tile::Wall => true,
            _ => {
                let mut i: usize = 0;
                while i < self.entities.len()
                    invariant
                        i <= self.entities@.len(),
                        forall|j: int|
                            0 <= j < i ==> (#[trigger] self.entities@[j]).spec_position()
                                != *coord,
                    decreases self.entities@.len() - i,
                {
                    if self.entities[i].get_position() == *coord {
                        return true;
                    }
                    i = i + 1;
                }
                false
            },
        }
    }

    /// Whether every box stands on a goal tile.
    pub open spec fn spec_solved(self) -> bool {
        forall|i: int|
            0 <= i < self.entities@.len() ==> match #[trigger] self.entities@[i] {
                Entity::SokoBox { position } => self.board@[position.y as int][position.x as int]
                    == Tile::Goal,
                Entity::Player { .. } => true,
            }
    }

    /// True iff every box entity stands on a goal tile (vacuously true
    /// with no boxes).
    pub fn is_sokoban_solved(&self) -> (r: bool)
        requires
            self.wf(),
        ensures
            r == self.spec_solved(),
    {
        let mut i: usize = 0;
        while i < self.entities.len()
            invariant
                self.wf(),
                i <= self.entities@.len(),
                forall|j: int|
                    0 <= j < i ==> match #[trigger] self.entities@[j] {
                        Entity::SokoBox { position } => self.board@[position.y as int][position.x as int]
                            == Tile::Goal,
                        Entity::Player { .. } => true,
                    },
            decreases self.entities@.len() - i,
        {
            match &self.entities[i] {
                Entity::SokoBox { position } => {
                    match self.board.get(position.y, position.x) {
                        Tile::Goal => {},
                        _ => {
                            return false;
                        },
                    }
                },
                Entity::Player { .. } => {},
            }
            i = i + 1;
        }
        true
    }

    /// A structurally new world with the same name, board contents,
    /// entities and camera.
    pub fn duplicate(&self) -> (w: World)
        ensures
            w.name@ == self.name@,
            w.board@ == self.board@,
            w.board.wf() == self.board.wf(),
            w.entities@ == self.entities@,
            w.camera_position == self.camera_position,
            w.wf() == self.wf(),
    {
        World {
            name: self.name.clone(),
            board: self.board.duplicate(),
            entities: copy_entities(&self.entities),
            camera_position: self.camera_position,
        }
    }
}

/// The in-play state: the current world, the zoom, and the undo history.
pub struct SokoModel {
    pub current_state: World,
    pub zoom: Zoom,
    pub history: Vec<World>,
    pub debug: Vec<String>,
}

impl SokoModel {
    /// Wraps a freshly selected world: middle zoom, no history.
    pub fn from(world: World) -> (m: Self)
        ensures
            m.current_state == world,
            m.zoom == Zoom::Middle,
            m.history@.len() == 0,
            m.debug@.len() == 0,
    {
        Self { current_state: world, zoom: Zoom::Middle, history: Vec::new(), debug: Vec::new() }
    }
}

/// One terminal character position with optional foreground and
/// background colours; the renderer's output unit.
#[derive(Debug, Clone, Copy, PartialEq)]
pub struct GlyphCell {
    pub glyph: char,
    pub fg: Option<Rgb>,
    pub bg: Option<Rgb>,
}

impl GlyphCell {
    /// The blank cell: a space with no colours set.
    pub open spec fn blank() -> GlyphCell {
        GlyphCell { glyph: ' ', fg: None, bg: None }
    }

    /// A blank cell: a space with no colours set.
    pub fn new() -> (c: GlyphCell)
        ensures
            c == GlyphCell::blank(),
    {
        GlyphCell { glyph: ' ', fg: None, bg: None }
    }
}

impl Default for GlyphCell {
    /// The default cell is the blank cell.
    fn default() -> (c: Self)
        ensures
            c == GlyphCell::blank(),
    {
        GlyphCell::new()
    }
}

/// What a scene node draws: the board, or one entity.
#[derive(Debug, Clone)]
pub enum RenderItem<'a> {
    Board(&'a Board),
    Entity(&'a Entity),
}

/// A node of the scene graph: an item plus optional children.
#[derive(Debug)]
pub struct RenderNode<'a> {
    pub item: RenderItem<'a>,
    pub children: Option<Vec<RenderNode<'a>>>,
}

/// The scene graph: a root board node whose children are the entities.
#[derive(Debug)]
pub struct RenderGraph<'a> {
    pub root: RenderNode<'a>,
}

/// The whole program state the host loop steers.
pub struct Model {
    pub running_state: RunningState,
    pub soko_game: SokoModel,
    pub worlds: Vec<World>,
    pub world_index: usize,
    pub save_file: SaveFile,
}

impl Model {
    /// Switches play to the level at `level_index`: the index is stored
    /// and the game state is rebuilt from a copy of that world.
    pub fn change_level(self: &mut Model, level_index: usize)
        requires
            level_index < old(self).worlds@.len(),
        ensures
            final(self).world_index == level_index,
            final(self).soko_game.current_state.name@ == old(self).worlds@[level_index as int].name@,
            final(self).soko_game.current_state.board@ == old(self).worlds@[level_index as int].board@,
            final(self).soko_game.current_state.entities@ == old(self).worlds@[
                level_index as int
            ].entities@,
            final(self).soko_game.current_state.camera_position == old(self).worlds@[
                level_index as int
            ].camera_position,
            final(self).soko_game.current_state.wf() == old(self).worlds@[level_index as int].wf(),
            final(self).soko_game.zoom == Zoom::Middle,
            final(self).soko_game.history@.len() == 0,
            final(self).soko_game.debug@.len() == 0,
            final(self).worlds@ == old(self).worlds@,
            final(self).running_state == old(self).running_state,
            final(self).save_file == old(self).save_file,
    {
        self.world_index = level_index;
        let world = self.worlds[self.world_index].duplicate();
        self.soko_game = SokoModel::from(world);
    }

    /// Moves to the next level, unless already at the last one.
    pub fn increment_level(self: &mut Model)
        requires
            old(self).world_index < old(self).worlds@.len(),
        ensures
            old(self).world_index + 1 < old(self).worlds@.len() ==> final(self).world_index == old(self).world_index + 1 && final(self).soko_game.history@.len() == 0,
            old(self).world_index + 1 == old(self).worlds@.len() ==> *final(self) == *old(self),
            final(self).worlds@ == old(self).worlds@,
            final(self).running_state == old(self).running_state,
            final(self).save_file == old(self).save_file,
    {
        if self.world_index != self.worlds.len() - 1 {
            self.change_level(self.world_index + 1);
        }
    }

    /// Moves to the previous level, unless already at the first one.
    pub fn decrement_level(self: &mut Model)
        requires
            old(self).world_index < old(self).worlds@.len(),
        ensures
            old(self).world_index > 0 ==> final(self).world_index == old(self).world_index - 1
                && final(self).soko_game.history@.len() == 0,
            old(self).world_index == 0 ==> *final(self) == *old(self),
            final(self).worlds@ == old(self).worlds@,
            final(self).running_state == old(self).running_state,
            final(self).save_file == old(self).save_file,
    {
        if self.world_index != 0 {
            self.change_level(self.world_index - 1);
        }
    }

    /// Erasing your history, erases your past.
    pub fn erase_history(self: &mut Model)
        ensures
            final(self).soko_game.history@.len() == 0,
            final(self).soko_game.current_state == old(self).soko_game.current_state,
            final(self).soko_game.zoom == old(self).soko_game.zoom,
            final(self).worlds@ == old(self).worlds@,
            final(self).world_index == old(self).world_index,
            final(self).running_state == old(self).running_state,
    {
        self.soko_game.history.clear();
    }

    /// Let's start over from the beginning: restore the oldest snapshot
    /// (if any) and clear the history.
    pub fn refresh_window(self: &mut Model)
        ensures
            final(self).soko_game.history@.len() == 0,
            old(self).soko_game.history@.len() > 0 ==> final(self).soko_game.current_state.name@
                == old(self).soko_game.history@[0].name@
                && final(self).soko_game.current_state.board@ == old(self).soko_game.history@[0].board@ && final(self).soko_game.current_state.entities@ == old(self).soko_game.history@[0].entities@ && final(self).soko_game.current_state.camera_position
                == old(self).soko_game.history@[0].camera_position && final(self).soko_game.current_state.wf() == old(self).soko_game.history@[0].wf(),
            old(self).soko_game.history@.len() == 0 ==> final(self).soko_game.current_state == old(self).soko_game.current_state,
            final(self).worlds@ == old(self).worlds@,
            final(self).world_index == old(self).world_index,
            final(self).running_state == old(self).running_state,
    {
        if self.soko_game.history.len() > 0 {
            let prev_world_state = self.soko_game.history[0].duplicate();
            self.soko_game.current_state = prev_world_state;
        }
        self.erase_history();
    }
}

} // verus!
