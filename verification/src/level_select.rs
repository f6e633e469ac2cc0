//! The level-select screen's state transitions. Drawing the list is the
//! host shell's work; the model updates live here.

use vstd::prelude::*;

use crate::types::LevelSelectAction;
use crate::types::Model;
use crate::types::RunningState;

verus! {

/// Folds a level-select intent into the model: up and down move the
/// selection, select enters the game, quit returns to the menu.
pub fn update(model: &mut Model, msg: LevelSelectAction) -> (r: Option<LevelSelectAction>)
    requires
        old(model).world_index < old(model).worlds@.len(),
    ensures
        r is None,
        final(model).worlds@ == old(model).worlds@,
        final(model).save_file == old(model).save_file,
        match msg {
            LevelSelectAction::Quit => final(model).running_state == RunningState::Menu && final(model).world_index == old(model).world_index,
            LevelSelectAction::Select => final(model).running_state == RunningState::Game && final(model).world_index == old(model).world_index,
            LevelSelectAction::Up => final(model).running_state == old(model).running_state
                && final(model).world_index == (if old(model).world_index > 0 {
                old(model).world_index - 1
            } else {
                0int
            }),
            LevelSelectAction::Down => final(model).running_state == old(model).running_state
                && final(model).world_index == (if old(model).world_index + 1 < old(model).worlds@.len() {
                old(model).world_index + 1
            } else {
                old(model).world_index as int
            }),
        },
{
    match msg {
        LevelSelectAction::Quit => {
            model.running_state = RunningState::Menu;
        },
        LevelSelectAction::Select => {
            model.running_state = RunningState::Game;
        },
        LevelSelectAction::Up => {
            model.decrement_level();
        },
        LevelSelectAction::Down => {
            model.increment_level();
        },
    }
    None
}

} // verus!
