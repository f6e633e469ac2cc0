//! The menu screen's state transitions. Drawing the menu and erasing
//! the save file on disk are the host shell's work; the model updates
//! live here.

use vstd::prelude::*;

use crate::types::MenuAction;
use crate::types::Model;
use crate::types::RunningState;
use crate::types::SaveFile;
use crate::types::Zoom;

verus! {

/// Folds a menu intent into the model: starting the game moves to the
/// level select, quitting ends the loop, and erasing the save data
/// resets the save file and returns play to the first level.
pub fn update(model: &mut Model, msg: MenuAction) -> (r: Option<MenuAction>)
    requires
        msg == MenuAction::EraseSaveData ==> old(model).worlds@.len() > 0,
    ensures
        r is None,
        final(model).worlds@ == old(model).worlds@,
        match msg {
            MenuAction::StartGame => final(model).running_state == RunningState::LevelSelect
                && final(model).world_index == old(model).world_index && final(model).save_file
                == old(model).save_file,
            MenuAction::Quit => final(model).running_state == RunningState::Done && final(model).world_index == old(model).world_index && final(model).save_file == old(model).save_file,
            MenuAction::EraseSaveData => final(model).running_state == old(model).running_state
                && final(model).world_index == 0 && final(model).save_file.saves@.len() == 1
                && final(model).save_file.saves@[0].level == 0 && final(model).soko_game.current_state.name@ == old(model).worlds@[0].name@ && final(model).soko_game.current_state.board@ == old(model).worlds@[0].board@ && final(model).soko_game.current_state.entities@ == old(model).worlds@[0].entities@ && final(model).soko_game.zoom == Zoom::Middle && final(model).soko_game.history@.len() == 0,
        },
{
    match msg {
        MenuAction::StartGame => {
            model.running_state = RunningState::LevelSelect;
        },
        MenuAction::Quit => {
            model.running_state = RunningState::Done;
        },
        MenuAction::EraseSaveData => {
            // when the save data goes, play returns to the first level;
            // deleting the file itself is the host shell's job
            model.save_file = SaveFile::new();
            model.change_level(0);
        },
    }
    None
}

} // verus!
