pub mod active_toggle_puzzle;
pub mod entry_button_sequence_puzzle;

use vstd::prelude::*;

use crate::hardware::HardwareBus;
use crate::puzzles::active_toggle_puzzle::{toggle_step, ActiveTogglePuzzle, ToggleView};

verus! {

/// A puzzle of the active stage.
pub trait Puzzle {
    /// Called each tick to update puzzle state.
    fn update(&mut self, hardware: &mut HardwareBus, now_ms: u64);

    /// Returns true if the puzzle is complete.
    fn is_complete(&self) -> bool;

    /// Returns true if the puzzle is unlocked and can be played.
    fn is_unlocked(&self) -> bool;

    /// Makes the puzzle playable.
    fn unlock(&mut self);
}

/// The puzzles that can make up the active stage.
#[derive(Clone, Copy)]
pub enum ActivePuzzleTypes {
    TogglePuzzle(ActiveTogglePuzzle),
}

/// The abstract state of a puzzle of the active stage.
pub enum ActivePuzzleView {
    TogglePuzzle(ToggleView),
}

impl View for ActivePuzzleTypes {
    type V = ActivePuzzleView;

    open spec fn view(&self) -> ActivePuzzleView {
        match self {
            ActivePuzzleTypes::TogglePuzzle(p) => ActivePuzzleView::TogglePuzzle(p@),
        }
    }
}

impl ActivePuzzleView {
    pub open spec fn is_complete(self) -> bool {
        match self {
            ActivePuzzleView::TogglePuzzle(p) => p.is_complete,
        }
    }

    pub open spec fn is_unlocked(self) -> bool {
        match self {
            ActivePuzzleView::TogglePuzzle(p) => p.unlocked,
        }
    }

    /// One update of the puzzle while the toggle switches read `value`.
    pub open spec fn step(self, value: u8) -> ActivePuzzleView {
        match self {
            ActivePuzzleView::TogglePuzzle(p) => ActivePuzzleView::TogglePuzzle(toggle_step(p, value)),
        }
    }
}

} // verus!
