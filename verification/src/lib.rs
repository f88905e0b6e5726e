pub mod hardware;
pub mod puzzles;
pub mod stages;

use vstd::prelude::*;

use crate::hardware::HardwareBus;
use crate::puzzles::active_toggle_puzzle::switch_value;
use crate::puzzles::entry_button_sequence_puzzle::{entry_update_post, entry_update_state, EntryPuzzleView};
use crate::stages::{
    all_complete, fresh_active_stage, update_supported, stage_rank, ActiveStage, ActiveStageView, EntryStage,
    PuzzleBoxStage, StageView,
};

verus! {

/// The stage the box is in after one tick from `stage` with the hardware in `hardware`
/// at `now_ms`.
///
/// In the entry stage the entry puzzle is updated from the buttons; once it is complete
/// the box moves on to a fresh active stage. In the active stage its puzzles are updated
/// from the toggle switches; once all are complete the box moves on to the final test.
/// The other stages do not change.
pub open spec fn tick_stage(stage: StageView, hardware: &HardwareBus, now_ms: u64) -> StageView {
    match stage {
        StageView::Entry(puzzle) => {
            let next = entry_update_state(puzzle, hardware, now_ms);
            if next.is_complete {
                StageView::Active(fresh_active_stage())
            } else {
                StageView::Entry(next)
            }
        },
        StageView::Active(active) => {
            let value = switch_value(hardware);
            let puzzles = active.puzzles.map_values(|p: crate::puzzles::ActivePuzzleView| p.step(value));
            if all_complete(puzzles) {
                StageView::FinalTest
            } else {
                StageView::Active(ActiveStageView { puzzles, is_complete: false })
            }
        },
        other => other,
    }
}

/// Whether a tick from `stage` on `hardware` is handled: in the active stage, no puzzle
/// may be completed by it, since unlocking the puzzle that follows a completed one is
/// not written yet.
pub open spec fn tick_supported(stage: StageView, hardware: &HardwareBus) -> bool {
    match stage {
        StageView::Active(active) => update_supported(active, switch_value(hardware)),
        _ => true,
    }
}

/// The puzzle box: the stage it is in and the hardware it plays on.
pub struct PuzzleBox {
    pub current_stage: PuzzleBoxStage,
    pub hardware: HardwareBus,
}

impl PuzzleBox {
    /// Creates a puzzle box on `hardware`, in the entry stage with its puzzle at rest.
    pub fn new(hardware: HardwareBus) -> (puzzle_box: Self)
        ensures
            puzzle_box.current_stage@ == StageView::Entry(EntryPuzzleView { current_index: 0, is_complete: false }),
            puzzle_box.hardware == hardware,
    {
        let entry_stage = EntryStage::new();
        PuzzleBox { current_stage: PuzzleBoxStage::Entry(entry_stage), hardware }
    }

    /// Whether `tick` can run now: outside the active stage always; in it, when no puzzle
    /// would be completed by the update, since unlocking the puzzle that follows a
    /// completed one is not written yet.
    pub fn can_tick(&self) -> (supported: bool)
        ensures
            supported == tick_supported(self.current_stage@, &self.hardware),
    {
        match &self.current_stage {
            PuzzleBoxStage::Active(stage) => stage.can_update(&self.hardware),
            _ => true,
        }
    }

    /// Advances the puzzle box state machine by one step; call it repeatedly from the
    /// main loop with the current time in milliseconds.
    ///
    /// The stage moves as `tick_stage` says. In the entry stage the top buttons step and
    /// the actions of their presses are requested (see `entry_update_post`); otherwise
    /// the hardware is left as it was.
    pub fn tick(&mut self, now_ms: u64)
        requires
            tick_supported(old(self).current_stage@, &old(self).hardware),
        ensures
            final(self).current_stage@ == tick_stage(old(self).current_stage@, &old(self).hardware, now_ms),
            old(self).current_stage@ matches StageView::Entry(puzzle) ==> entry_update_post(
                puzzle,
                &old(self).hardware,
                now_ms,
                &final(self).hardware,
            ),
            !(old(self).current_stage@ is Entry) ==> final(self).hardware == old(self).hardware,
            stage_rank(old(self).current_stage@) <= stage_rank(final(self).current_stage@) <= stage_rank(
                old(self).current_stage@,
            ) + 1,
    {
        proof {
            tick_never_goes_back(self.current_stage@, &self.hardware, now_ms);
        }
        match &mut self.current_stage {
            PuzzleBoxStage::Entry(stage) => {
                if stage.update(&mut self.hardware, now_ms) {
                    self.current_stage = PuzzleBoxStage::Active(ActiveStage::new());
                }
            },
            PuzzleBoxStage::Active(stage) => {
                if stage.update(&mut self.hardware, now_ms) {
                    self.current_stage = PuzzleBoxStage::FinalTest;
                }
            },
            _ => {},
        }
    }
}

/// The box never goes back: a tick leaves it in the same stage or a later one, moves it
/// on by at most one stage (from entry only to active, from active only to the final
/// test), and a box that has failed or succeeded stays as it is.
pub proof fn tick_never_goes_back(stage: StageView, hardware: &HardwareBus, now_ms: u64)
    ensures
        stage_rank(stage) <= stage_rank(tick_stage(stage, hardware, now_ms)) <= stage_rank(stage) + 1,
        stage is Entry ==> tick_stage(stage, hardware, now_ms) is Entry || tick_stage(stage, hardware, now_ms) is Active,
        stage is Active ==> tick_stage(stage, hardware, now_ms) is Active || tick_stage(stage, hardware, now_ms) is FinalTest,
        (stage is FinalTest || stage is Failed || stage is Success) ==> tick_stage(stage, hardware, now_ms) == stage,
{
}

} // verus!
