use vstd::prelude::*;

use crate::hardware::HardwareBus;
use crate::puzzles::active_toggle_puzzle::{switch_value, ActiveTogglePuzzle, ToggleView};
use crate::puzzles::entry_button_sequence_puzzle::{
    entry_update_post, entry_update_state, EntryButtonComboPuzzle, EntryPuzzleView,
};
use crate::puzzles::{ActivePuzzleTypes, ActivePuzzleView, Puzzle};

verus! {

#[verifier::external_type_specification]
#[verifier::external_body]
#[verifier::reject_recursive_types(T)]
pub struct ExHeaplessVec<T, const N: usize>(heapless::Vec<T, N>);

/// The puzzles held by a fixed-capacity list of the active stage, in order.
pub uninterp spec fn stage_puzzles(v: heapless::Vec<ActivePuzzleTypes, 2>) -> Seq<ActivePuzzleTypes>;

/// `heapless::Vec::new`: an empty list.
#[verifier::external_body]
fn new_puzzle_list() -> (v: heapless::Vec<ActivePuzzleTypes, 2>)
    ensures
        stage_puzzles(v) == Seq::<ActivePuzzleTypes>::empty(),
{
    heapless::Vec::new()
}

/// `heapless::Vec::push`: appends `p` when fewer than 2 puzzles are held (the
/// capacity) and returns `Ok`; otherwise returns `Err` holding `p` and leaves the list
/// as it was. The result is reported as `true` for `Ok`.
#[verifier::external_body]
fn push_puzzle(v: &mut heapless::Vec<ActivePuzzleTypes, 2>, p: ActivePuzzleTypes) -> (pushed: bool)
    ensures
        pushed <==> stage_puzzles(*old(v)).len() < 2,
        stage_puzzles(*final(v)) == if stage_puzzles(*old(v)).len() < 2 {
            stage_puzzles(*old(v)).push(p)
        } else {
            stage_puzzles(*old(v))
        },
{
    match v.push(p) {
        Ok(()) => true,
        Err(_) => false,
    }
}

/// The number of puzzles held (`len` of the slice the list dereferences to).
#[verifier::external_body]
fn puzzle_count(v: &heapless::Vec<ActivePuzzleTypes, 2>) -> (n: usize)
    ensures
        n == stage_puzzles(*v).len(),
{
    v.len()
}

/// A copy of the puzzle at `i` (indexing the slice the list dereferences to).
#[verifier::external_body]
fn puzzle_at(v: &heapless::Vec<ActivePuzzleTypes, 2>, i: usize) -> (p: ActivePuzzleTypes)
    requires
        i < stage_puzzles(*v).len(),
    ensures
        p == stage_puzzles(*v)[i as int],
{
    v[i]
}

/// Replaces the puzzle at `i` by `p` (indexing the slice the list dereferences to).
#[verifier::external_body]
fn set_puzzle_at(v: &mut heapless::Vec<ActivePuzzleTypes, 2>, i: usize, p: ActivePuzzleTypes)
    requires
        i < stage_puzzles(*old(v)).len(),
    ensures
        stage_puzzles(*final(v)) == stage_puzzles(*old(v)).update(i as int, p),
{
    v[i] = p;
}

/// The stages of the puzzle box.
pub enum PuzzleBoxStage {
    /// Waiting to be started.
    Entry(EntryStage),
    /// Timer has started and waiting for all puzzles to be completed.
    Active(ActiveStage),
    FinalTest,
    Failed,
    Success,
}

/// The abstract state of the stage the box is in.
pub enum StageView {
    Entry(EntryPuzzleView),
    Active(ActiveStageView),
    FinalTest,
    Failed,
    Success,
}

impl View for PuzzleBoxStage {
    type V = StageView;

    open spec fn view(&self) -> StageView {
        match self {
            PuzzleBoxStage::Entry(stage) => StageView::Entry(stage@),
            PuzzleBoxStage::Active(stage) => StageView::Active(stage@),
            PuzzleBoxStage::FinalTest => StageView::FinalTest,
            PuzzleBoxStage::Failed => StageView::Failed,
            PuzzleBoxStage::Success => StageView::Success,
        }
    }
}

/// How far along the box is: entry, then active, then the final test; failure and
/// success are the ends.
pub open spec fn stage_rank(stage: StageView) -> nat {
    match stage {
        StageView::Entry(_) => 0,
        StageView::Active(_) => 1,
        StageView::FinalTest => 2,
        StageView::Failed => 3,
        StageView::Success => 3,
    }
}

/// The entry stage: the button-sequence puzzle must be solved to start the box.
pub struct EntryStage {
    puzzle: EntryButtonComboPuzzle,
}

impl View for EntryStage {
    type V = EntryPuzzleView;

    closed spec fn view(&self) -> EntryPuzzleView {
        self.puzzle@
    }
}

impl EntryStage {
    /// The entry stage with its puzzle at rest.
    pub fn new() -> (stage: Self)
        ensures
            stage@ == (EntryPuzzleView { current_index: 0, is_complete: false }),
    {
        EntryStage { puzzle: EntryButtonComboPuzzle::new() }
    }

    /// Updates the entry puzzle from the top buttons and returns whether it is complete.
    pub fn update(&mut self, hardware: &mut HardwareBus, now_ms: u64) -> (complete: bool)
        ensures
            final(self)@ == entry_update_state(old(self)@, &*old(hardware), now_ms),
            entry_update_post(old(self)@, &*old(hardware), now_ms, &*final(hardware)),
            final(self)@.wf(),
            complete == final(self)@.is_complete,
    {
        self.puzzle.update(hardware, now_ms);
        self.puzzle.is_complete()
    }
}

/// The abstract state of the active stage.
pub struct ActiveStageView {
    pub puzzles: Seq<ActivePuzzleView>,
    pub is_complete: bool,
}

/// Whether every puzzle in `puzzles` is complete.
pub open spec fn all_complete(puzzles: Seq<ActivePuzzleView>) -> bool {
    forall|i: int| 0 <= i < puzzles.len() ==> (#[trigger] puzzles[i]).is_complete()
}

/// Whether an update while the switches read `value` would complete `puzzle`, which the
/// stage does not handle yet: unlocking the next puzzle is still to be written.
pub open spec fn completes_now(puzzle: ActivePuzzleView, value: u8) -> bool {
    !puzzle.is_complete() && puzzle.step(value).is_complete()
}

/// Whether an update of an active stage in state `stage` while the switches read `value`
/// is handled: it must complete none of the puzzles.
pub open spec fn update_supported(stage: ActiveStageView, value: u8) -> bool {
    forall|i: int| 0 <= i < stage.puzzles.len() ==> !completes_now(#[trigger] stage.puzzles[i], value)
}

/// The active stage as it starts: the toggle puzzle, locked and at rest.
pub open spec fn fresh_active_stage() -> ActiveStageView {
    ActiveStageView {
        puzzles: seq![ActivePuzzleView::TogglePuzzle(ToggleView { is_complete: false, unlocked: false, phase: 0 })],
        is_complete: false,
    }
}

/// The active stage: the timer runs while its puzzles are played.
pub struct ActiveStage {
    puzzles: heapless::Vec<ActivePuzzleTypes, 2>,
    is_complete: bool,
}

impl View for ActiveStage {
    type V = ActiveStageView;

    closed spec fn view(&self) -> ActiveStageView {
        ActiveStageView {
            puzzles: stage_puzzles(self.puzzles).map_values(|p: ActivePuzzleTypes| p@),
            is_complete: self.is_complete,
        }
    }
}

impl ActiveStage {
    /// The active stage with the toggle puzzle, locked and at rest.
    pub fn new() -> (stage: Self)
        ensures
            stage@ == fresh_active_stage(),
    {
        let mut puzzles = new_puzzle_list();
        let toggle = ActiveTogglePuzzle::new();
        let _ = push_puzzle(&mut puzzles, ActivePuzzleTypes::TogglePuzzle(toggle));
        let stage = ActiveStage { puzzles, is_complete: false };
        assert(stage@.puzzles =~= fresh_active_stage().puzzles);
        stage
    }

    /// Whether `update` can run on `hardware`: no puzzle would be completed by it, since
    /// unlocking the puzzle that follows a completed one is not written yet.
    pub fn can_update(&self, hardware: &HardwareBus) -> (supported: bool)
        ensures
            supported == update_supported(self@, switch_value(hardware)),
    {
        let value = hardware.read_toggle_switch_value();
        let n = puzzle_count(&self.puzzles);
        let mut k: usize = 0;
        while k < n
            invariant
                k <= n,
                n == self@.puzzles.len(),
                n == stage_puzzles(self.puzzles).len(),
                value == switch_value(hardware),
                forall|j: int| 0 <= j < k ==> !completes_now(#[trigger] self@.puzzles[j], value),
            decreases n - k,
        {
            let puzzle = puzzle_at(&self.puzzles, k);
            assert(self@.puzzles[k as int] == puzzle@);
            let completes = match puzzle {
                ActivePuzzleTypes::TogglePuzzle(p) => p.completes_with(value),
            };
            if completes {
                return false;
            }
            k = k + 1;
        }
        true
    }

    /// Updates each unlocked, incomplete puzzle from the hardware, then records and
    /// returns whether every puzzle is complete. The hardware is left as it was.
    pub fn update(&mut self, hardware: &mut HardwareBus, now_ms: u64) -> (complete: bool)
        requires
            update_supported(old(self)@, switch_value(&*old(hardware))),
        ensures
            final(self)@.puzzles == old(self)@.puzzles.map_values(
                |p: ActivePuzzleView| p.step(switch_value(&*old(hardware))),
            ),
            final(self)@.is_complete == all_complete(final(self)@.puzzles),
            complete == final(self)@.is_complete,
            *final(hardware) == *old(hardware),
    {
        let ghost value = switch_value(&*hardware);
        let ghost start = stage_puzzles(self.puzzles);
        let n = puzzle_count(&self.puzzles);
        let mut i: usize = 0;
        while i < n
            invariant
                n == start.len(),
                i <= n,
                *hardware == *old(hardware),
                value == switch_value(&*hardware),
                stage_puzzles(self.puzzles).len() == n,
                forall|j: int| i <= j < n ==> stage_puzzles(self.puzzles)[j] == start[j],
                forall|j: int| 0 <= j < i ==> (#[trigger] stage_puzzles(self.puzzles)[j])@ == start[j]@.step(value),
            decreases n - i,
        {
            let puzzle = puzzle_at(&self.puzzles, i);
            match puzzle {
                ActivePuzzleTypes::TogglePuzzle(mut p) => {
                    if p.is_unlocked() && !p.is_complete() {
                        // `update_supported` guarantees that this update completes nothing.
                        p.update(hardware, now_ms);
                    }
                    set_puzzle_at(&mut self.puzzles, i, ActivePuzzleTypes::TogglePuzzle(p));
                },
            }
            i = i + 1;
        }
        assert(self@.puzzles =~= old(self)@.puzzles.map_values(|p: ActivePuzzleView| p.step(value)));

        let mut all = true;
        let mut k: usize = 0;
        while k < n
            invariant
                k <= n,
                n == self@.puzzles.len(),
                stage_puzzles(self.puzzles).len() == n,
                all == (forall|j: int| 0 <= j < k ==> (#[trigger] self@.puzzles[j]).is_complete()),
            decreases n - k,
        {
            let puzzle = puzzle_at(&self.puzzles, k);
            let complete = match puzzle {
                ActivePuzzleTypes::TogglePuzzle(p) => p.is_complete(),
            };
            assert(self@.puzzles[k as int] == puzzle@);
            if !complete {
                all = false;
            }
            k = k + 1;
            assert(all == (forall|j: int| 0 <= j < k ==> (#[trigger] self@.puzzles[j]).is_complete())) by {
                if all {
                    assert forall|j: int| 0 <= j < k implies (#[trigger] self@.puzzles[j]).is_complete() by {
                        if j < k - 1 {
                        } else {
                            assert(j == k - 1);
                        }
                    }
                }
            }
        }
        self.is_complete = all;
        self.is_complete
    }
}

} // verus!
