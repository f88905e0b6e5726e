use vstd::prelude::*;

use crate::hardware::button::{button_step, ButtonView};
use crate::hardware::lock::{unlock_action, LockId};
use crate::hardware::speaker::ding_action;
use crate::hardware::{HardwareAction, HardwareBus};

verus! {

/// The four top buttons of the box.
#[derive(Clone, Copy, Debug, PartialEq, Eq, Structural)]
pub enum ButtonId {
    A,
    B,
    C,
    D,
}

/// The order in which the top buttons open the box, from the math puzzle: B, A, C, D.
pub open spec fn entry_sequence() -> Seq<ButtonId> {
    seq![ButtonId::B, ButtonId::A, ButtonId::C, ButtonId::D]
}

/// The abstract state of the entry puzzle.
pub struct EntryPuzzleView {
    /// How many buttons of `entry_sequence()` have been pressed correctly in a row.
    pub current_index: nat,
    pub is_complete: bool,
}

impl EntryPuzzleView {
    /// The states the puzzle can be in: it is complete exactly when the whole sequence
    /// has been entered.
    pub open spec fn wf(self) -> bool {
        &&& self.current_index <= 4
        &&& (self.is_complete <==> self.current_index == 4)
    }
}

/// One press of `pressed` on a box whose speaker wraps at `top` and whose entry lock is
/// `lock`: the next state and the actions requested, in order.
///
/// A complete puzzle ignores the press. The next button of the sequence lights the
/// internal LED and advances; the last one also completes the puzzle, dings and pulses
/// the lock. Any other button turns the LED off and restarts the sequence.
pub open spec fn entry_step(s: EntryPuzzleView, pressed: ButtonId, top: u16, lock: LockId) -> (
    EntryPuzzleView,
    Seq<HardwareAction>,
) {
    if s.is_complete {
        (s, seq![])
    } else if pressed == entry_sequence()[s.current_index as int] {
        if s.current_index + 1 == 4 {
            (
                EntryPuzzleView { current_index: 4, is_complete: true },
                seq![HardwareAction::SetInternalLed(true), ding_action(top), unlock_action(lock)],
            )
        } else {
            (
                EntryPuzzleView { current_index: s.current_index + 1, is_complete: false },
                seq![HardwareAction::SetInternalLed(true)],
            )
        }
    } else {
        (EntryPuzzleView { current_index: 0, is_complete: false }, seq![HardwareAction::SetInternalLed(false)])
    }
}

/// The presses `presses`, in order, from state `s`: the final state and all the actions
/// requested, in order.
#[verifier::opaque]
pub open spec fn entry_run(s: EntryPuzzleView, presses: Seq<ButtonId>, top: u16, lock: LockId) -> (
    EntryPuzzleView,
    Seq<HardwareAction>,
)
    decreases presses.len(),
{
    if presses.len() == 0 {
        (s, seq![])
    } else {
        let before = entry_run(s, presses.drop_last(), top, lock);
        let last = entry_step(before.0, presses.last(), top, lock);
        (last.0, before.1 + last.1)
    }
}

/// `presses` followed by `id` when `pressed` holds.
pub open spec fn push_if(presses: Seq<ButtonId>, pressed: bool, id: ButtonId) -> Seq<ButtonId> {
    if pressed {
        presses.push(id)
    } else {
        presses
    }
}

/// The buttons reported pressed in one update, in the order they are checked: A, B, C, D.
pub open spec fn pressed_buttons(a: bool, b: bool, c: bool, d: bool) -> Seq<ButtonId> {
    push_if(push_if(push_if(push_if(seq![], a, ButtonId::A), b, ButtonId::B), c, ButtonId::C), d, ButtonId::D)
}

/// The buttons that one update at `now_ms` finds pressed, in order.
pub open spec fn update_presses(hardware: &HardwareBus, now_ms: u64) -> Seq<ButtonId> {
    pressed_buttons(
        button_step(hardware.top_button_a@, now_ms).1,
        button_step(hardware.top_button_b@, now_ms).1,
        button_step(hardware.top_button_c@, now_ms).1,
        button_step(hardware.top_button_d@, now_ms).1,
    )
}

/// The entry puzzle after one update from state `s` on `hardware` at `now_ms`.
pub open spec fn entry_update_state(s: EntryPuzzleView, hardware: &HardwareBus, now_ms: u64) -> EntryPuzzleView {
    entry_run(s, update_presses(hardware, now_ms), hardware.speaker.top, hardware.lock1.id).0
}

/// What one update from puzzle state `s` at `now_ms` does to the hardware, from `before`
/// to `after`: each top button steps as `button_step` says, the other devices stay as
/// they were, and the actions of the presses are requested after those already requested.
pub open spec fn entry_update_post(s: EntryPuzzleView, before: &HardwareBus, now_ms: u64, after: &HardwareBus) -> bool {
    &&& after.top_button_a@ == button_step(before.top_button_a@, now_ms).0
    &&& after.top_button_b@ == button_step(before.top_button_b@, now_ms).0
    &&& after.top_button_c@ == button_step(before.top_button_c@, now_ms).0
    &&& after.top_button_d@ == button_step(before.top_button_d@, now_ms).0
    &&& after.adc_toggle_switch == before.adc_toggle_switch
    &&& after.speaker == before.speaker
    &&& after.lock1 == before.lock1
    &&& after.lock2 == before.lock2
    &&& after.lock3 == before.lock3
    &&& after.actions@ == before.actions@ + entry_run(
        s,
        update_presses(before, now_ms),
        before.speaker.top,
        before.lock1.id,
    ).1
}

/// Running one more press is one more step after the run.
pub proof fn lemma_entry_run_push(
    s: EntryPuzzleView,
    presses: Seq<ButtonId>,
    id: ButtonId,
    top: u16,
    lock: LockId,
)
    ensures
        entry_run(s, presses.push(id), top, lock) == ({
            let before = entry_run(s, presses, top, lock);
            let last = entry_step(before.0, id, top, lock);
            (last.0, before.1 + last.1)
        }),
{
    reveal(entry_run);
    assert(presses.push(id).drop_last() =~= presses);
}

/// Running no press changes nothing and requests nothing.
pub proof fn lemma_entry_run_empty(s: EntryPuzzleView, top: u16, lock: LockId)
    ensures
        entry_run(s, seq![], top, lock) == (s, Seq::<HardwareAction>::empty()),
{
    reveal(entry_run);
}

/// The entry puzzle: the four top buttons must be pressed in the right order.
pub struct EntryButtonComboPuzzle {
    expected_sequence: [ButtonId; 4],
    current_index: usize,
    is_complete: bool,
}

impl View for EntryButtonComboPuzzle {
    type V = EntryPuzzleView;

    closed spec fn view(&self) -> EntryPuzzleView {
        EntryPuzzleView { current_index: self.current_index as nat, is_complete: self.is_complete }
    }
}

impl EntryButtonComboPuzzle {
    #[verifier::type_invariant]
    spec fn inv(self) -> bool {
        &&& self.expected_sequence@ == entry_sequence()
        &&& self@.wf()
    }

    /// The puzzle at rest: nothing entered yet.
    pub fn new() -> (puzzle: Self)
        ensures
            puzzle@ == (EntryPuzzleView { current_index: 0, is_complete: false }),
    {
        let puzzle = EntryButtonComboPuzzle {
            expected_sequence: [ButtonId::B, ButtonId::A, ButtonId::C, ButtonId::D],
            current_index: 0,
            is_complete: false,
        };
        assert(puzzle.expected_sequence@ == entry_sequence());
        puzzle
    }

    /// Updates the puzzle from the top buttons.
    ///
    /// Each of the four top buttons (A to D, in that order) is checked for a debounced
    /// press at `now_ms`; each press reported is handled as the next input of the
    /// sequence (see `entry_step`). The buttons step as `button_step` says; the other
    /// devices are left as they were, and the actions of the presses are requested in order.
    pub fn update(&mut self, hardware: &mut HardwareBus, now_ms: u64)
        ensures
            final(self)@ == entry_update_state(old(self)@, &*old(hardware), now_ms),
            entry_update_post(old(self)@, &*old(hardware), now_ms, &*final(hardware)),
            final(self)@.wf(),
    {
        let ghost s0 = self@;
        let ghost a0 = hardware.actions@;
        let ghost top = hardware.speaker.top;
        let ghost lock = hardware.lock1.id;
        proof {
            lemma_entry_run_empty(s0, top, lock);
            assert(hardware.actions@ =~= a0 + Seq::<HardwareAction>::empty());
        }
        let ghost none: Seq<ButtonId> = seq![];
        let pa = hardware.top_button_a.check_pressed(now_ms);
        self.handle_if_pressed(pa, ButtonId::A, hardware, Ghost(s0), Ghost(none), Ghost(a0));
        let ghost done = push_if(none, pa, ButtonId::A);
        let pb = hardware.top_button_b.check_pressed(now_ms);
        self.handle_if_pressed(pb, ButtonId::B, hardware, Ghost(s0), Ghost(done), Ghost(a0));
        let ghost done = push_if(done, pb, ButtonId::B);
        let pc = hardware.top_button_c.check_pressed(now_ms);
        self.handle_if_pressed(pc, ButtonId::C, hardware, Ghost(s0), Ghost(done), Ghost(a0));
        let ghost done = push_if(done, pc, ButtonId::C);
        let pd = hardware.top_button_d.check_pressed(now_ms);
        self.handle_if_pressed(pd, ButtonId::D, hardware, Ghost(s0), Ghost(done), Ghost(a0));
        proof { use_type_invariant(&*self); }
    }

    /// Handles `id` as the next input when its press was `reported`, extending the run
    /// of the presses `done` already handled since state `s0`.
    fn handle_if_pressed(
        &mut self,
        reported: bool,
        id: ButtonId,
        hardware: &mut HardwareBus,
        Ghost(s0): Ghost<EntryPuzzleView>,
        Ghost(done): Ghost<Seq<ButtonId>>,
        Ghost(a0): Ghost<Seq<HardwareAction>>,
    )
        requires
            old(self)@ == entry_run(s0, done, old(hardware).speaker.top, old(hardware).lock1.id).0,
            old(hardware).actions@ == a0 + entry_run(s0, done, old(hardware).speaker.top, old(hardware).lock1.id).1,
        ensures
            final(self)@ == entry_run(s0, push_if(done, reported, id), old(hardware).speaker.top, old(hardware).lock1.id).0,
            final(hardware).actions@ == a0 + entry_run(
                s0,
                push_if(done, reported, id),
                old(hardware).speaker.top,
                old(hardware).lock1.id,
            ).1,
            final(hardware).same_devices(&*old(hardware)),
    {
        if reported {
            proof { lemma_entry_run_push(s0, done, id, hardware.speaker.top, hardware.lock1.id); }
            self.handle_sequence_input(id, hardware);
            assert(hardware.actions@ =~= a0 + entry_run(s0, done.push(id), hardware.speaker.top, hardware.lock1.id).1);
        }
    }

    /// Handles a single button press and validates it against the expected sequence
    /// (see `entry_step`): the matching button lights the internal LED and advances, and
    /// completing the sequence also dings and pulses lock 1; a wrong button turns the LED
    /// off and restarts the sequence. A complete puzzle ignores the press.
    fn handle_sequence_input(&mut self, pressed: ButtonId, hardware: &mut HardwareBus)
        ensures
            ({
                let step = entry_step(old(self)@, pressed, old(hardware).speaker.top, old(hardware).lock1.id);
                &&& final(self)@ == step.0
                &&& final(hardware).actions@ == old(hardware).actions@ + step.1
            }),
            final(hardware).same_devices(&*old(hardware)),
    {
        proof {
            use_type_invariant(&*self);
        }
        let ghost a0 = hardware.actions@;
        if self.is_complete {
            assert(hardware.actions@ =~= a0 + seq![]);
            return;
        }
        if pressed == self.expected_sequence[self.current_index] {
            hardware.perform(HardwareAction::SetInternalLed(true));
            let next = self.current_index + 1;
            if next == self.expected_sequence.len() {
                *self = EntryButtonComboPuzzle { current_index: next, is_complete: true, ..*self };
                let ding = hardware.speaker.ding();
                hardware.perform(ding);
                let unlock = hardware.lock1.unlock();
                hardware.perform(unlock);
                assert(hardware.actions@ =~= a0 + seq![
                    HardwareAction::SetInternalLed(true),
                    ding_action(hardware.speaker.top),
                    unlock_action(hardware.lock1.id),
                ]);
            } else {
                *self = EntryButtonComboPuzzle { current_index: next, ..*self };
                assert(hardware.actions@ =~= a0 + seq![HardwareAction::SetInternalLed(true)]);
            }
        } else {
            hardware.perform(HardwareAction::SetInternalLed(false));
            *self = EntryButtonComboPuzzle { current_index: 0, ..*self };
            assert(hardware.actions@ =~= a0 + seq![HardwareAction::SetInternalLed(false)]);
        }
    }

    /// Returns whether the sequence has been entered completely (and the lock triggered).
    pub fn is_complete(&self) -> (complete: bool)
        ensures
            complete == self@.is_complete,
    {
        self.is_complete
    }
}

} // verus!

verus! {

/// How many lock pulses `actions` requests.
pub open spec fn pulse_count(actions: Seq<HardwareAction>) -> nat
    decreases actions.len(),
{
    if actions.len() == 0 {
        0
    } else {
        pulse_count(actions.drop_last()) + if actions.last() is PulseLock {
            1nat
        } else {
            0nat
        }
    }
}

proof fn lemma_pulse_count_concat(a: Seq<HardwareAction>, b: Seq<HardwareAction>)
    ensures
        pulse_count(a + b) == pulse_count(a) + pulse_count(b),
    decreases b.len(),
{
    if b.len() == 0 {
        assert(a + b =~= a);
    } else {
        lemma_pulse_count_concat(a, b.drop_last());
        assert((a + b).drop_last() =~= a + b.drop_last());
    }
}

proof fn lemma_entry_run_wf(s: EntryPuzzleView, presses: Seq<ButtonId>, top: u16, lock: LockId)
    requires
        s.wf(),
    ensures
        entry_run(s, presses, top, lock).0.wf(),
        s.is_complete ==> entry_run(s, presses, top, lock).0.is_complete,
    decreases presses.len(),
{
    reveal(entry_run);
    if presses.len() > 0 {
        lemma_entry_run_wf(s, presses.drop_last(), top, lock);
    }
}

/// Once the sequence has been entered, the puzzle stays complete: any further presses
/// leave it as it is and request nothing.
pub proof fn complete_entry_puzzle_ignores_presses(
    s: EntryPuzzleView,
    presses: Seq<ButtonId>,
    top: u16,
    lock: LockId,
)
    requires
        s.wf(),
        s.is_complete,
    ensures
        entry_run(s, presses, top, lock) == (s, Seq::<HardwareAction>::empty()),
    decreases presses.len(),
{
    reveal(entry_run);
    if presses.len() > 0 {
        complete_entry_puzzle_ignores_presses(s, presses.drop_last(), top, lock);
        assert(Seq::<HardwareAction>::empty() + Seq::<HardwareAction>::empty() =~= Seq::<HardwareAction>::empty());
    }
}

/// The entry lock is pulsed at most once, whatever buttons are pressed: exactly once if
/// the presses complete the puzzle, and never otherwise.
pub proof fn entry_lock_pulsed_at_most_once(
    s: EntryPuzzleView,
    presses: Seq<ButtonId>,
    top: u16,
    lock: LockId,
)
    requires
        s.wf(),
    ensures
        pulse_count(entry_run(s, presses, top, lock).1) == if !s.is_complete && entry_run(
            s,
            presses,
            top,
            lock,
        ).0.is_complete {
            1nat
        } else {
            0nat
        },
    decreases presses.len(),
{
    reveal(entry_run);
    if presses.len() == 0 {
        assert(pulse_count(Seq::<HardwareAction>::empty()) == 0);
    } else {
        let before = entry_run(s, presses.drop_last(), top, lock);
        let last = entry_step(before.0, presses.last(), top, lock);
        entry_lock_pulsed_at_most_once(s, presses.drop_last(), top, lock);
        lemma_entry_run_wf(s, presses.drop_last(), top, lock);
        lemma_pulse_count_concat(before.1, last.1);
        reveal_with_fuel(pulse_count, 4);
        if before.0.is_complete {
            assert(last.1 =~= Seq::<HardwareAction>::empty());
        } else if presses.last() == entry_sequence()[before.0.current_index as int] {
            if before.0.current_index + 1 == 4 {
                assert(last.1.drop_last().drop_last().drop_last() =~= Seq::<HardwareAction>::empty());
            } else {
                assert(last.1.drop_last() =~= Seq::<HardwareAction>::empty());
            }
        } else {
            assert(last.1.drop_last() =~= Seq::<HardwareAction>::empty());
        }
    }
}

/// From rest, the progress shown by the puzzle is the run of correct presses at the end
/// of the input: while incomplete, its last `current_index` presses are the first
/// `current_index` buttons of the sequence.
pub proof fn entry_progress_is_trailing_run(presses: Seq<ButtonId>, top: u16, lock: LockId)
    ensures
        ({
            let s = entry_run(EntryPuzzleView { current_index: 0, is_complete: false }, presses, top, lock).0;
            &&& s.wf()
            &&& !s.is_complete ==> s.current_index <= presses.len() && presses.subrange(
                presses.len() - s.current_index,
                presses.len() as int,
            ) == entry_sequence().take(s.current_index as int)
        }),
    decreases presses.len(),
{
    reveal(entry_run);
    let rest = EntryPuzzleView { current_index: 0, is_complete: false };
    lemma_entry_run_wf(rest, presses, top, lock);
    if presses.len() == 0 {
        assert(presses.subrange(0, 0) =~= entry_sequence().take(0));
    } else {
        let w = presses.drop_last();
        entry_progress_is_trailing_run(w, top, lock);
        let before = entry_run(rest, w, top, lock).0;
        let n = presses.len() as int;
        if !before.is_complete {
            let i = before.current_index as int;
            if presses.last() == entry_sequence()[i] {
                assert(presses.subrange(n - (i + 1), n) =~= w.subrange(n - 1 - i, n - 1).push(presses.last()));
                assert(entry_sequence().take(i + 1) =~= entry_sequence().take(i).push(entry_sequence()[i]));
            } else {
                assert(presses.subrange(n, n) =~= entry_sequence().take(0));
            }
        }
    }
}

/// From rest, whatever buttons are pressed: the puzzle stays well formed; once complete
/// it stays complete under any further presses; and lock 1 has been pulsed exactly once
/// if it is complete, never otherwise.
pub proof fn entry_puzzle_from_rest(presses: Seq<ButtonId>, top: u16, lock: LockId)
    ensures
        ({
            let rest = EntryPuzzleView { current_index: 0, is_complete: false };
            let run = entry_run(rest, presses, top, lock);
            &&& run.0.wf()
            &&& pulse_count(run.1) == if run.0.is_complete {
                1nat
            } else {
                0nat
            }
            &&& forall|n: int|
                0 <= n <= presses.len() && (#[trigger] entry_run(rest, presses.take(n), top, lock)).0.is_complete
                    ==> run.0.is_complete
        }),
    decreases presses.len(),
{
    let rest = EntryPuzzleView { current_index: 0, is_complete: false };
    lemma_entry_run_wf(rest, presses, top, lock);
    entry_lock_pulsed_at_most_once(rest, presses, top, lock);
    if presses.len() == 0 {
        assert(presses.take(0) =~= presses);
    } else {
        let w = presses.drop_last();
        entry_puzzle_from_rest(w, top, lock);
        lemma_entry_run_wf(rest, w, top, lock);
        assert(w.push(presses.last()) =~= presses);
        lemma_entry_run_push(rest, w, presses.last(), top, lock);
        assert forall|n: int|
            0 <= n <= presses.len() && (#[trigger] entry_run(rest, presses.take(n), top, lock)).0.is_complete
                implies entry_run(rest, presses, top, lock).0.is_complete by {
            if n < presses.len() {
                assert(presses.take(n) =~= w.take(n));
            } else {
                assert(presses.take(n) =~= presses);
            }
        }
    }
}

/// The order that opens the box, written out.
pub open spec fn opening_order() -> Seq<ButtonId> {
    seq![ButtonId::B, ButtonId::A, ButtonId::C, ButtonId::D]
}

/// A wrong button restarts the sequence: on an incomplete puzzle, a press other than the
/// next button of B, A, C, D leaves it incomplete at the start, turns the internal LED off
/// and requests nothing else (in particular, no lock pulse).
pub proof fn wrong_press_restarts_sequence(s: EntryPuzzleView, pressed: ButtonId, top: u16, lock: LockId)
    requires
        s.wf(),
        !s.is_complete,
        pressed != opening_order()[s.current_index as int],
    ensures
        entry_step(s, pressed, top, lock) == (
            EntryPuzzleView { current_index: 0, is_complete: false },
            seq![HardwareAction::SetInternalLed(false)],
        ),
{
}

/// The right button advances: on an incomplete puzzle, the next button of B, A, C, D
/// lights the internal LED and advances by one; the fourth completes the puzzle, dings at
/// half of `top` for 10 000 cycles and pulses `lock` for 200 ms.
pub proof fn right_press_advances_sequence(s: EntryPuzzleView, pressed: ButtonId, top: u16, lock: LockId)
    requires
        s.wf(),
        !s.is_complete,
        pressed == opening_order()[s.current_index as int],
    ensures
        ({
            let (next, actions) = entry_step(s, pressed, top, lock);
            &&& next.current_index == s.current_index + 1
            &&& next.is_complete <==> s.current_index == 3
            &&& actions == if s.current_index == 3 {
                seq![
                    HardwareAction::SetInternalLed(true),
                    HardwareAction::Tone { duty: top / 2, hold_cycles: 10_000 },
                    HardwareAction::PulseLock { lock, pulse_ms: 200 },
                ]
            } else {
                seq![HardwareAction::SetInternalLed(true)]
            }
        }),
{
}

proof fn lemma_entry_run_concat(
    s: EntryPuzzleView,
    p: Seq<ButtonId>,
    q: Seq<ButtonId>,
    top: u16,
    lock: LockId,
)
    ensures
        entry_run(s, p + q, top, lock) == ({
            let first = entry_run(s, p, top, lock);
            let second = entry_run(first.0, q, top, lock);
            (second.0, first.1 + second.1)
        }),
    decreases q.len(),
{
    reveal(entry_run);
    if q.len() == 0 {
        assert(p + q =~= p);
        let first = entry_run(s, p, top, lock);
        assert(first.1 + Seq::<HardwareAction>::empty() =~= first.1);
    } else {
        lemma_entry_run_concat(s, p, q.drop_last(), top, lock);
        assert((p + q).drop_last() =~= p + q.drop_last());
        let first = entry_run(s, p, top, lock);
        let mid = entry_run(first.0, q.drop_last(), top, lock);
        let last = entry_step(mid.0, q.last(), top, lock);
        assert(first.1 + mid.1 + last.1 =~= first.1 + (mid.1 + last.1));
    }
}

/// From rest, the box opens only on the right order: if the presses complete the puzzle,
/// then some four consecutive presses among them are B, A, C, D.
pub proof fn entry_completes_only_after_opening_order(presses: Seq<ButtonId>, top: u16, lock: LockId)
    requires
        entry_run(EntryPuzzleView { current_index: 0, is_complete: false }, presses, top, lock).0.is_complete,
    ensures
        exists|n: int| 4 <= n <= presses.len() && #[trigger] presses.subrange(n - 4, n) == opening_order(),
    decreases presses.len(),
{
    reveal(entry_run);
    let rest = EntryPuzzleView { current_index: 0, is_complete: false };
    let len = presses.len() as int;
    if len == 0 {
        assert(false);
    }
    let w = presses.drop_last();
    let before = entry_run(rest, w, top, lock).0;
    if before.is_complete {
        entry_completes_only_after_opening_order(w, top, lock);
        let n = choose|n: int| 4 <= n <= w.len() && #[trigger] w.subrange(n - 4, n) == opening_order();
        assert(presses.subrange(n - 4, n) =~= w.subrange(n - 4, n));
    } else {
        entry_progress_is_trailing_run(w, top, lock);
        assert(before.current_index == 3);
        assert(presses.subrange(len - 4, len) =~= w.subrange(len - 4, len - 1).push(presses.last()));
        assert(entry_sequence().take(3).push(entry_sequence()[3]) =~= opening_order());
        assert(presses.subrange(len - 4, len) == opening_order());
    }
}

/// Entering B, A, C, D on a puzzle at rest completes it, with one lock pulse: whatever
/// presses came before, as long as they left the puzzle at rest.
pub proof fn opening_order_completes_from_rest(before: Seq<ButtonId>, top: u16, lock: LockId)
    requires
        entry_run(EntryPuzzleView { current_index: 0, is_complete: false }, before, top, lock).0
            == (EntryPuzzleView { current_index: 0, is_complete: false }),
    ensures
        ({
            let rest = EntryPuzzleView { current_index: 0, is_complete: false };
            let run = entry_run(rest, before + opening_order(), top, lock);
            &&& run.0.is_complete
            &&& pulse_count(run.1) == 1
        }),
{
    let rest = EntryPuzzleView { current_index: 0, is_complete: false };
    lemma_entry_run_concat(rest, before, opening_order(), top, lock);
    reveal_with_fuel(entry_run, 5);
    let o = opening_order();
    assert(o.drop_last() =~= seq![ButtonId::B, ButtonId::A, ButtonId::C]);
    assert(o.drop_last().drop_last() =~= seq![ButtonId::B, ButtonId::A]);
    assert(o.drop_last().drop_last().drop_last() =~= seq![ButtonId::B]);
    assert(o.drop_last().drop_last().drop_last().drop_last() =~= Seq::<ButtonId>::empty());
    assert(entry_run(rest, o, top, lock).0.is_complete);
    entry_puzzle_from_rest(before + o, top, lock);
}

} // verus!

