use vstd::prelude::*;

use crate::hardware::adc_toggle_switch::toggle_value;
use crate::hardware::HardwareBus;
use crate::puzzles::Puzzle;

verus! {

/// The switch positions to set, in order, to solve the toggle puzzle.
pub open spec fn toggle_sequence() -> Seq<u8> {
    seq![3u8, 7u8, 12u8, 5u8]
}

/// The abstract state of the toggle puzzle.
pub struct ToggleView {
    pub is_complete: bool,
    pub unlocked: bool,
    /// How many positions of `toggle_sequence()` have been matched so far.
    pub phase: nat,
}

impl ToggleView {
    /// The states the puzzle can be in: it is complete exactly when all four positions
    /// have been matched.
    pub open spec fn wf(self) -> bool {
        &&& self.phase <= 4
        &&& (self.is_complete <==> self.phase == 4)
    }
}

/// One update of the puzzle while the switches read `value`: a locked or complete puzzle
/// ignores it; otherwise the value advances the puzzle when it is the next position of
/// the sequence, and is ignored when it is not. Matching the last position completes it.
pub open spec fn toggle_step(s: ToggleView, value: u8) -> ToggleView {
    if s.is_complete || !s.unlocked {
        s
    } else if value == toggle_sequence()[s.phase as int] {
        ToggleView { phase: s.phase + 1, is_complete: s.phase + 1 >= 4, ..s }
    } else {
        s
    }
}

/// The switch value a hardware bus presents to the puzzles.
pub open spec fn switch_value(hardware: &HardwareBus) -> u8 {
    toggle_value(
        match hardware.adc_toggle_switch@ {
            Some(r) => r,
            None => 0u16,
        },
    )
}

/// A puzzle solved by setting the toggle switches to a secret sequence of positions.
#[derive(Clone, Copy)]
pub struct ActiveTogglePuzzle {
    is_complete: bool,
    unlocked: bool,
    phase: usize,
    sequence: [u8; 4],
}

impl View for ActiveTogglePuzzle {
    type V = ToggleView;

    closed spec fn view(&self) -> ToggleView {
        ToggleView { is_complete: self.is_complete, unlocked: self.unlocked, phase: self.phase as nat }
    }
}

impl ActiveTogglePuzzle {
    #[verifier::type_invariant]
    spec fn inv(self) -> bool {
        &&& self.sequence@ == toggle_sequence()
        &&& self@.wf()
    }

    /// The puzzle at rest: locked, incomplete, nothing matched.
    pub fn new() -> (puzzle: Self)
        ensures
            puzzle@ == (ToggleView { is_complete: false, unlocked: false, phase: 0 }),
    {
        let puzzle = ActiveTogglePuzzle {
            is_complete: false,
            unlocked: false,
            phase: 0,
            sequence: [3, 7, 12, 5],
        };
        assert(puzzle.sequence@ == toggle_sequence());
        puzzle
    }

    /// Whether an update while the switches read `value` would complete this puzzle now.
    pub fn completes_with(&self, value: u8) -> (completes: bool)
        ensures
            completes == (!self@.is_complete && toggle_step(self@, value).is_complete),
    {
        proof {
            use_type_invariant(self);
        }
        !self.is_complete && self.unlocked && value == self.sequence[self.phase] && self.phase + 1
            >= self.sequence.len()
    }
}

impl Puzzle for ActiveTogglePuzzle {
    /// Reads the toggle switches and advances the puzzle as `toggle_step` says; the
    /// hardware is left as it was.
    fn update(&mut self, hardware: &mut HardwareBus, now_ms: u64)
        ensures
            final(self)@ == toggle_step(old(self)@, switch_value(old(hardware))),
            final(self)@.wf(),
            *final(hardware) == *old(hardware),
    {
        proof {
            use_type_invariant(&*self);
        }
        if self.is_complete || !self.unlocked {
            return;
        }
        let value = hardware.read_toggle_switch_value();
        if value == self.sequence[self.phase] {
            let next = self.phase + 1;
            *self = ActiveTogglePuzzle { phase: next, is_complete: next >= self.sequence.len(), ..*self };
        }
    }

    fn is_complete(&self) -> (complete: bool)
        ensures
            complete == self@.is_complete,
    {
        self.is_complete
    }

    fn is_unlocked(&self) -> (unlocked: bool)
        ensures
            unlocked == self@.unlocked,
    {
        self.unlocked
    }

    fn unlock(&mut self)
        ensures
            final(self)@ == (ToggleView { unlocked: true, ..old(self)@ }),
    {
        proof {
            use_type_invariant(&*self);
        }
        self.unlocked = true;
    }
}

} // verus!

verus! {

/// The switch values `values`, read by successive updates from state `s`: the final state.
pub open spec fn toggle_run(s: ToggleView, values: Seq<u8>) -> ToggleView
    decreases values.len(),
{
    if values.len() == 0 {
        s
    } else {
        toggle_step(toggle_run(s, values.drop_last()), values.last())
    }
}

/// `pattern` occurs in `values` in order, not necessarily contiguously: some strictly
/// increasing positions of `values` hold the elements of `pattern`.
pub open spec fn is_subsequence(pattern: Seq<u8>, values: Seq<u8>) -> bool {
    exists|idx: Seq<int>| #[trigger] subsequence_witness(pattern, values, idx)
}

/// `idx` lists strictly increasing positions of `values` that hold `pattern`, in order.
pub open spec fn subsequence_witness(pattern: Seq<u8>, values: Seq<u8>, idx: Seq<int>) -> bool {
    &&& idx.len() == pattern.len()
    &&& forall|i: int| 0 <= i < idx.len() ==> 0 <= #[trigger] idx[i] < values.len() && values[idx[i]] == pattern[i]
    &&& forall|i: int, j: int| 0 <= i < j < idx.len() ==> idx[i] < idx[j]
}

proof fn lemma_subsequence_empty(pattern: Seq<u8>)
    ensures
        is_subsequence(pattern, Seq::<u8>::empty()) <==> pattern.len() == 0,
{
    if pattern.len() == 0 {
        assert(subsequence_witness(pattern, Seq::<u8>::empty(), Seq::<int>::empty()));
    }
    if is_subsequence(pattern, Seq::<u8>::empty()) {
        let idx = choose|idx: Seq<int>| subsequence_witness(pattern, Seq::<u8>::empty(), idx);
        if pattern.len() > 0 {
            let first = idx[0];
            assert(0 <= first < Seq::<u8>::empty().len());
        }
    }
}

/// `pattern` occurs in `values` followed by `x` exactly when it occurs in `values`, or
/// its last element is `x` and the rest of it occurs in `values`.
proof fn lemma_subsequence_push(pattern: Seq<u8>, values: Seq<u8>, x: u8)
    ensures
        is_subsequence(pattern, values.push(x)) <==> (is_subsequence(pattern, values) || (pattern.len() > 0
            && pattern.last() == x && is_subsequence(pattern.drop_last(), values))),
{
    let v = values.push(x);
    if is_subsequence(pattern, values) {
        let idx = choose|idx: Seq<int>| subsequence_witness(pattern, values, idx);
        assert(subsequence_witness(pattern, v, idx));
    }
    if pattern.len() > 0 && pattern.last() == x && is_subsequence(pattern.drop_last(), values) {
        let idx = choose|idx: Seq<int>| subsequence_witness(pattern.drop_last(), values, idx);
        let idx2 = idx.push(values.len() as int);
        assert(subsequence_witness(pattern, v, idx2));
    }
    if is_subsequence(pattern, v) {
        let idx = choose|idx: Seq<int>| subsequence_witness(pattern, v, idx);
        if pattern.len() == 0 {
            assert(subsequence_witness(pattern, values, idx));
        } else {
            let n = idx.len() - 1;
            if idx[n] < values.len() {
                assert forall|i: int| 0 <= i < idx.len() implies 0 <= #[trigger] idx[i] < values.len()
                    && values[idx[i]] == pattern[i] by {
                    if i < n {
                        assert(idx[i] < idx[n]);
                    }
                }
                assert(subsequence_witness(pattern, values, idx));
            } else {
                let idx2 = idx.drop_last();
                assert forall|i: int| 0 <= i < idx2.len() implies 0 <= #[trigger] idx2[i] < values.len()
                    && values[idx2[i]] == pattern.drop_last()[i] by {
                    assert(idx[i] < idx[n]);
                }
                assert(subsequence_witness(pattern.drop_last(), values, idx2));
            }
        }
    }
}

/// From rest, an unlocked toggle puzzle has matched at least `k` positions exactly when
/// the first `k` positions of the sequence occur in order among the readings.
pub proof fn toggle_phase_counts_matched_prefix(values: Seq<u8>, k: nat)
    requires
        k <= 4,
    ensures
        ({
            let s = toggle_run(ToggleView { is_complete: false, unlocked: true, phase: 0 }, values);
            &&& s.wf()
            &&& s.unlocked
            &&& (s.phase >= k <==> is_subsequence(toggle_sequence().take(k as int), values))
        }),
    decreases values.len(),
{
    let s0 = ToggleView { is_complete: false, unlocked: true, phase: 0 };
    let pat = toggle_sequence().take(k as int);
    if values.len() == 0 {
        lemma_subsequence_empty(pat);
        assert(values =~= Seq::<u8>::empty());
    } else {
        let w = values.drop_last();
        let x = values.last();
        assert(w.push(x) =~= values);
        toggle_phase_counts_matched_prefix(w, k);
        lemma_subsequence_push(pat, w, x);
        if k > 0 {
            toggle_phase_counts_matched_prefix(w, (k - 1) as nat);
            assert(pat.drop_last() =~= toggle_sequence().take(k - 1));
        }
    }
}

/// From rest, an unlocked toggle puzzle is complete exactly when the switches have shown
/// 3, 7, 12 and 5 in that order, with any other readings in between.
pub proof fn toggle_puzzle_completes_on_subsequence(values: Seq<u8>)
    ensures
        toggle_run(ToggleView { is_complete: false, unlocked: true, phase: 0 }, values).is_complete
            <==> is_subsequence(toggle_sequence(), values),
{
    toggle_phase_counts_matched_prefix(values, 4);
    assert(toggle_sequence().take(4) =~= toggle_sequence());
}

/// From rest, the phase of an unlocked toggle puzzle is the length of the longest prefix
/// of 3, 7, 12, 5 that occurs in order (not necessarily contiguously) among the readings.
pub proof fn toggle_phase_is_longest_matched_prefix(values: Seq<u8>)
    ensures
        ({
            let s = toggle_run(ToggleView { is_complete: false, unlocked: true, phase: 0 }, values);
            &&& s.phase <= 4
            &&& is_subsequence(toggle_sequence().take(s.phase as int), values)
            &&& s.phase < 4 ==> !is_subsequence(toggle_sequence().take(s.phase + 1int), values)
        }),
{
    let s = toggle_run(ToggleView { is_complete: false, unlocked: true, phase: 0 }, values);
    toggle_phase_counts_matched_prefix(values, 0);
    toggle_phase_counts_matched_prefix(values, s.phase);
    if s.phase < 4 {
        toggle_phase_counts_matched_prefix(values, (s.phase + 1) as nat);
    }
}

/// A locked toggle puzzle ignores the switches: any readings leave it as it is.
pub proof fn locked_toggle_puzzle_ignores_switches(s: ToggleView, values: Seq<u8>)
    requires
        !s.unlocked,
    ensures
        toggle_run(s, values) == s,
    decreases values.len(),
{
    if values.len() > 0 {
        locked_toggle_puzzle_ignores_switches(s, values.drop_last());
    }
}

} // verus!
