use vstd::prelude::*;

verus! {

/// The abstract state of a debounced button: what `check_pressed` reads and writes.
pub struct ButtonView {
    /// The level last sampled from the pull-up input: `true` while the button is held down.
    pub pin_low: bool,
    /// Timestamp (in ms) of the last accepted press event.
    pub last_pressed_ms: u64,
    /// Minimum interval (in ms) required between accepted presses.
    pub debounce_ms: u64,
    /// Whether the button was seen pressed and has not been released since.
    pub was_pressed: bool,
}

/// One call of `check_pressed` at time `now_ms`: the next state and whether a press is reported.
///
/// A press is reported only on a released-to-pressed edge, and only once the debounce
/// interval has elapsed since the last accepted press (the elapsed time saturates at 0
/// when the clock is behind the last press).
pub open spec fn button_step(s: ButtonView, now_ms: u64) -> (ButtonView, bool) {
    if s.pin_low {
        if !s.was_pressed && now_ms.saturating_sub(s.last_pressed_ms) >= s.debounce_ms {
            (ButtonView { was_pressed: true, last_pressed_ms: now_ms, ..s }, true)
        } else {
            (s, false)
        }
    } else {
        (ButtonView { was_pressed: false, ..s }, false)
    }
}

/// A debounced button.
///
/// It tracks the level sampled from its GPIO input and the last time it was pressed,
/// applying a configurable debounce interval to filter out mechanical switch chatter.
pub struct Button {
    pin_low: bool,
    last_pressed_ms: u64,
    debounce_ms: u64,
    was_pressed: bool,
}

impl View for Button {
    type V = ButtonView;

    closed spec fn view(&self) -> ButtonView {
        ButtonView {
            pin_low: self.pin_low,
            last_pressed_ms: self.last_pressed_ms,
            debounce_ms: self.debounce_ms,
            was_pressed: self.was_pressed,
        }
    }
}

impl Button {
    /// Creates a new debounced button with the given debounce interval in milliseconds.
    /// The button starts released, with no press recorded.
    pub fn new(debounce_ms: u64) -> (button: Self)
        ensures
            button@ == (ButtonView {
                pin_low: false,
                last_pressed_ms: 0,
                debounce_ms,
                was_pressed: false,
            }),
    {
        Button { pin_low: false, last_pressed_ms: 0, debounce_ms, was_pressed: false }
    }

    /// Records the level just sampled from the button's input: `true` when the pull-up
    /// input reads low, that is, while the button is held down.
    pub fn sample(&mut self, pin_low: bool)
        ensures
            final(self)@ == (ButtonView { pin_low, ..old(self)@ }),
    {
        self.pin_low = pin_low;
    }

    /// Checks whether the button has just been pressed, with debouncing.
    ///
    /// Returns `true` only once per physical press: on the first call that sees the
    /// button held after it was released, and only when at least the debounce interval
    /// has elapsed since the last accepted press. A call that sees the button released
    /// re-arms the edge detection.
    pub fn check_pressed(&mut self, now_ms: u64) -> (pressed: bool)
        ensures
            (final(self)@, pressed) == button_step(old(self)@, now_ms),
    {
        let pressed = self.pin_low;
        if pressed {
            if !self.was_pressed && now_ms.saturating_sub(self.last_pressed_ms) >= self.debounce_ms {
                self.was_pressed = true;
                self.last_pressed_ms = now_ms;
                return true;
            }
        } else {
            self.was_pressed = false;
        }
        false
    }
}

} // verus!

verus! {

/// Checks of a button, in order: for each, the level sampled just before it (`true` while
/// held) and the time of the check, as `sample(level)` then `check_pressed(now_ms)` do.
/// The result is the final state and, for each check, whether it reported a press.
pub open spec fn button_run(s: ButtonView, checks: Seq<(bool, u64)>) -> (ButtonView, Seq<bool>)
    decreases checks.len(),
{
    if checks.len() == 0 {
        (s, seq![])
    } else {
        let before = button_run(s, checks.drop_last());
        let step = button_step(ButtonView { pin_low: checks.last().0, ..before.0 }, checks.last().1);
        (step.0, before.1.push(step.1))
    }
}

/// Some check strictly between checks `i` and `j` saw the button released.
pub open spec fn released_between(checks: Seq<(bool, u64)>, i: int, j: int) -> bool {
    exists|k: int| i < k < j && !(#[trigger] checks[k]).0
}

proof fn lemma_button_run(s: ButtonView, checks: Seq<(bool, u64)>)
    ensures
        ({
            let (last, reported) = button_run(s, checks);
            let n = checks.len() as int;
            &&& reported.len() == n
            &&& last.debounce_ms == s.debounce_ms
            &&& forall|i: int|
                0 <= i < n && #[trigger] reported[i] ==> last.was_pressed || released_between(checks, i, n)
            &&& s.debounce_ms > 0 ==> last.last_pressed_ms >= s.last_pressed_ms
            &&& s.debounce_ms > 0 ==> forall|i: int|
                0 <= i < n && #[trigger] reported[i] ==> last.last_pressed_ms >= checks[i].1
                    && checks[i].1 >= s.last_pressed_ms + s.debounce_ms
            &&& forall|i: int, j: int|
                0 <= i < j < n && #[trigger] reported[i] && #[trigger] reported[j] ==> released_between(
                    checks,
                    i,
                    j,
                )
            &&& forall|i: int, j: int|
                0 <= i < j < n && #[trigger] reported[i] && #[trigger] reported[j] && checks[i].1
                    <= checks[j].1 ==> checks[j].1 - checks[i].1 >= s.debounce_ms
        }),
    decreases checks.len(),
{
    if checks.len() > 0 {
        let w = checks.drop_last();
        lemma_button_run(s, w);
        let before = button_run(s, w);
        let n = checks.len() - 1;
        let pre = ButtonView { pin_low: checks.last().0, ..before.0 };
        let step = button_step(pre, checks.last().1);
        let (last, reported) = button_run(s, checks);
        assert(reported == before.1.push(step.1));
        assert forall|i: int|
            0 <= i < n + 1 && #[trigger] reported[i] implies last.was_pressed || released_between(checks, i, n + 1) by {
            if i < n {
                assert(before.1[i]);
                if before.0.was_pressed {
                    if !checks.last().0 {
                        assert(!checks[n].0);
                    }
                } else {
                    let k = choose|k: int| i < k < n && !(#[trigger] w[k]).0;
                    assert(checks[k] == w[k]);
                }
            }
        }
        assert forall|i: int, j: int|
            0 <= i < j < n + 1 && #[trigger] reported[i] && #[trigger] reported[j] implies released_between(
                checks,
                i,
                j,
            ) by {
            assert(before.1[i]);
            if j < n {
                assert(before.1[j]);
                let k = choose|k: int| i < k < j && !(#[trigger] w[k]).0;
                assert(checks[k] == w[k]);
            } else {
                assert(!before.0.was_pressed);
                let k = choose|k: int| i < k < n && !(#[trigger] w[k]).0;
                assert(checks[k] == w[k]);
            }
        }
        if s.debounce_ms > 0 {
            assert forall|i: int|
                0 <= i < n + 1 && #[trigger] reported[i] implies last.last_pressed_ms >= checks[i].1
                && checks[i].1 >= s.last_pressed_ms + s.debounce_ms by {
                if i < n {
                    assert(before.1[i]);
                    assert(checks[i] == w[i]);
                }
            }
        }
        assert forall|i: int, j: int|
            0 <= i < j < n + 1 && #[trigger] reported[i] && #[trigger] reported[j] && checks[i].1
                <= checks[j].1 implies checks[j].1 - checks[i].1 >= s.debounce_ms by {
            assert(before.1[i]);
            assert(checks[i] == w[i]);
            if j < n {
                assert(before.1[j]);
                assert(checks[j] == w[j]);
            }
        }
    }
}

/// A press held down is reported at most once, however long it is held: between any two
/// checks that report a press, some check in between saw the button released.
pub proof fn held_press_reported_once(s: ButtonView, checks: Seq<(bool, u64)>)
    ensures
        forall|i: int, j: int|
            0 <= i < j < checks.len() && #[trigger] button_run(s, checks).1[i] && #[trigger] button_run(
                s,
                checks,
            ).1[j] ==> released_between(checks, i, j),
{
    lemma_button_run(s, checks);
}

/// Reported presses are debounced: any two reported presses whose times are in order
/// are at least `debounce_ms` apart, and with a positive interval every reported press
/// comes at least `debounce_ms` after the last press recorded in the starting state (for a
/// new button, which records one at 0, no press is reported before `debounce_ms`).
pub proof fn reported_presses_are_debounced(s: ButtonView, checks: Seq<(bool, u64)>)
    ensures
        forall|i: int, j: int|
            0 <= i < j < checks.len() && #[trigger] button_run(s, checks).1[i] && #[trigger] button_run(
                s,
                checks,
            ).1[j] && checks[i].1 <= checks[j].1 ==> checks[j].1 - checks[i].1 >= s.debounce_ms,
        s.debounce_ms > 0 ==> forall|i: int|
            0 <= i < checks.len() && #[trigger] button_run(s, checks).1[i] ==> checks[i].1
                >= s.last_pressed_ms + s.debounce_ms,
{
    lemma_button_run(s, checks);
}

/// A check within the debounce interval of the last accepted press reports nothing and
/// changes nothing but the sampled level.
pub proof fn press_within_debounce_is_ignored(s: ButtonView, now_ms: u64)
    requires
        now_ms.saturating_sub(s.last_pressed_ms) < s.debounce_ms,
    ensures
        button_step(s, now_ms) == (if s.pin_low {
            (s, false)
        } else {
            (ButtonView { was_pressed: false, ..s }, false)
        }),
{
}

/// Releasing the button re-arms it: a check that sees the button released reports
/// nothing and keeps the last accepted press and the interval, and the next check that
/// sees it held reports a press exactly when at least `debounce_ms` have passed since the
/// last accepted press.
pub proof fn release_rearms_button(s: ButtonView, released_ms: u64, held_ms: u64)
    ensures
        ({
            let released = button_step(ButtonView { pin_low: false, ..s }, released_ms);
            let held = button_step(ButtonView { pin_low: true, ..released.0 }, held_ms);
            &&& !released.1
            &&& released.0.last_pressed_ms == s.last_pressed_ms
            &&& released.0.debounce_ms == s.debounce_ms
            &&& (held.1 <==> (held_ms >= s.last_pressed_ms && held_ms - s.last_pressed_ms >= s.debounce_ms)
                || (held_ms < s.last_pressed_ms && s.debounce_ms == 0))
            &&& held.1 ==> held.0.last_pressed_ms == held_ms
        }),
{
}

} // verus!

