use vstd::prelude::*;

verus! {

/// What a status LED shows.
#[derive(Clone, Copy, Debug, PartialEq, Eq, Structural)]
pub enum StatusLedState {
    Off,
    On,
    /// Toggling each time `period_ms` milliseconds have accumulated.
    Blinking { period_ms: u32 },
}

/// The abstract state of a status LED.
pub struct StatusLedView {
    pub state: StatusLedState,
    /// Milliseconds accumulated towards the next toggle while blinking.
    pub timer: u32,
}

/// The pin level that entering `state` drives right away: high for `On`, low for `Off`,
/// and nothing (`None`) for `Blinking`, which keeps the current level until it toggles.
pub open spec fn drive_level(state: StatusLedState) -> Option<bool> {
    match state {
        StatusLedState::On => Some(true),
        StatusLedState::Off => Some(false),
        StatusLedState::Blinking { .. } => None,
    }
}

/// One call of `update` with `elapsed_ms`: the next state and whether the pin toggles.
pub open spec fn led_step(s: StatusLedView, elapsed_ms: u32) -> (StatusLedView, bool) {
    match s.state {
        StatusLedState::Blinking { period_ms } => {
            if s.timer + elapsed_ms >= period_ms {
                (StatusLedView { timer: 0, ..s }, true)
            } else {
                (StatusLedView { timer: (s.timer + elapsed_ms) as u32, ..s }, false)
            }
        },
        _ => (s, false),
    }
}

/// A status LED on a GPIO output pin, which may be off, on or blinking.
pub struct StatusLed {
    state: StatusLedState,
    timer: u32,
}

impl View for StatusLed {
    type V = StatusLedView;

    closed spec fn view(&self) -> StatusLedView {
        StatusLedView { state: self.state, timer: self.timer }
    }
}

impl StatusLed {
    /// Creates a status LED that is off, with no time accumulated.
    pub fn new() -> (led: Self)
        ensures
            led@ == (StatusLedView { state: StatusLedState::Off, timer: 0 }),
    {
        StatusLed { state: StatusLedState::Off, timer: 0 }
    }

    /// Switches to `state`. Returns the level the pin must be driven to now: high when
    /// switched on, low when switched off, none when blinking. The blink timer is kept.
    pub fn set_state(&mut self, state: StatusLedState) -> (drive: Option<bool>)
        ensures
            final(self)@ == (StatusLedView { state, ..old(self)@ }),
            drive == drive_level(state),
    {
        self.state = state;
        match self.state {
            StatusLedState::On => Some(true),
            StatusLedState::Off => Some(false),
            StatusLedState::Blinking { .. } => None,
        }
    }

    /// Call this from the main loop with the elapsed milliseconds. While blinking, the
    /// elapsed time accumulates; once it reaches the period the timer restarts at 0 and
    /// the result is `true`: the pin must be toggled. Otherwise nothing changes.
    pub fn update(&mut self, elapsed_ms: u32) -> (toggle: bool)
        requires
            old(self)@.state is Blinking ==> old(self)@.timer + elapsed_ms <= u32::MAX,
        ensures
            (final(self)@, toggle) == led_step(old(self)@, elapsed_ms),
    {
        match self.state {
            StatusLedState::Blinking { period_ms } => {
                self.timer = self.timer + elapsed_ms;
                if self.timer >= period_ms {
                    self.timer = 0;
                    return true;
                }
                false
            },
            _ => false,
        }
    }
}

} // verus!

verus! {

/// While the LED keeps blinking with the same period, the accumulated time stays below
/// the period: it toggles as soon as the period is reached and starts counting again.
pub proof fn blinking_timer_stays_below_period(s: StatusLedView, elapsed_ms: u32)
    requires
        s.state is Blinking,
        s.timer < s.state->period_ms,
    ensures
        led_step(s, elapsed_ms).0.state == s.state,
        led_step(s, elapsed_ms).0.timer < s.state->period_ms,
        led_step(s, elapsed_ms).1 <==> s.timer + elapsed_ms >= s.state->period_ms,
{
}

/// While blinking, an update adds the elapsed time to the time accumulated so far; when
/// the sum reaches the period the pin toggles and the count restarts at 0, otherwise the
/// sum is kept and the pin is left alone.
pub proof fn blinking_accumulates_elapsed_time(s: StatusLedView, elapsed_ms: u32)
    requires
        s.state is Blinking,
        s.timer + elapsed_ms <= u32::MAX,
    ensures
        ({
            let (next, toggle) = led_step(s, elapsed_ms);
            &&& next.state == s.state
            &&& toggle <==> s.timer + elapsed_ms >= s.state->period_ms
            &&& toggle ==> next.timer == 0
            &&& !toggle ==> next.timer == s.timer + elapsed_ms
        }),
{
}

/// The sum of the elapsed times `es`.
pub open spec fn total_elapsed(es: Seq<u32>) -> int
    decreases es.len(),
{
    if es.len() == 0 {
        0
    } else {
        total_elapsed(es.drop_last()) + es.last()
    }
}

/// Successive updates with the elapsed times `es`: the final state and, for each update,
/// whether the pin toggled.
pub open spec fn led_run(s: StatusLedView, es: Seq<u32>) -> (StatusLedView, Seq<bool>)
    decreases es.len(),
{
    if es.len() == 0 {
        (s, seq![])
    } else {
        let before = led_run(s, es.drop_last());
        let step = led_step(before.0, es.last());
        (step.0, before.1.push(step.1))
    }
}

/// Over successive updates of a blinking LED, nothing toggles while the time accumulated
/// since the start stays below the period, and the timer holds that whole sum; the update
/// that first brings the sum up to the period toggles the pin.
pub proof fn blinking_toggles_when_sum_reaches_period(s: StatusLedView, es: Seq<u32>)
    requires
        s.state is Blinking,
        s.timer + total_elapsed(es) < s.state->period_ms,
    ensures
        led_run(s, es).0.state == s.state,
        led_run(s, es).1.len() == es.len(),
        led_run(s, es).0.timer == s.timer + total_elapsed(es),
        forall|k: int| 0 <= k < es.len() ==> !(#[trigger] led_run(s, es).1[k]),
        forall|e: u32|
            s.timer + total_elapsed(es) + e >= s.state->period_ms ==> (#[trigger] led_run(s, es.push(e))).1.last(),
    decreases es.len(),
{
    if es.len() > 0 {
        let w = es.drop_last();
        blinking_toggles_when_sum_reaches_period(s, w);
        assert forall|k: int| 0 <= k < es.len() implies !(#[trigger] led_run(s, es).1[k]) by {
            if k < w.len() {
                assert(led_run(s, es).1[k] == led_run(s, w).1[k]);
            }
        }
    }
    assert forall|e: u32|
        s.timer + total_elapsed(es) + e >= s.state->period_ms implies (#[trigger] led_run(s, es.push(e))).1.last() by {
        assert(es.push(e).drop_last() =~= es);
    }
}

} // verus!

