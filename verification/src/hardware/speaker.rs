use vstd::prelude::*;

use crate::hardware::HardwareAction;

verus! {

/// How many CPU cycles a "ding" holds its tone.
pub const DING_HOLD_CYCLES: u32 = 10_000;

/// A speaker driven by channel B of a PWM slice (PWM2, GPIO 5).
///
/// `top` is the slice's `TOP` value: the counter wraps after it, so a duty cycle of
/// `top / 2` is a 50% square wave.
pub struct Speaker {
    pub top: u16,
}

/// What a "ding" on a speaker whose PWM slice wraps at `top` asks of the hardware.
pub open spec fn ding_action(top: u16) -> HardwareAction {
    HardwareAction::Tone { duty: top / 2, hold_cycles: DING_HOLD_CYCLES }
}

impl Speaker {
    /// Creates a speaker on a PWM slice whose counter wraps at `top`.
    pub fn new(top: u16) -> (speaker: Self)
        ensures
            speaker.top == top,
    {
        Speaker { top }
    }

    /// Plays a short "ding": the duty cycle is set to half of `TOP` (50%), held for
    /// `DING_HOLD_CYCLES` cycles, then set to zero.
    pub fn ding(&self) -> (action: HardwareAction)
        ensures
            action == ding_action(self.top),
    {
        HardwareAction::Tone { duty: self.top / 2, hold_cycles: DING_HOLD_CYCLES }
    }
}

} // verus!
