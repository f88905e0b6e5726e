pub mod adc_toggle_switch;
pub mod button;
pub mod hardwarebus;
pub mod lock;
pub mod speaker;
pub mod status_led;

pub use adc_toggle_switch::AdcToggleSwitch;
pub use button::Button;
pub use hardwarebus::HardwareBus;
pub use lock::{Lock, LockId};
pub use speaker::Speaker;

use vstd::prelude::*;

verus! {

/// An output operation that the puzzle logic asks of the hardware.
#[derive(Clone, Copy, Debug, PartialEq, Eq, Structural)]
pub enum HardwareAction {
    /// Drive the internal LED (GPIO 25) high (`true`) or low (`false`).
    SetInternalLed(bool),
    /// Drive the indicator LED (GPIO 4) high (`true`) or low (`false`).
    SetIndicatorLed(bool),
    /// Sound the speaker: set the PWM duty cycle to `duty`, wait `hold_cycles` CPU cycles,
    /// then set the duty cycle back to 0.
    Tone { duty: u16, hold_cycles: u32 },
    /// Drive the pin of `lock` high, wait `pulse_ms` milliseconds, then drive it low.
    PulseLock { lock: LockId, pulse_ms: u16 },
}

} // verus!
