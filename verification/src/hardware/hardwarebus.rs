use vstd::prelude::*;

use crate::hardware::adc_toggle_switch::{toggle_value, AdcToggleSwitch};
use crate::hardware::button::{Button, ButtonView};
use crate::hardware::lock::{Lock, LockId};
use crate::hardware::speaker::Speaker;
use crate::hardware::HardwareAction;

verus! {

/// The debounce interval (in ms) of the top buttons.
pub const TOP_BUTTON_DEBOUNCE_MS: u64 = 20;

/// The state of a top button when the box is powered on.
pub open spec fn fresh_button() -> ButtonView {
    ButtonView {
        pin_low: false,
        last_pressed_ms: 0,
        debounce_ms: TOP_BUTTON_DEBOUNCE_MS,
        was_pressed: false,
    }
}

/// `HardwareBus` holds everything the puzzles read from and write to the hardware.
///
/// The inputs are the four top buttons (A to D, GPIO 0 to 3) and the toggle switches
/// (GPIO 26, through the ADC), each holding the level or conversion last sampled from
/// its pin. The outputs are requested by appending to `actions`, in order; the main
/// loop performs them on the pins (internal LED, indicator LED, speaker, locks).
pub struct HardwareBus {
    pub top_button_a: Button,
    pub top_button_b: Button,
    pub top_button_c: Button,
    pub top_button_d: Button,
    pub adc_toggle_switch: AdcToggleSwitch,
    pub speaker: Speaker,
    pub lock1: Lock,
    pub lock2: Lock,
    pub lock3: Lock,
    pub actions: Vec<HardwareAction>,
}

impl HardwareBus {
    /// `self` and `other` hold the same devices in the same states; only the requested
    /// actions may differ.
    pub open spec fn same_devices(&self, other: &HardwareBus) -> bool {
        &&& self.top_button_a == other.top_button_a
        &&& self.top_button_b == other.top_button_b
        &&& self.top_button_c == other.top_button_c
        &&& self.top_button_d == other.top_button_d
        &&& self.adc_toggle_switch == other.adc_toggle_switch
        &&& self.speaker == other.speaker
        &&& self.lock1 == other.lock1
        &&& self.lock2 == other.lock2
        &&& self.lock3 == other.lock3
    }

    /// Creates the bus for a box whose speaker's PWM slice wraps at `speaker_top`:
    /// four top buttons debounced over 20 ms, no toggle conversion yet, locks 1 to 3,
    /// and no output requested.
    pub fn new(speaker_top: u16) -> (bus: Self)
        ensures
            bus.top_button_a@ == fresh_button(),
            bus.top_button_b@ == fresh_button(),
            bus.top_button_c@ == fresh_button(),
            bus.top_button_d@ == fresh_button(),
            bus.adc_toggle_switch@ == None::<u16>,
            bus.speaker.top == speaker_top,
            bus.lock1.id == LockId::Lock1,
            bus.lock2.id == LockId::Lock2,
            bus.lock3.id == LockId::Lock3,
            bus.actions@ == Seq::<HardwareAction>::empty(),
    {
        HardwareBus {
            top_button_a: Button::new(TOP_BUTTON_DEBOUNCE_MS),
            top_button_b: Button::new(TOP_BUTTON_DEBOUNCE_MS),
            top_button_c: Button::new(TOP_BUTTON_DEBOUNCE_MS),
            top_button_d: Button::new(TOP_BUTTON_DEBOUNCE_MS),
            adc_toggle_switch: AdcToggleSwitch::new(),
            speaker: Speaker::new(speaker_top),
            lock1: Lock::new(LockId::Lock1),
            lock2: Lock::new(LockId::Lock2),
            lock3: Lock::new(LockId::Lock3),
            actions: Vec::new(),
        }
    }

    /// The raw value of the latest conversion on the ADC-capable `pin` (0..=4095),
    /// or `0` if that conversion failed.
    pub fn read_adc_raw(&self, pin: &AdcToggleSwitch) -> (raw: u16)
        ensures
            raw == match pin@ {
                Some(r) => r,
                None => 0u16,
            },
    {
        pin.read_adc_raw()
    }

    /// Reads the toggle switches on GPIO 26, normalized into `0..=15`
    /// (`raw * 16 / 4096`); a failed conversion reads as `0`.
    pub fn read_toggle_switch_value(&self) -> (value: u8)
        ensures
            value == toggle_value(
                match self.adc_toggle_switch@ {
                    Some(r) => r,
                    None => 0u16,
                },
            ),
    {
        self.adc_toggle_switch.read_toggle_switch_value()
    }

    /// Requests `action`, after those already requested.
    pub fn perform(&mut self, action: HardwareAction)
        ensures
            final(self).actions@ == old(self).actions@.push(action),
            final(self).same_devices(&*old(self)),
    {
        self.actions.push(action);
    }

    /// Hands over the requested actions, oldest first, and forgets them.
    pub fn take_actions(&mut self) -> (taken: Vec<HardwareAction>)
        ensures
            taken@ == old(self).actions@,
            final(self).actions@ == Seq::<HardwareAction>::empty(),
            final(self).same_devices(&*old(self)),
    {
        let mut taken: Vec<HardwareAction> = Vec::new();
        std::mem::swap(&mut taken, &mut self.actions);
        taken
    }
}

} // verus!
