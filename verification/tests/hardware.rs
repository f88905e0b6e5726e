use puzzle_box::hardware::adc_toggle_switch::scale_to_toggle_value;
use puzzle_box::hardware::status_led::{StatusLed, StatusLedState};
use puzzle_box::hardware::{AdcToggleSwitch, Button, HardwareAction, HardwareBus, Lock, LockId, Speaker};

#[test]
fn button_reports_press_after_debounce() {
    let mut button = Button::new(20);
    button.sample(true);
    // Within the debounce interval after power-on (last press recorded at 0).
    assert!(!button.check_pressed(10));
    assert!(button.check_pressed(25));
}

#[test]
fn button_reports_each_press_once_while_held() {
    let mut button = Button::new(20);
    button.sample(true);
    assert!(button.check_pressed(100));
    assert!(!button.check_pressed(130));
    assert!(!button.check_pressed(1_000));
}

#[test]
fn button_release_rearms_with_debounce() {
    let mut button = Button::new(20);
    button.sample(true);
    assert!(button.check_pressed(25));
    button.sample(false);
    assert!(!button.check_pressed(30));
    button.sample(true);
    // Only 15 ms after the last accepted press: chatter.
    assert!(!button.check_pressed(40));
    // Still held: the edge was not consumed, so the press is reported once debounced.
    assert!(button.check_pressed(45));
    assert!(!button.check_pressed(46));
}

#[test]
fn button_clock_behind_last_press_saturates() {
    let mut button = Button::new(20);
    button.sample(true);
    assert!(button.check_pressed(500));
    button.sample(false);
    assert!(!button.check_pressed(501));
    button.sample(true);
    // The clock reads earlier than the last press: elapsed time saturates at 0.
    assert!(!button.check_pressed(100));
}

#[test]
fn button_zero_debounce_reports_at_once() {
    let mut button = Button::new(0);
    button.sample(true);
    assert!(button.check_pressed(0));
}

#[test]
fn button_released_reports_nothing() {
    let mut button = Button::new(20);
    assert!(!button.check_pressed(100));
    button.sample(false);
    assert!(!button.check_pressed(200));
}

#[test]
fn toggle_scaling_formula() {
    assert_eq!(scale_to_toggle_value(0), 0);
    assert_eq!(scale_to_toggle_value(255), 0);
    assert_eq!(scale_to_toggle_value(256), 1);
    assert_eq!(scale_to_toggle_value(2048), 8);
    assert_eq!(scale_to_toggle_value(3071), 11);
    assert_eq!(scale_to_toggle_value(4095), 15);
    // Beyond 12 bits the scaling still fits a byte.
    assert_eq!(scale_to_toggle_value(65535), 255);
}

#[test]
fn toggle_scaling_is_monotone_on_samples() {
    let mut previous = 0;
    for raw in 0..=4095u16 {
        let value = scale_to_toggle_value(raw);
        assert!(value >= previous);
        assert!(value <= 15);
        previous = value;
    }
}

#[test]
fn adc_failed_conversion_reads_zero() {
    let mut switch = AdcToggleSwitch::new();
    assert_eq!(switch.read_adc_raw(), 0);
    assert_eq!(switch.read_toggle_switch_value(), 0);
    switch.sample(Some(3000));
    assert_eq!(switch.read_adc_raw(), 3000);
    assert_eq!(switch.read_toggle_switch_value(), 11);
    switch.sample(None);
    assert_eq!(switch.read_adc_raw(), 0);
    assert_eq!(switch.read_toggle_switch_value(), 0);
}

#[test]
fn bus_reads_the_toggle_switches() {
    let mut bus = HardwareBus::new(1000);
    assert_eq!(bus.read_toggle_switch_value(), 0);
    bus.adc_toggle_switch.sample(Some(12 * 256 + 100));
    assert_eq!(bus.read_toggle_switch_value(), 12);
    assert_eq!(bus.read_adc_raw(&bus.adc_toggle_switch), 12 * 256 + 100);
}

#[test]
fn speaker_dings_at_half_duty() {
    let speaker = Speaker::new(1000);
    assert_eq!(speaker.ding(), HardwareAction::Tone { duty: 500, hold_cycles: 10_000 });
    let speaker = Speaker::new(65535);
    assert_eq!(speaker.ding(), HardwareAction::Tone { duty: 32767, hold_cycles: 10_000 });
}

#[test]
fn lock_pulses_for_200_ms() {
    let lock = Lock::new(LockId::Lock2);
    assert_eq!(lock.unlock(), HardwareAction::PulseLock { lock: LockId::Lock2, pulse_ms: 200 });
}

#[test]
fn bus_starts_quiet_and_queues_actions_in_order() {
    let mut bus = HardwareBus::new(800);
    assert_eq!(bus.speaker.top, 800);
    assert_eq!(bus.lock1.id, LockId::Lock1);
    assert_eq!(bus.lock3.id, LockId::Lock3);
    assert!(bus.take_actions().is_empty());
    bus.perform(HardwareAction::SetIndicatorLed(true));
    bus.perform(HardwareAction::SetInternalLed(false));
    assert_eq!(
        bus.take_actions(),
        vec![HardwareAction::SetIndicatorLed(true), HardwareAction::SetInternalLed(false)]
    );
    assert!(bus.take_actions().is_empty());
}

#[test]
fn status_led_drives_on_and_off() {
    let mut led = StatusLed::new();
    assert_eq!(led.set_state(StatusLedState::On), Some(true));
    assert_eq!(led.set_state(StatusLedState::Off), Some(false));
    assert_eq!(led.set_state(StatusLedState::Blinking { period_ms: 100 }), None);
}

#[test]
fn status_led_blinks_when_period_accumulates() {
    let mut led = StatusLed::new();
    led.set_state(StatusLedState::Blinking { period_ms: 100 });
    assert!(!led.update(60));
    assert!(led.update(50));
    assert!(!led.update(99));
    assert!(led.update(1));
    assert!(led.update(250));
}

#[test]
fn status_led_steady_states_never_toggle() {
    let mut led = StatusLed::new();
    assert!(!led.update(1_000));
    led.set_state(StatusLedState::On);
    assert!(!led.update(u32::MAX));
}

#[test]
fn status_led_keeps_timer_across_state_changes() {
    let mut led = StatusLed::new();
    led.set_state(StatusLedState::Blinking { period_ms: 100 });
    assert!(!led.update(70));
    led.set_state(StatusLedState::On);
    led.set_state(StatusLedState::Blinking { period_ms: 100 });
    assert!(led.update(30));
}
