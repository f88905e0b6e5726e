use puzzle_box::hardware::{HardwareAction, HardwareBus, LockId};
use puzzle_box::puzzles::active_toggle_puzzle::ActiveTogglePuzzle;
use puzzle_box::puzzles::entry_button_sequence_puzzle::{ButtonId, EntryButtonComboPuzzle};
use puzzle_box::puzzles::Puzzle;
use puzzle_box::stages::{ActiveStage, EntryStage, PuzzleBoxStage};
use puzzle_box::PuzzleBox;

/// Holds `button` down at `now_ms`, runs one update, then releases it at `now_ms + 1`.
fn press(puzzle: &mut EntryButtonComboPuzzle, bus: &mut HardwareBus, button: ButtonId, now_ms: u64) {
    set_button(bus, button, true);
    puzzle.update(bus, now_ms);
    set_button(bus, button, false);
    puzzle.update(bus, now_ms + 1);
}

fn set_button(bus: &mut HardwareBus, button: ButtonId, held: bool) {
    match button {
        ButtonId::A => bus.top_button_a.sample(held),
        ButtonId::B => bus.top_button_b.sample(held),
        ButtonId::C => bus.top_button_c.sample(held),
        ButtonId::D => bus.top_button_d.sample(held),
    }
}

fn toggle_raw(value: u16) -> Option<u16> {
    Some(value * 256 + 128)
}

#[test]
fn entry_sequence_opens_lock_once() {
    let mut puzzle = EntryButtonComboPuzzle::new();
    let mut bus = HardwareBus::new(1000);
    assert!(!puzzle.is_complete());
    press(&mut puzzle, &mut bus, ButtonId::B, 100);
    press(&mut puzzle, &mut bus, ButtonId::A, 200);
    press(&mut puzzle, &mut bus, ButtonId::C, 300);
    assert!(!puzzle.is_complete());
    press(&mut puzzle, &mut bus, ButtonId::D, 400);
    assert!(puzzle.is_complete());
    assert_eq!(
        bus.take_actions(),
        vec![
            HardwareAction::SetInternalLed(true),
            HardwareAction::SetInternalLed(true),
            HardwareAction::SetInternalLed(true),
            HardwareAction::SetInternalLed(true),
            HardwareAction::Tone { duty: 500, hold_cycles: 10_000 },
            HardwareAction::PulseLock { lock: LockId::Lock1, pulse_ms: 200 },
        ]
    );
    // Complete: further presses are ignored and request nothing.
    press(&mut puzzle, &mut bus, ButtonId::B, 500);
    press(&mut puzzle, &mut bus, ButtonId::C, 600);
    assert!(puzzle.is_complete());
    assert!(bus.take_actions().is_empty());
}

#[test]
fn entry_wrong_button_restarts_sequence() {
    let mut puzzle = EntryButtonComboPuzzle::new();
    let mut bus = HardwareBus::new(1000);
    press(&mut puzzle, &mut bus, ButtonId::B, 100);
    press(&mut puzzle, &mut bus, ButtonId::A, 200);
    press(&mut puzzle, &mut bus, ButtonId::D, 300);
    assert_eq!(
        bus.take_actions(),
        vec![
            HardwareAction::SetInternalLed(true),
            HardwareAction::SetInternalLed(true),
            HardwareAction::SetInternalLed(false),
        ]
    );
    // The sequence must be entered again from the start.
    press(&mut puzzle, &mut bus, ButtonId::C, 400);
    press(&mut puzzle, &mut bus, ButtonId::D, 500);
    assert!(!puzzle.is_complete());
    press(&mut puzzle, &mut bus, ButtonId::B, 600);
    press(&mut puzzle, &mut bus, ButtonId::A, 700);
    press(&mut puzzle, &mut bus, ButtonId::C, 800);
    press(&mut puzzle, &mut bus, ButtonId::D, 900);
    assert!(puzzle.is_complete());
}

#[test]
fn entry_repeated_first_button_does_not_count_twice() {
    // A wrong press restarts without being counted as the first of a new attempt.
    let mut puzzle = EntryButtonComboPuzzle::new();
    let mut bus = HardwareBus::new(1000);
    for (i, button) in [ButtonId::B, ButtonId::B, ButtonId::A, ButtonId::C, ButtonId::D].iter().enumerate() {
        press(&mut puzzle, &mut bus, *button, 100 * (i as u64 + 1));
    }
    assert!(!puzzle.is_complete());
}

#[test]
fn entry_presses_in_one_update_are_handled_in_button_order() {
    // B and A held together: checked A first (wrong), then B (right).
    let mut puzzle = EntryButtonComboPuzzle::new();
    let mut bus = HardwareBus::new(1000);
    bus.top_button_a.sample(true);
    bus.top_button_b.sample(true);
    puzzle.update(&mut bus, 100);
    assert_eq!(
        bus.take_actions(),
        vec![HardwareAction::SetInternalLed(false), HardwareAction::SetInternalLed(true)]
    );
}

#[test]
fn entry_held_button_counts_once() {
    let mut puzzle = EntryButtonComboPuzzle::new();
    let mut bus = HardwareBus::new(1000);
    bus.top_button_b.sample(true);
    puzzle.update(&mut bus, 100);
    puzzle.update(&mut bus, 200);
    puzzle.update(&mut bus, 300);
    assert_eq!(bus.take_actions(), vec![HardwareAction::SetInternalLed(true)]);
}

#[test]
fn entry_press_within_debounce_of_power_on_is_ignored() {
    let mut puzzle = EntryButtonComboPuzzle::new();
    let mut bus = HardwareBus::new(1000);
    bus.top_button_b.sample(true);
    puzzle.update(&mut bus, 5);
    assert!(bus.take_actions().is_empty());
}

#[test]
fn entry_stage_reports_completion() {
    let mut stage = EntryStage::new();
    let mut bus = HardwareBus::new(1000);
    let mut t = 100;
    for button in [ButtonId::B, ButtonId::A, ButtonId::C] {
        set_button(&mut bus, button, true);
        assert!(!stage.update(&mut bus, t));
        set_button(&mut bus, button, false);
        assert!(!stage.update(&mut bus, t + 1));
        t += 100;
    }
    bus.top_button_d.sample(true);
    assert!(stage.update(&mut bus, t));
}

#[test]
fn toggle_puzzle_locked_ignores_switches() {
    let mut puzzle = ActiveTogglePuzzle::new();
    let mut bus = HardwareBus::new(1000);
    assert!(!puzzle.is_unlocked());
    for v in [3, 7, 12, 5] {
        bus.adc_toggle_switch.sample(toggle_raw(v));
        puzzle.update(&mut bus, 0);
    }
    assert!(!puzzle.is_complete());
}

#[test]
fn toggle_puzzle_completes_on_sequence_with_noise() {
    let mut puzzle = ActiveTogglePuzzle::new();
    let mut bus = HardwareBus::new(1000);
    puzzle.unlock();
    assert!(puzzle.is_unlocked());
    for v in [0, 3, 3, 9, 7, 15, 12, 12, 1] {
        bus.adc_toggle_switch.sample(toggle_raw(v));
        puzzle.update(&mut bus, 0);
        assert!(!puzzle.is_complete());
    }
    bus.adc_toggle_switch.sample(toggle_raw(5));
    puzzle.update(&mut bus, 0);
    assert!(puzzle.is_complete());
    assert!(bus.take_actions().is_empty());
}

#[test]
fn toggle_puzzle_order_matters() {
    let mut puzzle = ActiveTogglePuzzle::new();
    let mut bus = HardwareBus::new(1000);
    puzzle.unlock();
    for v in [7, 3, 12, 5, 5, 12] {
        bus.adc_toggle_switch.sample(toggle_raw(v));
        puzzle.update(&mut bus, 0);
    }
    assert!(!puzzle.is_complete());
}

#[test]
fn toggle_puzzle_failed_conversion_reads_zero() {
    let mut puzzle = ActiveTogglePuzzle::new();
    let mut bus = HardwareBus::new(1000);
    puzzle.unlock();
    bus.adc_toggle_switch.sample(None);
    puzzle.update(&mut bus, 0);
    assert!(!puzzle.is_complete());
}

#[test]
fn active_stage_starts_incomplete() {
    let mut stage = ActiveStage::new();
    let mut bus = HardwareBus::new(1000);
    bus.adc_toggle_switch.sample(toggle_raw(3));
    assert!(!stage.update(&mut bus, 0));
    assert!(!stage.update(&mut bus, 10));
    assert!(bus.take_actions().is_empty());
}

#[test]
fn puzzle_box_moves_to_active_stage_after_entry() {
    let mut puzzle_box = PuzzleBox::new(HardwareBus::new(1000));
    assert!(matches!(puzzle_box.current_stage, PuzzleBoxStage::Entry(_)));
    let mut t = 100;
    for button in [ButtonId::B, ButtonId::A, ButtonId::C, ButtonId::D] {
        set_button(&mut puzzle_box.hardware, button, true);
        puzzle_box.tick(t);
        set_button(&mut puzzle_box.hardware, button, false);
        puzzle_box.tick(t + 1);
        t += 100;
    }
    assert!(matches!(puzzle_box.current_stage, PuzzleBoxStage::Active(_)));
    let actions = puzzle_box.hardware.take_actions();
    assert_eq!(actions.len(), 6);
    assert_eq!(actions[5], HardwareAction::PulseLock { lock: LockId::Lock1, pulse_ms: 200 });
    // The active stage does not complete while its puzzle is locked.
    puzzle_box.hardware.adc_toggle_switch.sample(toggle_raw(3));
    puzzle_box.tick(t);
    assert!(matches!(puzzle_box.current_stage, PuzzleBoxStage::Active(_)));
}

#[test]
fn puzzle_box_stays_in_entry_until_complete() {
    let mut puzzle_box = PuzzleBox::new(HardwareBus::new(1000));
    puzzle_box.hardware.top_button_b.sample(true);
    puzzle_box.tick(100);
    assert!(matches!(puzzle_box.current_stage, PuzzleBoxStage::Entry(_)));
}

#[test]
fn puzzle_box_later_stages_do_not_change() {
    for stage in [PuzzleBoxStage::FinalTest, PuzzleBoxStage::Failed, PuzzleBoxStage::Success] {
        let mut puzzle_box = PuzzleBox::new(HardwareBus::new(1000));
        puzzle_box.current_stage = stage;
        puzzle_box.hardware.top_button_b.sample(true);
        puzzle_box.tick(100);
        assert!(puzzle_box.hardware.take_actions().is_empty());
        match puzzle_box.current_stage {
            PuzzleBoxStage::FinalTest | PuzzleBoxStage::Failed | PuzzleBoxStage::Success => {}
            _ => panic!("stage changed"),
        }
    }
}

#[test]
fn puzzle_box_can_tick_while_no_puzzle_completes() {
    let mut puzzle_box = PuzzleBox::new(HardwareBus::new(1000));
    assert!(puzzle_box.can_tick());
    let mut t = 100;
    for button in [ButtonId::B, ButtonId::A, ButtonId::C, ButtonId::D] {
        set_button(&mut puzzle_box.hardware, button, true);
        puzzle_box.tick(t);
        set_button(&mut puzzle_box.hardware, button, false);
        puzzle_box.tick(t + 1);
        t += 100;
    }
    puzzle_box.hardware.adc_toggle_switch.sample(toggle_raw(5));
    assert!(puzzle_box.can_tick());
}

#[test]
fn active_stage_can_update_with_locked_puzzle() {
    let stage = ActiveStage::new();
    let mut bus = HardwareBus::new(1000);
    for v in 0..16 {
        bus.adc_toggle_switch.sample(toggle_raw(v));
        assert!(stage.can_update(&bus));
    }
}

#[test]
fn toggle_puzzle_reports_when_it_would_complete() {
    let mut puzzle = ActiveTogglePuzzle::new();
    let mut bus = HardwareBus::new(1000);
    assert!(!puzzle.completes_with(3));
    puzzle.unlock();
    for v in [3, 7, 12] {
        assert!(!puzzle.completes_with(5));
        bus.adc_toggle_switch.sample(toggle_raw(v));
        puzzle.update(&mut bus, 0);
    }
    assert!(!puzzle.completes_with(4));
    assert!(puzzle.completes_with(5));
    bus.adc_toggle_switch.sample(toggle_raw(5));
    puzzle.update(&mut bus, 0);
    assert!(puzzle.is_complete());
    assert!(!puzzle.completes_with(5));
}
