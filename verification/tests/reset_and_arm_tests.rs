use simon_says_seeq_rust::control::{ArmAction, GridIdentity, SimonSaysSeeq};
use simon_says_seeq_rust::hardware::holds_norns_word;
use simon_says_seeq_rust::midi_ports::{find_port_by_name, first_port_holding};
use simon_says_seeq_rust::sequencer::{Sequencer, SequencerEvent};

fn notes(events: &[SequencerEvent]) -> Vec<(u8, u8, bool)> {
    events
        .iter()
        .map(|e| match e {
            SequencerEvent::MidiEvent(m) => (m.note, m.velocity, m.note_on),
            _ => panic!("not a MIDI event"),
        })
        .collect()
}

#[test]
fn reset_notes_go_on_at_tick_zero_and_off_at_tick_one() {
    let mut s = Sequencer::new();
    let on = s.process_clock_division_resets_on_tick();
    assert_eq!(notes(&on), vec![(55, 100, true), (56, 100, true), (57, 100, true), (58, 100, true), (59, 100, true)]);
    s.increment_tick_count();
    let off = s.process_clock_division_resets_on_tick();
    assert_eq!(notes(&off), vec![(55, 0, false), (56, 0, false), (57, 0, false), (58, 0, false), (59, 0, false)]);
    s.increment_tick_count();
    assert!(s.process_clock_division_resets_on_tick().is_empty());
}

#[test]
fn arm_buttons_are_momentary() {
    let mut app = SimonSaysSeeq::new(Sequencer::new());
    let grid_one = GridIdentity { virtual_one: true, virtual_two: false, is_grid_one: false, is_grid_two: false };
    app.handle_grid_press(grid_one, 0, 4, 7, true, false);
    assert_eq!(app.active_arm_action, Some(ArmAction::EuclidianEvents));
    app.handle_grid_press(grid_one, 0, 5, 7, true, false);
    assert_eq!(app.active_arm_action, Some(ArmAction::EuclidianLength));
    app.handle_grid_press(grid_one, 0, 4, 7, false, false);
    assert_eq!(app.active_arm_action, Some(ArmAction::EuclidianLength));
    app.handle_grid_press(grid_one, 0, 2, 7, true, false);
    assert_eq!(app.active_arm_action, Some(ArmAction::EuclidianLength));
    app.handle_grid_press(grid_one, 0, 5, 7, false, false);
    assert_eq!(app.active_arm_action, None);
}

#[test]
fn lowered_names_are_searched_as_given() {
    assert!(holds_norns_word("gpio-keys"));
    assert!(holds_norns_word("rotary@1"));
    assert!(!holds_norns_word("GPIO-KEYS"));
    assert!(!holds_norns_word("usb mouse"));
    let lowered = vec![None, Some("midi through".to_string()), Some("usb midi 1".to_string())];
    assert_eq!(first_port_holding(&lowered, "usb midi"), Some(2));
    assert_eq!(first_port_holding(&lowered, "USB MIDI"), None);
    let names = vec![None, Some("Midi Through".to_string()), Some("USB MIDI 1".to_string())];
    assert_eq!(find_port_by_name(&names, "usb Midi"), Some(2));
}
