use simon_says_seeq_rust::control::{ArmAction, AppCommand, GridIdentity, SimonSaysSeeq, test_mode_reply};
use simon_says_seeq_rust::midi::{
    all_notes_off_messages, handle_midi_input_message, midi_note_to_name, note_name_to_midi,
    note_off_message, note_on_message, ClockCounters, ClockSource, MidiInputEvent,
};
use simon_says_seeq_rust::sequencer::{Sequencer, SequencerError};
use simon_says_seeq_rust::test_script::{sysex_button_message, sysex_reload_message};

#[test]
fn undo_reverts_a_grid_edit_and_redo_restores_it() {
    let mut s = Sequencer::new();
    s.set_grid_value(3, 2, 1);
    assert_eq!(s.get_grid_value(3, 2), 1);
    assert!(s.undo().is_ok());
    assert_eq!(s.get_grid_value(3, 2), 0);
    assert!(s.redo().is_ok());
    assert_eq!(s.get_grid_value(3, 2), 1);
}

#[test]
fn undo_and_redo_refuse_with_nothing_to_do() {
    let mut s = Sequencer::new();
    assert_eq!(s.undo(), Err(SequencerError::NothingToUndo));
    assert_eq!(s.redo(), Err(SequencerError::NothingToRedo));
    assert_eq!(SequencerError::NothingToUndo.message(), "Nothing to undo");
    assert_eq!(SequencerError::PatternNotFound(7).message(), "Pattern 7 not found");
}

#[test]
fn undo_history_keeps_the_last_fifty_states() {
    let mut s = Sequencer::new();
    for i in 0..60 {
        s.set_grid_value(i % 32, 0, 1 + (i % 2) as u8);
    }
    let mut undone = 0;
    while s.undo().is_ok() {
        undone += 1;
    }
    assert_eq!(undone, 49);
}

#[test]
fn euclidean_rhythm_has_the_requested_onsets() {
    let mut s = Sequencer::new();
    s.generate_euclidean_rhythm(0, 5, 16, 3);
    let onsets = (0..16).filter(|&x| s.get_grid_value(x, 0) > 0).count();
    assert_eq!(onsets, 5);
    let mut t = Sequencer::new();
    t.generate_euclidean_rhythm(2, 20, 8, 0);
    let all = (0..8).filter(|&x| t.get_grid_value(x, 2) > 0).count();
    assert_eq!(all, 8);
}

#[test]
fn ratchet_steps_alternate_on_and_off_within_the_step() {
    let mut s = Sequencer::new();
    s.set_grid_value(0, 1, 3);
    let events = s.get_step_events(1, 0, 0).unwrap();
    assert_eq!(events.len(), 6);
    let tps = s.state.ticks_per_step;
    for k in 0..3 {
        assert!(events[2 * k].note_on);
        assert!(!events[2 * k + 1].note_on);
        assert!(events[2 * k].tick_offset <= events[2 * k + 1].tick_offset);
        assert!(events[2 * k + 1].tick_offset < tps);
    }
}

#[test]
fn a_row_returns_to_its_position_after_a_full_cycle() {
    let mut s = Sequencer::new();
    s.start();
    let before = s.state.sequencer_a_row_states[0].current_row_step;
    let cycle = s.state.sequencer_a_row_states[0].max_step - s.state.sequencer_a_row_states[0].first_step + 1;
    for _ in 0..cycle {
        s.external_advance_step();
    }
    assert_eq!(s.state.sequencer_a_row_states[0].current_row_step, before);
}

#[test]
fn note_names_round_trip() {
    for n in 12u8..=127 {
        assert_eq!(note_name_to_midi(&midi_note_to_name(n)), Some(n));
    }
    assert_eq!(note_name_to_midi("Db4"), Some(61));
}

#[test]
fn midi_message_bytes() {
    assert_eq!(note_on_message(60, 100, 1), vec![0x90, 60, 100]);
    assert_eq!(note_on_message(200, 200, 16), vec![0x9F, 127, 127]);
    assert_eq!(note_off_message(61, 2), vec![0x81, 61, 0]);
    let offs = all_notes_off_messages();
    assert_eq!(offs.len(), 16);
    assert_eq!(offs[15], vec![0xBF, 123, 0]);
}

#[test]
fn midi_input_decoding() {
    let mut clock = ClockCounters { source: ClockSource::Internal, running: false, clock_ticks: 0 };
    let ev = handle_midi_input_message(&[0x91, 60, 0], &mut clock);
    assert_eq!(ev, vec![MidiInputEvent::NoteOff { note: 60, channel: 2 }]);
    let ev = handle_midi_input_message(&[0xF8], &mut clock);
    assert_eq!(ev, vec![MidiInputEvent::ClockTick]);
    assert_eq!(clock.source, ClockSource::MidiExternal);
    assert_eq!(clock.clock_ticks, 1);
}

#[test]
fn arm_action_columns_round_trip() {
    for c in 0..16 {
        if let Some(a) = ArmAction::from_column(c) {
            assert_eq!(a.to_column(), c);
        }
    }
    assert_eq!(ArmAction::from_column(4), Some(ArmAction::EuclidianEvents));
    assert_eq!(ArmAction::from_column(2), None);
}

#[test]
fn test_script_sysex_messages_are_understood() {
    let app = SimonSaysSeeq::new(Sequencer::new());
    let cmds = app.handle_sysex(&sysex_button_message(3, 20, true));
    assert_eq!(cmds, vec![AppCommand::InjectVirtualButton { second_grid: true, x: 4, y: 3, pressed: true }]);
    let cmds = app.handle_sysex(&sysex_button_message(6, 2, false));
    assert_eq!(cmds, vec![AppCommand::InjectVirtualButton { second_grid: false, x: 2, y: 6, pressed: false }]);
    assert_eq!(app.handle_sysex(&sysex_reload_message()), vec![AppCommand::ReloadCurrentPattern]);
    assert_eq!(test_mode_reply(true), vec![0xF0, 0x7D, 0x53, 0x53, 0x51, 0x11, 0xF7]);
}

#[test]
fn euclidean_length_press_keeps_the_new_length_and_resets_the_step() {
    let mut app = SimonSaysSeeq::new(Sequencer::new());
    let mut rs = app.sequencer.get_row_states(2).unwrap();
    rs.current_row_step = 20;
    app.sequencer.set_row_states(2, rs);
    app.active_arm_action = Some(ArmAction::EuclidianLength);
    let grid_one = GridIdentity { virtual_one: false, virtual_two: false, is_grid_one: true, is_grid_two: false };
    app.handle_grid_press(grid_one, 2, 7, 2, true, false);
    let after = app.sequencer.get_row_states(2).unwrap();
    assert_eq!(after.max_step, 7);
    assert_eq!(after.current_row_step, after.first_step);
}
