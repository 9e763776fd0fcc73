use simon_says_seeq_rust::co2::Co2Cursor;
use simon_says_seeq_rust::sequencer::{Sequencer, SequencerError};
use simon_says_seeq_rust::midi::{
    handle_midi_input_message, note_off_message, note_on_message, ClockCounters, ClockSource, MidiInputEvent,
};

#[test]
fn notes_sent_are_read_back() {
    let mut clock = ClockCounters { source: ClockSource::Internal, running: false, clock_ticks: 7 };
    let on = note_on_message(64, 90, 3);
    assert_eq!(on, vec![0x92, 64, 90]);
    let events = handle_midi_input_message(&on, &mut clock);
    assert_eq!(events, vec![MidiInputEvent::NoteOn { note: 64, velocity: 90, channel: 3 }]);
    let off = note_off_message(64, 16);
    assert_eq!(off, vec![0x8F, 64, 0]);
    let events = handle_midi_input_message(&off, &mut clock);
    assert_eq!(events, vec![MidiInputEvent::NoteOff { note: 64, channel: 16 }]);
    let silent = note_on_message(5, 0, 1);
    let events = handle_midi_input_message(&silent, &mut clock);
    assert_eq!(events, vec![MidiInputEvent::NoteOff { note: 5, channel: 1 }]);
    assert_eq!(clock, ClockCounters { source: ClockSource::Internal, running: false, clock_ticks: 7 });
}

#[test]
fn cursors_come_back_after_every_record() {
    let mut c = Co2Cursor::new();
    c.advance_step(5);
    c.advance_step(5);
    let start = c.step_counter;
    for _ in 0..5 {
        c.advance_step(5);
    }
    assert_eq!(c.step_counter, start);
    for _ in 0..3 {
        c.advance_tick(4);
    }
    assert_eq!(c.tick_counter, 3);
    c.advance_tick(4);
    assert_eq!(c.tick_counter, 0);
}

#[test]
fn grid_edits_read_back() {
    let mut s = Sequencer::new();
    let before = s.get_grid_value(4, 2);
    s.set_grid_value(5, 3, 1);
    assert_eq!(s.get_grid_value(5, 3), 1);
    assert_eq!(s.get_grid_value(4, 2), before);
    s.set_grid_value(5, 3, 0);
    assert_eq!(s.get_grid_value(5, 3), 0);
    s.set_grid_value(40, 3, 1);
    assert_eq!(s.get_grid_value(40, 3), 0);
}

#[test]
fn saved_pattern_loads_back() {
    let mut s = Sequencer::new();
    s.set_grid_value(0, 0, 1);
    s.set_grid_value(7, 6, 1);
    let saved = s.get_grid_state();
    assert!(s.save_pattern(3, Some("three".to_string())).is_ok());
    s.set_grid_value(0, 0, 0);
    s.set_grid_value(9, 1, 1);
    assert_ne!(s.get_grid_state(), saved);
    assert!(s.load_pattern(3).is_ok());
    assert_eq!(s.get_grid_state(), saved);
    assert!(matches!(s.load_pattern(4), Err(SequencerError::PatternNotFound(4))));
}

#[test]
fn a_run_of_clock_messages_counts_every_tick() {
    let mut clock = ClockCounters { source: ClockSource::Internal, running: true, clock_ticks: 10 };
    let mut events = Vec::new();
    for _ in 0..48 {
        events.extend(handle_midi_input_message(&[0xF8], &mut clock));
    }
    assert_eq!(clock, ClockCounters { source: ClockSource::MidiExternal, running: true, clock_ticks: 58 });
    assert_eq!(events.iter().filter(|e| **e == MidiInputEvent::ClockTick).count(), 48);
    assert_eq!(events.iter().filter(|e| **e == MidiInputEvent::ClockBeat).count(), 2);
    assert_eq!(events.len(), 50);
    let first_beat = events.iter().position(|e| *e == MidiInputEvent::ClockBeat).unwrap();
    assert_eq!(events[first_beat + 1], MidiInputEvent::ClockTick);
}

#[test]
fn undo_and_redo_across_untracked_steps() {
    let mut s = Sequencer::new();
    let before = s.get_grid_state();
    s.set_grid_value(5, 3, 1);
    let edited = s.get_grid_state();
    s.start();
    s.external_advance_step();
    s.external_advance_step();
    let positions: Vec<usize> = (0..7).map(|r| s.get_row_states(r).unwrap().current_row_step).collect();
    assert!(s.undo().is_ok());
    assert_eq!(s.get_grid_state(), before);
    let after: Vec<usize> = (0..7).map(|r| s.get_row_states(r).unwrap().current_row_step).collect();
    assert_eq!(after, positions);
    s.external_advance_step();
    assert!(s.redo().is_ok());
    assert_eq!(s.get_grid_state(), edited);
    assert!(s.undo().is_ok());
    s.set_grid_value(1, 1, 1);
    assert!(matches!(s.redo(), Err(SequencerError::NothingToRedo)));
}
