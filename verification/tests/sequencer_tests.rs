use simon_says_seeq_rust::sequencer::Sequencer;

#[test]
fn test_sequencer_creation() {
    let sequencer = Sequencer::new();
    assert!(!sequencer.is_running());

    let step = sequencer.get_position();
    assert_eq!(step, 0);
}

#[test]
fn test_grid_operations() {
    let mut sequencer = Sequencer::new();

    sequencer.set_grid_value(0, 0, 1);
    assert_eq!(sequencer.get_grid_value(0, 0), 1);

    sequencer.set_grid_value(15, 6, 2);
    assert_eq!(sequencer.get_grid_value(15, 6), 2);

    // Outside the grid: ignored
    sequencer.set_grid_value(32, 8, 1);
    assert_eq!(sequencer.get_grid_value(32, 8), 0);
}

#[test]
fn test_transport_control() {
    let mut sequencer = Sequencer::new();

    assert!(!sequencer.is_running());

    sequencer.start();
    assert!(sequencer.is_running());

    sequencer.stop();
    assert!(!sequencer.is_running());

    let step = sequencer.get_position();
    assert_eq!(step, 0);
}

#[test]
fn test_step_events() {
    let mut sequencer = Sequencer::new();

    sequencer.set_grid_value(0, 0, 1);

    let events = sequencer.get_step_events(0, 0, 0);
    assert!(events.is_some());
}

#[test]
fn test_tick_counter_reset() {
    let mut sequencer = Sequencer::new();

    sequencer.stop();
    assert_eq!(sequencer.state.sequencer_a_current_master_step, 0);

    sequencer.start();
    assert!(sequencer.state.reset_tick_counter);
    assert!(sequencer.state.is_running);

    sequencer.stop();
    assert_eq!(sequencer.state.sequencer_a_current_master_step, 0);

    sequencer.start();
    assert!(sequencer.state.reset_tick_counter);
    assert!(sequencer.state.is_running);
}

#[test]
fn test_step_events_completion() {
    let mut sequencer = Sequencer::new();
    sequencer.set_grid_value(0, 0, 1);
    let events = sequencer.get_step_events(0, 0, 0);
    let events = events.unwrap();
    assert!(!events.is_empty());

    let note_on_events: Vec<_> = events.iter().filter(|e| e.note_on).collect();
    let note_off_events: Vec<_> = events.iter().filter(|e| !e.note_on).collect();

    assert!(!note_on_events.is_empty());
    assert!(!note_off_events.is_empty());
}

#[test]
fn test_individual_row_step_counters_reset() {
    let mut sequencer = Sequencer::new();

    sequencer.start();

    if sequencer.state.sequencer_a_row_states.len() >= 8 {
        sequencer.state.sequencer_a_row_states[0].current_row_step = 5;
        sequencer.state.sequencer_a_row_states[1].current_row_step = 8;
        sequencer.state.sequencer_a_row_states[2].current_row_step = 12;
        sequencer.state.sequencer_a_row_states[3].current_row_step = 3;
        sequencer.state.sequencer_a_row_states[4].current_row_step = 15;
        sequencer.state.sequencer_a_row_states[5].current_row_step = 7;
        sequencer.state.sequencer_a_row_states[6].current_row_step = 20;
        sequencer.state.sequencer_a_row_states[7].current_row_step = 11;
    }

    if sequencer.state.sequencer_a_row_states.len() >= 8 {
        assert_eq!(sequencer.state.sequencer_a_row_states[0].current_row_step, 5);
        assert_eq!(sequencer.state.sequencer_a_row_states[1].current_row_step, 8);
        assert_eq!(sequencer.state.sequencer_a_row_states[2].current_row_step, 12);
        assert_eq!(sequencer.state.sequencer_a_row_states[7].current_row_step, 11);
    }

    sequencer.stop();

    for (row_idx, seq_a_row_state) in sequencer.state.sequencer_a_row_states.iter().enumerate() {
        assert_eq!(
            seq_a_row_state.current_row_step, 0,
            "Row {} counter should be reset to 0 after stop",
            row_idx
        );
    }

    sequencer.start();
    for (row_idx, seq_a_row_state) in sequencer.state.sequencer_a_row_states.iter().enumerate() {
        assert_eq!(
            seq_a_row_state.current_row_step, 0,
            "Row {} counter should remain at 0 after restart",
            row_idx
        );
    }
}

#[test]
fn test_row_step_counter_values_and_ranges() {
    let mut sequencer = Sequencer::new();

    for (row_idx, seq_a_row_state) in sequencer.state.sequencer_a_row_states.iter().enumerate() {
        assert_eq!(seq_a_row_state.current_row_step, 0, "Row {} should start at step 0", row_idx);
        assert_eq!(seq_a_row_state.first_step, 0, "Row {} should have first_step=0", row_idx);
        assert_eq!(seq_a_row_state.max_step, 31, "Row {} should have max_step=31 by default", row_idx);
        assert_eq!(seq_a_row_state.previous_row_step, 31, "Row {} should have previous_step=31", row_idx);
    }

    sequencer.start();
    {
        let row = &mut sequencer.state.sequencer_a_row_states[0];
        for expected_step in 0..=31 {
            assert_eq!(
                row.current_row_step, expected_step,
                "Row step counter should be {} at position {}",
                expected_step, expected_step
            );
            row.previous_row_step = row.current_row_step;
            row.current_row_step += 1;
            if row.current_row_step > row.max_step {
                row.current_row_step = row.first_step;
            }
        }
        assert_eq!(row.current_row_step, 0, "Should wrap back to 0 after step 31");
    }

    {
        let row = &mut sequencer.state.sequencer_a_row_states[1];
        row.first_step = 4;
        row.max_step = 15;
        row.current_row_step = 4;
        for i in 0..20 {
            let expected = if i <= 11 { 4 + i } else { 4 + ((i - 12) % 12) };
            assert_eq!(
                row.current_row_step, expected,
                "Custom range: step {} should be at position {}",
                i, expected
            );
            row.previous_row_step = row.current_row_step;
            row.current_row_step += 1;
            if row.current_row_step > row.max_step {
                row.current_row_step = row.first_step;
            }
        }
    }
}
