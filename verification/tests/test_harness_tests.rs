use simon_says_seeq_rust::clock_generator::{
    clock_tick, handle_clock_command, test_mode_slot, ClockCommand, ClockConfig, ClockThreadState, TestModeSlot,
};
use simon_says_seeq_rust::test_script::{
    check_rows, find_step_pairs, step_in_description, verify_state_at_step, RowConfigChange, StepRecord,
    TestRunLog,
};

fn step_event(pairs: Vec<(u64, u64)>) -> StepRecord {
    StepRecord {
        is_step_advancement: true,
        row_steps: Some(pairs.into_iter().map(|(r, p)| (Some(r), Some(p))).collect()),
    }
}

fn other_event() -> StepRecord {
    StepRecord { is_step_advancement: false, row_steps: None }
}

#[test]
fn described_steps_are_read_like_split_then_parse() {
    let reference = |d: &str| -> Option<usize> {
        d.split("cumulative step ").nth(1).and_then(|s| s.split_whitespace().next()).and_then(|s| s.parse::<usize>().ok())
    };
    for d in [
        "Check sequencer state at cumulative step 12",
        "Check sequencer state at cumulative step 7 now",
        "cumulative step   42\tlater",
        "cumulative step x",
        "no step here",
        "cumulative step ",
        "cumulative step cumulative step 3",
        "at cumulative step +5",
        "at cumulative step 99999999999999999999999",
    ] {
        assert_eq!(step_in_description(d), reference(d), "{:?}", d);
    }
    assert_eq!(step_in_description("Check sequencer state at cumulative step 12"), Some(12));
}

#[test]
fn step_pairs_of_the_nth_event() {
    let records = vec![
        other_event(),
        step_event(vec![(0, 1), (1, 1)]),
        StepRecord { is_step_advancement: true, row_steps: None },
        StepRecord { is_step_advancement: true, row_steps: Some(vec![(Some(0), None), (Some(2), Some(3))]) },
    ];
    let (pairs, count) = find_step_pairs(&records, 1);
    assert_eq!(pairs, Some(vec![(0, 1), (1, 1)]));
    assert_eq!(count, 1);
    let (pairs, count) = find_step_pairs(&records, 2);
    assert_eq!(pairs, None);
    assert_eq!(count, 3);
    let (pairs, count) = find_step_pairs(&records, 3);
    assert_eq!(pairs, Some(vec![(2, 3)]));
    assert_eq!(count, 3);
}

#[test]
fn row_checks_report_each_row() {
    let expected = vec![1, 1, 1, 1, 1, 1, 1];
    let all: Vec<(usize, usize)> = (0..7).map(|r| (r, 1)).collect();
    assert_eq!(
        check_rows(&all, &expected),
        Ok("All rows match - [R0:ok(1), R1:ok(1), R2:ok(1), R3:ok(1), R4:ok(1), R5:ok(1), R6:ok(1)]".to_string())
    );
    let some = vec![(0, 1), (1, 2), (1, 1)];
    assert_eq!(
        check_rows(&some, &expected),
        Err("Mismatch - [R0:ok(1), R1:act2exp1, R2:MISSING, R3:MISSING, R4:MISSING, R5:MISSING, R6:MISSING]".to_string())
    );
}

#[test]
fn multi_length_checks_against_the_log() {
    let step5: Vec<(u64, u64)> = vec![(0, 5), (1, 5), (2, 5), (3, 5), (4, 5), (5, 5), (6, 2)];
    let mut records = vec![other_event()];
    for _ in 0..4 {
        records.push(step_event(vec![]));
    }
    records.push(step_event(step5));
    let report = verify_state_at_step(&records, &vec![], 5).unwrap();
    assert!(report.starts_with("All rows match - [R0:ok(5)"));
    assert!(report.ends_with("R6:ok(2)]"));
    let changes = vec![RowConfigChange { cumulative_step: 3, row: 0, new_max_step: 1 }];
    let report = verify_state_at_step(&records, &changes, 5).unwrap_err();
    assert!(report.starts_with("Mismatch - [R0:act5exp0"));
    let missing = verify_state_at_step(&records, &vec![], 9).unwrap_err();
    assert_eq!(missing, "No step advancement event found for cumulative step 9 in formal_state.log (found 5 step events)");
}

#[test]
fn clock_thread_commands() {
    let counting = ClockConfig { enable_tick_counting: true, enable_test_mode: true };
    let mut st = ClockThreadState { running: false, test_mode: false, tick_count: 9 };
    let r = handle_clock_command(&counting, &mut st, ClockCommand::Start);
    assert_eq!(r.send, Some(vec![0xFA]));
    assert!(!r.exit);
    assert_eq!(st, ClockThreadState { running: true, test_mode: false, tick_count: 0 });
    let r = handle_clock_command(&counting, &mut st, ClockCommand::ToggleTestMode);
    assert!(r.send.is_none());
    assert!(st.test_mode);
    let r = handle_clock_command(&counting, &mut st, ClockCommand::Stop);
    assert_eq!(r.send, Some(vec![0xFC]));
    assert!(!st.running);
    let r = handle_clock_command(&counting, &mut st, ClockCommand::SendRawMidi(vec![0xF0, 0xF7]));
    assert_eq!(r.send, Some(vec![0xF0, 0xF7]));
    assert!(handle_clock_command(&counting, &mut st, ClockCommand::Exit).exit);
    let plain = ClockConfig::default();
    let mut st = ClockThreadState { running: false, test_mode: false, tick_count: 9 };
    handle_clock_command(&plain, &mut st, ClockCommand::Start);
    handle_clock_command(&plain, &mut st, ClockCommand::ToggleTestMode);
    assert_eq!(st, ClockThreadState { running: true, test_mode: false, tick_count: 9 });
}

#[test]
fn test_mode_tempo_steps_and_pause() {
    let slot = |ms: u64| test_mode_slot(ms);
    assert_eq!(slot(0), TestModeSlot { running: true, bpm: Some(120) });
    assert_eq!(slot(9_999), TestModeSlot { running: true, bpm: Some(120) });
    assert_eq!(slot(10_000), TestModeSlot { running: true, bpm: Some(125) });
    assert_eq!(slot(25_000), TestModeSlot { running: true, bpm: Some(121) });
    assert_eq!(slot(35_000), TestModeSlot { running: true, bpm: Some(140) });
    assert_eq!(slot(59_999), TestModeSlot { running: true, bpm: Some(130) });
    assert_eq!(slot(70_000), TestModeSlot { running: true, bpm: Some(122) });
    assert_eq!(slot(99_999), TestModeSlot { running: true, bpm: Some(110) });
    assert_eq!(slot(100_000), TestModeSlot { running: false, bpm: None });
    assert_eq!(slot(110_000), TestModeSlot { running: true, bpm: None });
    assert_eq!(slot(120_000 + 15_000), slot(15_000));
}

#[test]
fn run_log_records_changes_at_the_steps_waited() {
    let mut log = TestRunLog::new();
    log.record_row_config(1, 15);
    log.steps_waited(16);
    log.steps_waited(4);
    log.record_row_config(3, 7);
    assert_eq!(log.cumulative_steps, 20);
    assert_eq!(
        log.row_config_changes,
        vec![
            RowConfigChange { cumulative_step: 0, row: 1, new_max_step: 15 },
            RowConfigChange { cumulative_step: 20, row: 3, new_max_step: 7 },
        ]
    );
}

#[test]
fn clock_ticks_count_while_running_only() {
    let config = ClockConfig { enable_tick_counting: true, enable_test_mode: false };
    let mut state = ClockThreadState { running: false, test_mode: false, tick_count: 9 };
    let r = handle_clock_command(&config, &mut state, ClockCommand::Start);
    assert_eq!(r.send, Some(vec![0xFA]));
    assert_eq!(state.tick_count, 0);
    for _ in 0..5 {
        assert_eq!(clock_tick(&config, &mut state), Some(vec![0xF8]));
    }
    assert_eq!(state.tick_count, 5);
    let r = handle_clock_command(&config, &mut state, ClockCommand::Stop);
    assert_eq!(r.send, Some(vec![0xFC]));
    assert_eq!(clock_tick(&config, &mut state), None);
    assert_eq!(state.tick_count, 5);
}
