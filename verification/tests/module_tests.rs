use simon_says_seeq_rust::co2::{Co2Cursor, EpisodeTracker};
use simon_says_seeq_rust::config::ConfigError;
use simon_says_seeq_rust::crow::{is_crow_udev_info, is_monome_udev_info, is_usb_serial_name};
use simon_says_seeq_rust::midi_scanner::{
    classify_scan_message, select_source, summarize_scan, ClockTally, ScanError, ScanMessage, SourceReport,
};
use simon_says_seeq_rust::screen::{ScreenManager, FONT_6X8};
use simon_says_seeq_rust::test_script::{
    commands_due, expected_row_position, find_row_position, DirectTestAction, DirectTestCommand,
    RowConfigChange, StepRecord,
};
use simon_says_seeq_rust::version::{
    description_from_content, full_version_from_content, get_version_info, get_version_string,
    version_description, version_from_content, version_number,
};

#[test]
fn pixel_read_back_and_off_screen_writes() {
    let mut s = ScreenManager::new().unwrap();
    s.set_pixel(127, 63, true);
    assert!(s.get_pixel(127, 63));
    s.set_pixel(128, 0, true);
    assert!(!s.get_pixel(128, 0));
    s.set_pixel(127, 62, true);
    s.set_pixel(127, 63, false);
    assert!(s.get_pixel(127, 62));
    assert!(!s.get_pixel(127, 63));
}

#[test]
fn text_draws_each_characters_own_glyph() {
    let mut s = ScreenManager::new().unwrap();
    s.draw_text(0, 0, "A");
    // The 'A' bitmap 7E 11 11 11 7E 00, bit r of byte c lighting (c, r).
    assert!(!s.get_pixel(0, 0));
    assert!(s.get_pixel(0, 1));
    assert!(s.get_pixel(4, 1));
    assert!(!s.get_pixel(5, 1));
    for col in 0..6 {
        for row in 0..8 {
            let lit = FONT_6X8['A' as usize - 32][col] & (1 << row) != 0;
            assert_eq!(s.get_pixel(col, row), lit);
        }
    }
    assert_eq!(FONT_6X8['A' as usize - 32], [0x7E, 0x11, 0x11, 0x11, 0x7E, 0x00]);
    // 'Z' (90), the last entry, is drawn too.
    let mut t = ScreenManager::new().unwrap();
    t.draw_text(0, 0, "Z");
    assert_eq!(FONT_6X8['Z' as usize - 32], [0x61, 0x51, 0x49, 0x45, 0x43, 0x00]);
    assert!(t.get_pixel(0, 0));
    assert!(t.get_pixel(0, 5));
    assert!(!t.get_pixel(0, 1));
}

#[test]
fn text_stops_at_the_right_edge() {
    let mut s = ScreenManager::new().unwrap();
    s.draw_text(120, 0, "00");
    let glyph = FONT_6X8[16];
    for col in 0..6 {
        for row in 0..8 {
            assert_eq!(s.get_pixel(120 + col, row), glyph[col] & (1 << row) != 0);
        }
    }
}

#[test]
fn grid_view_draws_blocks_for_set_cells_and_the_current_step() {
    let mut s = ScreenManager::new().unwrap();
    let mut grid = vec![vec![0u8; 8]; 32];
    grid[2][1] = 1;
    s.draw_grid(&grid, 5, 0);
    // Cell (2, 1): x from 70, y from 14, 2 x 5.
    for dx in 0..2 {
        for dy in 0..5 {
            assert!(s.get_pixel(70 + dx, 14 + dy));
        }
    }
    assert!(!s.get_pixel(72, 14));
    // Column 4 is the current step: every row shown, even empty ones.
    assert!(s.get_pixel(76, 8));
    assert!(s.get_pixel(77, 44));
    assert!(!s.get_pixel(73, 8));
}

#[test]
fn beat_indicator_fills_only_the_current_dot() {
    let mut s = ScreenManager::new().unwrap();
    s.set_beat_indicator(2);
    s.update().unwrap();
    assert!(!s.get_pixel(109, 3));
    assert!(s.get_pixel(113, 3));
    assert!(s.get_pixel(108, 2));
    assert!(s.get_pixel(122, 4));
}

#[test]
fn step_indicators_along_the_bottom() {
    let mut s = ScreenManager::new().unwrap();
    s.draw_step_indicators(2, 16);
    // Boxes 8 pixels apart, 7 wide, from y = 56; box 2 is filled.
    assert!(s.get_pixel(9, 58));
    assert!(!s.get_pixel(2, 58));
    assert!(s.get_pixel(0, 56));
    assert!(!s.get_pixel(7, 56));
}

#[test]
fn version_line_parts() {
    assert_eq!(version_number("1.2.3 - Sonification - extra"), "1.2.3");
    assert_eq!(version_description("1.2.3 - Sonification - extra"), "Sonification");
    assert_eq!(version_description("1.2.3"), "");
    assert_eq!(version_number("1.2.3"), "1.2.3");
    assert_eq!(version_from_content("  0.9 - Grid update \n"), "0.9");
    assert_eq!(description_from_content("  0.9 - Grid update \n"), "Grid update");
    assert_eq!(full_version_from_content("\t0.9 - Grid update \n"), "0.9 - Grid update");
    assert_eq!(get_version_string("0.9"), "SimonSaysSeeq v0.9");
    assert_eq!(
        get_version_info("0.9", ""),
        "SimonSaysSeeq Rust v0.9 - CO2 Environmental Data Sonification System"
    );
    assert_eq!(get_version_info("0.9", "Grid update"), "SimonSaysSeeq Rust v0.9 - Grid update");
}

#[test]
fn config_error_messages() {
    assert_eq!(ConfigError::MidiChannel.message(), "MIDI channel must be 1-16");
    assert_eq!(ConfigError::StepRange.message(), "Invalid step range");
    assert_eq!(ConfigError::FontScale.message(), "Font scale must be 1-4");
}

#[test]
fn scanner_reads_clock_messages() {
    assert_eq!(classify_scan_message(&[0xF8]), Some(ScanMessage::Tick));
    assert_eq!(classify_scan_message(&[0xFB]), Some(ScanMessage::Start));
    assert_eq!(classify_scan_message(&[0xFC, 0]), Some(ScanMessage::Stop));
    assert_eq!(classify_scan_message(&[0x90, 60, 100]), None);
    assert_eq!(classify_scan_message(&[]), None);
}

#[test]
fn a_clock_proves_reliable_after_a_beat() {
    let mut t = ClockTally::new();
    for _ in 0..23 {
        assert!(!t.add_tick(true));
    }
    assert!(!t.is_reliable);
    assert!(!t.add_tick(false));
    assert!(!t.is_reliable);
    assert!(t.add_tick(true));
    assert!(t.is_reliable);
    assert_eq!(t.total_ticks, 25);
}

#[test]
fn scan_summary_counts_and_selection() {
    let reports = vec![
        SourceReport { port_name: "A".to_string(), total_ticks: 30, is_reliable: true, is_alive: true },
        SourceReport { port_name: "B".to_string(), total_ticks: 5, is_reliable: false, is_alive: true },
        SourceReport { port_name: "C".to_string(), total_ticks: 0, is_reliable: false, is_alive: false },
        SourceReport { port_name: "D".to_string(), total_ticks: 40, is_reliable: true, is_alive: false },
    ];
    let s = summarize_scan(&reports, Some("A".to_string()), false);
    assert_eq!(s.total_ports_scanned, 4);
    assert_eq!(s.ports_with_clock, 3);
    assert_eq!(s.reliable_sources, vec!["A".to_string()]);
    assert!(s.is_locked());
    let known = vec!["A".to_string(), "B".to_string()];
    assert_eq!(select_source(&known, "B").unwrap(), "B");
    match select_source(&known, "Z") {
        Err(e) => assert_eq!(e.message(), "Clock source 'Z' not found"),
        Ok(_) => panic!("an unknown source was accepted"),
    }
    assert_eq!(ScanError::AlreadyScanning.message(), "Scan already in progress");
}

#[test]
fn test_commands_due_at_a_tick() {
    let commands = vec![
        DirectTestCommand { at_tick: 6, action: DirectTestAction::LogMessage { message: "a".to_string() } },
        DirectTestCommand { at_tick: 12, action: DirectTestAction::SysExButton { row: 0, col: 1, press: true } },
        DirectTestCommand { at_tick: 6, action: DirectTestAction::VerifyState { step: 1, row: 0, expected: Some(1) } },
    ];
    assert_eq!(commands_due(&commands, 6), vec![0, 2]);
    assert_eq!(commands_due(&commands, 7), Vec::<usize>::new());
}

#[test]
fn state_log_search_finds_the_nth_step() {
    let records = vec![
        StepRecord { is_step_advancement: false, row_steps: None },
        StepRecord { is_step_advancement: true, row_steps: Some(vec![(Some(0), Some(1)), (Some(1), Some(1))]) },
        StepRecord { is_step_advancement: true, row_steps: Some(vec![(Some(0), Some(2)), (None, Some(9)), (Some(1), Some(7))]) },
    ];
    assert_eq!(find_row_position(&records, 2, 1), (Some(7), 2));
    assert_eq!(find_row_position(&records, 1, 3), (None, 1));
    assert_eq!(find_row_position(&records, 5, 0), (None, 2));
}

#[test]
fn expected_positions_follow_row_length_changes() {
    assert_eq!(expected_row_position(31, &vec![], 0, 40), 8);
    let changes = vec![RowConfigChange { cumulative_step: 10, row: 0, new_max_step: 3 }];
    // At step 10 the row stood at 10 > 3, so it restarts from 0 and walks 5 steps in a cycle of 4.
    assert_eq!(expected_row_position(31, &changes, 0, 15), 1);
    // Another row is not affected.
    assert_eq!(expected_row_position(15, &changes, 1, 15), 15);
    let changes2 = vec![RowConfigChange { cumulative_step: 2, row: 0, new_max_step: 7 }];
    assert_eq!(expected_row_position(31, &changes2, 0, 9), 1);
}

#[test]
fn co2_cursors_wrap() {
    let mut c = Co2Cursor::new();
    assert_eq!(c.advance_step(0), None);
    assert_eq!(c.advance_step(3), Some(0));
    assert_eq!(c.advance_step(3), Some(1));
    assert_eq!(c.advance_step(3), Some(2));
    assert_eq!(c.advance_step(3), Some(0));
    assert_eq!(c.tick_counter, 0);
    assert_eq!(Co2Cursor::next_record(2, 3), Some(0));
    assert_eq!(Co2Cursor::next_record(0, 1), None);
    c.reset();
    assert_eq!(c.step_counter, 0);
}

#[test]
fn episodes_count_transitions_into_instability() {
    let mut t = EpisodeTracker::new();
    for exceeded in [true, true, false, true, false, false, true] {
        t.observe(exceeded);
    }
    assert_eq!(t.episodes, 3);
    assert!(!t.is_stable);
}

#[test]
fn crow_and_grid_recognised_by_udev_ids() {
    assert!(is_crow_udev_info("E: ID_VENDOR_ID=0483\nE: ID_MODEL_ID=5740\n"));
    assert!(!is_crow_udev_info("E: ID_VENDOR_ID=0483\nE: ID_MODEL_ID=5741\n"));
    assert!(is_monome_udev_info("E: ID_VENDOR_ID=cafe\n"));
    assert!(!is_monome_udev_info("E: ID_VENDOR_ID=0483\n"));
}

#[test]
fn usb_serial_device_names() {
    assert!(is_usb_serial_name("ttyACM0"));
    assert!(is_usb_serial_name("ttyUSB12"));
    assert!(is_usb_serial_name("ttyACM"));
    assert!(!is_usb_serial_name("ttyS0"));
    assert!(!is_usb_serial_name("tty"));
    assert!(!is_usb_serial_name("xttyACM0"));
}

#[test]
fn status_screen_lines_and_beat_dots() {
    let mut s = ScreenManager::new().unwrap();
    s.set_pixel(60, 60, true);
    s.update_screen(7, true, Some("C4"), false).unwrap();
    // Cleared first.
    assert!(!s.get_pixel(60, 60));
    // "Step: 7" at (1, 21): the 'S' glyph.
    for col in 0..6 {
        for row in 0..8 {
            assert_eq!(s.get_pixel(1 + col, 21 + row), FONT_6X8['S' as usize - 32][col] & (1 << row) != 0);
        }
    }
    // "RUNNING" at (1, 35): the 'R' glyph.
    for col in 0..6 {
        for row in 0..8 {
            assert_eq!(s.get_pixel(1 + col, 35 + row), FONT_6X8['R' as usize - 32][col] & (1 << row) != 0);
        }
    }
    // "MIDI: C4" at (1, 49): the 'M' glyph.
    for col in 0..6 {
        for row in 0..8 {
            assert_eq!(s.get_pixel(1 + col, 49 + row), FONT_6X8['M' as usize - 32][col] & (1 << row) != 0);
        }
    }
    // The beat dots are drawn by the update even with the indicators off.
    assert!(s.get_pixel(108, 2));
    assert!(!s.get_pixel(109, 3));
}
