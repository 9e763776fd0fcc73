use simon_says_seeq_rust::test_script::{
    exit_tick, test_mode_answer, test_mode_query_message, test_verdict, verification_in_line, DirectTestAction,
    DirectTestCommand, MonitorDecision, ProgressMonitor, TestVerdict,
};

fn log(at_tick: u32) -> DirectTestCommand {
    DirectTestCommand { at_tick, action: DirectTestAction::LogMessage { message: "m".to_string() } }
}

#[test]
fn test_ends_two_steps_after_its_last_command() {
    assert_eq!(exit_tick(&vec![log(30), log(96), log(48)]), 108);
    assert_eq!(exit_tick(&vec![]), 12);
}

#[test]
fn test_mode_query_and_answers() {
    assert_eq!(test_mode_query_message(), vec![0xF0, 0x7D, 0x53, 0x53, 0x51, 0x10, 0xF7]);
    assert_eq!(test_mode_answer(&[0xF0, 0x7D, 0x53, 0x53, 0x51, 0x11, 0xF7]), Some(true));
    assert_eq!(test_mode_answer(&[0xF0, 0x7D, 0x53, 0x53, 0x51, 0x12, 0xF7]), Some(false));
    assert_eq!(test_mode_answer(&[0xF0, 0x7D, 0x53, 0x53, 0x51, 0x13, 0xF7]), None);
    assert_eq!(test_mode_answer(&[0xF8]), None);
}

#[test]
fn monitor_finishes_or_gives_up_after_twenty_still_looks() {
    let mut m = ProgressMonitor::new();
    assert_eq!(m.observe(6, 108), MonitorDecision::Continue);
    assert_eq!(m, ProgressMonitor { last_tick: 6, no_progress: 0 });
    for _ in 0..19 {
        assert_eq!(m.observe(6, 108), MonitorDecision::Continue);
    }
    assert_eq!(m.observe(6, 108), MonitorDecision::Stalled);
    let mut m = ProgressMonitor::new();
    assert_eq!(m.observe(50, 108), MonitorDecision::Continue);
    assert_eq!(m.observe(108, 108), MonitorDecision::Finished);
}

#[test]
fn verdict_and_log_lines() {
    assert_eq!(test_verdict(3, 0), TestVerdict::Passed);
    assert_eq!(test_verdict(0, 0), TestVerdict::NoVerifications);
    assert_eq!(test_verdict(3, 2), TestVerdict::Failed(2));
    assert_eq!(verification_in_line("12:00 \u{2705} Verify step 4 row 0"), Some(true));
    assert_eq!(verification_in_line("12:00 \u{274c} Verify step 4 row 0"), Some(false));
    assert_eq!(verification_in_line("12:00 \u{2705} step 4"), None);
}
