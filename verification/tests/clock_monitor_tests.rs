use simon_says_seeq_rust::clock_monitor::{
    detector_choice, monitor_message, monitor_status, startup_plan, DetectorChoice, MonitorMark, MonitorStatus,
    StartupPlan,
};

#[test]
fn clock_ticks_are_marked_by_beat_and_sixteenth() {
    let mut ticks = 0u32;
    let mut marks = Vec::new();
    for _ in 0..24 {
        let (mark, next) = monitor_message(&[0xF8], ticks);
        marks.push(mark);
        ticks = next;
    }
    assert_eq!(ticks, 24);
    assert_eq!(marks[4], MonitorMark::Tick);
    assert_eq!(marks[5], MonitorMark::Sixteenth);
    assert_eq!(marks[11], MonitorMark::Sixteenth);
    assert_eq!(marks[17], MonitorMark::Sixteenth);
    assert_eq!(marks[23], MonitorMark::Beat);
    assert_eq!(marks.iter().filter(|m| **m == MonitorMark::Beat).count(), 1);
    assert_eq!(marks.iter().filter(|m| **m == MonitorMark::Sixteenth).count(), 3);
}

#[test]
fn transport_messages_are_named_and_not_counted() {
    assert_eq!(monitor_message(&[0xFA], 7), (MonitorMark::Start, 7));
    assert_eq!(monitor_message(&[0xFB], 7), (MonitorMark::Continue, 7));
    assert_eq!(monitor_message(&[0xFC], 7), (MonitorMark::Stop, 7));
    assert_eq!(monitor_message(&[0x90, 60, 100], 7), (MonitorMark::Ignored, 7));
    assert_eq!(monitor_message(&[], 7), (MonitorMark::Ignored, 7));
}

#[test]
fn tick_counter_wraps() {
    assert_eq!(monitor_message(&[0xF8], u32::MAX), (MonitorMark::Beat, 0));
}

#[test]
fn status_line() {
    assert_eq!(monitor_status(0, 5000), MonitorStatus::Waiting);
    assert_eq!(monitor_status(10, 2000), MonitorStatus::Receiving { signal_lost: false });
    assert_eq!(monitor_status(10, 2001), MonitorStatus::Receiving { signal_lost: true });
}

#[test]
fn interactive_choice() {
    assert_eq!(detector_choice("0\n", 3), DetectorChoice::ScanAll);
    assert_eq!(detector_choice("\n", 3), DetectorChoice::ScanAll);
    assert_eq!(detector_choice("abc\n", 3), DetectorChoice::ScanAll);
    assert_eq!(detector_choice("1\n", 3), DetectorChoice::MonitorPort(0));
    assert_eq!(detector_choice(" 3 \n", 3), DetectorChoice::MonitorPort(2));
    assert_eq!(detector_choice("+2\n", 3), DetectorChoice::MonitorPort(1));
    assert_eq!(detector_choice("4\n", 3), DetectorChoice::Invalid);
}

#[test]
fn next_startup() {
    assert_eq!(startup_plan("", true, true), StartupPlan::LastDeviceThenScan);
    assert_eq!(startup_plan("", true, false), StartupPlan::FullScan);
    assert_eq!(startup_plan("USB MIDI", true, true), StartupPlan::ManualDevice);
    assert_eq!(startup_plan("USB MIDI", false, false), StartupPlan::ManualDevice);
    assert_eq!(startup_plan("", false, true), StartupPlan::FirstAvailablePort);
}
