use simon_says_seeq_rust::config::{validate_config, DisplayConfig, GridConfig, MidiConfig, StepSettings};
use simon_says_seeq_rust::grid_osc::GridManager;
use simon_says_seeq_rust::hardware::{
    is_norns_device, map_key_to_norns_key, map_rel_axis_to_encoder, process_input_event, HardwareEvent, InputKind,
};
use simon_says_seeq_rust::midi_scanner::ScanSummary;
use simon_says_seeq_rust::version::{get_version_info, get_version_string};
use simon_says_seeq_rust::VERSION;

/// Whether a default tempo lies within the accepted 60-200 BPM.
fn tempo_within_limits(tempo: f32) -> bool {
    !(tempo < 60.0 || tempo > 200.0)
}

/// The version number, description and full line as the program shows
/// them when no VERSION file can be read.
fn version_parts() -> (String, String, String) {
    ("unknown".to_string(), String::new(), "unknown".to_string())
}

#[test]
fn test_version_exists() {
    assert!(!VERSION.is_empty());
}

#[test]
fn test_version_functions() {
    let (version, description, full_version) = version_parts();
    let version_string = get_version_string(&version);
    let version_info = get_version_info(&version, &description);

    assert!(!version.is_empty());
    assert!(version_string.contains("SimonSaysSeeq"));
    assert!(version_info.contains("SimonSaysSeeq"));
    assert!(!full_version.is_empty());
}

#[test]
fn test_scan_summary() {
    let summary = ScanSummary {
        total_ports_scanned: 3,
        ports_with_clock: 1,
        reliable_sources: vec!["USB MIDI".to_string()],
        selected_source: Some("USB MIDI".to_string()),
        is_scanning: false,
    };

    assert!(summary.has_reliable_sources());
    assert!(summary.is_locked());
}

#[test]
fn test_osc_grid_manager_creation() {
    // Talking to serialosc needs the daemon; creating the manager does not.
    let _manager = GridManager::new(0, None);
}

#[test]
fn test_device_detection() {
    assert!(is_norns_device("rotary encoder"));
    assert!(is_norns_device("GPIO Keys"));
    assert!(is_norns_device("input device"));
    assert!(!is_norns_device("USB Mouse"));
}

#[test]
fn test_encoder_mapping() {
    assert_eq!(map_rel_axis_to_encoder(evdev::RelativeAxisCode::REL_X.0), 1);
    assert_eq!(map_rel_axis_to_encoder(evdev::RelativeAxisCode::REL_Y.0), 2);
    assert_eq!(map_rel_axis_to_encoder(evdev::RelativeAxisCode::REL_Z.0), 3);
}

#[test]
fn test_key_mapping() {
    assert_eq!(map_key_to_norns_key(evdev::KeyCode::KEY_LEFTCTRL.code()), 2);
    assert_eq!(map_key_to_norns_key(evdev::KeyCode::KEY_LEFTALT.code()), 3);
}

#[test]
fn config_test_default_config() {
    let default_tempo: f32 = 60.0;
    let result = validate_config(
        &MidiConfig::default(),
        &GridConfig::default(),
        tempo_within_limits(default_tempo),
        &StepSettings::default(),
        &DisplayConfig::default(),
    );
    assert!(result.is_ok());
}

#[test]
fn test_validation() {
    let mut midi = MidiConfig::default();
    let grid = GridConfig::default();
    let mut steps = StepSettings::default();
    let display = DisplayConfig::default();
    let mut tempo: f32 = 60.0;

    midi.default_channel = 17;
    assert!(validate_config(&midi, &grid, tempo_within_limits(tempo), &steps, &display).is_err());

    midi.default_channel = 1;
    assert!(validate_config(&midi, &grid, tempo_within_limits(tempo), &steps, &display).is_ok());

    tempo = 300.0;
    assert!(validate_config(&midi, &grid, tempo_within_limits(tempo), &steps, &display).is_err());

    tempo = 120.0;
    assert!(validate_config(&midi, &grid, tempo_within_limits(tempo), &steps, &display).is_ok());

    steps.default_first_step = 10;
    steps.default_last_step = 5;
    assert!(validate_config(&midi, &grid, tempo_within_limits(tempo), &steps, &display).is_err());
}

#[test]
fn input_events_become_encoder_turns_and_key_presses() {
    let turn = process_input_event(InputKind::Relative, evdev::RelativeAxisCode::REL_Y.0, -3);
    assert!(matches!(turn, Some(HardwareEvent::EncoderTurn { encoder: 2, delta: -3 })));
    let press = process_input_event(InputKind::Key, evdev::KeyCode::KEY_SPACE.code(), 1);
    assert!(matches!(press, Some(HardwareEvent::KeyPress { key: 3, pressed: true })));
    let release = process_input_event(InputKind::Key, evdev::KeyCode::KEY_ESC.code(), 0);
    assert!(matches!(release, Some(HardwareEvent::KeyPress { key: 1, pressed: false })));
    assert!(process_input_event(InputKind::Other, 0, 1).is_none());
}
