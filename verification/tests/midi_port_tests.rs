use simon_says_seeq_rust::midi::{note_off_label, note_on_label};
use simon_says_seeq_rust::midi_ports::{
    extract_usb_interface_name, find_port_by_name, select_input_port, select_output_port,
};
use simon_says_seeq_rust::text::trim_str;

/// The interface name as the MIDI manager computed it, written with std.
fn interface_by_std(port_name: &str) -> String {
    let patterns = [
        " MIDI 1", " MIDI 2", " MIDI 3", " MIDI 4", " Port 1", " Port 2", " Port 3", " Port 4", " In", " Out",
        " Sync", " Clock", ":1", ":2", ":3", ":4",
    ];
    let mut name = port_name.to_string();
    for pattern in &patterns {
        if let Some(pos) = name.rfind(pattern) {
            let after = pos + pattern.len();
            if after >= name.len() || name[after..].chars().all(|c| c.is_whitespace() || c.is_numeric()) {
                name.truncate(pos);
                break;
            }
        }
    }
    name.trim().to_string()
}

#[test]
fn usb_interface_names() {
    assert_eq!(extract_usb_interface_name("KeyLab Essential 61 MIDI 1"), "KeyLab Essential 61");
    assert_eq!(extract_usb_interface_name("Arturia In 2"), "Arturia");
    assert_eq!(extract_usb_interface_name("Some Device Out"), "Some Device");
    assert_eq!(extract_usb_interface_name("Launchpad:1"), "Launchpad");
    assert_eq!(extract_usb_interface_name("X MIDI 1 MIDI 2"), "X MIDI 1");
    assert_eq!(extract_usb_interface_name("  Midi Through Port-0 "), "Midi Through Port-0");
    for name in [
        "KeyLab Essential 61 MIDI 1",
        "KeyLab Essential 61 DAW",
        "USB MIDI Interface MIDI 1 20:0",
        "Arturia In 2",
        "Clock Out 12 ",
        "Sync",
        "",
        "a:4 :3",
        "Interface In \u{2003}7",
        "Pad Port 3 \u{0663}",
    ] {
        assert_eq!(extract_usb_interface_name(name), interface_by_std(name), "{:?}", name);
    }
}

#[test]
fn trimming_follows_str_trim() {
    for s in ["", "  ", " a b ", "\t\nx\r\n", "\u{3000}y\u{a0}", "\u{200b}z"] {
        assert_eq!(trim_str(s), s.trim());
    }
}

#[test]
fn output_port_choice() {
    let names = vec![
        Some("KeyLab Essential 61 MIDI 1".to_string()),
        None,
        Some("KeyLab Essential 61 MIDI 2".to_string()),
        Some("Other Synth".to_string()),
    ];
    assert_eq!(select_output_port(&names, "", "KeyLab Essential 61 MIDI 1").unwrap(), Some(3));
    assert_eq!(select_output_port(&names, "", "").unwrap(), Some(0));
    assert_eq!(select_output_port(&names, "OTHER", "").unwrap(), Some(3));
    assert_eq!(select_output_port(&names, "keylab", "x").unwrap(), Some(0));
    let e = select_output_port(&names, "nothing", "").unwrap_err();
    assert_eq!(e.message(), "MIDI port 'nothing' not found");
    assert_eq!(select_output_port(&vec![], "", "clock").unwrap(), None);
    let same = vec![Some("Box MIDI 1".to_string()), Some("Box MIDI 2".to_string())];
    assert_eq!(select_output_port(&same, "", "Box MIDI 1").unwrap(), Some(0));
    assert_eq!(find_port_by_name(&names, "essential 61 midi 2"), Some(2));
}

#[test]
fn input_port_choice() {
    let names = vec![None, Some("Clock Box".to_string())];
    assert_eq!(select_input_port(&names, "clock").unwrap(), Some(1));
    assert_eq!(select_input_port(&names, "").unwrap(), Some(0));
    let e = select_input_port(&names, "zzz").unwrap_err();
    assert_eq!(e.message(), "MIDI input port 'zzz' not found");
    assert_eq!(select_input_port(&vec![], "").unwrap(), None);
}

#[test]
fn last_note_labels() {
    assert_eq!(note_on_label(60, 100), "C4 ON vel:100");
    assert_eq!(note_on_label(0, 0), "C-1 ON vel:0");
    assert_eq!(note_off_label(61), "C#4 OFF");
}
