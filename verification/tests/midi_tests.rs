use simon_says_seeq_rust::midi::{midi_note_to_name, note_name_to_midi};

#[test]
fn test_note_name_conversion() {
    assert_eq!(midi_note_to_name(60), "C4");
    assert_eq!(midi_note_to_name(61), "C#4");
    assert_eq!(midi_note_to_name(72), "C5");
    assert_eq!(midi_note_to_name(0), "C-1");
    assert_eq!(midi_note_to_name(127), "G9");
}

#[test]
fn test_note_name_parsing() {
    assert_eq!(note_name_to_midi("C4"), Some(60));
    assert_eq!(note_name_to_midi("C#4"), Some(61));
    assert_eq!(note_name_to_midi("C5"), Some(72));
    assert_eq!(note_name_to_midi("A4"), Some(69));
    assert_eq!(note_name_to_midi("G9"), Some(127));

    assert_eq!(note_name_to_midi("H4"), None);
    assert_eq!(note_name_to_midi("C"), None);
    assert_eq!(note_name_to_midi("C10"), None);
}
