//! Input events of the Norns hardware, the test that picks its input
//! devices by name, and the stand-in grid LED driver.

use vstd::prelude::*;
use vstd::string::*;

verus! {

/// Hardware events that are sent to the main application.
pub enum HardwareEvent {
    /// Encoder was turned.
    EncoderTurn { encoder: u8, delta: i32 },
    /// Key was pressed or released.
    KeyPress { key: u8, pressed: bool },
    /// Grid button was pressed or released.
    GridPress { grid_id: String, x: usize, y: usize, pressed: bool },
    /// Start/Stop toggle.
    StartStopToggle,
    /// Shutdown signal.
    Shutdown,
}

/// What `str::to_lowercase` returns for a string: its Unicode lower-case
/// form, which depends on the characters alone.
pub uninterp spec fn lowercase_of(s: Seq<char>) -> Seq<char>;

/// `str::to_lowercase`: the string in Unicode lower case. Only that the
/// result is this function of the input is claimed; the case mapping
/// itself is left to the standard library.
#[verifier::external_body]
pub(crate) fn to_lowercase(s: &str) -> (r: String)
    ensures
        r@ == lowercase_of(s@),
{
    s.to_lowercase()
}

/// `needle` occurs in `hay` at position `i`.
pub open spec fn occurs_at(hay: Seq<char>, needle: Seq<char>, i: int) -> bool {
    0 <= i && i + needle.len() <= hay.len() && hay.subrange(i, i + needle.len()) == needle
}

/// `needle` occurs somewhere in `hay`.
pub open spec fn contains_seq(hay: Seq<char>, needle: Seq<char>) -> bool {
    exists|i: int| occurs_at(hay, needle, i)
}

/// Whether `needle` occurs in `hay`.
pub(crate) fn str_contains(hay: &str, needle: &str) -> (b: bool)
    ensures
        b == contains_seq(hay@, needle@),
{
    let n = hay.unicode_len();
    let m = needle.unicode_len();
    if m > n {
        assert forall|i: int| !occurs_at(hay@, needle@, i) by {}
        return false;
    }
    let mut i: usize = 0;
    while i <= n - m
        invariant
            n == hay@.len(),
            m == needle@.len(),
            m <= n,
            i <= n - m + 1,
            forall|k: int| 0 <= k < i ==> !#[trigger] occurs_at(hay@, needle@, k),
        decreases n - m + 1 - i,
    {
        let mut j: usize = 0;
        let mut same = true;
        while j < m
            invariant
                n == hay@.len(),
                m == needle@.len(),
                i <= n - m,
                j <= m,
                same == (forall|k: int| 0 <= k < j ==> hay@[i + k] == needle@[k]),
            decreases m - j,
        {
            if hay.get_char(i + j) != needle.get_char(j) {
                same = false;
            }
            j = j + 1;
        }
        if same {
            assert(hay@.subrange(i as int, i + m) =~= needle@);
            assert(occurs_at(hay@, needle@, i as int));
            return true;
        }
        assert(!occurs_at(hay@, needle@, i as int)) by {
            if occurs_at(hay@, needle@, i as int) {
                assert forall|k: int| 0 <= k < m implies hay@[i + k] == needle@[k] by {
                    assert(hay@.subrange(i as int, i + m)[k] == hay@[i + k]);
                }
            }
        }
        i = i + 1;
    }
    assert forall|k: int| !occurs_at(hay@, needle@, k) by {
        if 0 <= k && k < i {
        } else if k >= i {
            assert(k + needle@.len() > hay@.len());
        }
    }
    false
}

/// The words by which an input device is recognised as one of the Norns's
/// own: rotary, encoder, button, key, gpio, input.
pub open spec fn norns_device_name(lower: Seq<char>) -> bool {
    ||| contains_seq(lower, "rotary"@)
    ||| contains_seq(lower, "encoder"@)
    ||| contains_seq(lower, "button"@)
    ||| contains_seq(lower, "key"@)
    ||| contains_seq(lower, "gpio"@)
    ||| contains_seq(lower, "input"@)
}

/// Whether a device name, in lower case, holds one of the Norns indicator
/// words.
pub fn is_norns_device(name: &str) -> (b: bool)
    ensures
        b == norns_device_name(lowercase_of(name@)),
{
    let lower = to_lowercase(name);
    holds_norns_word(lower.as_str())
}

/// Whether a device name already in lower case holds one of the Norns
/// indicator words: "rotary", "encoder", "button", "key", "gpio", "input".
pub fn holds_norns_word(lower: &str) -> (b: bool)
    ensures
        b == norns_device_name(lower@),
{
    str_contains(lower, "rotary") || str_contains(lower, "encoder") || str_contains(lower, "button")
        || str_contains(lower, "key") || str_contains(lower, "gpio") || str_contains(lower, "input")
}

/// The encoder that relative axis `axis_code` turns (see
/// `map_rel_axis_to_encoder`).
pub open spec fn map_rel_axis_to_encoder_spec(axis_code: u16) -> u8 {
    if axis_code == 0x00 || axis_code == 0x03 {
        1u8
    } else if axis_code == 0x01 || axis_code == 0x04 {
        2u8
    } else if axis_code == 0x02 || axis_code == 0x05 {
        3u8
    } else {
        1u8
    }
}

/// The Norns key that key code `key_code` stands for (see
/// `map_key_to_norns_key`).
pub open spec fn map_key_to_norns_key_spec(key_code: u16) -> u8 {
    if key_code == 42 || key_code == 0x100 || key_code == 1 {
        1u8
    } else if key_code == 29 || key_code == 0x101 || key_code == 28 {
        2u8
    } else if key_code == 56 || key_code == 0x102 || key_code == 57 {
        3u8
    } else {
        2u8
    }
}

/// The encoder (1 to 3) that a relative axis turns, by the axis's event
/// code: X and RX the left one, Y and RY the middle one, Z and RZ the right
/// one; any other axis the left one.
pub fn map_rel_axis_to_encoder(axis_code: u16) -> (e: u8)
    ensures
        e == map_rel_axis_to_encoder_spec(axis_code),
{
    if axis_code == 0x00 || axis_code == 0x03 {
        1
    } else if axis_code == 0x01 || axis_code == 0x04 {
        2
    } else if axis_code == 0x02 || axis_code == 0x05 {
        3
    } else {
        1
    }
}

/// The Norns key (1 to 3) that a key or button stands for, by its event
/// code: left shift (42), BTN_0 (0x100) and escape (1) are K1; left control
/// (29), BTN_1 (0x101) and enter (28) are K2; left alt (56), BTN_2 (0x102)
/// and space (57) are K3; any other key is K2.
pub fn map_key_to_norns_key(key_code: u16) -> (k: u8)
    ensures
        k == map_key_to_norns_key_spec(key_code),
{
    if key_code == 42 || key_code == 0x100 || key_code == 1 {
        1
    } else if key_code == 29 || key_code == 0x101 || key_code == 28 {
        2
    } else if key_code == 56 || key_code == 0x102 || key_code == 57 {
        3
    } else {
        2
    }
}

/// The kind of an input event, as far as the Norns's inputs tell them
/// apart.
#[derive(Debug, Clone, Copy, PartialEq, Eq, Structural)]
pub enum InputKind {
    /// A relative axis (a rotary encoder).
    Relative,
    /// A key or button.
    Key,
    /// Anything else.
    Other,
}

/// What an input event means: a relative axis turns its encoder by the
/// event's value; a key is pressed when the value is not 0 and released
/// otherwise; other events mean nothing.
pub fn process_input_event(kind: InputKind, code: u16, value: i32) -> (r: Option<HardwareEvent>)
    ensures
        kind == InputKind::Relative ==> (r matches Some(HardwareEvent::EncoderTurn { encoder, delta })
            && encoder == map_rel_axis_to_encoder_spec(code) && delta == value),
        kind == InputKind::Key ==> (r matches Some(HardwareEvent::KeyPress { key, pressed })
            && key == map_key_to_norns_key_spec(code) && pressed == (value != 0)),
        kind == InputKind::Other ==> r is None,
{
    match kind {
        InputKind::Relative => Some(HardwareEvent::EncoderTurn { encoder: map_rel_axis_to_encoder(code), delta: value }),
        InputKind::Key => Some(HardwareEvent::KeyPress { key: map_key_to_norns_key(code), pressed: value != 0 }),
        InputKind::Other => None,
    }
}

/// Error of the grid LED driver.
#[derive(Debug, Clone, Copy, PartialEq, Eq, Structural)]
pub enum GridHardwareError {
    /// The grid could not be reached.
    Unavailable,
}

/// Stand-in for the grid LED hardware: it accepts every request and keeps
/// nothing.
pub struct GridHardware {}

impl GridHardware {
    /// A driver; creating it always succeeds.
    pub fn new() -> (r: Result<GridHardware, GridHardwareError>)
        ensures
            r is Ok,
    {
        Ok(GridHardware {})
    }

    /// Sets an LED; always succeeds.
    pub fn set_led(&mut self, grid_id: usize, x: usize, y: usize, brightness: u8) -> (r: Result<(), GridHardwareError>)
        ensures
            r is Ok,
    {
        Ok(())
    }

    /// Sends the LED state to a grid; always succeeds.
    pub fn refresh(&mut self, grid_id: usize) -> (r: Result<(), GridHardwareError>)
        ensures
            r is Ok,
    {
        Ok(())
    }

    /// Turns every LED of a grid off; always succeeds.
    pub fn clear_all(&mut self, grid_id: usize) -> (r: Result<(), GridHardwareError>)
        ensures
            r is Ok,
    {
        Ok(())
    }
}

} // verus!
