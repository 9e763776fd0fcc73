//! Recognising the devices found on the serial ports: the USB serial device
//! names, a Crow module (an STMicroelectronics virtual COM port) and a
//! monome grid.

use vstd::prelude::*;
use vstd::string::*;
use crate::hardware::{str_contains, contains_seq};

verus! {

/// `s` begins with `p`.
pub open spec fn has_prefix(s: Seq<char>, p: Seq<char>) -> bool {
    p.len() <= s.len() && s.subrange(0, p.len() as int) == p
}

/// Whether `s` begins with `p`.
fn str_has_prefix(s: &str, p: &str) -> (b: bool)
    ensures
        b == has_prefix(s@, p@),
{
    let n = s.unicode_len();
    let m = p.unicode_len();
    if m > n {
        return false;
    }
    let mut i: usize = 0;
    while i < m
        invariant
            n == s@.len(),
            m == p@.len(),
            m <= n,
            i <= m,
            forall|k: int| 0 <= k < i ==> s@[k] == p@[k],
        decreases m - i,
    {
        if s.get_char(i) != p.get_char(i) {
            assert(s@.subrange(0, m as int)[i as int] != p@[i as int]);
            return false;
        }
        i = i + 1;
    }
    assert(s@.subrange(0, m as int) =~= p@);
    true
}

/// Whether a name under /dev is that of a USB serial device: it begins
/// with "ttyACM" or "ttyUSB".
pub fn is_usb_serial_name(name: &str) -> (b: bool)
    ensures
        b == (has_prefix(name@, "ttyACM"@) || has_prefix(name@, "ttyUSB"@)),
{
    str_has_prefix(name, "ttyACM") || str_has_prefix(name, "ttyUSB")
}

/// Whether udev's description of a device is that of a Crow: vendor 0483,
/// model 5740.
pub fn is_crow_udev_info(info: &str) -> (b: bool)
    ensures
        b == (contains_seq(info@, "ID_VENDOR_ID=0483"@) && contains_seq(info@, "ID_MODEL_ID=5740"@)),
{
    str_contains(info, "ID_VENDOR_ID=0483") && str_contains(info, "ID_MODEL_ID=5740")
}

/// Whether udev's description of a device is that of a monome grid (vendor
/// cafe).
pub fn is_monome_udev_info(info: &str) -> (b: bool)
    ensures
        b == contains_seq(info@, "ID_VENDOR_ID=cafe"@),
{
    str_contains(info, "ID_VENDOR_ID=cafe")
}

} // verus!
