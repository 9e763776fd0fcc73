//! Choosing MIDI ports by their names: the USB interface a port belongs to,
//! the search of a port by a name given in any case, and which output and
//! input ports the MIDI manager opens.

use vstd::prelude::*;
use vstd::string::*;
use crate::hardware::{contains_seq, lowercase_of, occurs_at, str_contains, to_lowercase};
use crate::text::{is_white_space, char_is_whitespace, trimmed, trim_str};

verus! {

/// What `char::is_numeric` gives for a character: whether it lies in one of
/// Unicode's numeric general categories (Nd, Nl, No), a table of the
/// character alone.
pub uninterp spec fn numeric_char(c: char) -> bool;

/// `char::is_numeric`. The result is named by `numeric_char`; of the
/// Unicode table behind it only the documented fact that the ASCII digits
/// are numeric is stated.
#[verifier::external_body]
fn char_is_numeric(c: char) -> (b: bool)
    ensures
        b == numeric_char(c),
        '0' <= c <= '9' ==> b,
{
    c.is_numeric()
}

/// The endings that name a port of a USB MIDI interface rather than the
/// interface, tried in this order.
pub open spec fn interface_suffixes() -> Seq<Seq<char>> {
    seq![
        " MIDI 1"@, " MIDI 2"@, " MIDI 3"@, " MIDI 4"@,
        " Port 1"@, " Port 2"@, " Port 3"@, " Port 4"@,
        " In"@, " Out"@, " Sync"@, " Clock"@,
        ":1"@, ":2"@, ":3"@, ":4"@,
    ]
}

/// Suffix `k` of `interface_suffixes`.
fn interface_suffix(k: usize) -> (p: &'static str)
    requires
        k < 16,
    ensures
        p@ == interface_suffixes()[k as int],
        p@.len() >= 2,
{
    if k == 0 { proof { reveal_strlit(" MIDI 1"); } " MIDI 1" }
    else if k == 1 { proof { reveal_strlit(" MIDI 2"); } " MIDI 2" }
    else if k == 2 { proof { reveal_strlit(" MIDI 3"); } " MIDI 3" }
    else if k == 3 { proof { reveal_strlit(" MIDI 4"); } " MIDI 4" }
    else if k == 4 { proof { reveal_strlit(" Port 1"); } " Port 1" }
    else if k == 5 { proof { reveal_strlit(" Port 2"); } " Port 2" }
    else if k == 6 { proof { reveal_strlit(" Port 3"); } " Port 3" }
    else if k == 7 { proof { reveal_strlit(" Port 4"); } " Port 4" }
    else if k == 8 { proof { reveal_strlit(" In"); } " In" }
    else if k == 9 { proof { reveal_strlit(" Out"); } " Out" }
    else if k == 10 { proof { reveal_strlit(" Sync"); } " Sync" }
    else if k == 11 { proof { reveal_strlit(" Clock"); } " Clock" }
    else if k == 12 { proof { reveal_strlit(":1"); } ":1" }
    else if k == 13 { proof { reveal_strlit(":2"); } ":2" }
    else if k == 14 { proof { reveal_strlit(":3"); } ":3" }
    else { proof { reveal_strlit(":4"); } ":4" }
}

/// The last position at or before `i` where `p` occurs in `s`.
pub open spec fn last_occurrence_from(s: Seq<char>, p: Seq<char>, i: int) -> Option<int>
    decreases i + 1,
{
    if i < 0 {
        None
    } else if occurs_at(s, p, i) {
        Some(i)
    } else {
        last_occurrence_from(s, p, i - 1)
    }
}

/// The last position where `p` occurs in `s` (what `str::rfind` finds).
pub open spec fn last_occurrence(s: Seq<char>, p: Seq<char>) -> Option<int> {
    last_occurrence_from(s, p, s.len() - p.len())
}

/// Whether everything from position `from` on is white space or numeric.
pub open spec fn tail_is_count(s: Seq<char>, from: int) -> bool {
    forall|k: int| from <= k < s.len() ==> is_white_space(#[trigger] s[k]) || numeric_char(s[k])
}

/// The name with the first suffix, from `k` on in `interface_suffixes`,
/// cut off at its last occurrence when only white space or digits follow
/// it there.
pub open spec fn strip_interface_suffix(s: Seq<char>, k: int) -> Seq<char>
    decreases 16 - k,
{
    if k < 0 || k >= 16 {
        s
    } else {
        let p = interface_suffixes()[k];
        match last_occurrence(s, p) {
            Some(pos) => if tail_is_count(s, pos + p.len()) {
                s.subrange(0, pos)
            } else {
                strip_interface_suffix(s, k + 1)
            },
            None => strip_interface_suffix(s, k + 1),
        }
    }
}

/// The USB interface a port belongs to, by its name: "KeyLab Essential 61"
/// for "KeyLab Essential 61 MIDI 1".
pub open spec fn usb_interface_name(port_name: Seq<char>) -> Seq<char> {
    trimmed(strip_interface_suffix(port_name, 0))
}

/// The last position where `p` occurs in `s`.
fn rfind(s: &str, p: &str) -> (r: Option<usize>)
    requires
        p@.len() > 0,
    ensures
        r matches Some(i) ==> last_occurrence(s@, p@) == Some(i as int) && occurs_at(s@, p@, i as int),
        r is None ==> last_occurrence(s@, p@) is None,
{
    let n = s.unicode_len();
    let m = p.unicode_len();
    if m > n {
        assert(last_occurrence(s@, p@) is None);
        return None;
    }
    let mut i: usize = n - m + 1;
    while i > 0
        invariant
            n == s@.len(),
            m == p@.len(),
            m <= n,
            i <= n - m + 1,
            last_occurrence(s@, p@) == last_occurrence_from(s@, p@, i - 1),
        decreases i,
    {
        let k = i - 1;
        let mut j: usize = 0;
        let mut same = true;
        while j < m
            invariant
                n == s@.len(),
                m == p@.len(),
                k <= n - m,
                j <= m,
                same == (forall|t: int| 0 <= t < j ==> s@[k + t] == p@[t]),
            decreases m - j,
        {
            if s.get_char(k + j) != p.get_char(j) {
                same = false;
            }
            j = j + 1;
        }
        if same {
            assert(s@.subrange(k as int, k + m) =~= p@);
            return Some(k);
        }
        assert(!occurs_at(s@, p@, k as int)) by {
            if occurs_at(s@, p@, k as int) {
                assert forall|t: int| 0 <= t < m implies s@[k + t] == p@[t] by {
                    assert(s@.subrange(k as int, k + m)[t] == s@[k + t]);
                }
            }
        }
        i = k;
    }
    None
}

/// Whether everything from position `from` on is white space or numeric.
fn tail_is_count_exec(s: &str, from: usize) -> (b: bool)
    ensures
        b == tail_is_count(s@, from as int),
{
    let n = s.unicode_len();
    let mut k = from;
    while k < n
        invariant
            n == s@.len(),
            from <= k,
            forall|t: int| from <= t < k ==> is_white_space(#[trigger] s@[t]) || numeric_char(s@[t]),
        decreases n - k,
    {
        let c = s.get_char(k);
        if !char_is_whitespace(c) && !char_is_numeric(c) {
            return false;
        }
        k = k + 1;
    }
    true
}

/// The USB interface a port belongs to (see `usb_interface_name`).
pub fn extract_usb_interface_name(port_name: &str) -> (r: String)
    ensures
        r@ == usb_interface_name(port_name@),
{
    let n = port_name.unicode_len();
    let mut k: usize = 0;
    let mut cut: Option<usize> = None;
    while k < 16 && cut.is_none()
        invariant
            n == port_name@.len(),
            k <= 16,
            cut is None ==> strip_interface_suffix(port_name@, 0) == strip_interface_suffix(port_name@, k as int),
            cut matches Some(pos) ==> pos <= port_name@.len() && strip_interface_suffix(port_name@, 0)
                == port_name@.subrange(0, pos as int),
        decreases 16 - k,
    {
        let p = interface_suffix(k);
        match rfind(port_name, p) {
            Some(pos) => {
                if tail_is_count_exec(port_name, pos + p.unicode_len()) {
                    cut = Some(pos);
                }
            },
            None => {},
        }
        k = k + 1;
    }
    let base = match cut {
        Some(pos) => port_name.substring_char(0, pos),
        None => {
            assert(strip_interface_suffix(port_name@, 16) == port_name@);
            port_name.substring_char(0, port_name.unicode_len())
        },
    };
    assert(port_name@.subrange(0, port_name@.len() as int) =~= port_name@);
    String::from_str(trim_str(base))
}

/// Whether a port name holds `target`, ignoring case (both in lower case).
pub open spec fn name_matches(name: Seq<char>, target: Seq<char>) -> bool {
    contains_seq(lowercase_of(name), lowercase_of(target))
}

/// The first port whose name holds `target`, ignoring case; ports whose
/// name could not be read never match.
pub open spec fn first_named_port(names: Seq<Option<String>>, target: Seq<char>, from: int) -> Option<int>
    decreases names.len() - from,
{
    if from < 0 || from >= names.len() {
        None
    } else if names[from] matches Some(n) && name_matches(n@, target) {
        Some(from)
    } else {
        first_named_port(names, target, from + 1)
    }
}

/// The first port, from `from` on, on another USB interface than the one
/// named `clock_interface`; ports whose name could not be read are skipped.
pub open spec fn first_other_interface(names: Seq<Option<String>>, clock_interface: Seq<char>, from: int) -> Option<int>
    decreases names.len() - from,
{
    if from < 0 || from >= names.len() {
        None
    } else if names[from] matches Some(n) && usb_interface_name(n@) != clock_interface {
        Some(from)
    } else {
        first_other_interface(names, clock_interface, from + 1)
    }
}

/// A port that was asked for by name and is not there.
#[derive(Debug, Clone)]
pub enum PortError {
    /// No output port holds the name.
    OutputNotFound(String),
    /// No input port holds the name.
    InputNotFound(String),
}

impl PortError {
    /// The text that reports the error.
    pub fn message(&self) -> (s: String)
        ensures
            self matches PortError::OutputNotFound(n) ==> s@ == "MIDI port '"@ + n@ + "' not found"@,
            self matches PortError::InputNotFound(n) ==> s@ == "MIDI input port '"@ + n@ + "' not found"@,
    {
        match self {
            PortError::OutputNotFound(n) => {
                let mut s = String::from_str("MIDI port '");
                s.append(n.as_str());
                s.append("' not found");
                s
            },
            PortError::InputNotFound(n) => {
                let mut s = String::from_str("MIDI input port '");
                s.append(n.as_str());
                s.append("' not found");
                s
            },
        }
    }
}

/// Port names as plain values (`None` where a name could not be read).
pub open spec fn name_texts(names: Seq<Option<String>>) -> Seq<Option<Seq<char>>> {
    names.map_values(|n: Option<String>| match n {
        Some(s) => Some(s@),
        None => None,
    })
}

/// The first name, from `from` on, that holds `target` exactly (names that
/// could not be read never match).
pub open spec fn first_holding(names: Seq<Option<Seq<char>>>, target: Seq<char>, from: int) -> Option<int>
    decreases names.len() - from,
{
    if from < 0 || from >= names.len() {
        None
    } else if names[from] matches Some(n) && contains_seq(n, target) {
        Some(from)
    } else {
        first_holding(names, target, from + 1)
    }
}

/// The first of the names, already in lower case, that holds `target`,
/// also in lower case.
pub fn first_port_holding(lowered_names: &Vec<Option<String>>, lowered_target: &str) -> (r: Option<usize>)
    ensures
        r matches Some(i) ==> first_holding(name_texts(lowered_names@), lowered_target@, 0) == Some(i as int),
        r is None ==> first_holding(name_texts(lowered_names@), lowered_target@, 0) is None,
{
    let ghost l = name_texts(lowered_names@);
    let mut i: usize = lowered_names.len();
    let mut found: Option<usize> = None;
    while i > 0
        invariant
            i <= lowered_names@.len(),
            l == name_texts(lowered_names@),
            found matches Some(j) ==> i <= j < lowered_names@.len() && first_holding(l, lowered_target@, i as int) == Some(j as int),
            found is None ==> first_holding(l, lowered_target@, i as int) is None,
        decreases i,
    {
        let k = i - 1;
        match &lowered_names[k] {
            Some(n) => {
                if str_contains(n.as_str(), lowered_target) {
                    found = Some(k);
                }
            },
            None => {},
        }
        i = k;
    }
    found
}

/// The names in lower case, as plain values.
pub open spec fn lowered_texts(names: Seq<Option<String>>) -> Seq<Option<Seq<char>>> {
    names.map_values(|n: Option<String>| match n {
        Some(s) => Some(lowercase_of(s@)),
        None => None,
    })
}

/// Searching the lower-cased names for the lower-cased target is the
/// search of the names by the target ignoring case.
proof fn lemma_lowered_search(names: Seq<Option<String>>, target: Seq<char>, from: int)
    requires
        0 <= from <= names.len(),
    ensures
        first_holding(lowered_texts(names), lowercase_of(target), from) == first_named_port(names, target, from),
    decreases names.len() - from,
{
    if from < names.len() {
        lemma_lowered_search(names, target, from + 1);
    }
}

/// The first port whose name holds `target`, ignoring case.
pub fn find_port_by_name(names: &Vec<Option<String>>, target: &str) -> (r: Option<usize>)
    ensures
        r matches Some(i) ==> first_named_port(names@, target@, 0) == Some(i as int),
        r is None ==> first_named_port(names@, target@, 0) is None,
{
    let wanted = to_lowercase(target);
    let mut lowered: Vec<Option<String>> = Vec::new();
    let mut i: usize = 0;
    while i < names.len()
        invariant
            i <= names@.len(),
            lowered@.len() == i,
            name_texts(lowered@) == lowered_texts(names@.take(i as int)),
        decreases names@.len() - i,
    {
        let ghost before = lowered@;
        let entry = match &names[i] {
            Some(n) => Some(to_lowercase(n.as_str())),
            None => None,
        };
        assert(entry matches Some(s) ==> names@[i as int] matches Some(n) && s@ == lowercase_of(n@));
        assert(entry is None ==> names@[i as int] is None);
        lowered.push(entry);
        assert(name_texts(lowered@) =~= lowered_texts(names@.take(i as int + 1))) by {
            assert(lowered@ == before.push(entry));
            assert forall|j: int| 0 <= j <= i implies name_texts(lowered@)[j] == lowered_texts(
                names@.take(i as int + 1),
            )[j] by {
                if j < i {
                    assert(lowered@[j] == before[j]);
                    assert(name_texts(lowered@)[j] == name_texts(before)[j]);
                    assert(lowered_texts(names@.take(i as int + 1))[j] == lowered_texts(names@.take(i as int))[j]);
                }
            }
        }
        i = i + 1;
    }
    assert(names@.take(names@.len() as int) =~= names@);
    proof {
        lemma_lowered_search(names@, target@, 0);
    }
    first_port_holding(&lowered, wanted.as_str())
}

/// The first port, on another USB interface than `clock_interface`.
fn find_other_interface(names: &Vec<Option<String>>, clock_interface: &String) -> (r: Option<usize>)
    ensures
        r matches Some(i) ==> first_other_interface(names@, clock_interface@, 0) == Some(i as int),
        r is None ==> first_other_interface(names@, clock_interface@, 0) is None,
{
    let mut i: usize = names.len();
    let mut found: Option<usize> = None;
    while i > 0
        invariant
            i <= names@.len(),
            found matches Some(j) ==> i <= j < names@.len() && first_other_interface(names@, clock_interface@, i as int) == Some(j as int),
            found is None ==> first_other_interface(names@, clock_interface@, i as int) is None,
        decreases i,
    {
        let k = i - 1;
        match &names[k] {
            Some(n) => {
                let interface = extract_usb_interface_name(n.as_str());
                if !(interface == *clock_interface) {
                    found = Some(k);
                }
            },
            None => {},
        }
        i = k;
    }
    found
}

/// The output port to open, by the port names (`None` where a name could
/// not be read): the first that holds the configured device name, ignoring
/// case, refused when none does; without a device name, when a clock input
/// is named and there are several ports, the first on another USB
/// interface than the clock's (else the first port); otherwise the first
/// port; no port when there are none.
pub fn select_output_port(names: &Vec<Option<String>>, device_name: &str, input_device_name: &str) -> (r: Result<
    Option<usize>,
    PortError,
>)
    ensures
        device_name@.len() > 0 ==> match first_named_port(names@, device_name@, 0) {
            Some(i) => r == Ok::<Option<usize>, PortError>(Some(i as usize)),
            None => r matches Err(PortError::OutputNotFound(n)) && n@ == device_name@,
        },
        device_name@.len() == 0 && names@.len() == 0 ==> r == Ok::<Option<usize>, PortError>(None),
        device_name@.len() == 0 && names@.len() > 0 && (input_device_name@.len() == 0 || names@.len() == 1) ==> r
            == Ok::<Option<usize>, PortError>(Some(0)),
        device_name@.len() == 0 && names@.len() > 1 && input_device_name@.len() > 0 ==> match first_other_interface(
            names@,
            usb_interface_name(input_device_name@),
            0,
        ) {
            Some(i) => r == Ok::<Option<usize>, PortError>(Some(i as usize)),
            None => r == Ok::<Option<usize>, PortError>(Some(0)),
        },
{
    if device_name.unicode_len() > 0 {
        match find_port_by_name(names, device_name) {
            Some(i) => Ok(Some(i)),
            None => Err(PortError::OutputNotFound(String::from_str(device_name))),
        }
    } else if names.len() > 0 {
        if input_device_name.unicode_len() > 0 && names.len() > 1 {
            let clock_interface = extract_usb_interface_name(input_device_name);
            match find_other_interface(names, &clock_interface) {
                Some(i) => Ok(Some(i)),
                None => Ok(Some(0)),
            }
        } else {
            Ok(Some(0))
        }
    } else {
        Ok(None)
    }
}

/// The input port to open: the first that holds the named device, ignoring
/// case, refused when none does; without a name the first port; no port
/// when there are none.
pub fn select_input_port(names: &Vec<Option<String>>, input_device_name: &str) -> (r: Result<Option<usize>, PortError>)
    ensures
        input_device_name@.len() > 0 ==> match first_named_port(names@, input_device_name@, 0) {
            Some(i) => r == Ok::<Option<usize>, PortError>(Some(i as usize)),
            None => r matches Err(PortError::InputNotFound(n)) && n@ == input_device_name@,
        },
        input_device_name@.len() == 0 && names@.len() == 0 ==> r == Ok::<Option<usize>, PortError>(None),
        input_device_name@.len() == 0 && names@.len() > 0 ==> r == Ok::<Option<usize>, PortError>(Some(0)),
{
    if input_device_name.unicode_len() > 0 {
        match find_port_by_name(names, input_device_name) {
            Some(i) => Ok(Some(i)),
            None => Err(PortError::InputNotFound(String::from_str(input_device_name))),
        }
    } else if names.len() > 0 {
        Ok(Some(0))
    } else {
        Ok(None)
    }
}

} // verus!
