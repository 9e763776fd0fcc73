//! The version line of the program: "<number> - <description>", and the
//! texts shown for it.

use vstd::prelude::*;
use vstd::string::*;
use crate::text::{trimmed, trim_str};

verus! {

/// Library version.
pub const VERSION: &'static str = "0.1.0";

/// Whether the separator " - " starts at position `i` of `s`.
pub open spec fn separator_at(s: Seq<char>, i: int) -> bool {
    &&& 0 <= i
    &&& i + 3 <= s.len()
    &&& s[i] == ' '
    &&& s[i + 1] == '-'
    &&& s[i + 2] == ' '
}

/// The first position at or after `from` where the separator " - " starts.
pub open spec fn first_separator(s: Seq<char>, from: int) -> Option<int>
    decreases s.len() - from,
{
    if from < 0 || from + 3 > s.len() {
        None
    } else if separator_at(s, from) {
        Some(from)
    } else {
        first_separator(s, from + 1)
    }
}

/// The part of a version line before the first " - " (the whole line when
/// there is none).
pub open spec fn version_part(line: Seq<char>) -> Seq<char> {
    match first_separator(line, 0) {
        Some(i) => line.subrange(0, i),
        None => line,
    }
}

/// The part of a version line between the first and the second " - " (up to
/// the end when there is no second one; empty when there is no first).
pub open spec fn description_part(line: Seq<char>) -> Seq<char> {
    match first_separator(line, 0) {
        None => Seq::empty(),
        Some(i) => match first_separator(line, i + 3) {
            Some(j) => line.subrange(i + 3, j),
            None => line.subrange(i + 3, line.len() as int),
        },
    }
}

proof fn lemma_first_separator_found(s: Seq<char>, from: int, i: int)
    requires
        0 <= from <= i,
        separator_at(s, i),
        forall|k: int| from <= k < i ==> !separator_at(s, k),
    ensures
        first_separator(s, from) == Some(i),
    decreases i - from,
{
    if from < i {
        lemma_first_separator_found(s, from + 1, i);
    }
}

proof fn lemma_first_separator_none(s: Seq<char>, from: int)
    requires
        0 <= from,
        forall|k: int| from <= k ==> !separator_at(s, k),
    ensures
        first_separator(s, from) is None,
    decreases s.len() - from,
{
    if from + 3 <= s.len() {
        lemma_first_separator_none(s, from + 1);
    }
}

/// The position of the first " - " at or after `from`.
fn find_separator(s: &str, from: usize) -> (r: Option<usize>)
    ensures
        r matches Some(i) ==> first_separator(s@, from as int) == Some(i as int) && from <= i
            && separator_at(s@, i as int),
        r is None ==> first_separator(s@, from as int) is None,
{
    let n = s.unicode_len();
    let mut i = from;
    while i < n && n - i >= 3
        invariant
            n == s@.len(),
            from <= i,
            forall|k: int| from <= k < i ==> !separator_at(s@, k),
        decreases n - i,
    {
        if s.get_char(i) == ' ' && s.get_char(i + 1) == '-' && s.get_char(i + 2) == ' ' {
            proof {
                lemma_first_separator_found(s@, from as int, i as int);
            }
            return Some(i);
        }
        i = i + 1;
    }
    proof {
        lemma_first_separator_none(s@, from as int);
    }
    None
}

/// The version number of a trimmed version line: what comes before the
/// first " - ".
pub fn version_number(line: &str) -> (r: String)
    ensures
        r@ == version_part(line@),
{
    match find_separator(line, 0) {
        Some(i) => String::from_str(line.substring_char(0, i)),
        None => String::from_str(line),
    }
}

/// The description of a trimmed version line: what comes between the first
/// and the second " - ", or the empty string when there is no " - ".
pub fn version_description(line: &str) -> (r: String)
    ensures
        r@ == description_part(line@),
{
    match find_separator(line, 0) {
        None => String::new(),
        Some(i) => {
            let n = line.unicode_len();
            match find_separator(line, i + 3) {
                Some(j) => String::from_str(line.substring_char(i + 3, j)),
                None => String::from_str(line.substring_char(i + 3, n)),
            }
        },
    }
}

/// The version number in the contents of a version file.
pub fn version_from_content(content: &str) -> (r: String)
    ensures
        r@ == version_part(trimmed(content@)),
{
    version_number(trim_str(content))
}

/// The description in the contents of a version file.
pub fn description_from_content(content: &str) -> (r: String)
    ensures
        r@ == description_part(trimmed(content@)),
{
    version_description(trim_str(content))
}

/// The whole version line in the contents of a version file.
pub fn full_version_from_content(content: &str) -> (r: String)
    ensures
        r@ == trimmed(content@),
{
    String::from_str(trim_str(content))
}

/// The version as shown to the user: "SimonSaysSeeq v<version>".
pub fn get_version_string(version: &str) -> (r: String)
    ensures
        r@ == "SimonSaysSeeq v"@ + version@,
{
    let mut s = String::from_str("SimonSaysSeeq v");
    s.append(version);
    s
}

/// The version with its description: "SimonSaysSeeq Rust v<version> -
/// <description>", with a standing description when none is given.
pub fn get_version_info(version: &str, description: &str) -> (r: String)
    ensures
        description@.len() == 0 ==> r@ == "SimonSaysSeeq Rust v"@ + version@
            + " - CO2 Environmental Data Sonification System"@,
        description@.len() > 0 ==> r@ == "SimonSaysSeeq Rust v"@ + version@ + " - "@
            + description@,
{
    let mut s = String::from_str("SimonSaysSeeq Rust v");
    s.append(version);
    if description.is_empty() {
        s.append(" - CO2 Environmental Data Sonification System");
    } else {
        s.append(" - ");
        s.append(description);
    }
    s
}

} // verus!
