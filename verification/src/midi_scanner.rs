//! Scanning MIDI input ports for a clock: how incoming bytes are read, when
//! a port's clock counts as reliable, which port is locked onto, and the
//! summary of a scan.

use vstd::prelude::*;
use vstd::string::*;

verus! {

/// Clock ticks needed before a source counts as reliable (one beat at 24 PPQ).
pub const MIN_CLOCK_TICKS_FOR_RELIABILITY: u32 = 24;
/// Milliseconds without a tick after which a source counts as dead.
pub const CLOCK_TIMEOUT_MS: u64 = 2000;
/// Milliseconds spent listening on each port.
pub const SCAN_DURATION_MS: u64 = 3000;

/// Clock detection events sent from scanner threads.
#[derive(Debug)]
pub enum ClockScanEvent {
    /// Clock tick detected on a specific port.
    ClockTick { port_name: String, timestamp: std::time::Instant },
    /// Clock start detected on a specific port.
    ClockStart { port_name: String },
    /// Clock stop detected on a specific port.
    ClockStop { port_name: String },
    /// Port scan completed (with or without finding clock).
    ScanComplete { port_name: String, had_clock: bool },
    /// Scanner error occurred.
    ScanError { port_name: String, error: String },
}

/// What a message heard during a scan means.
#[derive(Debug, Clone, Copy, PartialEq, Eq, Structural)]
pub enum ScanMessage {
    /// A clock tick (0xF8).
    Tick,
    /// A start (0xFA) or continue (0xFB).
    Start,
    /// A stop (0xFC).
    Stop,
}

/// The meaning of a message by its status byte; other messages are ignored.
pub open spec fn scan_message_spec(message: Seq<u8>) -> Option<ScanMessage> {
    if message.len() == 0 {
        None
    } else if message[0] == 0xF8 {
        Some(ScanMessage::Tick)
    } else if message[0] == 0xFA || message[0] == 0xFB {
        Some(ScanMessage::Start)
    } else if message[0] == 0xFC {
        Some(ScanMessage::Stop)
    } else {
        None
    }
}

/// Reads a message heard on a port being scanned.
pub fn classify_scan_message(message: &[u8]) -> (m: Option<ScanMessage>)
    ensures
        m == scan_message_spec(message@),
{
    if message.len() == 0 {
        return None;
    }
    let status = message[0];
    if status == 0xF8 {
        Some(ScanMessage::Tick)
    } else if status == 0xFA || status == 0xFB {
        Some(ScanMessage::Start)
    } else if status == 0xFC {
        Some(ScanMessage::Stop)
    } else {
        None
    }
}

/// The tick count of a clock source and whether it has proved reliable.
#[derive(Debug, Clone, Copy, PartialEq, Eq, Structural)]
pub struct ClockTally {
    pub total_ticks: u32,
    pub is_reliable: bool,
}

impl ClockTally {
    /// A source that has not ticked yet.
    pub fn new() -> (t: ClockTally)
        ensures
            t == (ClockTally { total_ticks: 0, is_reliable: false }),
    {
        ClockTally { total_ticks: 0, is_reliable: false }
    }

    /// Counts one tick. Once at least 24 ticks have come and time has passed
    /// since the first (`elapsed_positive`), the source is reliable and its
    /// tempo is to be estimated anew: the result says so.
    pub fn add_tick(&mut self, elapsed_positive: bool) -> (estimate: bool)
        requires
            old(self).total_ticks < u32::MAX,
        ensures
            final(self).total_ticks == old(self).total_ticks + 1,
            estimate == (final(self).total_ticks >= MIN_CLOCK_TICKS_FOR_RELIABILITY
                && elapsed_positive),
            final(self).is_reliable == (old(self).is_reliable || estimate),
    {
        self.total_ticks = self.total_ticks + 1;
        if self.total_ticks >= MIN_CLOCK_TICKS_FOR_RELIABILITY && elapsed_positive {
            self.is_reliable = true;
            true
        } else {
            false
        }
    }
}

/// The source locked onto after a tick on `port_name`: the first source to
/// prove reliable stays selected.
pub fn select_after_tick(selected: Option<String>, port_name: &str, reliable: bool) -> (r: Option<
    String,
>)
    ensures
        selected is Some ==> r == selected,
        selected is None && reliable ==> (r matches Some(s) && s@ == port_name@),
        selected is None && !reliable ==> r is None,
{
    match selected {
        Some(s) => Some(s),
        None => {
            if reliable {
                Some(String::from_str(port_name))
            } else {
                None
            }
        },
    }
}

/// Errors of the scanner.
#[derive(Debug, Clone)]
pub enum ScanError {
    /// A scan was started while another was running.
    AlreadyScanning,
    /// A source was asked for by a name that no scanned port has.
    SourceNotFound(String),
}

impl ScanError {
    /// The text that reports the error.
    pub fn message(&self) -> (s: String)
        ensures
            self is AlreadyScanning ==> s@ == "Scan already in progress"@,
            self matches ScanError::SourceNotFound(name) ==> s@ == "Clock source '"@ + name@
                + "' not found"@,
    {
        match self {
            ScanError::AlreadyScanning => String::from_str("Scan already in progress"),
            ScanError::SourceNotFound(name) => {
                let mut s = String::from_str("Clock source '");
                s.append(name.as_str());
                s.append("' not found");
                s
            },
        }
    }
}

/// Marks a scan as running; refused while one already runs.
pub fn begin_scan(is_scanning: &mut bool) -> (r: Result<(), ScanError>)
    ensures
        *old(is_scanning) ==> (r matches Err(ScanError::AlreadyScanning) && *final(is_scanning)),
        !*old(is_scanning) ==> r is Ok && *final(is_scanning),
{
    if *is_scanning {
        return Err(ScanError::AlreadyScanning);
    }
    *is_scanning = true;
    Ok(())
}

/// Whether `names` holds `name`.
pub open spec fn names_contain(names: Seq<String>, name: Seq<char>) -> bool {
    exists|i: int| 0 <= i < names.len() && (#[trigger] names[i])@ == name
}

/// Selects a source by hand: accepted only for a port that was scanned.
pub fn select_source(known: &Vec<String>, port_name: &str) -> (r: Result<String, ScanError>)
    ensures
        names_contain(known@, port_name@) ==> (r matches Ok(s) && s@ == port_name@),
        !names_contain(known@, port_name@) ==> (r matches Err(ScanError::SourceNotFound(s))
            && s@ == port_name@),
{
    let wanted = String::from_str(port_name);
    let mut i: usize = 0;
    while i < known.len()
        invariant
            i <= known@.len(),
            wanted@ == port_name@,
            forall|k: int| 0 <= k < i ==> (#[trigger] known@[k])@ != port_name@,
        decreases known@.len() - i,
    {
        if known[i] == wanted {
            return Ok(wanted);
        }
        i = i + 1;
    }
    Err(ScanError::SourceNotFound(wanted))
}

/// What the scanner knows of one port at the end of a scan.
#[derive(Debug, Clone)]
pub struct SourceReport {
    pub port_name: String,
    pub total_ticks: u32,
    pub is_reliable: bool,
    /// Whether the last tick came less than `CLOCK_TIMEOUT_MS` ago.
    pub is_alive: bool,
}

/// Summary of MIDI clock scan results.
#[derive(Debug, Clone)]
pub struct ScanSummary {
    pub total_ports_scanned: usize,
    pub ports_with_clock: usize,
    pub reliable_sources: Vec<String>,
    pub selected_source: Option<String>,
    pub is_scanning: bool,
}

impl ScanSummary {
    /// Whether some source proved reliable and is still alive.
    pub fn has_reliable_sources(&self) -> (b: bool)
        ensures
            b == (self.reliable_sources@.len() > 0),
    {
        self.reliable_sources.len() != 0
    }

    /// Whether a source has been locked onto.
    pub fn is_locked(&self) -> (b: bool)
        ensures
            b == self.selected_source is Some,
    {
        self.selected_source.is_some()
    }
}

/// The names of the reports that are reliable and alive, in order.
pub open spec fn reliable_names(reports: Seq<SourceReport>) -> Seq<Seq<char>>
    decreases reports.len(),
{
    if reports.len() == 0 {
        Seq::empty()
    } else {
        let rest = reliable_names(reports.drop_last());
        let last = reports.last();
        if last.is_reliable && last.is_alive {
            rest.push(last.port_name@)
        } else {
            rest
        }
    }
}

/// How many reports heard at least one tick.
pub open spec fn ticking_count(reports: Seq<SourceReport>) -> nat
    decreases reports.len(),
{
    if reports.len() == 0 {
        0
    } else {
        ticking_count(reports.drop_last()) + if reports.last().total_ticks > 0 {
            1nat
        } else {
            0nat
        }
    }
}

/// Sums up the reports of a scan.
pub fn summarize_scan(reports: &Vec<SourceReport>, selected: Option<String>, is_scanning: bool) -> (s:
    ScanSummary)
    ensures
        s.total_ports_scanned == reports@.len(),
        s.ports_with_clock == ticking_count(reports@),
        s.reliable_sources@.map_values(|n: String| n@) == reliable_names(reports@),
        s.selected_source == selected,
        s.is_scanning == is_scanning,
{
    let mut reliable: Vec<String> = Vec::new();
    let mut with_clock: usize = 0;
    let mut i: usize = 0;
    while i < reports.len()
        invariant
            i <= reports@.len(),
            with_clock == ticking_count(reports@.subrange(0, i as int)),
            with_clock <= i,
            reliable@.map_values(|n: String| n@) == reliable_names(reports@.subrange(0, i as int)),
        decreases reports@.len() - i,
    {
        let report = &reports[i];
        assert(reports@.subrange(0, i as int + 1).drop_last() =~= reports@.subrange(0, i as int));
        if report.is_reliable && report.is_alive {
            let name = report.port_name.clone();
            reliable.push(name);
        }
        if report.total_ticks > 0 {
            with_clock = with_clock + 1;
        }
        assert(reliable@.map_values(|n: String| n@) =~= reliable_names(
            reports@.subrange(0, i as int + 1),
        ));
        i = i + 1;
    }
    assert(reports@.subrange(0, reports@.len() as int) =~= reports@);
    ScanSummary {
        total_ports_scanned: reports.len(),
        ports_with_clock: with_clock,
        reliable_sources: reliable,
        selected_source: selected,
        is_scanning,
    }
}

} // verus!
