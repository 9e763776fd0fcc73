//! The decisions of the MIDI clock detector program: how a received message
//! is shown while a source is monitored, what the periodic status line
//! says, which port an interactive choice names, and what the next start-up
//! will do with the saved MIDI settings.

use vstd::prelude::*;
use vstd::string::*;
use crate::text::{parse_unsigned, parsed_unsigned, trim_str, trimmed};

verus! {

/// How a received MIDI message is shown while a clock source is monitored.
#[derive(Debug, Clone, Copy, PartialEq, Eq, Structural)]
pub enum MonitorMark {
    /// A clock tick that completes a beat (every 24 ticks).
    Beat,
    /// A clock tick that completes a sixteenth note (every 6 ticks).
    Sixteenth,
    /// Any other clock tick.
    Tick,
    Start,
    Continue,
    Stop,
    /// Any other message, or an empty one.
    Ignored,
}

/// The tick count after one more tick; the counter wraps around.
pub open spec fn next_tick_count(ticks: u32) -> u32 {
    if ticks == u32::MAX {
        0
    } else {
        (ticks + 1) as u32
    }
}

/// The mark of a message and the tick count after it: a clock tick (0xF8)
/// counts and is marked by the new count; Start (0xFA), Continue (0xFB)
/// and Stop (0xFC) are named; nothing else is shown or counted.
pub open spec fn monitor_step(message: Seq<u8>, ticks: u32) -> (MonitorMark, u32) {
    if message.len() == 0 {
        (MonitorMark::Ignored, ticks)
    } else if message[0] == 0xF8 {
        let count = next_tick_count(ticks);
        (if count % 24 == 0 {
            MonitorMark::Beat
        } else if count % 6 == 0 {
            MonitorMark::Sixteenth
        } else {
            MonitorMark::Tick
        }, count)
    } else if message[0] == 0xFA {
        (MonitorMark::Start, ticks)
    } else if message[0] == 0xFB {
        (MonitorMark::Continue, ticks)
    } else if message[0] == 0xFC {
        (MonitorMark::Stop, ticks)
    } else {
        (MonitorMark::Ignored, ticks)
    }
}

/// The mark of a received message and the tick count after it (see
/// `monitor_step`).
pub fn monitor_message(message: &[u8], ticks: u32) -> (r: (MonitorMark, u32))
    ensures
        r == monitor_step(message@, ticks),
{
    if message.len() == 0 {
        return (MonitorMark::Ignored, ticks);
    }
    let status = message[0];
    if status == 0xF8 {
        let count: u32 = if ticks == u32::MAX { 0 } else { ticks + 1 };
        let mark = if count % 24 == 0 {
            MonitorMark::Beat
        } else if count % 6 == 0 {
            MonitorMark::Sixteenth
        } else {
            MonitorMark::Tick
        };
        (mark, count)
    } else if status == 0xFA {
        (MonitorMark::Start, ticks)
    } else if status == 0xFB {
        (MonitorMark::Continue, ticks)
    } else if status == 0xFC {
        (MonitorMark::Stop, ticks)
    } else {
        (MonitorMark::Ignored, ticks)
    }
}

/// What the periodic status line of the monitor reports.
#[derive(Debug, Clone, Copy, PartialEq, Eq, Structural)]
pub enum MonitorStatus {
    /// No tick has arrived yet.
    Waiting,
    /// Ticks have arrived; the signal counts as lost when the last one is
    /// more than two seconds old.
    Receiving { signal_lost: bool },
}

/// The status line for `ticks` ticks so far, the last one
/// `ms_since_last_tick` milliseconds ago.
pub fn monitor_status(ticks: u32, ms_since_last_tick: u128) -> (r: MonitorStatus)
    ensures
        ticks == 0 ==> r == MonitorStatus::Waiting,
        ticks > 0 ==> r == (MonitorStatus::Receiving { signal_lost: ms_since_last_tick > 2000 }),
{
    if ticks > 0 {
        MonitorStatus::Receiving { signal_lost: ms_since_last_tick > 2000 }
    } else {
        MonitorStatus::Waiting
    }
}

/// What the interactive mode was asked to do.
#[derive(Debug, Clone, Copy, PartialEq, Eq, Structural)]
pub enum DetectorChoice {
    /// Scan every port for a clock.
    ScanAll,
    /// Monitor the input port at this index.
    MonitorPort(usize),
    /// A number past the last port.
    Invalid,
}

/// The number typed at the interactive prompt: the trimmed line read as an
/// unsigned number, 0 when it is none.
pub open spec fn typed_selection(line: Seq<char>) -> int {
    match parsed_unsigned(trimmed(line), usize::MAX as int) {
        Some(v) => v,
        None => 0,
    }
}

/// The choice of a typed selection among `port_count` input ports: 0 scans
/// them all, 1 to `port_count` monitors that port (counted from 1), and a
/// larger number is refused.
pub open spec fn detector_choice_of(line: Seq<char>, port_count: nat) -> DetectorChoice {
    let n = typed_selection(line);
    if n == 0 {
        DetectorChoice::ScanAll
    } else if n <= port_count {
        DetectorChoice::MonitorPort((n - 1) as usize)
    } else {
        DetectorChoice::Invalid
    }
}

/// The choice made by a line typed at the interactive prompt (see
/// `detector_choice_of`).
pub fn detector_choice(line: &str, port_count: usize) -> (r: DetectorChoice)
    ensures
        r == detector_choice_of(line@, port_count as nat),
{
    let s = trim_str(line);
    let selection: usize = match parse_unsigned(s, usize::MAX as u64) {
        Some(v) => v as usize,
        None => 0,
    };
    if selection == 0 {
        DetectorChoice::ScanAll
    } else if selection <= port_count {
        DetectorChoice::MonitorPort(selection - 1)
    } else {
        DetectorChoice::Invalid
    }
}

/// What the next start-up does to find a clock, from the saved settings.
#[derive(Debug, Clone, Copy, PartialEq, Eq, Structural)]
pub enum StartupPlan {
    /// Try the device found last time, then scan all ports.
    LastDeviceThenScan,
    /// Scan all ports and save the device that works.
    FullScan,
    /// Connect to the named device, without detection.
    ManualDevice,
    /// Detection is off: take the first port.
    FirstAvailablePort,
}

/// With no device named and detection on, the last found device is tried
/// first when there is one, else every port is scanned; a named device is
/// used as it is; otherwise the first port is taken.
pub open spec fn startup_plan_of(device: Seq<char>, auto_detect: bool, has_last_device: bool) -> StartupPlan {
    if device.len() == 0 && auto_detect {
        if has_last_device {
            StartupPlan::LastDeviceThenScan
        } else {
            StartupPlan::FullScan
        }
    } else if device.len() != 0 {
        StartupPlan::ManualDevice
    } else {
        StartupPlan::FirstAvailablePort
    }
}

/// The plan of the next start-up (see `startup_plan_of`).
pub fn startup_plan(device: &str, auto_detect: bool, has_last_device: bool) -> (r: StartupPlan)
    ensures
        r == startup_plan_of(device@, auto_detect, has_last_device),
{
    let empty = device.unicode_len() == 0;
    if empty && auto_detect {
        if has_last_device {
            StartupPlan::LastDeviceThenScan
        } else {
            StartupPlan::FullScan
        }
    } else if !empty {
        StartupPlan::ManualDevice
    } else {
        StartupPlan::FirstAvailablePort
    }
}

} // verus!
