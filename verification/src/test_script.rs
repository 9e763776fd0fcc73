//! Tick-synchronised test scripts: their actions, the SysEx messages that
//! drive the sequencer from outside, the search of the state log for a
//! step, and the positions that the rows are expected to have reached.

use vstd::prelude::*;
use vstd::string::*;
use crate::control::{sysex_commands, AppCommand};
use crate::text::{decimal, push_decimal, is_white_space, char_is_whitespace, first_non_ws, parsed_unsigned, parse_unsigned};
use crate::hardware::{occurs_at, contains_seq, str_contains};

verus! {

/// Direct test action, executed at a given tick.
#[derive(Debug, Clone)]
pub enum DirectTestAction {
    /// Log a message.
    LogMessage { message: String },
    /// Send a SysEx button press or release.
    SysExButton { row: u8, col: u8, press: bool },
    /// Check the sequencer state at this tick.
    VerifyState {
        /// Expected step number (tick / 6).
        step: u32,
        /// Which row to check.
        row: usize,
        /// Expected position (`None`: only observe).
        expected: Option<usize>,
    },
}

/// Direct test command: an action at a specific tick.
#[derive(Debug, Clone)]
pub struct DirectTestCommand {
    pub at_tick: u32,
    pub action: DirectTestAction,
}

/// The bytes of the reload message.
pub open spec fn sysex_reload_bytes() -> Seq<u8> {
    seq![0xF0u8, 0x7D, 0x53, 0x53, 0x51, 0x01, 0xF7]
}

/// The bytes of the button message.
pub open spec fn sysex_button_bytes(row: u8, col: u8, press: bool) -> Seq<u8> {
    seq![0xF0u8, 0x7D, 0x53, 0x53, 0x51, 0x02, row, col, if press { 1u8 } else { 0u8 }, 0xF7]
}

/// The SysEx message that makes the sequencer reload its pattern:
/// `F0 7D 53 53 51 01 F7`.
pub fn sysex_reload_message() -> (m: Vec<u8>)
    ensures
        m@ == sysex_reload_bytes(),
{
    vec![0xF0, 0x7D, 0x53, 0x53, 0x51, 0x01, 0xF7]
}

/// The SysEx message that presses (or releases) the button at `row`, `col`:
/// `F0 7D 53 53 51 02 <row> <col> <press> F7`, press being 1 or 0.
pub fn sysex_button_message(row: u8, col: u8, press: bool) -> (m: Vec<u8>)
    ensures
        m@ == sysex_button_bytes(row, col, press),
{
    let press_byte: u8 = if press {
        0x01
    } else {
        0x00
    };
    vec![0xF0, 0x7D, 0x53, 0x53, 0x51, 0x02, row, col, press_byte, 0xF7]
}

/// What the sequencer makes of the messages that test scripts send: the
/// reload message asks for the pattern to be reloaded, and the button
/// message presses (or releases) the virtual button at the same row and
/// column, columns from 16 on standing on the second grid.
pub proof fn law_sysex_messages_understood(row: u8, col: u8, press: bool, test_mode: bool)
    ensures
        sysex_commands(sysex_reload_bytes(), test_mode) == seq![AppCommand::ReloadCurrentPattern],
        sysex_commands(sysex_button_bytes(row, col, press), test_mode) == seq![
            AppCommand::InjectVirtualButton {
                second_grid: col >= 16,
                x: if col < 16 { col as usize } else { (col - 16) as usize },
                y: row as usize,
                pressed: press,
            },
        ],
{
}

/// The positions, in order, of the commands due at `tick`.
pub fn commands_due(commands: &Vec<DirectTestCommand>, tick: u32) -> (due: Vec<usize>)
    ensures
        forall|k: int| 0 <= k < due@.len() ==> (#[trigger] due@[k]) < commands@.len() && commands@[due@[k] as int].at_tick == tick,
        forall|a: int, b: int| 0 <= a < b < due@.len() ==> #[trigger] due@[a] < #[trigger] due@[b],
        forall|i: int| 0 <= i < commands@.len() && (#[trigger] commands@[i]).at_tick == tick ==> due@.contains(i as usize),
{
    let mut due: Vec<usize> = Vec::new();
    let mut i: usize = 0;
    while i < commands.len()
        invariant
            i <= commands@.len(),
            forall|k: int| 0 <= k < due@.len() ==> (#[trigger] due@[k]) < i && commands@[due@[k] as int].at_tick == tick,
            forall|a: int, b: int| 0 <= a < b < due@.len() ==> #[trigger] due@[a] < #[trigger] due@[b],
            forall|j: int| 0 <= j < i && (#[trigger] commands@[j]).at_tick == tick ==> due@.contains(j as usize),
        decreases commands@.len() - i,
    {
        if commands[i].at_tick == tick {
            let ghost before = due@;
            due.push(i);
            assert forall|j: int| 0 <= j < i + 1 && (#[trigger] commands@[j]).at_tick == tick implies due@.contains(j as usize) by {
                if j < i {
                    let k = choose|k: int| 0 <= k < before.len() && before[k] == j as usize;
                    assert(due@[k] == j as usize);
                } else {
                    assert(due@[due@.len() - 1] == j as usize);
                }
            }
        }
        i = i + 1;
    }
    due
}

/// One line of the state log, as the search reads it: whether it is a step
/// advancement event, and its list of (row, position) pairs if it has one
/// (an element that is not a number is `None`).
#[derive(Debug, Clone)]
pub struct StepRecord {
    pub is_step_advancement: bool,
    pub row_steps: Option<Vec<(Option<u64>, Option<u64>)>>,
}

/// The number of step advancement events among `s`.
pub open spec fn advancements(s: Seq<StepRecord>) -> nat
    decreases s.len(),
{
    if s.len() == 0 {
        0
    } else {
        advancements(s.drop_last()) + if s.last().is_step_advancement {
            1nat
        } else {
            0nat
        }
    }
}

/// Record `k` is the `n`-th step advancement event (counting from 1).
pub open spec fn nth_advancement(s: Seq<StepRecord>, k: int, n: int) -> bool {
    &&& 0 <= k < s.len()
    &&& s[k].is_step_advancement
    &&& advancements(s.take(k)) + 1 == n
}

/// The position that a list of (row, position) pairs gives `row`: that of
/// the first pair of two numbers whose row is `row`.
pub open spec fn row_position(pairs: Seq<(Option<u64>, Option<u64>)>, row: usize) -> Option<usize>
    decreases pairs.len(),
{
    if pairs.len() == 0 {
        None
    } else {
        match pairs[0] {
            (Some(r), Some(p)) => if r as usize == row {
                Some(p as usize)
            } else {
                row_position(pairs.drop_first(), row)
            },
            _ => row_position(pairs.drop_first(), row),
        }
    }
}

/// The position of `row` recorded in a log line.
pub open spec fn recorded_position(r: StepRecord, row: usize) -> Option<usize> {
    match r.row_steps {
        Some(pairs) => row_position(pairs@, row),
        None => None,
    }
}

fn position_in_pairs(pairs: &Vec<(Option<u64>, Option<u64>)>, row: usize) -> (r: Option<usize>)
    ensures
        r == row_position(pairs@, row),
{
    let mut i: usize = 0;
    assert(pairs@.skip(0) =~= pairs@);
    while i < pairs.len()
        invariant
            i <= pairs@.len(),
            row_position(pairs@, row) == row_position(pairs@.skip(i as int), row),
        decreases pairs@.len() - i,
    {
        assert(pairs@.skip(i as int)[0] == pairs@[i as int]);
        assert(pairs@.skip(i as int).drop_first() =~= pairs@.skip(i as int + 1));
        match pairs[i] {
            (Some(r), Some(p)) => {
                if r as usize == row {
                    return Some(p as usize);
                }
            },
            _ => {},
        }
        i = i + 1;
    }
    None
}

/// Searches the state log for the `step`-th step advancement event and the
/// position it records for `row`. Returns that position (if the event and
/// the row are there) and the number of step events counted: `step` when
/// the event was found, all of them otherwise.
pub fn find_row_position(records: &Vec<StepRecord>, step: u32, row: usize) -> (r: (Option<usize>, u32))
    requires
        records@.len() <= u32::MAX,
    ensures
        1 <= step <= advancements(records@) ==> exists|k: int|
            nth_advancement(records@, k, step as int) && r.0 == recorded_position(
                #[trigger] records@[k],
                row,
            ) && r.1 == step,
        !(1 <= step <= advancements(records@)) ==> r.0 is None && r.1 == advancements(records@),
{
    let mut count: u32 = 0;
    let mut i: usize = 0;
    assert(records@.take(0) =~= Seq::<StepRecord>::empty());
    while i < records.len()
        invariant
            i <= records@.len(),
            records@.len() <= u32::MAX,
            count == advancements(records@.take(i as int)),
            count <= i,
            step == 0 || count < step,
        decreases records@.len() - i,
    {
        assert(records@.take(i as int + 1).drop_last() =~= records@.take(i as int));
        assert(records@.take(i as int + 1).last() == records@[i as int]);
        if records[i].is_step_advancement {
            count = count + 1;
            if count == step {
                let found = match &records[i].row_steps {
                    Some(pairs) => position_in_pairs(pairs, row),
                    None => None,
                };
                proof {
                    assert(nth_advancement(records@, i as int, step as int));
                    lemma_advancements_monotone(records@, i as int + 1);
                }
                return (found, count);
            }
        }
        i = i + 1;
    }
    assert(records@.take(records@.len() as int) =~= records@);
    (None, count)
}

proof fn lemma_advancements_monotone(s: Seq<StepRecord>, k: int)
    requires
        0 <= k <= s.len(),
    ensures
        advancements(s.take(k)) <= advancements(s),
    decreases s.len() - k,
{
    if k < s.len() {
        lemma_advancements_monotone(s, k + 1);
        assert(s.take(k + 1).drop_last() =~= s.take(k));
    } else {
        assert(s.take(k) =~= s);
    }
}

/// A change of a row's last step during a test, at a cumulative step.
#[derive(Debug, Clone, Copy, PartialEq, Eq, Structural)]
pub struct RowConfigChange {
    pub cumulative_step: usize,
    pub row: usize,
    pub new_max_step: usize,
}

/// The bytes of the test-mode query (`F0 7D 53 53 51 10 F7`).
pub open spec fn test_mode_query_bytes() -> Seq<u8> {
    seq![0xF0u8, 0x7D, 0x53, 0x53, 0x51, 0x10, 0xF7]
}

/// The SysEx message that asks the sequencer whether it runs in test mode.
pub fn test_mode_query_message() -> (m: Vec<u8>)
    ensures
        m@ == test_mode_query_bytes(),
{
    vec![0xF0, 0x7D, 0x53, 0x53, 0x51, 0x10, 0xF7]
}

/// The answer to the test-mode query that a message carries: `Some(true)`
/// for `F0 7D 53 53 51 11 F7` (test mode on), `Some(false)` for `... 12 F7`,
/// `None` for any other message.
pub fn test_mode_answer(message: &[u8]) -> (r: Option<bool>)
    ensures
        r == (if message@ == seq![0xF0u8, 0x7D, 0x53, 0x53, 0x51, 0x11, 0xF7] {
            Some(true)
        } else if message@ == seq![0xF0u8, 0x7D, 0x53, 0x53, 0x51, 0x12, 0xF7] {
            Some(false)
        } else {
            None
        }),
{
    if message.len() != 7 || message[0] != 0xF0 || message[1] != 0x7D || message[2] != 0x53 || message[3] != 0x53
        || message[4] != 0x51 || message[6] != 0xF7 {
        proof {
            let a = seq![0xF0u8, 0x7D, 0x53, 0x53, 0x51, 0x11, 0xF7];
            let b = seq![0xF0u8, 0x7D, 0x53, 0x53, 0x51, 0x12, 0xF7];
            assert(a.len() == 7 && a[0] == 0xF0 && a[1] == 0x7D && a[2] == 0x53 && a[3] == 0x53 && a[4] == 0x51
                && a[6] == 0xF7);
            assert(b.len() == 7 && b[0] == 0xF0 && b[1] == 0x7D && b[2] == 0x53 && b[3] == 0x53 && b[4] == 0x51
                && b[6] == 0xF7);
        }
        return None;
    }
    let code = message[5];
    if code == 0x11 {
        assert(message@ =~= seq![0xF0u8, 0x7D, 0x53, 0x53, 0x51, 0x11, 0xF7]);
        Some(true)
    } else if code == 0x12 {
        assert(message@ =~= seq![0xF0u8, 0x7D, 0x53, 0x53, 0x51, 0x12, 0xF7]);
        Some(false)
    } else {
        assert(message@[5] != seq![0xF0u8, 0x7D, 0x53, 0x53, 0x51, 0x11, 0xF7][5]);
        assert(message@[5] != seq![0xF0u8, 0x7D, 0x53, 0x53, 0x51, 0x12, 0xF7][5]);
        None
    }
}

/// The latest tick among the commands (0 without any).
pub open spec fn last_command_tick(commands: Seq<DirectTestCommand>) -> u32
    decreases commands.len(),
{
    if commands.len() == 0 {
        0
    } else {
        let rest = last_command_tick(commands.drop_last());
        if commands.last().at_tick > rest { commands.last().at_tick } else { rest }
    }
}

/// The tick at which a clock-driven test ends: two steps (12 ticks) after
/// its last command.
pub fn exit_tick(commands: &Vec<DirectTestCommand>) -> (t: u64)
    ensures
        t == last_command_tick(commands@) + 12,
{
    let mut max: u32 = 0;
    let mut i: usize = 0;
    while i < commands.len()
        invariant
            i <= commands@.len(),
            max == last_command_tick(commands@.take(i as int)),
        decreases commands@.len() - i,
    {
        assert(commands@.take(i as int + 1).drop_last() =~= commands@.take(i as int));
        if commands[i].at_tick > max {
            max = commands[i].at_tick;
        }
        i = i + 1;
    }
    assert(commands@.take(commands@.len() as int) =~= commands@);
    max as u64 + 12
}

/// What the monitor of a clock-driven test decides after a look at the
/// tick count.
#[derive(Debug, Clone, Copy, PartialEq, Eq, Structural)]
pub enum MonitorDecision {
    /// Keep waiting.
    Continue,
    /// The end tick was reached.
    Finished,
    /// The count did not move for 20 looks in a row.
    Stalled,
}

/// The monitor's memory: the last count seen and for how many looks in a
/// row it has not moved.
#[derive(Debug, Clone, Copy, PartialEq, Eq, Structural)]
pub struct ProgressMonitor {
    pub last_tick: u64,
    pub no_progress: u32,
}

impl ProgressMonitor {
    /// Nothing seen yet.
    pub fn new() -> (m: ProgressMonitor)
        ensures
            m == (ProgressMonitor { last_tick: 0, no_progress: 0 }),
    {
        ProgressMonitor { last_tick: 0, no_progress: 0 }
    }

    /// A look at the tick count: at or past the end tick the test is
    /// finished; an unchanged count adds a stalled look, and the 20th in a
    /// row ends the test as stalled; a moved count is remembered and the
    /// stalled looks start again from 0.
    pub fn observe(&mut self, current_tick: u64, exit_tick: u64) -> (d: MonitorDecision)
        requires
            old(self).no_progress < 20,
        ensures
            current_tick >= exit_tick ==> d == MonitorDecision::Finished && *final(self) == *old(self),
            current_tick < exit_tick && current_tick == old(self).last_tick ==> {
                &&& final(self).no_progress == old(self).no_progress + 1
                &&& final(self).last_tick == old(self).last_tick
                &&& d == (if old(self).no_progress + 1 >= 20 { MonitorDecision::Stalled } else { MonitorDecision::Continue })
            },
            current_tick < exit_tick && current_tick != old(self).last_tick ==> {
                &&& *final(self) == (ProgressMonitor { last_tick: current_tick, no_progress: 0 })
                &&& d == MonitorDecision::Continue
            },
    {
        if current_tick >= exit_tick {
            return MonitorDecision::Finished;
        }
        if current_tick == self.last_tick {
            self.no_progress = self.no_progress + 1;
            if self.no_progress >= 20 {
                MonitorDecision::Stalled
            } else {
                MonitorDecision::Continue
            }
        } else {
            self.no_progress = 0;
            self.last_tick = current_tick;
            MonitorDecision::Continue
        }
    }
}

/// The outcome of a clock-driven test from its verification counts.
#[derive(Debug, Clone, Copy, PartialEq, Eq, Structural)]
pub enum TestVerdict {
    /// Every verification passed, and there was at least one.
    Passed,
    /// No verification was run.
    NoVerifications,
    /// This many verifications failed.
    Failed(u64),
}

/// Passed when nothing failed and something was checked; no verification
/// at all is its own failure; otherwise the number that failed.
pub fn test_verdict(passed: u64, failed: u64) -> (v: TestVerdict)
    ensures
        v == (if failed == 0 && passed + failed > 0 {
            TestVerdict::Passed
        } else if passed + failed == 0 {
            TestVerdict::NoVerifications
        } else {
            TestVerdict::Failed(failed)
        }),
{
    if failed == 0 && passed > 0 {
        TestVerdict::Passed
    } else if passed == 0 && failed == 0 {
        TestVerdict::NoVerifications
    } else {
        TestVerdict::Failed(failed)
    }
}

/// What a line of the formal state log says of a verification: passed when
/// it holds "Verify" and a check mark, failed when it holds "Verify" and a
/// cross (the check mark is looked for first), nothing otherwise.
pub fn verification_in_line(line: &str) -> (r: Option<bool>)
    ensures
        r == (if contains_seq(line@, "\u{2705}"@) && contains_seq(line@, "Verify"@) {
            Some(true)
        } else if contains_seq(line@, "\u{274c}"@) && contains_seq(line@, "Verify"@) {
            Some(false)
        } else {
            None
        }),
{
    if str_contains(line, "\u{2705}") && str_contains(line, "Verify") {
        Some(true)
    } else if str_contains(line, "\u{274c}") && str_contains(line, "Verify") {
        Some(false)
    } else {
        None
    }
}

/// What a test run keeps between its commands: the steps waited so far and
/// the row-length changes recorded, each at the step count it came at.
#[derive(Debug, Clone)]
pub struct TestRunLog {
    pub cumulative_steps: usize,
    pub row_config_changes: Vec<RowConfigChange>,
}

impl TestRunLog {
    /// A run that has waited no step and recorded no change.
    pub fn new() -> (l: TestRunLog)
        ensures
            l.cumulative_steps == 0,
            l.row_config_changes@.len() == 0,
    {
        TestRunLog { cumulative_steps: 0, row_config_changes: Vec::new() }
    }

    /// A wait of `count` steps: they add to the steps so far.
    pub fn steps_waited(&mut self, count: u32)
        requires
            old(self).cumulative_steps + count <= usize::MAX,
        ensures
            final(self).cumulative_steps == old(self).cumulative_steps + count,
            final(self).row_config_changes@ == old(self).row_config_changes@,
    {
        self.cumulative_steps = self.cumulative_steps + count as usize;
    }

    /// A recorded row configuration: row `row` now ends at step `max_step`
    /// from the current step count on.
    pub fn record_row_config(&mut self, row: usize, max_step: usize)
        ensures
            final(self).cumulative_steps == old(self).cumulative_steps,
            final(self).row_config_changes@ == old(self).row_config_changes@.push(RowConfigChange {
                cumulative_step: old(self).cumulative_steps,
                row,
                new_max_step: max_step,
            }),
    {
        let change = RowConfigChange { cumulative_step: self.cumulative_steps, row, new_max_step: max_step };
        self.row_config_changes.push(change);
    }
}

/// The last change of `row` at or before `step` among the first `n`
/// changes, with the row's last step before it: (step of change, last step
/// before, last step after). Without one: (0, initial, initial).
pub open spec fn last_change(changes: Seq<RowConfigChange>, n: int, row: usize, step: usize, initial: usize) -> (usize, usize, usize)
    decreases n,
{
    if n <= 0 {
        (0, initial, initial)
    } else {
        let prev = last_change(changes, n - 1, row, step, initial);
        let c = changes[n - 1];
        if c.row == row && c.cumulative_step <= step {
            (c.cumulative_step, prev.2, c.new_max_step)
        } else {
            prev
        }
    }
}

/// Where `row` is expected to stand after `step` steps: it wraps after its
/// last step; after a change of that last step the row restarts from 0 if it
/// stood beyond the new last step, and goes on from there.
pub open spec fn expected_position(changes: Seq<RowConfigChange>, row: usize, step: usize, initial: usize) -> int {
    let (at, old_max, max) = last_change(changes, changes.len() as int, row, step, initial);
    if at == 0 {
        (step as int) % (max as int + 1)
    } else {
        let at_change = (at as int) % (old_max as int + 1);
        let after_reset = if at_change > max {
            0
        } else {
            at_change
        };
        (after_reset + (step - at)) % (max as int + 1)
    }
}

/// The position that `row`, starting with last step `initial`, is expected
/// to have after `cumulative_step` steps, given the changes of last steps
/// made during the test.
pub fn expected_row_position(
    initial: usize,
    changes: &Vec<RowConfigChange>,
    row: usize,
    cumulative_step: usize,
) -> (p: usize)
    requires
        initial < usize::MAX,
        forall|k: int| 0 <= k < changes@.len() ==> (#[trigger] changes@[k]).new_max_step < usize::MAX,
    ensures
        p == expected_position(changes@, row, cumulative_step, initial),
{
    let mut current_max = initial;
    let mut last_change_step: usize = 0;
    let mut old_max = initial;
    let mut i: usize = 0;
    while i < changes.len()
        invariant
            i <= changes@.len(),
            initial < usize::MAX,
            forall|k: int| 0 <= k < changes@.len() ==> (#[trigger] changes@[k]).new_max_step < usize::MAX,
            (last_change_step, old_max, current_max) == last_change(changes@, i as int, row, cumulative_step, initial),
            current_max < usize::MAX,
            old_max < usize::MAX,
            last_change_step <= cumulative_step,
        decreases changes@.len() - i,
    {
        let c = changes[i];
        if c.row == row && c.cumulative_step <= cumulative_step {
            old_max = current_max;
            current_max = c.new_max_step;
            last_change_step = c.cumulative_step;
        }
        i = i + 1;
    }
    if last_change_step == 0 {
        cumulative_step % (current_max + 1)
    } else {
        let position_at_change = last_change_step % (old_max + 1);
        assert(position_at_change <= last_change_step) by (nonlinear_arith)
            requires
                position_at_change == (last_change_step as int) % (old_max as int + 1),
                old_max as int + 1 > 0,
        ;
        let position_after_reset = if position_at_change > current_max {
            0
        } else {
            position_at_change
        };
        let steps_since_change = cumulative_step - last_change_step;
        assert(position_after_reset + steps_since_change <= cumulative_step);
        (position_after_reset + steps_since_change) % (current_max + 1)
    }
}


/// The last steps of the seven rows of the multi-length test pattern.
pub const TEST1_MAX_STEPS: [usize; 7] = [31, 30, 29, 15, 14, 13, 2];

/// The pairs of two numbers of a list of (row, position) pairs, as
/// (row, position); the others are left out.
pub open spec fn number_pairs(pairs: Seq<(Option<u64>, Option<u64>)>) -> Seq<(usize, usize)>
    decreases pairs.len(),
{
    if pairs.len() == 0 {
        Seq::empty()
    } else {
        let rest = number_pairs(pairs.drop_last());
        match pairs.last() {
            (Some(r), Some(p)) => rest.push((r as usize, p as usize)),
            _ => rest,
        }
    }
}

fn collect_number_pairs(pairs: &Vec<(Option<u64>, Option<u64>)>) -> (r: Vec<(usize, usize)>)
    ensures
        r@ == number_pairs(pairs@),
{
    let mut out: Vec<(usize, usize)> = Vec::new();
    let mut i: usize = 0;
    assert(pairs@.take(0) =~= Seq::<(Option<u64>, Option<u64>)>::empty());
    while i < pairs.len()
        invariant
            i <= pairs@.len(),
            out@ == number_pairs(pairs@.take(i as int)),
        decreases pairs@.len() - i,
    {
        assert(pairs@.take(i as int + 1).drop_last() =~= pairs@.take(i as int));
        assert(pairs@.take(i as int + 1).last() == pairs@[i as int]);
        match pairs[i] {
            (Some(r), Some(p)) => {
                out.push((r as usize, p as usize));
            },
            _ => {},
        }
        i = i + 1;
    }
    assert(pairs@.take(pairs@.len() as int) =~= pairs@);
    out
}

/// Searches the state log for the `n`-th step advancement event and the
/// (row, position) pairs it records. An `n`-th event without a list of
/// pairs does not count as found, and the search goes on counting. Returns
/// the pairs when found, and the number of step events counted: `n` when
/// found, all of them otherwise.
pub fn find_step_pairs(records: &Vec<StepRecord>, n: usize) -> (r: (Option<Vec<(usize, usize)>>, usize))
    ensures
        (exists|k: int| nth_advancement(records@, k, n as int) && (#[trigger] records@[k]).row_steps is Some) ==> exists|k: int|
            nth_advancement(records@, k, n as int) && ((#[trigger] records@[k]).row_steps matches Some(pairs)
                && (r.0 matches Some(v) && v@ == number_pairs(pairs@)) && r.1 == n),
        !(exists|k: int| nth_advancement(records@, k, n as int) && (#[trigger] records@[k]).row_steps is Some) ==> r.0 is None
            && r.1 == advancements(records@),
{
    let mut count: usize = 0;
    let mut i: usize = 0;
    assert(records@.take(0) =~= Seq::<StepRecord>::empty());
    while i < records.len()
        invariant
            i <= records@.len(),
            count == advancements(records@.take(i as int)),
            count <= i,
            forall|k: int| 0 <= k < i && nth_advancement(records@, k, n as int) ==> (#[trigger] records@[k]).row_steps is None,
        decreases records@.len() - i,
    {
        assert(records@.take(i as int + 1).drop_last() =~= records@.take(i as int));
        assert(records@.take(i as int + 1).last() == records@[i as int]);
        if records[i].is_step_advancement {
            count = count + 1;
            if count == n {
                match &records[i].row_steps {
                    Some(pairs) => {
                        let v = collect_number_pairs(pairs);
                        assert(nth_advancement(records@, i as int, n as int));
                        return (Some(v), count);
                    },
                    None => {},
                }
            }
        }
        i = i + 1;
    }
    assert(records@.take(records@.len() as int) =~= records@);
    proof {
        assert forall|k: int| nth_advancement(records@, k, n as int) implies (#[trigger] records@[k]).row_steps is None by {}
    }
    (None, count)
}

/// The position recorded for `row` among (row, position) pairs: that of
/// the first pair of the row.
pub open spec fn pair_position(pairs: Seq<(usize, usize)>, row: int) -> Option<usize>
    decreases pairs.len(),
{
    if pairs.len() == 0 {
        None
    } else if pairs[0].0 == row {
        Some(pairs[0].1)
    } else {
        pair_position(pairs.drop_first(), row)
    }
}

/// The detail reported for one row: "R<row>:ok(<position>)" when it stands
/// where expected, "R<row>:act<position>exp<expected>" when not, and
/// "R<row>:MISSING" when the log gives no position for it.
pub open spec fn row_detail(pairs: Seq<(usize, usize)>, row: int, expected: usize) -> Seq<char> {
    match pair_position(pairs, row) {
        Some(a) => if a == expected {
            "R"@ + decimal(row as nat) + ":ok("@ + decimal(a as nat) + ")"@
        } else {
            "R"@ + decimal(row as nat) + ":act"@ + decimal(a as nat) + "exp"@ + decimal(expected as nat)
        },
        None => "R"@ + decimal(row as nat) + ":MISSING"@,
    }
}

/// Whether the row stands where expected.
pub open spec fn row_matches(pairs: Seq<(usize, usize)>, row: int, expected: usize) -> bool {
    pair_position(pairs, row) == Some(expected)
}

/// The details of the first `n` rows, joined by ", ".
pub open spec fn row_details(pairs: Seq<(usize, usize)>, expected: Seq<usize>, n: int) -> Seq<char>
    decreases n,
{
    if n <= 0 {
        Seq::empty()
    } else if n == 1 {
        row_detail(pairs, 0, expected[0])
    } else {
        row_details(pairs, expected, n - 1) + ", "@ + row_detail(pairs, n - 1, expected[n - 1])
    }
}

/// The report of a check of the seven rows against their expected
/// positions: "All rows match - [<details>]" or "Mismatch - [<details>]".
pub open spec fn rows_report(pairs: Seq<(usize, usize)>, expected: Seq<usize>) -> Result<Seq<char>, Seq<char>> {
    let details = row_details(pairs, expected, 7);
    if forall|row: int| 0 <= row < 7 ==> #[trigger] row_matches(pairs, row, expected[row]) {
        Ok("All rows match - ["@ + details + "]"@)
    } else {
        Err("Mismatch - ["@ + details + "]"@)
    }
}

fn find_pair_position(pairs: &Vec<(usize, usize)>, row: usize) -> (r: Option<usize>)
    ensures
        r == pair_position(pairs@, row as int),
{
    let mut i: usize = 0;
    assert(pairs@.skip(0) =~= pairs@);
    while i < pairs.len()
        invariant
            i <= pairs@.len(),
            pair_position(pairs@, row as int) == pair_position(pairs@.skip(i as int), row as int),
        decreases pairs@.len() - i,
    {
        assert(pairs@.skip(i as int)[0] == pairs@[i as int]);
        assert(pairs@.skip(i as int).drop_first() =~= pairs@.skip(i as int + 1));
        if pairs[i].0 == row {
            return Some(pairs[i].1);
        }
        i = i + 1;
    }
    None
}

/// Checks the seven rows of a logged step against their expected
/// positions (see `rows_report`).
pub fn check_rows(pairs: &Vec<(usize, usize)>, expected: &Vec<usize>) -> (r: Result<String, String>)
    requires
        expected@.len() == 7,
    ensures
        rows_report(pairs@, expected@) matches Ok(t) ==> (r matches Ok(s) && s@ == t),
        rows_report(pairs@, expected@) matches Err(t) ==> (r matches Err(s) && s@ == t),
{
    let mut details = String::new();
    let mut all = true;
    let mut row: usize = 0;
    while row < 7
        invariant
            row <= 7,
            expected@.len() == 7,
            details@ == row_details(pairs@, expected@, row as int),
            all == (forall|k: int| 0 <= k < row ==> #[trigger] row_matches(pairs@, k, expected@[k])),
        decreases 7 - row,
    {
        if row > 0 {
            details.append(", ");
        }
        let e = expected[row];
        let ghost before = details@;
        let found = find_pair_position(pairs, row);
        assert(row_matches(pairs@, row as int, expected@[row as int]) == (found == Some(e)));
        match found {
            Some(a) => {
                if a == e {
                    details.append("R");
                    push_decimal(&mut details, row as u64);
                    details.append(":ok(");
                    push_decimal(&mut details, a as u64);
                    details.append(")");
                } else {
                    details.append("R");
                    push_decimal(&mut details, row as u64);
                    details.append(":act");
                    push_decimal(&mut details, a as u64);
                    details.append("exp");
                    push_decimal(&mut details, e as u64);
                    all = false;
                }
            },
            None => {
                details.append("R");
                push_decimal(&mut details, row as u64);
                details.append(":MISSING");
                all = false;
            },
        }
        assert(details@ =~= row_details(pairs@, expected@, row as int + 1));
        row = row + 1;
    }
    let mut text = String::new();
    if all {
        text.append("All rows match - [");
    } else {
        text.append("Mismatch - [");
    }
    text.append(details.as_str());
    text.append("]");
    if all {
        Ok(text)
    } else {
        Err(text)
    }
}

/// The check made at a cumulative step of the multi-length test: each row's
/// expected position (from `TEST1_MAX_STEPS` and the recorded changes of
/// last steps) against the pairs of the `cumulative_step`-th step event of
/// the log; without that event, an error that says how many step events
/// there are.
pub fn verify_state_at_step(records: &Vec<StepRecord>, changes: &Vec<RowConfigChange>, cumulative_step: usize) -> (r: Result<String, String>)
    requires
        forall|k: int| 0 <= k < changes@.len() ==> (#[trigger] changes@[k]).new_max_step < usize::MAX,
    ensures
        ({
            let expected = Seq::new(7, |row: int| expected_position(changes@, row as usize, cumulative_step, TEST1_MAX_STEPS@[row]) as usize);
            if exists|k: int| nth_advancement(records@, k, cumulative_step as int) && (#[trigger] records@[k]).row_steps is Some {
                exists|k: int| nth_advancement(records@, k, cumulative_step as int) && ((#[trigger] records@[k]).row_steps matches Some(pairs)
                    && match rows_report(number_pairs(pairs@), expected) {
                        Ok(t) => (r matches Ok(s) && s@ == t),
                        Err(t) => (r matches Err(s) && s@ == t),
                    })
            } else {
                r matches Err(s) && s@ == "No step advancement event found for cumulative step "@ + decimal(cumulative_step as nat)
                    + " in formal_state.log (found "@ + decimal(advancements(records@)) + " step events)"@
            }
        }),
{
    let mut expected: Vec<usize> = Vec::new();
    let mut row: usize = 0;
    while row < 7
        invariant
            row <= 7,
            forall|k: int| 0 <= k < changes@.len() ==> (#[trigger] changes@[k]).new_max_step < usize::MAX,
            expected@.len() == row,
            forall|j: int| 0 <= j < row ==> #[trigger] expected@[j] == expected_position(changes@, j as usize, cumulative_step, TEST1_MAX_STEPS@[j]) as usize,
        decreases 7 - row,
    {
        let p = expected_row_position(TEST1_MAX_STEPS[row], changes, row, cumulative_step);
        expected.push(p);
        row = row + 1;
    }
    let ghost exp = Seq::new(7, |row: int| expected_position(changes@, row as usize, cumulative_step, TEST1_MAX_STEPS@[row]) as usize);
    assert(expected@ =~= exp);
    let (found, count) = find_step_pairs(records, cumulative_step);
    match found {
        Some(pairs) => check_rows(&pairs, &expected),
        None => {
            let mut s = String::from_str("No step advancement event found for cumulative step ");
            push_decimal(&mut s, cumulative_step as u64);
            s.append(" in formal_state.log (found ");
            push_decimal(&mut s, count as u64);
            s.append(" step events)");
            Err(s)
        },
    }
}


/// The first position at or after `i` where `p` occurs in `s`.
pub open spec fn first_occurrence_from(s: Seq<char>, p: Seq<char>, i: int) -> Option<int>
    decreases s.len() + 1 - i,
{
    if i < 0 || i + p.len() > s.len() {
        None
    } else if occurs_at(s, p, i) {
        Some(i)
    } else {
        first_occurrence_from(s, p, i + 1)
    }
}

/// The second piece of `s` split at the occurrences of `p` (what
/// `s.split(p).nth(1)` gives): the text between the first occurrence and
/// the next one, or the end.
pub open spec fn second_piece(s: Seq<char>, p: Seq<char>) -> Option<Seq<char>> {
    match first_occurrence_from(s, p, 0) {
        None => None,
        Some(i) => {
            let rest = s.subrange(i + p.len(), s.len() as int);
            match first_occurrence_from(rest, p, 0) {
                Some(j) => Some(rest.subrange(0, j)),
                None => Some(rest),
            }
        },
    }
}

/// The first position at or after `i` that is white space (the length when
/// there is none).
pub open spec fn first_ws_from(s: Seq<char>, i: int) -> int
    decreases s.len() - i,
{
    if i < 0 || i >= s.len() {
        s.len() as int
    } else if is_white_space(s[i]) {
        i
    } else {
        first_ws_from(s, i + 1)
    }
}

/// The first word of `s` (what `s.split_whitespace().next()` gives).
pub open spec fn first_word(s: Seq<char>) -> Option<Seq<char>> {
    let lo = first_non_ws(s, 0);
    if lo >= s.len() {
        None
    } else {
        Some(s.subrange(lo, first_ws_from(s, lo)))
    }
}

/// The cumulative step named in the description of a check: the number
/// that is the first word after "cumulative step " (up to the next
/// "cumulative step ").
pub open spec fn described_step(description: Seq<char>) -> Option<int> {
    match second_piece(description, "cumulative step "@) {
        Some(piece) => match first_word(piece) {
            Some(w) => parsed_unsigned(w, usize::MAX as int),
            None => None,
        },
        None => None,
    }
}

proof fn lemma_first_occurrence(s: Seq<char>, p: Seq<char>, from: int, i: int)
    requires
        0 <= from <= i,
        i + p.len() <= s.len() ==> occurs_at(s, p, i),
        forall|k: int| from <= k < i ==> !#[trigger] occurs_at(s, p, k),
    ensures
        first_occurrence_from(s, p, from) == if i + p.len() <= s.len() { Some(i) } else { None::<int> },
    decreases i - from,
{
    if from < i {
        if from + p.len() > s.len() {
        } else {
            lemma_first_occurrence(s, p, from + 1, i);
        }
    }
}

/// The first position at or after `from` where `p` occurs in `s`.
fn find_from(s: &str, p: &str, from: usize) -> (r: Option<usize>)
    requires
        from <= s@.len(),
        p@.len() > 0,
    ensures
        r matches Some(i) ==> first_occurrence_from(s@, p@, from as int) == Some(i as int) && i + p@.len() <= s@.len(),
        r is None ==> first_occurrence_from(s@, p@, from as int) is None,
{
    let n = s.unicode_len();
    let m = p.unicode_len();
    let mut i = from;
    while i < n && n - i >= m
        invariant
            n == s@.len(),
            m == p@.len(),
            from <= i <= n,
            forall|k: int| from <= k < i ==> !#[trigger] occurs_at(s@, p@, k),
        decreases n - i,
    {
        let mut j: usize = 0;
        let mut same = true;
        while j < m
            invariant
                n == s@.len(),
                m == p@.len(),
                i + m <= n,
                j <= m,
                same == (forall|t: int| 0 <= t < j ==> s@[i + t] == p@[t]),
            decreases m - j,
        {
            if s.get_char(i + j) != p.get_char(j) {
                same = false;
            }
            j = j + 1;
        }
        if same {
            assert(s@.subrange(i as int, i + m) =~= p@);
            proof {
                lemma_first_occurrence(s@, p@, from as int, i as int);
            }
            return Some(i);
        }
        assert(!occurs_at(s@, p@, i as int)) by {
            if occurs_at(s@, p@, i as int) {
                assert forall|t: int| 0 <= t < m implies s@[i + t] == p@[t] by {
                    assert(s@.subrange(i as int, i + m)[t] == s@[i + t]);
                }
            }
        }
        i = i + 1;
    }
    proof {
        lemma_first_occurrence_none(s@, p@, from as int, i as int);
    }
    None
}

proof fn lemma_first_occurrence_none(s: Seq<char>, p: Seq<char>, from: int, i: int)
    requires
        0 <= from <= i,
        i + p.len() > s.len(),
        forall|k: int| from <= k < i ==> !#[trigger] occurs_at(s, p, k),
    ensures
        first_occurrence_from(s, p, from) is None,
    decreases i - from,
{
    if from < i && from + p.len() <= s.len() {
        lemma_first_occurrence_none(s, p, from + 1, i);
    }
}

proof fn lemma_first_ws(s: Seq<char>, from: int, i: int)
    requires
        0 <= from <= i <= s.len(),
        i < s.len() ==> is_white_space(s[i]),
        forall|k: int| from <= k < i ==> !is_white_space(#[trigger] s[k]),
    ensures
        first_ws_from(s, from) == i,
    decreases i - from,
{
    if from < i {
        lemma_first_ws(s, from + 1, i);
    }
}

proof fn lemma_first_non_ws_at(s: Seq<char>, from: int, i: int)
    requires
        0 <= from <= i <= s.len(),
        i < s.len() ==> !is_white_space(s[i]),
        forall|k: int| from <= k < i ==> is_white_space(#[trigger] s[k]),
    ensures
        first_non_ws(s, from) == i,
    decreases i - from,
{
    if from < i {
        lemma_first_non_ws_at(s, from + 1, i);
    }
}

/// The cumulative step named in the description of a check (see
/// `described_step`).
pub fn step_in_description(description: &str) -> (r: Option<usize>)
    ensures
        r matches Some(v) ==> described_step(description@) == Some(v as int),
        r is None ==> described_step(description@) is None,
{
    let p = "cumulative step ";
    proof {
        reveal_strlit("cumulative step ");
    }
    let n = description.unicode_len();
    let m = p.unicode_len();
    let first = match find_from(description, p, 0) {
        Some(i) => i,
        None => {
            return None;
        },
    };
    let rest = description.substring_char(first + m, n);
    let piece = match find_from(rest, p, 0) {
        Some(j) => rest.substring_char(0, j),
        None => rest,
    };
    let k = piece.unicode_len();
    let mut lo: usize = 0;
    while lo < k && char_is_whitespace(piece.get_char(lo))
        invariant
            k == piece@.len(),
            lo <= k,
            forall|t: int| 0 <= t < lo ==> is_white_space(#[trigger] piece@[t]),
        decreases k - lo,
    {
        lo = lo + 1;
    }
    proof {
        lemma_first_non_ws_at(piece@, 0, lo as int);
    }
    if lo == k {
        return None;
    }
    let mut hi: usize = lo;
    while hi < k && !char_is_whitespace(piece.get_char(hi))
        invariant
            k == piece@.len(),
            lo <= hi <= k,
            forall|t: int| lo <= t < hi ==> !is_white_space(#[trigger] piece@[t]),
        decreases k - hi,
    {
        hi = hi + 1;
    }
    proof {
        lemma_first_ws(piece@, lo as int, hi as int);
    }
    let word = piece.substring_char(lo, hi);
    match parse_unsigned(word, usize::MAX as u64) {
        Some(v) => Some(v as usize),
        None => None,
    }
}

} // verus!
