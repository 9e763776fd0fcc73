//! The MIDI clock generator: its settings, the commands its clock thread
//! takes, and its tick count.

use vstd::prelude::*;

verus! {

/// Configuration options for the clock generator.
#[derive(Debug, Clone, Copy, PartialEq, Eq, Structural)]
pub struct ClockConfig {
    /// Enable tick counting (needed for automated tests).
    pub enable_tick_counting: bool,
    /// Enable test mode with automatic tempo changes.
    pub enable_test_mode: bool,
}

impl Default for ClockConfig {
    fn default() -> (c: Self)
        ensures
            c == (ClockConfig { enable_tick_counting: false, enable_test_mode: false }),
    {
        ClockConfig { enable_tick_counting: false, enable_test_mode: false }
    }
}

/// The tick count after the clock starts: counting restarts from 0 when it
/// is enabled, and is left alone otherwise.
pub fn tick_count_on_start(config: &ClockConfig, count: u32) -> (r: u32)
    ensures
        r == if config.enable_tick_counting { 0 } else { count },
{
    if config.enable_tick_counting {
        0
    } else {
        count
    }
}

/// The tick count after a tick is sent: one more when counting is enabled.
pub fn tick_count_after_tick(config: &ClockConfig, count: u32) -> (r: u32)
    requires
        config.enable_tick_counting ==> count < u32::MAX,
    ensures
        r == if config.enable_tick_counting { count + 1 } else { count as int },
{
    if config.enable_tick_counting {
        count + 1
    } else {
        count
    }
}


/// A command for the clock thread. (The tempo itself is shared with the
/// thread apart from the commands; `SetBpm` only tells that it changed.)
#[derive(Debug, Clone)]
pub enum ClockCommand {
    Start,
    Stop,
    SetBpm,
    ToggleTestMode,
    SendRawMidi(Vec<u8>),
    Exit,
}

/// What the clock thread keeps between commands.
#[derive(Debug, Clone, Copy, PartialEq, Eq, Structural)]
pub struct ClockThreadState {
    pub running: bool,
    pub test_mode: bool,
    pub tick_count: u32,
}

/// What the clock thread does with a command: the bytes to send, if any,
/// and whether it stops.
#[derive(Debug, Clone)]
pub struct ClockReaction {
    pub send: Option<Vec<u8>>,
    pub exit: bool,
}

/// What the clock thread does with a command, as plain values: the state
/// after it, the bytes sent (if any) and whether the thread ends.
pub open spec fn command_effect(config: ClockConfig, s: ClockThreadState, command: ClockCommand) -> (ClockThreadState, Option<Seq<u8>>, bool) {
    match command {
        ClockCommand::Start => (ClockThreadState {
            running: true,
            tick_count: if config.enable_tick_counting { 0 } else { s.tick_count },
            ..s
        }, Some(seq![0xFAu8]), false),
        ClockCommand::Stop => (ClockThreadState { running: false, ..s }, Some(seq![0xFCu8]), false),
        ClockCommand::SetBpm => (s, None, false),
        ClockCommand::ToggleTestMode => (ClockThreadState {
            test_mode: if config.enable_test_mode { !s.test_mode } else { s.test_mode },
            ..s
        }, None, false),
        ClockCommand::SendRawMidi(data) => (s, Some(data@), false),
        ClockCommand::Exit => (s, None, true),
    }
}

/// The bytes of an optional message, as plain values.
pub open spec fn sent_bytes(send: Option<Vec<u8>>) -> Option<Seq<u8>> {
    match send {
        Some(b) => Some(b@),
        None => None,
    }
}

/// What a tick of the clock does: while the clock runs it sends a clock
/// message (0xF8) and counts it when counting is on; a stopped clock sends
/// nothing and counts nothing.
pub open spec fn tick_effect(config: ClockConfig, s: ClockThreadState) -> (ClockThreadState, Option<Seq<u8>>) {
    if s.running {
        (ClockThreadState {
            tick_count: if config.enable_tick_counting { (s.tick_count + 1) as u32 } else { s.tick_count },
            ..s
        }, Some(seq![0xF8u8]))
    } else {
        (s, None)
    }
}

/// The clock thread's tick (see `tick_effect`).
pub fn clock_tick(config: &ClockConfig, state: &mut ClockThreadState) -> (send: Option<Vec<u8>>)
    requires
        old(state).running && config.enable_tick_counting ==> old(state).tick_count < u32::MAX,
    ensures
        (*final(state), sent_bytes(send)) == tick_effect(*config, *old(state)),
{
    if state.running {
        state.tick_count = tick_count_after_tick(config, state.tick_count);
        Some(vec![0xF8])
    } else {
        None
    }
}

/// What reaches the clock thread: a command, or the moment of a tick.
#[derive(Debug, Clone)]
pub enum ClockThreadEvent {
    Command(ClockCommand),
    Tick,
}

/// A run of the clock thread over `events`: the state at its end and what
/// each event sent, in order (`None` for nothing). After an exit the
/// remaining events are not taken.
pub open spec fn clock_run(config: ClockConfig, s: ClockThreadState, events: Seq<ClockThreadEvent>) -> (ClockThreadState, Seq<Option<Seq<u8>>>)
    decreases events.len(),
{
    if events.len() == 0 {
        (s, seq![])
    } else {
        match events[0] {
            ClockThreadEvent::Command(cmd) => {
                let (s1, sent, exit) = command_effect(config, s, cmd);
                if exit {
                    (s1, seq![sent])
                } else {
                    let (s2, rest) = clock_run(config, s1, events.drop_first());
                    (s2, seq![sent] + rest)
                }
            },
            ClockThreadEvent::Tick => {
                let (s1, sent) = tick_effect(config, s);
                let (s2, rest) = clock_run(config, s1, events.drop_first());
                (s2, seq![sent] + rest)
            },
        }
    }
}

/// `k` ticks in a row.
pub open spec fn ticks(k: nat) -> Seq<ClockThreadEvent> {
    Seq::new(k, |i: int| ClockThreadEvent::Tick)
}

/// Starting the clock sends MIDI Start (0xFA) and, with counting on, the
/// tick count starts again from 0; then each of `k` ticks sends one clock
/// message and adds one to the count.
pub proof fn law_clock_start_then_ticks(config: ClockConfig, s: ClockThreadState, k: nat)
    requires
        config.enable_tick_counting,
        k <= u32::MAX,
    ensures
        ({
            let (s1, sent) = clock_run(config, s, seq![ClockThreadEvent::Command(ClockCommand::Start)] + ticks(k));
            &&& s1.running
            &&& s1.tick_count == k
            &&& sent.len() == k + 1
            &&& sent[0] == Some(seq![0xFAu8])
            &&& forall|i: int| 1 <= i <= k ==> #[trigger] sent[i] == Some(seq![0xF8u8])
        }),
{
    let events = seq![ClockThreadEvent::Command(ClockCommand::Start)] + ticks(k);
    assert(events.drop_first() =~= ticks(k));
    let s0 = ClockThreadState { running: true, tick_count: 0, ..s };
    lemma_running_ticks(config, s0, k);
}

/// From a running state, `k` ticks send `k` clock messages and count `k`.
proof fn lemma_running_ticks(config: ClockConfig, s: ClockThreadState, k: nat)
    requires
        config.enable_tick_counting,
        s.running,
        s.tick_count + k <= u32::MAX,
    ensures
        ({
            let (s1, sent) = clock_run(config, s, ticks(k));
            &&& s1 == ClockThreadState { tick_count: (s.tick_count + k) as u32, ..s }
            &&& sent.len() == k
            &&& forall|i: int| 0 <= i < k ==> #[trigger] sent[i] == Some(seq![0xF8u8])
        }),
    decreases k,
{
    if k > 0 {
        let s1 = ClockThreadState { tick_count: (s.tick_count + 1) as u32, ..s };
        assert(ticks(k).drop_first() =~= ticks((k - 1) as nat));
        lemma_running_ticks(config, s1, (k - 1) as nat);
        let (s2, rest) = clock_run(config, s1, ticks((k - 1) as nat));
        let sent = seq![Some(seq![0xF8u8])] + rest;
        assert forall|i: int| 0 <= i < k implies #[trigger] sent[i] == Some(seq![0xF8u8]) by {
            if i > 0 {
                assert(sent[i] == rest[i - 1]);
            }
        }
    }
}

/// Whether a command is Start.
pub open spec fn is_start(e: ClockThreadEvent) -> bool {
    e matches ClockThreadEvent::Command(ClockCommand::Start)
}

/// Once stopped, the clock sends no clock message and counts nothing until
/// it is started again: with no Start among the events, every tick sends
/// nothing, the count stays, and the clock stays stopped.
pub proof fn law_no_ticks_after_stop(config: ClockConfig, s: ClockThreadState, events: Seq<ClockThreadEvent>)
    requires
        !s.running,
        forall|i: int| 0 <= i < events.len() ==> !is_start(#[trigger] events[i]),
    ensures
        ({
            let (s1, sent) = clock_run(config, s, events);
            &&& !s1.running
            &&& s1.tick_count == s.tick_count
            &&& sent.len() <= events.len()
            &&& forall|i: int| 0 <= i < sent.len() && (#[trigger] events[i]) is Tick ==> sent[i] is None
        }),
    decreases events.len(),
{
    if events.len() > 0 {
        assert(!is_start(events[0]));
        let rest_events = events.drop_first();
        assert forall|i: int| 0 <= i < rest_events.len() implies !is_start(#[trigger] rest_events[i]) by {
            assert(rest_events[i] == events[i + 1]);
        }
        match events[0] {
            ClockThreadEvent::Command(cmd) => {
                let (s1, sent0, exit) = command_effect(config, s, cmd);
                if !exit {
                    law_no_ticks_after_stop(config, s1, rest_events);
                    let (s2, rest) = clock_run(config, s1, rest_events);
                    let sent = seq![sent0] + rest;
                    assert forall|i: int| 0 <= i < sent.len() && (#[trigger] events[i]) is Tick implies sent[i] is None by {
                        if i > 0 {
                            assert(events[i] == rest_events[i - 1]);
                            assert(sent[i] == rest[i - 1]);
                        }
                    }
                }
            },
            ClockThreadEvent::Tick => {
                law_no_ticks_after_stop(config, s, rest_events);
                let (s2, rest) = clock_run(config, s, rest_events);
                let sent = seq![None::<Seq<u8>>] + rest;
                assert forall|i: int| 0 <= i < sent.len() && (#[trigger] events[i]) is Tick implies sent[i] is None by {
                    if i > 0 {
                        assert(events[i] == rest_events[i - 1]);
                        assert(sent[i] == rest[i - 1]);
                    }
                }
            },
        }
    }
}

/// Stopping the clock sends MIDI Stop (0xFC) and leaves it stopped.
pub proof fn law_stop_sends_stop(config: ClockConfig, s: ClockThreadState)
    ensures
        ({
            let (s1, sent) = clock_run(config, s, seq![ClockThreadEvent::Command(ClockCommand::Stop)]);
            &&& !s1.running
            &&& sent == seq![Some(seq![0xFCu8])]
        }),
{
    reveal_with_fuel(clock_run, 2);
    assert(seq![ClockThreadEvent::Command(ClockCommand::Stop)].drop_first() =~= Seq::<ClockThreadEvent>::empty());
}

/// Raw bytes handed to the thread are sent as they are, and an exit ends
/// the run: nothing after it is taken.
pub proof fn law_raw_send_and_exit(config: ClockConfig, s: ClockThreadState, data: Vec<u8>, rest: Seq<ClockThreadEvent>)
    ensures
        ({
            let events = seq![ClockThreadEvent::Command(ClockCommand::SendRawMidi(data)), ClockThreadEvent::Command(ClockCommand::Exit)] + rest;
            let (s1, sent) = clock_run(config, s, events);
            &&& s1 == s
            &&& sent == seq![Some(data@), None::<Seq<u8>>]
        }),
{
    let events = seq![ClockThreadEvent::Command(ClockCommand::SendRawMidi(data)), ClockThreadEvent::Command(ClockCommand::Exit)] + rest;
    reveal_with_fuel(clock_run, 3);
    assert(events[0] == ClockThreadEvent::Command(ClockCommand::SendRawMidi(data)));
    assert(events.drop_first()[0] == ClockThreadEvent::Command(ClockCommand::Exit));
    let (s1, sent1, exit1) = command_effect(config, s, ClockCommand::SendRawMidi(data));
    let (s2, rest) = clock_run(config, s1, events.drop_first());
    assert(rest == seq![None::<Seq<u8>>]);
    assert(seq![sent1] + rest =~= seq![Some(data@), None::<Seq<u8>>]);
}

/// The clock thread takes a command: start runs the clock (restarting the
/// tick count when counting) and sends MIDI Start (0xFA); stop halts it and
/// sends MIDI Stop (0xFC); a tempo change needs nothing more; the test mode
/// is toggled when the configuration allows it; raw bytes are sent as they
/// are; exit ends the thread.
pub fn handle_clock_command(config: &ClockConfig, state: &mut ClockThreadState, command: ClockCommand) -> (r: ClockReaction)
    ensures
        (*final(state), sent_bytes(r.send), r.exit) == command_effect(*config, *old(state), command),
{
    match command {
        ClockCommand::Start => {
            state.running = true;
            state.tick_count = tick_count_on_start(config, state.tick_count);
            ClockReaction { send: Some(vec![0xFA]), exit: false }
        },
        ClockCommand::Stop => {
            state.running = false;
            ClockReaction { send: Some(vec![0xFC]), exit: false }
        },
        ClockCommand::SetBpm => ClockReaction { send: None, exit: false },
        ClockCommand::ToggleTestMode => {
            if config.enable_test_mode {
                state.test_mode = !state.test_mode;
            }
            ClockReaction { send: None, exit: false }
        },
        ClockCommand::SendRawMidi(data) => ClockReaction { send: Some(data), exit: false },
        ClockCommand::Exit => ClockReaction { send: None, exit: true },
    }
}

/// Where the test mode's 120-second cycle stands: whether the clock runs,
/// and the tempo it is set to (none: it keeps its tempo).
#[derive(Debug, Clone, Copy, PartialEq, Eq, Structural)]
pub struct TestModeSlot {
    pub running: bool,
    pub bpm: Option<u32>,
}

/// The test mode's cycle, by milliseconds since it began, taken modulo two
/// minutes: 120 BPM for 10 s, 125 for 10 s, 121 for 10 s, 140 for 10 s,
/// 130 for 20 s, 122 for 20 s, 110 for 20 s, then 10 s stopped and 10 s
/// running again at the tempo it had.
pub open spec fn test_mode_slot_at(elapsed_ms: u64) -> TestModeSlot {
    let p = elapsed_ms % 120_000;
    if 100_000 <= p && p < 110_000 {
        TestModeSlot { running: false, bpm: None }
    } else if p < 10_000 {
        TestModeSlot { running: true, bpm: Some(120) }
    } else if p < 20_000 {
        TestModeSlot { running: true, bpm: Some(125) }
    } else if p < 30_000 {
        TestModeSlot { running: true, bpm: Some(121) }
    } else if p < 40_000 {
        TestModeSlot { running: true, bpm: Some(140) }
    } else if p < 60_000 {
        TestModeSlot { running: true, bpm: Some(130) }
    } else if p < 80_000 {
        TestModeSlot { running: true, bpm: Some(122) }
    } else if p < 100_000 {
        TestModeSlot { running: true, bpm: Some(110) }
    } else {
        TestModeSlot { running: true, bpm: None }
    }
}

/// The test mode's slot `elapsed_ms` milliseconds into it (see
/// `test_mode_slot_at`).
pub fn test_mode_slot(elapsed_ms: u64) -> (s: TestModeSlot)
    ensures
        s == test_mode_slot_at(elapsed_ms),
{
    let p = elapsed_ms % 120_000;
    if 100_000 <= p && p < 110_000 {
        TestModeSlot { running: false, bpm: None }
    } else if p < 10_000 {
        TestModeSlot { running: true, bpm: Some(120) }
    } else if p < 20_000 {
        TestModeSlot { running: true, bpm: Some(125) }
    } else if p < 30_000 {
        TestModeSlot { running: true, bpm: Some(121) }
    } else if p < 40_000 {
        TestModeSlot { running: true, bpm: Some(140) }
    } else if p < 60_000 {
        TestModeSlot { running: true, bpm: Some(130) }
    } else if p < 80_000 {
        TestModeSlot { running: true, bpm: Some(122) }
    } else if p < 100_000 {
        TestModeSlot { running: true, bpm: Some(110) }
    } else {
        TestModeSlot { running: true, bpm: None }
    }
}

/// The test mode repeats every two minutes.
pub proof fn law_test_mode_cycle(elapsed_ms: u64)
    requires
        elapsed_ms + 120_000 <= u64::MAX,
    ensures
        test_mode_slot_at((elapsed_ms + 120_000) as u64) == test_mode_slot_at(elapsed_ms),
{
    let e = elapsed_ms as int;
    assert((e + 120_000) % 120_000 == e % 120_000) by (nonlinear_arith);
}

} // verus!
