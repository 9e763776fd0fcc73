//! MIDI: note names, decoding of incoming messages, the bytes of outgoing
//! messages and the state of an external clock.

use vstd::prelude::*;
use vstd::string::*;
use crate::text::{decimal, signed_decimal, push_decimal, push_signed_decimal};

verus! {

/// MIDI input events.
#[derive(Debug, Clone, Copy, PartialEq, Eq, Structural)]
pub enum MidiInputEvent {
    NoteOn { note: u8, velocity: u8, channel: u8 },
    NoteOff { note: u8, channel: u8 },
    ControlChange { controller: u8, value: u8, channel: u8 },
    ClockTick,
    ClockBeat,
    ClockStart,
    ClockStop,
    ClockContinue,
    ExternalClockTimeout,
}

/// Where the clock comes from.
#[derive(Debug, Clone, Copy, PartialEq, Eq, Structural)]
pub enum ClockSource {
    Internal,
    MidiExternal,
}

/// Health of the external MIDI clock connection.
#[derive(Debug, Clone, Copy, PartialEq, Eq, Structural)]
pub enum ClockHealth {
    /// External clock is working well.
    Healthy,
    /// External clock detected but unstable.
    Unstable,
    /// External clock connection lost.
    Lost,
    /// No external clock source.
    NoExternalClock,
    /// Clock health unknown.
    Unknown,
}

#[verifier::external_type_specification]
#[verifier::external_body]
pub struct ExInstant(std::time::Instant);

/// Status information for MIDI clock detection.
pub struct DetectionStatus {
    pub auto_detect_enabled: bool,
    pub current_source: ClockSource,
    pub last_detection_time: Option<std::time::Instant>,
    /// Seconds until the next detection attempt.
    pub next_retry_in: Option<u64>,
    pub device_name: String,
}

/// The counting part of the clock state: where the clock comes from,
/// whether it runs, and how many clock ticks arrived since the last start.
#[derive(Debug, Clone, Copy, PartialEq, Eq, Structural)]
pub struct ClockCounters {
    pub source: ClockSource,
    pub running: bool,
    pub clock_ticks: u32,
}

/// The name of pitch class `k` (0 to 11), with sharps.
pub open spec fn pitch_class_name(k: int) -> Seq<char> {
    if k == 0 { seq!['C'] }
    else if k == 1 { seq!['C', '#'] }
    else if k == 2 { seq!['D'] }
    else if k == 3 { seq!['D', '#'] }
    else if k == 4 { seq!['E'] }
    else if k == 5 { seq!['F'] }
    else if k == 6 { seq!['F', '#'] }
    else if k == 7 { seq!['G'] }
    else if k == 8 { seq!['G', '#'] }
    else if k == 9 { seq!['A'] }
    else if k == 10 { seq!['A', '#'] }
    else { seq!['B'] }
}

/// The name of MIDI note `note`: pitch class and octave, middle C (60)
/// being "C4" and note 0 "C-1".
pub open spec fn note_name(note: u8) -> Seq<char> {
    pitch_class_name((note % 12) as int) + signed_decimal(note / 12 - 1)
}

/// The pitch class of a note part (a letter C to B, alone or followed by
/// `#` or `b` as the usual note names have them), if it is one.
pub open spec fn pitch_class_of(part: Seq<char>) -> Option<int> {
    if part.len() == 1 {
        let a = part[0];
        if a == 'C' { Some(0) }
        else if a == 'D' { Some(2) }
        else if a == 'E' { Some(4) }
        else if a == 'F' { Some(5) }
        else if a == 'G' { Some(7) }
        else if a == 'A' { Some(9) }
        else if a == 'B' { Some(11) }
        else { None }
    } else if part.len() == 2 {
        let a = part[0];
        let b = part[1];
        if a == 'C' && b == '#' || a == 'D' && b == 'b' { Some(1) }
        else if a == 'D' && b == '#' || a == 'E' && b == 'b' { Some(3) }
        else if a == 'F' && b == '#' || a == 'G' && b == 'b' { Some(6) }
        else if a == 'G' && b == '#' || a == 'A' && b == 'b' { Some(8) }
        else if a == 'A' && b == '#' || a == 'B' && b == 'b' { Some(10) }
        else { None }
    } else {
        None
    }
}

/// The note a name with a known note part and an octave digit stands for,
/// before any bound: (octave + 1) * 12 + pitch class.
pub open spec fn named_note_value(name: Seq<char>) -> Option<int> {
    if name.len() < 2 {
        None
    } else {
        match pitch_class_of(name.subrange(0, name.len() - 1)) {
            None => None,
            Some(k) => if '0' <= name.last() && name.last() <= '9' {
                Some(((name.last() as int) - 48 + 1) * 12 + k)
            } else {
                None
            },
        }
    }
}

/// A name whose note lies above 127 (G#9 to B9): its value overflows the
/// signed byte the octave is read into, and reading it panics.
pub open spec fn note_name_overflows(name: Seq<char>) -> bool {
    named_note_value(name) matches Some(m) && m > 127
}

/// The note of a name made of a note part and one octave digit: `None`
/// for names shorter than two characters, unknown note parts, a last
/// character that is not a digit, or a note above 127 (names that
/// `note_name_to_midi` does not take).
pub open spec fn parse_note_name(name: Seq<char>) -> Option<u8> {
    if name.len() < 2 {
        None
    } else {
        let part = name.subrange(0, name.len() - 1);
        let o = name.last();
        match pitch_class_of(part) {
            None => None,
            Some(k) => if '0' <= o && o <= '9' {
                let m = ((o as int) - 48 + 1) * 12 + k;
                if m <= 127 { Some(m as u8) } else { None }
            } else {
                None
            },
        }
    }
}

/// The name of a pitch class.
fn pitch_class_str(k: u8) -> (s: &'static str)
    requires
        k < 12,
    ensures
        s@ == pitch_class_name(k as int),
{
    if k == 0 { proof { reveal_strlit("C"); } "C" }
    else if k == 1 { proof { reveal_strlit("C#"); } "C#" }
    else if k == 2 { proof { reveal_strlit("D"); } "D" }
    else if k == 3 { proof { reveal_strlit("D#"); } "D#" }
    else if k == 4 { proof { reveal_strlit("E"); } "E" }
    else if k == 5 { proof { reveal_strlit("F"); } "F" }
    else if k == 6 { proof { reveal_strlit("F#"); } "F#" }
    else if k == 7 { proof { reveal_strlit("G"); } "G" }
    else if k == 8 { proof { reveal_strlit("G#"); } "G#" }
    else if k == 9 { proof { reveal_strlit("A"); } "A" }
    else if k == 10 { proof { reveal_strlit("A#"); } "A#" }
    else { proof { reveal_strlit("B"); } "B" }
}

/// Convert a MIDI note number to its name ("C4" for 60).
pub fn midi_note_to_name(note: u8) -> (s: String)
    ensures
        s@ == note_name(note),
{
    let octave: i64 = (note / 12) as i64 - 1;
    let mut s = String::from_str(pitch_class_str(note % 12));
    push_signed_decimal(&mut s, octave);
    s
}

/// The text shown for the last note sent when it was a note-on: its name,
/// " ON vel:" and the velocity ("C4 ON vel:100").
pub fn note_on_label(note: u8, velocity: u8) -> (s: String)
    ensures
        s@ == note_name(note) + " ON vel:"@ + decimal(velocity as nat),
{
    let mut s = midi_note_to_name(note);
    s.append(" ON vel:");
    push_decimal(&mut s, velocity as u64);
    s
}

/// The text shown for the last note sent when it was a note-off: its name
/// and " OFF".
pub fn note_off_label(note: u8) -> (s: String)
    ensures
        s@ == note_name(note) + " OFF"@,
{
    let mut s = midi_note_to_name(note);
    s.append(" OFF");
    s
}

/// Convert a note name to its MIDI note number (see `parse_note_name`).
/// The name's last character must be ASCII, as the octave digit is cut off
/// by byte, and the note must not lie above 127 (G#9 to B9), whose value
/// overflows the signed byte it is computed in.
pub fn note_name_to_midi(name: &str) -> (r: Option<u8>)
    requires
        name@.len() > 0 ==> (name@.last() as int) < 128,
        !note_name_overflows(name@),
    ensures
        r == parse_note_name(name@),
{
    let n = name.unicode_len();
    if n < 2 {
        return None;
    }
    let c0 = name.get_char(0);
    let k: u8 = if n == 2 {
        if c0 == 'C' { 0 }
        else if c0 == 'D' { 2 }
        else if c0 == 'E' { 4 }
        else if c0 == 'F' { 5 }
        else if c0 == 'G' { 7 }
        else if c0 == 'A' { 9 }
        else if c0 == 'B' { 11 }
        else {
            proof {
                assert(name@.subrange(0, 1) =~= seq![c0]);
            }
            return None;
        }
    } else if n == 3 {
        let c1 = name.get_char(1);
        if c0 == 'C' && c1 == '#' { 1 }
        else if c0 == 'D' && c1 == 'b' { 1 }
        else if c0 == 'D' && c1 == '#' { 3 }
        else if c0 == 'E' && c1 == 'b' { 3 }
        else if c0 == 'F' && c1 == '#' { 6 }
        else if c0 == 'G' && c1 == 'b' { 6 }
        else if c0 == 'G' && c1 == '#' { 8 }
        else if c0 == 'A' && c1 == 'b' { 8 }
        else if c0 == 'A' && c1 == '#' { 10 }
        else if c0 == 'B' && c1 == 'b' { 10 }
        else {
            proof {
                assert(name@.subrange(0, 2) =~= seq![c0, c1]);
            }
            return None;
        }
    } else {
        proof {
            let part = name@.subrange(0, name@.len() - 1);
            assert(part.len() >= 3);
            assert(pitch_class_of(part) is None);
        }
        return None;
    };
    proof {
        let part = name@.subrange(0, name@.len() - 1);
        if n == 2 {
            assert(part =~= seq![c0]);
        } else {
            assert(part =~= seq![c0, name@[1]]);
        }
        assert(pitch_class_of(part) == Some(k as int));
    }
    let o = name.get_char(n - 1);
    if o < '0' || o > '9' {
        return None;
    }
    let digit: u32 = (o as u32) - 48;
    let m: u32 = (digit + 1) * 12 + (k as u32);
    if m <= 127 {
        Some(m as u8)
    } else {
        None
    }
}

/// Note names read back: every note from 12 (C0) to 127 (G9) is named so
/// that the name parses back to the same note.
pub proof fn law_note_name_round_trip(note: u8)
    requires
        12 <= note <= 127,
    ensures
        parse_note_name(note_name(note)) == Some(note),
{
    let k = (note % 12) as int;
    let o = (note / 12 - 1) as int;
    assert(0 <= o <= 9);
    assert(signed_decimal(o) == seq![crate::text::digit_char(o as nat)]);
    let name = note_name(note);
    let pc = pitch_class_name(k);
    assert(name =~= pc + seq![crate::text::digit_char(o as nat)]);
    assert(name.subrange(0, name.len() - 1) =~= pc);
    assert(pitch_class_of(pc) == Some(k));
    assert(name.last() == crate::text::digit_char(o as nat));
    assert((note / 12) * 12 + note % 12 == note);
}

/// The channel (1 to 16) of a channel-message status byte.
pub open spec fn status_channel(status: u8) -> u8 {
    ((status % 16) + 1) as u8
}

/// The events of one incoming MIDI message and the new clock counters:
/// note-on (velocity 0 counts as note-off), note-off and control change
/// with at least 3 bytes; clock (0xF8) switches to the external clock and
/// counts a tick, with a beat every 24 ticks; start (0xFA) switches to the
/// running external clock with the count at 0; continue (0xFB) switches to
/// the running external clock; stop (0xFC) stops it. Anything else is
/// ignored.
pub open spec fn decode_message(msg: Seq<u8>, c: ClockCounters) -> (Seq<MidiInputEvent>, ClockCounters) {
    if msg.len() == 0 {
        (seq![], c)
    } else {
        let s = msg[0];
        if 0x90 <= s <= 0x9F && msg.len() >= 3 {
            if msg[2] > 0 {
                (seq![MidiInputEvent::NoteOn { note: msg[1], velocity: msg[2], channel: status_channel(s) }], c)
            } else {
                (seq![MidiInputEvent::NoteOff { note: msg[1], channel: status_channel(s) }], c)
            }
        } else if 0x80 <= s <= 0x8F && msg.len() >= 3 {
            (seq![MidiInputEvent::NoteOff { note: msg[1], channel: status_channel(s) }], c)
        } else if 0xB0 <= s <= 0xBF && msg.len() >= 3 {
            (seq![MidiInputEvent::ControlChange { controller: msg[1], value: msg[2], channel: status_channel(s) }], c)
        } else if s == 0xF8 {
            let ticks = if c.clock_ticks == u32::MAX { 0 } else { (c.clock_ticks + 1) as u32 };
            let c2 = ClockCounters { source: ClockSource::MidiExternal, clock_ticks: ticks, ..c };
            if ticks % 24 == 0 {
                (seq![MidiInputEvent::ClockBeat, MidiInputEvent::ClockTick], c2)
            } else {
                (seq![MidiInputEvent::ClockTick], c2)
            }
        } else if s == 0xFA {
            (seq![MidiInputEvent::ClockStart], ClockCounters { source: ClockSource::MidiExternal, running: true, clock_ticks: 0 })
        } else if s == 0xFB {
            (seq![MidiInputEvent::ClockContinue], ClockCounters { source: ClockSource::MidiExternal, running: true, ..c })
        } else if s == 0xFC {
            (seq![MidiInputEvent::ClockStop], ClockCounters { running: false, ..c })
        } else {
            (seq![], c)
        }
    }
}

/// The channel of a channel-message status byte.
fn channel_of_status(status: u8) -> (ch: u8)
    ensures
        ch == status_channel(status),
{
    assert(status & 0x0F == status % 16) by (bit_vector);
    (status & 0x0F) + 1
}

/// Decodes one incoming MIDI message, updating the clock counters (see
/// `decode_message`). Tempo and timestamps are kept by the caller.
pub fn handle_midi_input_message(message: &[u8], clock: &mut ClockCounters) -> (events: Vec<MidiInputEvent>)
    ensures
        (events@, *final(clock)) == decode_message(message@, *old(clock)),
{
    let mut events: Vec<MidiInputEvent> = Vec::new();
    if message.len() == 0 {
        return events;
    }
    let s = message[0];
    if s >= 0x90 && s <= 0x9F && message.len() >= 3 {
        let channel = channel_of_status(s);
        if message[2] > 0 {
            events.push(MidiInputEvent::NoteOn { note: message[1], velocity: message[2], channel });
        } else {
            events.push(MidiInputEvent::NoteOff { note: message[1], channel });
        }
    } else if s >= 0x80 && s <= 0x8F && message.len() >= 3 {
        let channel = channel_of_status(s);
        events.push(MidiInputEvent::NoteOff { note: message[1], channel });
    } else if s >= 0xB0 && s <= 0xBF && message.len() >= 3 {
        let channel = channel_of_status(s);
        events.push(MidiInputEvent::ControlChange { controller: message[1], value: message[2], channel });
    } else if s == 0xF8 {
        clock.source = ClockSource::MidiExternal;
        clock.clock_ticks = if clock.clock_ticks == u32::MAX { 0 } else { clock.clock_ticks + 1 };
        if clock.clock_ticks % 24 == 0 {
            events.push(MidiInputEvent::ClockBeat);
        }
        events.push(MidiInputEvent::ClockTick);
    } else if s == 0xFA {
        clock.source = ClockSource::MidiExternal;
        clock.running = true;
        clock.clock_ticks = 0;
        events.push(MidiInputEvent::ClockStart);
    } else if s == 0xFB {
        clock.source = ClockSource::MidiExternal;
        clock.running = true;
        events.push(MidiInputEvent::ClockContinue);
    } else if s == 0xFC {
        clock.running = false;
        events.push(MidiInputEvent::ClockStop);
    }
    proof {
        let (evs, c2) = decode_message(message@, *old(clock));
        assert(events@ =~= evs);
    }
    events
}

/// The wire channel (0 to 15) of a 1-based channel: one less, at least 0
/// and at most 15.
pub open spec fn wire_channel(channel: u8) -> u8 {
    if channel == 0 { 0 } else if channel - 1 > 15 { 15 } else { (channel - 1) as u8 }
}

/// A value capped at 127.
pub open spec fn cap127(v: u8) -> u8 {
    if v > 127 { 127 } else { v }
}

/// The wire channel of a 1-based channel.
fn to_wire_channel(channel: u8) -> (ch: u8)
    ensures
        ch == wire_channel(channel),
{
    let c = if channel == 0 { 0 } else { channel - 1 };
    if c > 15 { 15 } else { c }
}

/// The bytes of a note-on: status 0x90 on the wire channel, note and
/// velocity capped at 127.
pub fn note_on_message(note: u8, velocity: u8, channel: u8) -> (msg: Vec<u8>)
    ensures
        msg@ == seq![(0x90 + wire_channel(channel)) as u8, cap127(note), cap127(velocity)],
{
    let ch = to_wire_channel(channel);
    assert(0x90u8 | ch == 0x90 + ch) by (bit_vector)
        requires
            ch <= 15,
    ;
    let n = if note > 127 { 127 } else { note };
    let v = if velocity > 127 { 127 } else { velocity };
    vec![0x90u8 | ch, n, v]
}

/// The events of the clock message that brings the count to `t`: a beat
/// just before the tick every 24 ticks.
pub open spec fn tick_events(t: int) -> Seq<MidiInputEvent> {
    if t % 24 == 0 {
        seq![MidiInputEvent::ClockBeat, MidiInputEvent::ClockTick]
    } else {
        seq![MidiInputEvent::ClockTick]
    }
}

/// The events of the clock messages that bring the count from `t0` to
/// `t0 + k`, in order.
pub open spec fn tick_events_from(t0: int, k: nat) -> Seq<MidiInputEvent>
    decreases k,
{
    if k == 0 {
        seq![]
    } else {
        tick_events_from(t0, (k - 1) as nat) + tick_events(t0 + k)
    }
}

/// How many of the counts `t0 + 1` to `t0 + k` fall on a beat.
pub open spec fn beats_among(t0: int, k: nat) -> nat
    decreases k,
{
    if k == 0 {
        0
    } else {
        beats_among(t0, (k - 1) as nat) + if (t0 + k) % 24 == 0 { 1nat } else { 0nat }
    }
}

/// `k` clock messages (0xF8) decoded one after another: the events of all
/// of them in order, and the counters after the last.
pub open spec fn clock_messages(c: ClockCounters, k: nat) -> (Seq<MidiInputEvent>, ClockCounters)
    decreases k,
{
    if k == 0 {
        (seq![], c)
    } else {
        let (e1, c1) = clock_messages(c, (k - 1) as nat);
        let (e2, c2) = decode_message(seq![0xF8u8], c1);
        (e1 + e2, c2)
    }
}

/// A run of `k` clock messages (one or more, without the count wrapping):
/// the clock is then external, it counted exactly `k` ticks, its running
/// flag is untouched, and the events are one tick per message with a beat
/// just before every tick whose count is a multiple of 24.
pub proof fn law_clock_messages(c: ClockCounters, k: nat)
    requires
        k >= 1,
        c.clock_ticks + k <= u32::MAX,
    ensures
        ({
            let (events, c2) = clock_messages(c, k);
            &&& c2 == (ClockCounters {
                source: ClockSource::MidiExternal,
                clock_ticks: (c.clock_ticks + k) as u32,
                ..c
            })
            &&& events == tick_events_from(c.clock_ticks as int, k)
            &&& events.len() == k + beats_among(c.clock_ticks as int, k)
        }),
    decreases k,
{
    if k > 1 {
        law_clock_messages(c, (k - 1) as nat);
    }
    let (e1, c1) = clock_messages(c, (k - 1) as nat);
    let t = c.clock_ticks + k;
    assert(e1 == tick_events_from(c.clock_ticks as int, (k - 1) as nat) && c1.clock_ticks + 1 == t
        && e1.len() == (k - 1) + beats_among(c.clock_ticks as int, (k - 1) as nat)) by {
        if k == 1 {
            assert(e1 =~= Seq::<MidiInputEvent>::empty());
        }
    }
    let (e2, c2) = decode_message(seq![0xF8u8], c1);
    assert(e2 == tick_events(t));
    assert(e2.len() == 1 + if t % 24 == 0 { 1nat } else { 0nat });
    assert(e1 + e2 == tick_events_from(c.clock_ticks as int, k));
}

/// A control-change message `[0xB0 | (channel - 1), controller, value]`
/// decodes to that controller (its second byte), that value (its third
/// byte) on that channel (1 to 16), and leaves the clock as it was.
pub proof fn law_control_change_decoded(channel: u8, controller: u8, value: u8, clock: ClockCounters)
    requires
        1 <= channel <= 16,
        controller <= 127,
        value <= 127,
    ensures
        decode_message(seq![(0xB0 + channel - 1) as u8, controller, value], clock) == (
            seq![MidiInputEvent::ControlChange { controller: controller, value: value, channel: channel }],
            clock,
        ),
{
    let s = (0xB0 + channel - 1) as u8;
    assert(s % 16 == channel - 1);
    assert(status_channel(s) == channel);
}

/// The all-notes-off messages are read back as control change 123 with
/// value 0 on each channel 1 to 16 in turn.
pub proof fn law_all_notes_off_read_back(msgs: Seq<Seq<u8>>, clock: ClockCounters)
    requires
        msgs.len() == 16,
        forall|c: int| 0 <= c < 16 ==> #[trigger] msgs[c] == seq![(0xB0 + c) as u8, 123u8, 0u8],
    ensures
        forall|c: int| 0 <= c < 16 ==> #[trigger] decode_message(msgs[c], clock) == (
            seq![MidiInputEvent::ControlChange { controller: 123u8, value: 0u8, channel: (c + 1) as u8 }],
            clock,
        ),
{
    assert forall|c: int| 0 <= c < 16 implies #[trigger] decode_message(msgs[c], clock) == (
        seq![MidiInputEvent::ControlChange { controller: 123u8, value: 0u8, channel: (c + 1) as u8 }],
        clock,
    ) by {
        law_control_change_decoded((c + 1) as u8, 123, 0, clock);
    }
}

/// What is sent is read back: the note-on and note-off messages of a note
/// (0-127) on a channel (1-16) decode to that note on that channel, a
/// note-on with velocity 0 as a note-off, and leave the clock as it was.
pub proof fn law_note_message_round_trip(note: u8, velocity: u8, channel: u8, clock: ClockCounters)
    requires
        note <= 127,
        velocity <= 127,
        1 <= channel <= 16,
    ensures
        decode_message(seq![(0x90 + wire_channel(channel)) as u8, cap127(note), cap127(velocity)], clock) == (
        if velocity > 0 {
            seq![MidiInputEvent::NoteOn { note, velocity, channel }]
        } else {
            seq![MidiInputEvent::NoteOff { note, channel }]
        },
        clock,
    ),
        decode_message(seq![(0x80 + wire_channel(channel)) as u8, cap127(note), 0u8], clock) == (
        seq![MidiInputEvent::NoteOff { note, channel }],
        clock,
    ),
{
    assert(wire_channel(channel) == channel - 1);
    assert(status_channel((0x90 + channel - 1) as u8) == channel);
    assert(status_channel((0x80 + channel - 1) as u8) == channel);
}

/// The bytes of a note-off: status 0x80 on the wire channel, note capped
/// at 127, velocity 0.
pub fn note_off_message(note: u8, channel: u8) -> (msg: Vec<u8>)
    ensures
        msg@ == seq![(0x80 + wire_channel(channel)) as u8, cap127(note), 0u8],
{
    let ch = to_wire_channel(channel);
    assert(0x80u8 | ch == 0x80 + ch) by (bit_vector)
        requires
            ch <= 15,
    ;
    let n = if note > 127 { 127 } else { note };
    vec![0x80u8 | ch, n, 0]
}

/// The 16 "all notes off" messages (controller 123, value 0) on wire
/// channels 0 to 15, in channel order.
pub fn all_notes_off_messages() -> (msgs: Vec<Vec<u8>>)
    ensures
        msgs@.len() == 16,
        forall|c: int| 0 <= c < 16 ==> (#[trigger] msgs@[c])@ == seq![(0xB0 + c) as u8, 123u8, 0u8],
{
    let mut msgs: Vec<Vec<u8>> = Vec::new();
    let mut ch: u8 = 0;
    while ch < 16
        invariant
            ch <= 16,
            msgs@.len() == ch,
            forall|c: int| 0 <= c < ch ==> (#[trigger] msgs@[c])@ == seq![(0xB0 + c) as u8, 123u8, 0u8],
        decreases 16 - ch,
    {
        assert(0xB0u8 | ch == 0xB0 + ch) by (bit_vector)
            requires
                ch < 16,
        ;
        msgs.push(vec![0xB0u8 | ch, 123, 0]);
        ch = ch + 1;
    }
    msgs
}

/// Whether the external clock runs: the source is external and running.
pub fn is_external_clock_running(clock: &ClockCounters) -> (b: bool)
    ensures
        b == (clock.source == ClockSource::MidiExternal && clock.running),
{
    clock.source == ClockSource::MidiExternal && clock.running
}

/// The health of the clock from the milliseconds since the last external
/// activity (`None` when there was none): no external clock on the internal
/// source; lost after more than 2000 ms of silence, unstable after more
/// than 500 ms, healthy otherwise.
pub fn clock_health(source: ClockSource, silence_ms: Option<u128>) -> (h: ClockHealth)
    ensures
        source == ClockSource::Internal ==> h == ClockHealth::NoExternalClock,
        source == ClockSource::MidiExternal ==> h == match silence_ms {
            None => ClockHealth::Unknown,
            Some(ms) => if ms > 2000 {
                ClockHealth::Lost
            } else if ms > 500 {
                ClockHealth::Unstable
            } else {
                ClockHealth::Healthy
            },
        },
{
    match source {
        ClockSource::Internal => ClockHealth::NoExternalClock,
        ClockSource::MidiExternal => match silence_ms {
            None => ClockHealth::Unknown,
            Some(ms) => if ms > 2000 {
                ClockHealth::Lost
            } else if ms > 500 {
                ClockHealth::Unstable
            } else {
                ClockHealth::Healthy
            },
        },
    }
}

/// After more than 5000 ms without external activity, an external clock
/// falls back to the internal source and stops.
pub fn check_external_clock_timeout(clock: &mut ClockCounters, silence_ms: Option<u128>)
    ensures
        (old(clock).source == ClockSource::MidiExternal && silence_ms is Some && silence_ms->Some_0 > 5000)
            ==> *final(clock) == (ClockCounters { source: ClockSource::Internal, running: false, ..*old(clock) }),
        !(old(clock).source == ClockSource::MidiExternal && silence_ms is Some && silence_ms->Some_0 > 5000)
            ==> *final(clock) == *old(clock),
{
    if clock.source == ClockSource::MidiExternal {
        match silence_ms {
            Some(ms) => {
                if ms > 5000 {
                    clock.source = ClockSource::Internal;
                    clock.running = false;
                }
            },
            None => {},
        }
    }
}

/// Tracks the clock source: a change from the external to the internal
/// clock is reported as `ExternalClockTimeout`; any change is remembered.
pub fn check_clock_source_transition(previous: &mut ClockSource, current: ClockSource) -> (e: Option<MidiInputEvent>)
    ensures
        *final(previous) == current,
        e == (if *old(previous) == ClockSource::MidiExternal && current == ClockSource::Internal {
            Some(MidiInputEvent::ExternalClockTimeout)
        } else {
            None::<MidiInputEvent>
        }),
{
    let e = if *previous == ClockSource::MidiExternal && current == ClockSource::Internal {
        Some(MidiInputEvent::ExternalClockTimeout)
    } else {
        None
    };
    *previous = current;
    e
}

/// Whether clock detection is to be tried again: only with automatic
/// detection, on the internal clock, and when it was never tried or the
/// retry interval has passed since.
pub fn should_retry_detection(auto_detect: bool, source: ClockSource, since_last_secs: Option<u64>, retry_interval: u64) -> (b: bool)
    ensures
        b == (auto_detect && source == ClockSource::Internal && match since_last_secs {
            None => true,
            Some(s) => s >= retry_interval,
        }),
{
    if !auto_detect {
        return false;
    }
    match source {
        ClockSource::Internal => match since_last_secs {
            Some(s) => s >= retry_interval,
            None => true,
        },
        ClockSource::MidiExternal => false,
    }
}

/// Seconds until the next detection attempt: 0 when one is due, else what
/// is left of the interval since the last attempt (`None` when there was
/// none).
pub fn next_retry_in(should_retry: bool, since_last_secs: Option<u64>, retry_interval: u64) -> (r: Option<u64>)
    ensures
        r == (if should_retry {
            Some(0u64)
        } else {
            match since_last_secs {
                None => None,
                Some(s) => if s < retry_interval { Some((retry_interval - s) as u64) } else { Some(0u64) },
            }
        }),
{
    if should_retry {
        Some(0)
    } else {
        match since_last_secs {
            Some(s) => if s < retry_interval { Some(retry_interval - s) } else { Some(0) },
            None => None,
        }
    }
}

} // verus!
