//! Value types of the sequencer and its state record.

use vstd::prelude::*;
use crate::grid_model::{COLS, ROWS, cells, grid_shape_ok, filled_grid, make_grid, copy_grid, has_grid_shape};

verus! {

/// Note number below the first row gate note.
pub const LOWEST_MIDI_NOTE_NUMBER_FOR_GATE: u8 = 47;

/// Clock division reset outputs: MIDI notes of the clock-synced reset signals.
pub const RESET_1_NOTE: u8 = 55;
pub const RESET_16_NOTE: u8 = 56;
pub const RESET_32_NOTE: u8 = 57;
pub const RESET_64_NOTE: u8 = 58;
pub const RESET_128_NOTE: u8 = 59;
/// MIDI channel of the reset outputs.
pub const RESET_CHANNEL: u8 = 1;
/// Velocity of the reset note-ons.
pub const RESET_VELOCITY: u8 = 100;

/// Number of undo snapshots that are kept.
pub const MAX_UNDO_HISTORY: usize = 50;

/// MIDI event for hardware output.
#[derive(Debug, Clone, Copy, PartialEq, Eq, Structural)]
pub struct MidiEvent {
    pub note: u8,
    pub velocity: u8,
    pub channel: u8,
    pub note_on: bool,
    pub step: usize,
    pub sequencer_source: char,
}

/// Pending note-off event scheduled for a specific tick.
#[derive(Debug, Clone, Copy, PartialEq, Eq, Structural)]
pub struct PendingNoteOff {
    pub note: u8,
    pub channel: u8,
    pub row: usize,
    pub target_tick: u64,
}

/// Events that the sequencer hands to the application.
#[derive(Debug, Clone, Copy, PartialEq, Eq, Structural)]
pub enum SequencerEvent {
    /// A step has been reached.
    Step { step: usize },
    /// A beat has been reached (for visual indicators).
    Beat { beat: usize },
    /// MIDI event to be sent to hardware.
    MidiEvent(MidiEvent),
    /// One row's play position moved from `old_step` to `new_step`.
    GridUpdate { row: usize, old_step: usize, new_step: usize },
}

/// A MIDI note event at a tick offset within a step.
#[derive(Debug, Clone, Copy, PartialEq, Eq, Structural)]
pub struct NoteEvent {
    pub note: u8,
    pub velocity: u8,
    pub channel: u8,
    pub note_on: bool,
    pub tick_offset: u32,
}

/// Per-row settings and play position.
#[derive(Debug, Clone, Copy, PartialEq, Eq, Structural)]
pub struct SequencerARowStates {
    pub current_row_step: usize,
    pub first_step: usize,
    pub max_step: usize,
    pub euclidean_events: usize,
    pub euclidean_rotation: usize,
    pub previous_row_step: usize,
    pub midi_note: u8,
    pub midi_velocity: u8,
    pub midi_channel: u8,
    pub ratchet_count: u8,
}

/// MIDI note event for recording and playback.
#[derive(Debug, Clone, Copy, PartialEq, Eq, Structural)]
pub struct MidiNoteEvent {
    pub velocity: u8,
    pub tick_count_since_step: u32,
    pub is_active: bool,
}

impl Default for MidiNoteEvent {
    fn default() -> (r: Self)
        ensures
            r.velocity == 0,
            r.tick_count_since_step == 0,
            !r.is_active,
    {
        MidiNoteEvent { velocity: 0, tick_count_since_step: 0, is_active: false }
    }
}

/// The default row settings: a 32-step loop starting at step 0.
pub open spec fn default_row_spec() -> SequencerARowStates {
    SequencerARowStates {
        current_row_step: 0,
        first_step: 0,
        max_step: 31,
        euclidean_events: 5,
        euclidean_rotation: 0,
        previous_row_step: 31,
        midi_note: (LOWEST_MIDI_NOTE_NUMBER_FOR_GATE + 1) as u8,
        midi_velocity: 100,
        midi_channel: 1,
        ratchet_count: 1,
    }
}

impl Default for SequencerARowStates {
    fn default() -> (r: Self)
        ensures
            r == default_row_spec(),
    {
        SequencerARowStates {
            current_row_step: 0,
            first_step: 0,
            max_step: 31,
            euclidean_events: 5,
            euclidean_rotation: 0,
            previous_row_step: 31,
            midi_note: LOWEST_MIDI_NOTE_NUMBER_FOR_GATE + 1,
            midi_velocity: 100,
            midi_channel: 1,
            ratchet_count: 1,
        }
    }
}

/// The play position of a row can be advanced without overflow.
pub open spec fn row_ok(r: SequencerARowStates) -> bool {
    r.current_row_step < usize::MAX
}

/// Exec check of `row_ok`.
pub fn row_is_ok(r: &SequencerARowStates) -> (b: bool)
    ensures
        b == row_ok(*r),
{
    r.current_row_step < usize::MAX
}

/// Row states as kept in an undo snapshot: play positions are not saved.
pub open spec fn row_without_position(r: SequencerARowStates) -> SequencerARowStates {
    SequencerARowStates { current_row_step: 0, previous_row_step: 0, ..r }
}

/// A list of row states with the play positions cleared.
pub open spec fn rows_without_positions(rows: Seq<SequencerARowStates>) -> Seq<SequencerARowStates> {
    rows.map_values(|r: SequencerARowStates| row_without_position(r))
}

/// `snapshot_rows` with the play positions of `current` (index by index) put back.
pub open spec fn rows_with_positions_of(
    snapshot_rows: Seq<SequencerARowStates>,
    current: Seq<SequencerARowStates>,
) -> Seq<SequencerARowStates> {
    Seq::new(
        snapshot_rows.len(),
        |i: int|
            if i < current.len() {
                SequencerARowStates {
                    current_row_step: current[i].current_row_step,
                    previous_row_step: current[i].previous_row_step,
                    ..snapshot_rows[i]
                }
            } else {
                snapshot_rows[i]
            },
    )
}

/// All rows of a list satisfy `row_ok`.
pub open spec fn rows_ok(rows: Seq<SequencerARowStates>) -> bool {
    forall|i: int| 0 <= i < rows.len() ==> row_ok(#[trigger] rows[i])
}

} // verus!

verus! {

/// Main sequencer state. The floating-point settings that belong with it
/// (swing amount, velocity scale, slide amounts) are held by the application.
pub struct SequencerState {
    /// Trigger grid: `sequencer_a_grid[column][row]` (0 = off, 1 = on, 2+ = ratchet).
    pub sequencer_a_grid: Vec<Vec<u8>>,
    /// Note grid (MIDI note values), same layout.
    pub sequencer_a_mozart: Vec<Vec<u8>>,
    /// Held state for grid button combinations, same layout.
    pub held: Vec<Vec<u8>>,
    /// Settings and play position of each row.
    pub sequencer_a_row_states: Vec<SequencerARowStates>,
    /// Global master step.
    pub sequencer_a_current_master_step: usize,
    pub sequencer_a_current_lane: usize,
    /// Transport state.
    pub is_running: bool,
    pub ticks_per_step: u32,
    pub steps_per_bar: usize,
    pub tick_count_since_midi_clock_start: u64,
    pub tick_in_step: u32,
    /// Clock division reset tracking.
    pub global_reset_step_counter: usize,
    pub reset_1_active: bool,
    pub reset_16_active: bool,
    pub reset_32_active: bool,
    pub reset_64_active: bool,
    pub reset_128_active: bool,
    pub first_step: usize,
    pub last_step: usize,
    pub midi_first_step: usize,
    pub midi_last_step: usize,
    pub swing_mode: u8,
    pub global_transpose: i8,
    pub total_step_co2_count: usize,
    pub total_tick_co2_count: usize,
    pub total_sequence_rows: usize,
    pub cols: usize,
    pub rows: usize,
    pub min_lane: usize,
    pub max_lane: usize,
    pub max_step: usize,
    /// Set when the tick counter should be reset on the next clock loop iteration.
    pub reset_tick_counter: bool,
}

impl SequencerState {
    /// The matrices have the 32 x 8 shape and there is one row state per
    /// grid row.
    pub open spec fn wf(&self) -> bool {
        &&& grid_shape_ok(cells(self.sequencer_a_grid))
        &&& grid_shape_ok(cells(self.sequencer_a_mozart))
        &&& grid_shape_ok(cells(self.held))
        &&& self.sequencer_a_row_states@.len() == ROWS
    }

    /// Exec check of `wf`, used when a pattern comes from outside.
    pub fn is_well_formed(&self) -> (b: bool)
        ensures
            b == self.wf(),
    {
        has_grid_shape(&self.sequencer_a_grid) && has_grid_shape(&self.sequencer_a_mozart)
            && has_grid_shape(&self.held) && self.sequencer_a_row_states.len() == ROWS
    }

    /// Every position and counter that a step advances is below the
    /// largest `usize`.
    pub open spec fn counters_ok(&self) -> bool {
        &&& rows_ok(self.sequencer_a_row_states@)
        &&& self.sequencer_a_current_master_step < usize::MAX
        &&& self.global_reset_step_counter < usize::MAX
    }

    /// Exec check of `counters_ok`.
    pub fn counters_are_ok(&self) -> (b: bool)
        ensures
            b == self.counters_ok(),
    {
        let mut i: usize = 0;
        while i < self.sequencer_a_row_states.len()
            invariant
                i <= self.sequencer_a_row_states@.len(),
                forall|j: int| 0 <= j < i ==> row_ok(#[trigger] self.sequencer_a_row_states@[j]),
            decreases self.sequencer_a_row_states@.len() - i,
        {
            if !row_is_ok(&self.sequencer_a_row_states[i]) {
                return false;
            }
            i = i + 1;
        }
        self.sequencer_a_current_master_step < usize::MAX && self.global_reset_step_counter < usize::MAX
    }

    /// The row settings of a fresh state: the default row with gate note
    /// `48 + i` on MIDI channel 1 for row `i`.
    pub open spec fn default_rows() -> Seq<SequencerARowStates> {
        Seq::new(
            ROWS as nat,
            |i: int|
                SequencerARowStates {
                    midi_note: (LOWEST_MIDI_NOTE_NUMBER_FOR_GATE + i + 1) as u8,
                    midi_channel: 1,
                    ..default_row_spec()
                },
        )
    }

    /// Every field but the three matrices holds its initial value.
    pub open spec fn has_default_settings(&self) -> bool {
        &&& self.sequencer_a_row_states@ == Self::default_rows()
        &&& self.sequencer_a_current_master_step == 0
        &&& self.sequencer_a_current_lane == 1
        &&& !self.is_running
        &&& self.ticks_per_step == 12
        &&& self.first_step == 0
        &&& self.last_step == 31
        &&& self.steps_per_bar == 16
        &&& self.tick_count_since_midi_clock_start == 0
        &&& self.tick_in_step == 0
        &&& self.midi_first_step == 0
        &&& self.midi_last_step == 31
        &&& self.swing_mode == 1
        &&& self.global_transpose == 0
        &&& self.total_step_co2_count == 1
        &&& self.total_tick_co2_count == 1
        &&& self.total_sequence_rows == 7
        &&& self.cols == COLS
        &&& self.rows == ROWS
        &&& self.min_lane == 1
        &&& self.max_lane == 2
        &&& self.max_step == 31
        &&& !self.reset_tick_counter
        &&& self.global_reset_step_counter == 0
        &&& !self.reset_1_active
        &&& !self.reset_16_active
        &&& !self.reset_32_active
        &&& !self.reset_64_active
        &&& !self.reset_128_active
    }

    /// The state of a freshly created sequencer: empty trigger grid, note
    /// grid at middle C, nothing held, default settings.
    pub open spec fn is_default(&self) -> bool {
        &&& cells(self.sequencer_a_grid) == filled_grid(0)
        &&& cells(self.sequencer_a_mozart) == filled_grid(60)
        &&& cells(self.held) == filled_grid(0)
        &&& self.has_default_settings()
    }

    /// A copy of the state.
    pub fn copy(&self) -> (r: SequencerState)
        ensures
            r.same_as(*self),
    {
        SequencerState {
            sequencer_a_grid: copy_grid(&self.sequencer_a_grid),
            sequencer_a_mozart: copy_grid(&self.sequencer_a_mozart),
            held: copy_grid(&self.held),
            sequencer_a_row_states: copy_rows(&self.sequencer_a_row_states),
            ..*self
        }
    }

    /// Two states hold the same values (matrices compared cell by cell).
    pub open spec fn same_as(&self, other: SequencerState) -> bool {
        &&& cells(self.sequencer_a_grid) == cells(other.sequencer_a_grid)
        &&& cells(self.sequencer_a_mozart) == cells(other.sequencer_a_mozart)
        &&& cells(self.held) == cells(other.held)
        &&& self.sequencer_a_row_states@ == other.sequencer_a_row_states@
        &&& self.scalars_match(other)
    }

    /// All fields but the matrices and the row states agree.
    pub open spec fn scalars_match(&self, other: SequencerState) -> bool {
        &&& self.sequencer_a_current_master_step == other.sequencer_a_current_master_step
        &&& self.sequencer_a_current_lane == other.sequencer_a_current_lane
        &&& self.is_running == other.is_running
        &&& self.ticks_per_step == other.ticks_per_step
        &&& self.steps_per_bar == other.steps_per_bar
        &&& self.tick_count_since_midi_clock_start == other.tick_count_since_midi_clock_start
        &&& self.tick_in_step == other.tick_in_step
        &&& self.global_reset_step_counter == other.global_reset_step_counter
        &&& self.reset_1_active == other.reset_1_active
        &&& self.reset_16_active == other.reset_16_active
        &&& self.reset_32_active == other.reset_32_active
        &&& self.reset_64_active == other.reset_64_active
        &&& self.reset_128_active == other.reset_128_active
        &&& self.first_step == other.first_step
        &&& self.last_step == other.last_step
        &&& self.midi_first_step == other.midi_first_step
        &&& self.midi_last_step == other.midi_last_step
        &&& self.swing_mode == other.swing_mode
        &&& self.global_transpose == other.global_transpose
        &&& self.total_step_co2_count == other.total_step_co2_count
        &&& self.total_tick_co2_count == other.total_tick_co2_count
        &&& self.total_sequence_rows == other.total_sequence_rows
        &&& self.cols == other.cols
        &&& self.rows == other.rows
        &&& self.min_lane == other.min_lane
        &&& self.max_lane == other.max_lane
        &&& self.max_step == other.max_step
        &&& self.reset_tick_counter == other.reset_tick_counter
    }
}

/// A copy of a list of row states.
pub fn copy_rows(rows: &Vec<SequencerARowStates>) -> (r: Vec<SequencerARowStates>)
    ensures
        r@ == rows@,
{
    let mut r: Vec<SequencerARowStates> = Vec::new();
    let mut i: usize = 0;
    while i < rows.len()
        invariant
            i <= rows.len(),
            r@ == rows@.subrange(0, i as int),
        decreases rows.len() - i,
    {
        r.push(rows[i]);
        i = i + 1;
        assert(r@ =~= rows@.subrange(0, i as int));
    }
    assert(r@ =~= rows@);
    r
}

impl Default for SequencerState {
    fn default() -> (s: Self)
        ensures
            s.is_default(),
            s.wf(),
            s.counters_ok(),
    {
        let mut row_states: Vec<SequencerARowStates> = Vec::new();
        let mut i: usize = 0;
        while i < ROWS
            invariant
                i <= ROWS,
                row_states@ == Self::default_rows().subrange(0, i as int),
            decreases ROWS - i,
        {
            let mut seq_a_row_state = SequencerARowStates::default();
            seq_a_row_state.midi_note = LOWEST_MIDI_NOTE_NUMBER_FOR_GATE + (i as u8) + 1;
            seq_a_row_state.midi_channel = 1;
            row_states.push(seq_a_row_state);
            i = i + 1;
            assert(row_states@ =~= Self::default_rows().subrange(0, i as int));
        }
        assert(row_states@ =~= Self::default_rows());
        let s = SequencerState {
            sequencer_a_grid: make_grid(0),
            sequencer_a_mozart: make_grid(60),
            held: make_grid(0),
            sequencer_a_row_states: row_states,
            sequencer_a_current_master_step: 0,
            sequencer_a_current_lane: 1,
            is_running: false,
            ticks_per_step: 12,
            steps_per_bar: 16,
            tick_count_since_midi_clock_start: 0,
            tick_in_step: 0,
            global_reset_step_counter: 0,
            reset_1_active: false,
            reset_16_active: false,
            reset_32_active: false,
            reset_64_active: false,
            reset_128_active: false,
            first_step: 0,
            last_step: 31,
            midi_first_step: 0,
            midi_last_step: 31,
            swing_mode: 1,
            global_transpose: 0,
            total_step_co2_count: 1,
            total_tick_co2_count: 1,
            total_sequence_rows: 7,
            cols: COLS,
            rows: ROWS,
            min_lane: 1,
            max_lane: 2,
            max_step: 31,
            reset_tick_counter: false,
        };
        assert(rows_ok(s.sequencer_a_row_states@));
        s
    }
}

} // verus!
