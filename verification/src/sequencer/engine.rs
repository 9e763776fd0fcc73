//! The sequencer engine: editing with undo/redo, pattern storage, transport
//! and step advancement driven by an external clock.

use vstd::prelude::*;
use vstd::string::*;
use std::collections::HashMap;
use std::collections::VecDeque;
use crate::grid_model::{
    COLS, ROWS, cells, grid_shape_ok, grid_update, make_grid, copy_grid, set_cell, cell,
};
use crate::sequencer::types::{
    MidiEvent, NoteEvent, PendingNoteOff, SequencerARowStates, SequencerEvent, SequencerState,
    LOWEST_MIDI_NOTE_NUMBER_FOR_GATE, MAX_UNDO_HISTORY, row_ok, rows_ok, row_without_position,
    rows_without_positions, rows_with_positions_of, copy_rows,
};
use crate::text::{decimal, push_decimal};
use crate::sequencer::euclid::{euclid_hit, euclid_cell, lemma_bucket_step, lemma_rotate_back, lemma_rotation_unique};

verus! {

broadcast use vstd::std_specs::hash::group_hash_axioms;

#[verifier::external_type_specification]
#[verifier::external_body]
pub struct ExSystemTime(std::time::SystemTime);

/// `std::time::SystemTime::now()`. The clock's reading depends on the
/// machine and the moment of the call: nothing is claimed of it.
#[verifier::external_body]
fn system_time_now() -> std::time::SystemTime {
    std::time::SystemTime::now()
}

/// Undo/redo snapshot: both matrices and the row settings (play positions
/// cleared), when it was taken and what edit it precedes.
pub struct StateSnapshot {
    pub grid: Vec<Vec<u8>>,
    pub mozart: Vec<Vec<u8>>,
    pub row_states: Vec<SequencerARowStates>,
    pub timestamp: std::time::SystemTime,
    pub description: String,
}

/// Errors of the sequencer operations.
#[derive(Debug, Clone, Copy, PartialEq, Eq, Structural)]
pub enum SequencerError {
    /// Undo was asked with no earlier snapshot than the initial one.
    NothingToUndo,
    /// Redo was asked with nothing undone.
    NothingToRedo,
    /// No pattern is stored under this id.
    PatternNotFound(usize),
    /// Test mode was asked without its test pattern.
    TestPatternUnavailable,
    /// A loaded state does not have the shape the sequencer needs.
    InvalidPattern,
}

impl SequencerError {
    /// The message of the error, as a user reads it.
    pub fn message(&self) -> (s: String)
        ensures
            *self == SequencerError::NothingToUndo ==> s@ == "Nothing to undo"@,
            *self == SequencerError::NothingToRedo ==> s@ == "Nothing to redo"@,
            *self == SequencerError::TestPatternUnavailable ==> s@
                == "Failed to load test_pattern_1.json"@,
            *self == SequencerError::InvalidPattern ==> s@ == "Invalid pattern state"@,
            forall|id: usize|
                *self == SequencerError::PatternNotFound(id) ==> s@ == "Pattern "@ + decimal(
                    id as nat,
                ) + " not found"@,
    {
        match self {
            SequencerError::NothingToUndo => String::from_str("Nothing to undo"),
            SequencerError::NothingToRedo => String::from_str("Nothing to redo"),
            SequencerError::TestPatternUnavailable => String::from_str(
                "Failed to load test_pattern_1.json",
            ),
            SequencerError::InvalidPattern => String::from_str("Invalid pattern state"),
            SequencerError::PatternNotFound(id) => {
                let mut s = String::from_str("Pattern ");
                push_decimal(&mut s, *id as u64);
                s.append(" not found");
                s
            },
        }
    }
}

/// A snapshot records `st`'s matrices and row settings (without play
/// positions) under `description`.
pub open spec fn snapshot_of(snap: StateSnapshot, st: SequencerState, description: Seq<char>) -> bool {
    &&& cells(snap.grid) == cells(st.sequencer_a_grid)
    &&& cells(snap.mozart) == cells(st.sequencer_a_mozart)
    &&& snap.row_states@ == rows_without_positions(st.sequencer_a_row_states@)
    &&& snap.description@ == description
}

/// A snapshot can be restored into a well-formed state.
pub open spec fn snapshot_wf(snap: StateSnapshot) -> bool {
    &&& grid_shape_ok(cells(snap.grid))
    &&& grid_shape_ok(cells(snap.mozart))
    &&& snap.row_states@.len() == ROWS
}

/// The last `n` elements of `s` (all of `s` when it is shorter).
pub open spec fn keep_last<A>(s: Seq<A>, n: nat) -> Seq<A> {
    if s.len() > n {
        s.subrange(s.len() - n, s.len() as int)
    } else {
        s
    }
}

/// `after` is `before` with one snapshot of `st` labelled `description`
/// pushed, trimmed to the newest `MAX_UNDO_HISTORY`.
pub open spec fn pushed_snapshot(
    before: Seq<StateSnapshot>,
    after: Seq<StateSnapshot>,
    st: SequencerState,
    description: Seq<char>,
) -> bool {
    &&& after.len() > 0
    &&& after == keep_last(before.push(after.last()), MAX_UNDO_HISTORY as nat)
    &&& snapshot_of(after.last(), st, description)
}

/// `st` with both matrices and the row settings taken from `snap`, the
/// play positions of the rows kept.
pub open spec fn restored_from(new: SequencerState, st: SequencerState, snap: StateSnapshot) -> bool {
    &&& cells(new.sequencer_a_grid) == cells(snap.grid)
    &&& cells(new.sequencer_a_mozart) == cells(snap.mozart)
    &&& new.sequencer_a_row_states@ == rows_with_positions_of(
        snap.row_states@,
        st.sequencer_a_row_states@,
    )
    &&& new == SequencerState {
        sequencer_a_grid: new.sequencer_a_grid,
        sequencer_a_mozart: new.sequencer_a_mozart,
        sequencer_a_row_states: new.sequencer_a_row_states,
        ..st
    }
}

/// The label of a grid edit.
pub open spec fn grid_edit_description(x: usize, y: usize, value: u8) -> Seq<char> {
    "Set grid["@ + decimal(x as nat) + "]["@ + decimal(y as nat) + "] = "@ + decimal(value as nat)
        + " (display: step "@ + decimal(x as nat + 1) + ", row "@ + decimal(y as nat + 1) + ")"@
}

/// Main sequencer engine.
pub struct Sequencer {
    /// The sequencer state (pattern, row settings, transport).
    pub state: SequencerState,
    undo_stack: VecDeque<StateSnapshot>,
    redo_stack: VecDeque<StateSnapshot>,
    max_undo_history: usize,
    patterns: HashMap<usize, SequencerState>,
    current_pattern: usize,
    test_mode: bool,
    pending_note_offs: Vec<PendingNoteOff>,
}

impl Sequencer {
    /// The sequencer state.
    pub closed spec fn st(&self) -> SequencerState {
        self.state
    }

    /// The undo snapshots, oldest first.
    pub closed spec fn undo_history(&self) -> Seq<StateSnapshot> {
        self.undo_stack@
    }

    /// The redo snapshots, oldest first.
    pub closed spec fn redo_history(&self) -> Seq<StateSnapshot> {
        self.redo_stack@
    }

    /// The stored patterns by id.
    pub closed spec fn stored_patterns(&self) -> Map<usize, SequencerState> {
        self.patterns@
    }

    /// The note-offs waiting for their tick, in the order they were scheduled.
    pub closed spec fn pending_offs(&self) -> Seq<PendingNoteOff> {
        self.pending_note_offs@
    }

    /// Whether the sequencer runs in test mode (no saving on stop).
    pub closed spec fn in_test_mode(&self) -> bool {
        self.test_mode
    }

    /// Invariant of the parts that callers do not see.
    pub closed spec fn internals_ok(&self) -> bool {
        &&& self.max_undo_history == MAX_UNDO_HISTORY
        &&& self.undo_stack@.len() >= 1
        &&& forall|i: int| 0 <= i < self.undo_stack@.len() ==> snapshot_wf(#[trigger] self.undo_stack@[i])
        &&& forall|i: int| 0 <= i < self.redo_stack@.len() ==> snapshot_wf(#[trigger] self.redo_stack@[i])
        &&& forall|k: usize| #[trigger] self.patterns@.contains_key(k) ==> self.patterns@[k].wf()
    }

    /// The sequencer is well formed: its state and its snapshots have the
    /// 32 x 8 shape, and at least one undo snapshot is kept.
    pub closed spec fn wf(&self) -> bool {
        &&& self.state.wf()
        &&& self.internals_ok()
    }

    /// A well-formed sequencer has a well-formed state.
    pub proof fn lemma_wf_state(&self)
        requires
            self.wf(),
        ensures
            self.st().wf(),
            self.undo_history().len() >= 1,
            forall|i: int| 0 <= i < self.undo_history().len() ==> snapshot_wf(#[trigger] self.undo_history()[i]),
            forall|i: int| 0 <= i < self.redo_history().len() ==> snapshot_wf(#[trigger] self.redo_history()[i]),
    {
    }

    /// Everything but the state is unchanged.
    pub open spec fn same_history(&self, other: Sequencer) -> bool {
        &&& self.undo_history() == other.undo_history()
        &&& self.redo_history() == other.redo_history()
        &&& self.stored_patterns() == other.stored_patterns()
        &&& self.pending_offs() == other.pending_offs()
        &&& self.in_test_mode() == other.in_test_mode()
    }

    /// The snapshot of the current state under `description`.
    fn take_snapshot(&self, description: String) -> (snap: StateSnapshot)
        requires
            self.state.wf(),
        ensures
            snapshot_of(snap, self.state, description@),
            snapshot_wf(snap),
    {
        StateSnapshot {
            grid: copy_grid(&self.state.sequencer_a_grid),
            mozart: copy_grid(&self.state.sequencer_a_mozart),
            row_states: rows_without_position_vec(&self.state.sequencer_a_row_states),
            timestamp: system_time_now(),
            description,
        }
    }

    /// Pushes a snapshot of the current state, keeps the newest 50 and
    /// clears the redo history.
    fn push_undo_snapshot(&mut self, description: String)
        requires
            old(self).wf(),
        ensures
            final(self).wf(),
            final(self).st() == old(self).st(),
            pushed_snapshot(old(self).undo_history(), final(self).undo_history(), old(self).st(), description@),
            final(self).redo_history().len() == 0,
            final(self).stored_patterns() == old(self).stored_patterns(),
            final(self).pending_offs() == old(self).pending_offs(),
            final(self).in_test_mode() == old(self).in_test_mode(),
    {
        let snap = self.take_snapshot(description);
        let ghost full = self.undo_stack@.push(snap);
        self.undo_stack.push_back(snap);
        assert(forall|i: int| 0 <= i < full.len() - 1 ==> full[i] == old(self).undo_stack@[i]);
        let ghost mut dropped: int = 0;
        while self.undo_stack.len() > self.max_undo_history
            invariant
                self.max_undo_history == MAX_UNDO_HISTORY,
                self.state == old(self).state,
                self.patterns == old(self).patterns,
                self.pending_note_offs == old(self).pending_note_offs,
                self.test_mode == old(self).test_mode,
                forall|i: int| 0 <= i < full.len() ==> snapshot_wf(#[trigger] full[i]),
                0 <= dropped < full.len(),
                self.undo_stack@ == full.subrange(dropped, full.len() as int),
                dropped == 0 || full.len() - dropped >= MAX_UNDO_HISTORY,
            decreases self.undo_stack@.len(),
        {
            self.undo_stack.pop_front();
            proof {
                dropped = dropped + 1;
            }
        }
        self.redo_stack.clear();
        proof {
            if dropped == 0 {
                assert(self.undo_stack@ =~= full);
            }
            assert(self.undo_stack@.last() == snap);
            assert(self.undo_stack@ =~= keep_last(full, MAX_UNDO_HISTORY as nat));
            assert forall|i: int| 0 <= i < self.undo_stack@.len() implies snapshot_wf(
                #[trigger] self.undo_stack@[i],
            ) by {
                assert(self.undo_stack@[i] == full[i + dropped]);
            }
        }
    }
}


/// The trigger grid after the default sparse pattern is written into it:
/// a kick on steps 1, 5, 9, 13 (row 0), a hat on steps 3, 7, 11, 15 (row 1)
/// and a snare on steps 5 and 13 (row 2), counting steps from 1.
pub open spec fn sparse_trigger_grid(g: Seq<Seq<u8>>) -> Seq<Seq<u8>> {
    let g = grid_update(g, 0, 0, 1);
    let g = grid_update(g, 4, 0, 1);
    let g = grid_update(g, 8, 0, 1);
    let g = grid_update(g, 12, 0, 1);
    let g = grid_update(g, 2, 1, 1);
    let g = grid_update(g, 6, 1, 1);
    let g = grid_update(g, 10, 1, 1);
    let g = grid_update(g, 14, 1, 1);
    let g = grid_update(g, 4, 2, 1);
    grid_update(g, 12, 2, 1)
}

/// The note grid after the default melody (C4, E4, G4, C5 on row 0) is
/// written into it.
pub open spec fn sparse_note_grid(g: Seq<Seq<u8>>) -> Seq<Seq<u8>> {
    let g = grid_update(g, 0, 0, 60);
    let g = grid_update(g, 4, 0, 64);
    let g = grid_update(g, 8, 0, 67);
    grid_update(g, 12, 0, 72)
}

/// The state of a sequencer created without a saved pattern.
pub open spec fn fresh_state(st: SequencerState) -> bool {
    &&& cells(st.sequencer_a_grid) == sparse_trigger_grid(crate::grid_model::filled_grid(0))
    &&& cells(st.sequencer_a_mozart) == sparse_note_grid(crate::grid_model::filled_grid(60))
    &&& cells(st.held) == crate::grid_model::filled_grid(0)
    &&& st.has_default_settings()
}

/// `loaded` with the transport fields (master step, running flag, tick
/// counters) of `st`.
pub open spec fn loaded_keeping_transport(loaded: SequencerState, st: SequencerState) -> SequencerState {
    SequencerState {
        sequencer_a_current_master_step: st.sequencer_a_current_master_step,
        is_running: st.is_running,
        tick_count_since_midi_clock_start: st.tick_count_since_midi_clock_start,
        tick_in_step: st.tick_in_step,
        ..loaded
    }
}

/// A row at the start of its cycle: play position 0.
pub open spec fn row_at_start(r: SequencerARowStates) -> SequencerARowStates {
    SequencerARowStates { current_row_step: 0, ..r }
}

/// All rows at the start of their cycles.
pub open spec fn rows_at_start(rows: Seq<SequencerARowStates>) -> Seq<SequencerARowStates> {
    rows.map_values(|r: SequencerARowStates| row_at_start(r))
}

/// The state after the transport starts from a stopped state.
pub open spec fn started(st: SequencerState, new: SequencerState) -> bool {
    &&& new.sequencer_a_row_states@ == rows_at_start(st.sequencer_a_row_states@)
    &&& new == SequencerState {
        sequencer_a_row_states: new.sequencer_a_row_states,
        is_running: true,
        reset_tick_counter: true,
        sequencer_a_current_master_step: 0,
        global_reset_step_counter: 0,
        reset_1_active: false,
        reset_16_active: false,
        reset_32_active: false,
        reset_64_active: false,
        reset_128_active: false,
        ..st
    }
}

/// The state after the transport stops from a running state.
pub open spec fn stopped(st: SequencerState, new: SequencerState) -> bool {
    &&& new.sequencer_a_row_states@ == rows_at_start(st.sequencer_a_row_states@)
    &&& new == SequencerState {
        sequencer_a_row_states: new.sequencer_a_row_states,
        is_running: false,
        sequencer_a_current_master_step: 0,
        ..st
    }
}

/// The label of a note-grid edit.
pub open spec fn note_edit_description(x: usize, y: usize, note: u8) -> Seq<char> {
    "Set sequence_b["@ + decimal(x as nat) + "]["@ + decimal(y as nat) + "] = "@ + decimal(note as nat)
}

/// The effect of `set_grid_value(x, y, value)`.
pub open spec fn set_grid_value_post(s0: Sequencer, s1: Sequencer, x: usize, y: usize, value: u8) -> bool {
    if x < COLS && y < ROWS {
        &&& pushed_snapshot(s0.undo_history(), s1.undo_history(), s0.st(), grid_edit_description(x, y, value))
        &&& s1.redo_history().len() == 0
        &&& cells(s1.st().sequencer_a_grid) == grid_update(cells(s0.st().sequencer_a_grid), x as int, y as int, value)
        &&& s1.st() == SequencerState { sequencer_a_grid: s1.st().sequencer_a_grid, ..s0.st() }
        &&& s1.stored_patterns() == s0.stored_patterns()
        &&& s1.pending_offs() == s0.pending_offs()
        &&& s1.in_test_mode() == s0.in_test_mode()
    } else {
        s1 == s0
    }
}

/// The effect of `save_pattern`: a copy of the state, stopped and at step
/// 0, is stored under `id` (replacing any pattern there); everything else
/// is unchanged.
pub open spec fn save_pattern_post(s0: Sequencer, s1: Sequencer, id: usize) -> bool {
    &&& s1.stored_patterns().dom() == s0.stored_patterns().dom().insert(id)
    &&& forall|k: usize| k != id && #[trigger] s0.stored_patterns().contains_key(k)
        ==> s1.stored_patterns()[k] == s0.stored_patterns()[k]
    &&& s1.stored_patterns()[id].same_as(SequencerState {
        is_running: false,
        sequencer_a_current_master_step: 0,
        ..s0.st()
    })
    &&& s1.st() == s0.st()
    &&& s1.undo_history() == s0.undo_history()
    &&& s1.redo_history() == s0.redo_history()
    &&& s1.pending_offs() == s0.pending_offs()
    &&& s1.in_test_mode() == s0.in_test_mode()
}

/// The effect of `load_pattern`: without a pattern under `id`,
/// `PatternNotFound` and no change; otherwise an undo snapshot is taken and
/// the stored pattern becomes the state, the master step and the running
/// flag kept.
pub open spec fn load_pattern_post(s0: Sequencer, s1: Sequencer, id: usize, r: Result<(), SequencerError>) -> bool {
    if !s0.stored_patterns().contains_key(id) {
        r == Err::<(), SequencerError>(SequencerError::PatternNotFound(id)) && s1 == s0
    } else {
        &&& r is Ok
        &&& pushed_snapshot(s0.undo_history(), s1.undo_history(), s0.st(), load_description(id))
        &&& s1.redo_history().len() == 0
        &&& s1.st().same_as(SequencerState {
            sequencer_a_current_master_step: s0.st().sequencer_a_current_master_step,
            is_running: s0.st().is_running,
            ..s0.stored_patterns()[id]
        })
        &&& s1.stored_patterns() == s0.stored_patterns()
        &&& s1.pending_offs() == s0.pending_offs()
        &&& s1.in_test_mode() == s0.in_test_mode()
    }
}

/// The effect of `undo`: with an earlier snapshot than the initial one, the
/// newest snapshot is restored (play positions kept), the current state is
/// saved for redo and the snapshot's label is returned; otherwise nothing
/// changes and `NothingToUndo` is returned.
pub open spec fn undo_post(s0: Sequencer, s1: Sequencer, r: Result<String, SequencerError>) -> bool {
    if s0.undo_history().len() <= 1 {
        &&& r == Err::<String, SequencerError>(SequencerError::NothingToUndo)
        &&& s1 == s0
    } else {
        let snap = s0.undo_history().last();
        &&& r is Ok
        &&& r->Ok_0@ == snap.description@
        &&& s1.undo_history() == s0.undo_history().drop_last()
        &&& s1.redo_history().len() == s0.redo_history().len() + 1
        &&& s1.redo_history().drop_last() == s0.redo_history()
        &&& snapshot_of(s1.redo_history().last(), s0.st(), "Current state before undo"@)
        &&& restored_from(s1.st(), s0.st(), snap)
        &&& s1.stored_patterns() == s0.stored_patterns()
        &&& s1.pending_offs() == s0.pending_offs()
        &&& s1.in_test_mode() == s0.in_test_mode()
    }
}

/// The effect of `redo`: the mirror image of `undo` between the two
/// histories (the undo history is not trimmed here).
pub open spec fn redo_post(s0: Sequencer, s1: Sequencer, r: Result<String, SequencerError>) -> bool {
    if s0.redo_history().len() == 0 {
        &&& r == Err::<String, SequencerError>(SequencerError::NothingToRedo)
        &&& s1 == s0
    } else {
        let snap = s0.redo_history().last();
        &&& r is Ok
        &&& r->Ok_0@ == snap.description@
        &&& s1.redo_history() == s0.redo_history().drop_last()
        &&& s1.undo_history().len() == s0.undo_history().len() + 1
        &&& s1.undo_history().drop_last() == s0.undo_history()
        &&& snapshot_of(s1.undo_history().last(), s0.st(), "State before redo"@)
        &&& restored_from(s1.st(), s0.st(), snap)
        &&& s1.stored_patterns() == s0.stored_patterns()
        &&& s1.pending_offs() == s0.pending_offs()
        &&& s1.in_test_mode() == s0.in_test_mode()
    }
}

impl Sequencer {
    /// A sequencer with the default sparse pattern and one undo snapshot
    /// ("Initial state"), not in test mode.
    pub fn new() -> (s: Sequencer)
        ensures
            s.wf(),
            fresh_state(s.st()),
            !s.in_test_mode(),
            s.undo_history().len() == 1,
            snapshot_of(s.undo_history()[0], s.st(), "Initial state"@),
            s.redo_history().len() == 0,
            s.stored_patterns() == Map::<usize, SequencerState>::empty(),
            s.pending_offs().len() == 0,
    {
        Self::create(false, None)
    }

    /// A sequencer started with the pattern `loaded` that was read at
    /// start-up (`None` when there was none). In test mode the test pattern
    /// is required; otherwise a missing or malformed pattern gives the
    /// default sparse pattern. The loaded state's transport fields are
    /// reset (stopped, step 0, tick 0), and an "Initial state" snapshot is
    /// taken.
    pub fn new_with_test_mode(test_mode: bool, loaded: Option<SequencerState>) -> (r: Result<Sequencer, SequencerError>)
        ensures
            test_mode && loaded is None ==> r == Err::<Sequencer, SequencerError>(SequencerError::TestPatternUnavailable),
            test_mode && loaded is Some && !loaded->Some_0.wf() ==> r == Err::<Sequencer, SequencerError>(SequencerError::InvalidPattern),
            r is Ok <==> !test_mode || (loaded is Some && loaded->Some_0.wf()),
            r is Ok ==> {
                let s = r->Ok_0;
                &&& s.wf()
                &&& s.in_test_mode() == test_mode
                &&& (loaded is Some && loaded->Some_0.wf() ==> (s.st() == SequencerState {
                    sequencer_a_current_master_step: 0,
                    is_running: false,
                    tick_count_since_midi_clock_start: 0,
                    tick_in_step: 0,
                    ..loaded->Some_0
                }))
                &&& (!(loaded is Some && loaded->Some_0.wf()) ==> fresh_state(s.st()))
                &&& s.undo_history().len() == 1
                &&& snapshot_of(s.undo_history()[0], s.st(), "Initial state"@)
                &&& s.redo_history().len() == 0
                &&& s.stored_patterns() == Map::<usize, SequencerState>::empty()
                &&& s.pending_offs().len() == 0
            },
    {
        if test_mode {
            match &loaded {
                None => { return Err(SequencerError::TestPatternUnavailable); },
                Some(st) => {
                    if !st.is_well_formed() {
                        return Err(SequencerError::InvalidPattern);
                    }
                },
            }
        }
        Ok(Self::create(test_mode, loaded))
    }

    fn create(test_mode: bool, loaded: Option<SequencerState>) -> (s: Sequencer)
        ensures
            s.wf(),
            s.in_test_mode() == test_mode,
            loaded is Some && loaded->Some_0.wf() ==> (s.st() == SequencerState {
                sequencer_a_current_master_step: 0,
                is_running: false,
                tick_count_since_midi_clock_start: 0,
                tick_in_step: 0,
                ..loaded->Some_0
            }),
            !(loaded is Some && loaded->Some_0.wf()) ==> fresh_state(s.st()),
            s.undo_history().len() == 1,
            snapshot_of(s.undo_history()[0], s.st(), "Initial state"@),
            s.redo_history().len() == 0,
            s.stored_patterns() == Map::<usize, SequencerState>::empty(),
            s.pending_offs().len() == 0,
    {
        let default_state = SequencerState::default();
        let mut state = default_state;
        let mut use_default = true;
        match loaded {
            Some(st) => {
                if st.is_well_formed() {
                    let mut st = st;
                    st.sequencer_a_current_master_step = 0;
                    st.is_running = false;
                    st.tick_count_since_midi_clock_start = 0;
                    st.tick_in_step = 0;
                    state = st;
                    use_default = false;
                }
            },
            None => {},
        }
        if use_default {
            write_sparse_pattern(&mut state);
        }
        let mut s = Sequencer {
            state,
            undo_stack: VecDeque::new(),
            redo_stack: VecDeque::new(),
            max_undo_history: MAX_UNDO_HISTORY,
            patterns: HashMap::new(),
            current_pattern: 0,
            test_mode,
            pending_note_offs: Vec::new(),
        };
        let snap = s.take_snapshot(String::from_str("Initial state"));
        s.undo_stack.push_back(snap);
        assert(s.undo_stack@ =~= seq![snap]);
        s
    }

    /// Writes the default sparse pattern into both grids (see
    /// `sparse_trigger_grid` and `sparse_note_grid`).
    pub fn create_default_sparse_pattern(&mut self)
        requires
            old(self).wf(),
        ensures
            final(self).wf(),
            cells(final(self).st().sequencer_a_grid) == sparse_trigger_grid(cells(old(self).st().sequencer_a_grid)),
            cells(final(self).st().sequencer_a_mozart) == sparse_note_grid(cells(old(self).st().sequencer_a_mozart)),
            (final(self).st() == SequencerState {
                sequencer_a_grid: final(self).st().sequencer_a_grid,
                sequencer_a_mozart: final(self).st().sequencer_a_mozart,
                ..old(self).st()
            }),
            final(self).same_history(*old(self)),
    {
        write_sparse_pattern(&mut self.state);
    }

    /// Starts the transport: from a stopped state, every position goes back
    /// to step 0, the clock-division counters are cleared and the tick
    /// counter is flagged for reset. A running sequencer is left as is.
    pub fn start(&mut self)
        requires
            old(self).wf(),
        ensures
            final(self).wf(),
            start_post(*old(self), *final(self)),
    {
        if !self.state.is_running {
            self.state.is_running = true;
            self.state.reset_tick_counter = true;
            self.state.sequencer_a_current_master_step = 0;
            reset_row_positions(&mut self.state.sequencer_a_row_states);
            self.state.global_reset_step_counter = 0;
            self.state.reset_1_active = false;
            self.state.reset_16_active = false;
            self.state.reset_32_active = false;
            self.state.reset_64_active = false;
            self.state.reset_128_active = false;
        }
    }

    /// Stops the transport: a running sequencer stops and every position
    /// goes back to step 0. Returns whether the current pattern is now to be
    /// saved (it stopped and is not in test mode).
    pub fn stop(&mut self) -> (save_now: bool)
        requires
            old(self).wf(),
        ensures
            final(self).wf(),
            stop_post(*old(self), *final(self), save_now),
    {
        if self.state.is_running {
            self.state.is_running = false;
            self.state.sequencer_a_current_master_step = 0;
            reset_row_positions(&mut self.state.sequencer_a_row_states);
            !self.test_mode
        } else {
            false
        }
    }

    /// Whether the transport runs.
    pub fn is_running(&self) -> (b: bool)
        ensures
            b == self.st().is_running,
    {
        self.state.is_running
    }

    /// The master play position.
    pub fn get_position(&self) -> (p: usize)
        ensures
            p == self.st().sequencer_a_current_master_step,
    {
        self.state.sequencer_a_current_master_step
    }

    /// The master play position.
    pub fn get_current_position(&self) -> (p: usize)
        ensures
            p == self.st().sequencer_a_current_master_step,
    {
        self.state.sequencer_a_current_master_step
    }

    /// Whether the sequencer runs in test mode.
    pub fn is_test_mode(&self) -> (b: bool)
        ensures
            b == self.in_test_mode(),
    {
        self.test_mode
    }

    /// Sets cell (x, y) of the trigger grid, after an undo snapshot of the
    /// state before the edit. Coordinates outside the 32 x 8 grid are
    /// ignored.
    pub fn set_grid_value(&mut self, x: usize, y: usize, value: u8)
        requires
            old(self).wf(),
        ensures
            final(self).wf(),
            set_grid_value_post(*old(self), *final(self), x, y, value),
    {
        if x < COLS && y < ROWS {
            let mut d = String::from_str("Set grid[");
            push_decimal(&mut d, x as u64);
            d.append("][");
            push_decimal(&mut d, y as u64);
            d.append("] = ");
            push_decimal(&mut d, value as u64);
            d.append(" (display: step ");
            push_decimal(&mut d, (x + 1) as u64);
            d.append(", row ");
            push_decimal(&mut d, (y + 1) as u64);
            d.append(")");
            assert(d@ =~= grid_edit_description(x, y, value));
            self.push_undo_snapshot(d);
            set_cell(&mut self.state.sequencer_a_grid, x, y, value);
        }
    }

    /// Cell (x, y) of the trigger grid; 0 outside the grid.
    pub fn get_grid_value(&self, x: usize, y: usize) -> (v: u8)
        requires
            self.wf(),
        ensures
            v == (if x < COLS && y < ROWS { cells(self.st().sequencer_a_grid)[x as int][y as int] } else { 0 }),
    {
        if x < COLS && y < ROWS {
            cell(&self.state.sequencer_a_grid, x, y)
        } else {
            0
        }
    }

    /// Sets the note of cell (x, y) of the note grid, both counted from 1,
    /// clamped to 127, after an undo snapshot. Other coordinates are ignored.
    pub fn set_sequence_b_value(&mut self, x: usize, y: usize, note: u8)
        requires
            old(self).wf(),
        ensures
            final(self).wf(),
            (1 <= x <= COLS && 1 <= y <= ROWS) ==> {
                &&& pushed_snapshot(old(self).undo_history(), final(self).undo_history(), old(self).st(), note_edit_description(x, y, note))
                &&& final(self).redo_history().len() == 0
                &&& cells(final(self).st().sequencer_a_mozart) == grid_update(
                    cells(old(self).st().sequencer_a_mozart), x - 1, y - 1, if note > 127 { 127 } else { note })
                &&& (final(self).st() == SequencerState { sequencer_a_mozart: final(self).st().sequencer_a_mozart, ..old(self).st() })
                &&& final(self).stored_patterns() == old(self).stored_patterns()
                &&& final(self).pending_offs() == old(self).pending_offs()
                &&& final(self).in_test_mode() == old(self).in_test_mode()
            },
            !(1 <= x <= COLS && 1 <= y <= ROWS) ==> *final(self) == *old(self),
    {
        if x > 0 && x <= COLS && y > 0 && y <= ROWS {
            let mut d = String::from_str("Set sequence_b[");
            push_decimal(&mut d, x as u64);
            d.append("][");
            push_decimal(&mut d, y as u64);
            d.append("] = ");
            push_decimal(&mut d, note as u64);
            assert(d@ =~= note_edit_description(x, y, note));
            self.push_undo_snapshot(d);
            let clamped_note = if note > 127 { 127 } else { note };
            set_cell(&mut self.state.sequencer_a_mozart, x - 1, y - 1, clamped_note);
        }
    }

    /// The note of a note-grid cell: this sequencer reports middle C for
    /// every cell.
    pub fn get_mozart_value(&self, _x: usize, _y: usize) -> (v: u8)
        ensures
            v == 60,
    {
        60
    }

    /// Row `row` of the trigger grid, step by step (32 zeros for a row
    /// outside the grid).
    pub fn get_row_data(&self, row: usize) -> (r: Vec<u8>)
        requires
            self.wf(),
        ensures
            r@.len() == COLS,
            forall|x: int| 0 <= x < COLS ==> #[trigger] r@[x] == (if row < ROWS {
                cells(self.st().sequencer_a_grid)[x][row as int]
            } else {
                0
            }),
    {
        let mut r: Vec<u8> = Vec::new();
        let mut x: usize = 0;
        while x < COLS
            invariant
                self.wf(),
                x <= COLS,
                r@.len() == x,
                forall|i: int| 0 <= i < x ==> #[trigger] r@[i] == (if row < ROWS {
                    cells(self.st().sequencer_a_grid)[i][row as int]
                } else {
                    0
                }),
            decreases COLS - x,
        {
            if row < ROWS {
                r.push(cell(&self.state.sequencer_a_grid, x, row));
            } else {
                r.push(0);
            }
            x = x + 1;
        }
        r
    }

    /// Whether position (x, y), both counted from 1, is held.
    pub fn is_held(&self, x: usize, y: usize) -> (b: bool)
        requires
            self.wf(),
        ensures
            b == (1 <= x <= COLS && 1 <= y <= ROWS && cells(self.st().held)[x - 1][y - 1] > 0),
    {
        if x > 0 && x <= COLS && y > 0 && y <= ROWS {
            cell(&self.state.held, x - 1, y - 1) > 0
        } else {
            false
        }
    }

    /// A copy of the trigger grid.
    pub fn get_grid_state(&self) -> (g: Vec<Vec<u8>>)
        ensures
            cells(g) == cells(self.st().sequencer_a_grid),
    {
        copy_grid(&self.state.sequencer_a_grid)
    }

    /// A copy of the note grid.
    pub fn get_mozart_state(&self) -> (g: Vec<Vec<u8>>)
        ensures
            cells(g) == cells(self.st().sequencer_a_mozart),
    {
        copy_grid(&self.state.sequencer_a_mozart)
    }

    /// Undoes the last edit (see `undo_post`).
    pub fn undo(&mut self) -> (r: Result<String, SequencerError>)
        requires
            old(self).wf(),
        ensures
            final(self).wf(),
            undo_post(*old(self), *final(self), r),
    {
        if self.undo_stack.len() <= 1 {
            return Err(SequencerError::NothingToUndo);
        }
        let current = self.take_snapshot(String::from_str("Current state before undo"));
        self.redo_stack.push_back(current);
        let popped = self.undo_stack.pop_back();
        match popped {
            Some(snap) => {
                proof {
                    assert(snapshot_wf(old(self).undo_stack@[old(self).undo_stack@.len() - 1]));
                }
                let d = self.restore_snapshot(snap);
                proof {
                    assert forall|i: int| 0 <= i < self.undo_stack@.len() implies snapshot_wf(#[trigger] self.undo_stack@[i]) by {
                        assert(self.undo_stack@[i] == old(self).undo_stack@[i]);
                    }
                    assert forall|i: int| 0 <= i < self.redo_stack@.len() implies snapshot_wf(#[trigger] self.redo_stack@[i]) by {
                        if i < old(self).redo_stack@.len() {
                            assert(self.redo_stack@[i] == old(self).redo_stack@[i]);
                        }
                    }
                    assert(self.redo_stack@.drop_last() =~= old(self).redo_stack@);
                }
                Ok(d)
            },
            None => Err(SequencerError::NothingToUndo),
        }
    }

    /// Redoes the last undone edit (see `redo_post`).
    pub fn redo(&mut self) -> (r: Result<String, SequencerError>)
        requires
            old(self).wf(),
        ensures
            final(self).wf(),
            redo_post(*old(self), *final(self), r),
    {
        if self.redo_stack.len() == 0 {
            return Err(SequencerError::NothingToRedo);
        }
        let current = self.take_snapshot(String::from_str("State before redo"));
        self.undo_stack.push_back(current);
        let popped = self.redo_stack.pop_back();
        match popped {
            Some(snap) => {
                proof {
                    assert(snapshot_wf(old(self).redo_stack@[old(self).redo_stack@.len() - 1]));
                }
                let d = self.restore_snapshot(snap);
                proof {
                    assert forall|i: int| 0 <= i < self.redo_stack@.len() implies snapshot_wf(#[trigger] self.redo_stack@[i]) by {
                        assert(self.redo_stack@[i] == old(self).redo_stack@[i]);
                    }
                    assert forall|i: int| 0 <= i < self.undo_stack@.len() implies snapshot_wf(#[trigger] self.undo_stack@[i]) by {
                        if i < old(self).undo_stack@.len() {
                            assert(self.undo_stack@[i] == old(self).undo_stack@[i]);
                        }
                    }
                    assert(self.undo_stack@.drop_last() =~= old(self).undo_stack@);
                }
                Ok(d)
            },
            None => Err(SequencerError::NothingToRedo),
        }
    }

    /// Puts a snapshot's matrices and row settings into the state, keeping
    /// the play positions; returns its label.
    fn restore_snapshot(&mut self, snap: StateSnapshot) -> (d: String)
        requires
            old(self).state.wf(),
            snapshot_wf(snap),
        ensures
            final(self).state.wf(),
            restored_from(final(self).state, old(self).state, snap),
            d@ == snap.description@,
            final(self).undo_stack == old(self).undo_stack,
            final(self).redo_stack == old(self).redo_stack,
            final(self).patterns == old(self).patterns,
            final(self).pending_note_offs == old(self).pending_note_offs,
            final(self).test_mode == old(self).test_mode,
            final(self).max_undo_history == old(self).max_undo_history,
    {
        let rows = rows_with_positions_vec(&snap.row_states, &self.state.sequencer_a_row_states);
        self.state.sequencer_a_grid = snap.grid;
        self.state.sequencer_a_mozart = snap.mozart;
        self.state.sequencer_a_row_states = rows;
        snap.description
    }
}


/// Writes the default sparse pattern into both grids of a state.
fn write_sparse_pattern(st: &mut SequencerState)
    requires
        old(st).wf(),
    ensures
        final(st).wf(),
        cells(final(st).sequencer_a_grid) == sparse_trigger_grid(cells(old(st).sequencer_a_grid)),
        cells(final(st).sequencer_a_mozart) == sparse_note_grid(cells(old(st).sequencer_a_mozart)),
        (*final(st) == SequencerState {
            sequencer_a_grid: final(st).sequencer_a_grid,
            sequencer_a_mozart: final(st).sequencer_a_mozart,
            ..*old(st)
        }),
{
    let g = &mut st.sequencer_a_grid;
    set_cell(g, 0, 0, 1);
    set_cell(g, 4, 0, 1);
    set_cell(g, 8, 0, 1);
    set_cell(g, 12, 0, 1);
    set_cell(g, 2, 1, 1);
    set_cell(g, 6, 1, 1);
    set_cell(g, 10, 1, 1);
    set_cell(g, 14, 1, 1);
    set_cell(g, 4, 2, 1);
    set_cell(g, 12, 2, 1);
    let m = &mut st.sequencer_a_mozart;
    set_cell(m, 0, 0, 60);
    set_cell(m, 4, 0, 64);
    set_cell(m, 8, 0, 67);
    set_cell(m, 12, 0, 72);
}

/// Puts every row at step 0.
fn reset_row_positions(rows: &mut Vec<SequencerARowStates>)
    ensures
        final(rows)@ == rows_at_start(old(rows)@),
{
    let mut i: usize = 0;
    while i < rows.len()
        invariant
            i <= rows.len(),
            rows@.len() == old(rows)@.len(),
            forall|j: int| 0 <= j < i ==> #[trigger] rows@[j] == row_at_start(old(rows)@[j]),
            forall|j: int| i <= j < rows@.len() ==> #[trigger] rows@[j] == old(rows)@[j],
        decreases rows.len() - i,
    {
        let mut r = rows[i];
        r.current_row_step = 0;
        rows.set(i, r);
        i = i + 1;
    }
    assert(rows@ =~= rows_at_start(old(rows)@));
}

/// The note-off message of a pending note-off.
pub open spec fn note_off_event(p: PendingNoteOff) -> SequencerEvent {
    SequencerEvent::MidiEvent(
        MidiEvent { note: p.note, velocity: 0, channel: p.channel, note_on: false, step: 0, sequencer_source: 'A' },
    )
}

/// The pending note-offs due at `tick` (target at or before it), in order.
pub open spec fn due_offs(pending: Seq<PendingNoteOff>, tick: u64) -> Seq<PendingNoteOff>
    decreases pending.len(),
{
    if pending.len() == 0 {
        seq![]
    } else if pending.last().target_tick <= tick {
        due_offs(pending.drop_last(), tick).push(pending.last())
    } else {
        due_offs(pending.drop_last(), tick)
    }
}

/// The pending note-offs not yet due at `tick`, in order.
pub open spec fn later_offs(pending: Seq<PendingNoteOff>, tick: u64) -> Seq<PendingNoteOff>
    decreases pending.len(),
{
    if pending.len() == 0 {
        seq![]
    } else if pending.last().target_tick <= tick {
        later_offs(pending.drop_last(), tick)
    } else {
        later_offs(pending.drop_last(), tick).push(pending.last())
    }
}

/// The note-off messages of a list of pending note-offs.
pub open spec fn off_events(ps: Seq<PendingNoteOff>) -> Seq<SequencerEvent> {
    ps.map_values(|p: PendingNoteOff| note_off_event(p))
}

/// Row `r` is a sequence row whose play position is inside the grid.
pub open spec fn row_plays(st: SequencerState, r: int) -> bool {
    r <= 6 && st.sequencer_a_row_states@[r].current_row_step < COLS
}

/// Row `r` fires: it plays and its trigger cell at the play position is set.
pub open spec fn row_fires(st: SequencerState, r: int) -> bool {
    row_plays(st, r) && cells(st.sequencer_a_grid)[st.sequencer_a_row_states@[r].current_row_step as int][r] > 0
}

/// The note-on of a firing row (velocity 100).
pub open spec fn row_note_on(st: SequencerState, r: int) -> SequencerEvent {
    let rs = st.sequencer_a_row_states@[r];
    SequencerEvent::MidiEvent(
        MidiEvent {
            note: rs.midi_note,
            velocity: 100,
            channel: rs.midi_channel,
            note_on: true,
            step: rs.current_row_step,
            sequencer_source: 'A',
        },
    )
}

/// The LED update of a playing row: from its previous to its current position.
pub open spec fn row_grid_update(st: SequencerState, r: int) -> SequencerEvent {
    let rs = st.sequencer_a_row_states@[r];
    SequencerEvent::GridUpdate { row: r as usize, old_step: rs.previous_row_step, new_step: rs.current_row_step }
}

/// The messages of row `r` at the current step.
pub open spec fn row_events(st: SequencerState, r: int) -> Seq<SequencerEvent> {
    if !row_plays(st, r) {
        seq![]
    } else if row_fires(st, r) {
        seq![row_note_on(st, r), row_grid_update(st, r)]
    } else {
        seq![row_grid_update(st, r)]
    }
}

/// The note-off that a firing row schedules for the next tick.
pub open spec fn row_scheduled_offs(st: SequencerState, r: int) -> Seq<PendingNoteOff> {
    let rs = st.sequencer_a_row_states@[r];
    if row_fires(st, r) {
        seq![PendingNoteOff {
            note: rs.midi_note,
            channel: rs.midi_channel,
            row: r as usize,
            target_tick: (st.tick_count_since_midi_clock_start + 1) as u64,
        }]
    } else {
        seq![]
    }
}

/// The messages of rows `0..n`, row by row.
pub open spec fn rows_events(st: SequencerState, n: int) -> Seq<SequencerEvent>
    decreases n,
{
    if n <= 0 {
        seq![]
    } else {
        rows_events(st, n - 1) + row_events(st, n - 1)
    }
}

/// The note-offs scheduled by rows `0..n`, row by row.
pub open spec fn rows_scheduled_offs(st: SequencerState, n: int) -> Seq<PendingNoteOff>
    decreases n,
{
    if n <= 0 {
        seq![]
    } else {
        rows_scheduled_offs(st, n - 1) + row_scheduled_offs(st, n - 1)
    }
}

/// A row's play position after one step: the next step, or the first step
/// of its cycle after its last one.
pub open spec fn advanced_row(r: SequencerARowStates) -> SequencerARowStates {
    SequencerARowStates {
        previous_row_step: r.current_row_step,
        current_row_step: if r.current_row_step + 1 > r.max_step {
            r.first_step
        } else {
            (r.current_row_step + 1) as usize
        },
        ..r
    }
}

/// The master position after one step, wrapping from `last_step` to `first_step`.
pub open spec fn advanced_master(st: SequencerState) -> usize {
    if st.sequencer_a_current_master_step + 1 > st.last_step {
        st.first_step
    } else {
        (st.sequencer_a_current_master_step + 1) as usize
    }
}

/// The clock-division counter after one step: it counts 0 to 127 and wraps.
pub open spec fn advanced_reset_counter(c: usize) -> usize {
    if c + 1 > 127 {
        0
    } else {
        (c + 1) as usize
    }
}

/// The effect of `advance_step`: due note-offs are sent, then each sequence
/// row's note-on (scheduling its note-off for the next tick) and LED update,
/// then the step notification; every position advances.
pub open spec fn advance_step_post(s0: Sequencer, s1: Sequencer, events: Seq<SequencerEvent>) -> bool {
    let st = s0.st();
    let tick = st.tick_count_since_midi_clock_start;
    &&& events == off_events(due_offs(s0.pending_offs(), tick)) + rows_events(st, ROWS as int)
        + seq![SequencerEvent::Step { step: st.sequencer_a_current_master_step }]
    &&& s1.pending_offs() == later_offs(s0.pending_offs(), tick) + rows_scheduled_offs(st, ROWS as int)
    &&& s1.st().sequencer_a_row_states@ == st.sequencer_a_row_states@.map_values(
        |r: SequencerARowStates| advanced_row(r),
    )
    &&& (s1.st() == SequencerState {
        sequencer_a_row_states: s1.st().sequencer_a_row_states,
        tick_in_step: 0,
        sequencer_a_current_master_step: advanced_master(st),
        global_reset_step_counter: advanced_reset_counter(st.global_reset_step_counter),
        ..st
    })
    &&& s1.undo_history() == s0.undo_history()
    &&& s1.redo_history() == s0.redo_history()
    &&& s1.stored_patterns() == s0.stored_patterns()
    &&& s1.in_test_mode() == s0.in_test_mode()
}

/// A clock-division reset note-on (channel 1, velocity 100).
pub open spec fn reset_on(note: u8) -> SequencerEvent {
    SequencerEvent::MidiEvent(
        MidiEvent { note, velocity: 100, channel: 1, note_on: true, step: 0, sequencer_source: 'A' },
    )
}

/// A clock-division reset note-off.
pub open spec fn reset_off(note: u8) -> SequencerEvent {
    SequencerEvent::MidiEvent(
        MidiEvent { note, velocity: 0, channel: 1, note_on: false, step: 0, sequencer_source: 'A' },
    )
}

/// The reset note-ons at tick 0 of a step with division counter `c`: the
/// 1-step reset always, the 16-, 32-, 64- and 128-step resets when `c` is a
/// multiple of 16, 32, 64 and 0 in turn.
pub open spec fn reset_on_events(c: usize) -> Seq<SequencerEvent> {
    seq![reset_on(55)] + (if c % 16 == 0 {
        seq![reset_on(56)] + (if c % 32 == 0 {
            seq![reset_on(57)] + (if c % 64 == 0 {
                seq![reset_on(58)] + (if c == 0 {
                    seq![reset_on(59)]
                } else {
                    seq![]
                })
            } else {
                seq![]
            })
        } else {
            seq![]
        })
    } else {
        seq![]
    })
}

/// The effect of `process_clock_division_resets_on_tick`: at tick 0 of a
/// step the reset note-ons of the division counter are sent and their
/// flags set; at tick 1 the note-offs of the resets that are on are sent
/// and every flag is cleared; later ticks do nothing. The histories are
/// left alone.
pub open spec fn resets_post(s0: Sequencer, s1: Sequencer, events: Seq<SequencerEvent>) -> bool {
    &&& s0.st().tick_in_step == 0 ==> {
        let c = s0.st().global_reset_step_counter;
        &&& events == reset_on_events(c)
        &&& (s1.st() == SequencerState {
            reset_1_active: true,
            reset_16_active: if c % 16 == 0 { true } else { s0.st().reset_16_active },
            reset_32_active: if c % 32 == 0 { true } else { s0.st().reset_32_active },
            reset_64_active: if c % 64 == 0 { true } else { s0.st().reset_64_active },
            reset_128_active: if c == 0 { true } else { s0.st().reset_128_active },
            ..s0.st()
        })
    }
    &&& s0.st().tick_in_step == 1 ==> {
        &&& events == reset_off_events(s0.st())
        &&& (s1.st() == SequencerState {
            reset_1_active: false,
            reset_16_active: false,
            reset_32_active: false,
            reset_64_active: false,
            reset_128_active: false,
            ..s0.st()
        })
    }
    &&& s0.st().tick_in_step > 1 ==> events.len() == 0 && s1.st() == s0.st()
    &&& s1.same_history(s0)
}

/// The effect of `increment_tick_count`: one more tick since the clock
/// started and in the step.
pub open spec fn tick_post(s0: Sequencer, s1: Sequencer) -> bool {
    &&& (s1.st() == SequencerState {
        tick_count_since_midi_clock_start: (s0.st().tick_count_since_midi_clock_start + 1) as u64,
        tick_in_step: (s0.st().tick_in_step + 1) as u32,
        ..s0.st()
    })
    &&& s1.same_history(s0)
}

/// The reset note-offs that answer the note-ons of division counter `c`,
/// in the same order.
pub open spec fn reset_off_events_for(c: usize) -> Seq<SequencerEvent> {
    seq![reset_off(55)] + (if c % 16 == 0 {
        seq![reset_off(56)] + (if c % 32 == 0 {
            seq![reset_off(57)] + (if c % 64 == 0 {
                seq![reset_off(58)] + (if c == 0 {
                    seq![reset_off(59)]
                } else {
                    seq![]
                })
            } else {
                seq![]
            })
        } else {
            seq![]
        })
    } else {
        seq![]
    })
}

/// The reset note-offs at tick 1 for the resets that are on.
pub open spec fn reset_off_events(st: SequencerState) -> Seq<SequencerEvent> {
    (if st.reset_1_active { seq![reset_off(55)] } else { seq![] })
        + (if st.reset_16_active { seq![reset_off(56)] } else { seq![] })
        + (if st.reset_32_active { seq![reset_off(57)] } else { seq![] })
        + (if st.reset_64_active { seq![reset_off(58)] } else { seq![] })
        + (if st.reset_128_active { seq![reset_off(59)] } else { seq![] })
}

impl Sequencer {
    /// The note-off messages due at the current tick; they leave the pending list.
    pub fn process_pending_note_offs_on_tick(&mut self) -> (events: Vec<SequencerEvent>)
        requires
            old(self).wf(),
        ensures
            final(self).wf(),
            events@ == off_events(due_offs(old(self).pending_offs(), old(self).st().tick_count_since_midi_clock_start)),
            final(self).pending_offs() == later_offs(old(self).pending_offs(), old(self).st().tick_count_since_midi_clock_start),
            final(self).st() == old(self).st(),
            final(self).undo_history() == old(self).undo_history(),
            final(self).redo_history() == old(self).redo_history(),
            final(self).stored_patterns() == old(self).stored_patterns(),
            final(self).in_test_mode() == old(self).in_test_mode(),
    {
        let tick = self.state.tick_count_since_midi_clock_start;
        let mut events: Vec<SequencerEvent> = Vec::new();
        self.send_due_note_offs(tick, &mut events);
        events
    }

    /// Moves the note-offs due at `tick` out of the pending list, appending
    /// their messages to `events`.
    fn send_due_note_offs(&mut self, tick: u64, events: &mut Vec<SequencerEvent>)
        ensures
            final(events)@ == old(events)@ + off_events(due_offs(old(self).pending_note_offs@, tick)),
            final(self).pending_note_offs@ == later_offs(old(self).pending_note_offs@, tick),
            final(self).state == old(self).state,
            final(self).undo_stack == old(self).undo_stack,
            final(self).redo_stack == old(self).redo_stack,
            final(self).patterns == old(self).patterns,
            final(self).test_mode == old(self).test_mode,
            final(self).max_undo_history == old(self).max_undo_history,
    {
        let ghost pending = self.pending_note_offs@;
        let mut kept: Vec<PendingNoteOff> = Vec::new();
        let mut i: usize = 0;
        while i < self.pending_note_offs.len()
            invariant
                self.pending_note_offs@ == pending,
                i <= pending.len(),
                kept@ == later_offs(pending.subrange(0, i as int), tick),
                events@ == old(events)@ + off_events(due_offs(pending.subrange(0, i as int), tick)),
            decreases pending.len() - i,
        {
            let p = self.pending_note_offs[i];
            proof {
                assert(pending.subrange(0, i + 1).drop_last() =~= pending.subrange(0, i as int));
                assert(pending.subrange(0, i + 1).last() == p);
            }
            if p.target_tick <= tick {
                events.push(
                    SequencerEvent::MidiEvent(
                        MidiEvent {
                            note: p.note,
                            velocity: 0,
                            channel: p.channel,
                            note_on: false,
                            step: 0,
                            sequencer_source: 'A',
                        },
                    ),
                );
                proof {
                    assert(off_events(due_offs(pending.subrange(0, i + 1), tick)) =~= off_events(
                        due_offs(pending.subrange(0, i as int), tick),
                    ).push(note_off_event(p)));
                }
            } else {
                kept.push(p);
            }
            i = i + 1;
        }
        proof {
            assert(pending.subrange(0, pending.len() as int) =~= pending);
        }
        self.pending_note_offs = kept;
    }

    /// Advances one step on the external clock (see `advance_step_post`).
    /// Returns the messages in the order they are to be sent.
    pub fn external_advance_step(&mut self) -> (events: Vec<SequencerEvent>)
        requires
            old(self).wf(),
            old(self).st().counters_ok(),
            old(self).st().tick_count_since_midi_clock_start < u64::MAX,
        ensures
            final(self).wf(),
            advance_step_post(*old(self), *final(self), events@),
    {
        self.state.tick_in_step = 0;
        let tick = self.state.tick_count_since_midi_clock_start;
        let mut events: Vec<SequencerEvent> = Vec::new();
        self.send_due_note_offs(tick, &mut events);
        self.process_step(&mut events);
        events.push(SequencerEvent::Step { step: self.state.sequencer_a_current_master_step });
        let ghost st0 = self.state;
        let next = if self.state.sequencer_a_current_master_step + 1 > self.state.last_step {
            self.state.first_step
        } else {
            self.state.sequencer_a_current_master_step + 1
        };
        self.state.sequencer_a_current_master_step = next;
        advance_rows(&mut self.state.sequencer_a_row_states);
        let c = self.state.global_reset_step_counter;
        self.state.global_reset_step_counter = if c + 1 > 127 { 0 } else { c + 1 };
        proof {
            assert(rows_events(old(self).state, ROWS as int) == rows_events(st0, ROWS as int)) by {
                lemma_rows_events_ignore_tick(old(self).state, st0, ROWS as int);
            }
            assert(rows_scheduled_offs(old(self).state, ROWS as int) == rows_scheduled_offs(st0, ROWS as int)) by {
                lemma_rows_events_ignore_tick(old(self).state, st0, ROWS as int);
            }
            let st = old(self).state;
            assert(events@ == off_events(due_offs(old(self).pending_note_offs@, tick)) + rows_events(st, ROWS as int)
                + seq![SequencerEvent::Step { step: st.sequencer_a_current_master_step }]);
            assert(self.pending_note_offs@ == later_offs(old(self).pending_note_offs@, tick) + rows_scheduled_offs(st, ROWS as int));
            assert(self.state.sequencer_a_row_states@ == st.sequencer_a_row_states@.map_values(
                |r: SequencerARowStates| advanced_row(r)));
            assert(self.state == SequencerState {
                sequencer_a_row_states: self.state.sequencer_a_row_states,
                tick_in_step: 0,
                sequencer_a_current_master_step: advanced_master(st),
                global_reset_step_counter: advanced_reset_counter(st.global_reset_step_counter),
                ..st
            });
        }
        events
    }

    /// The messages of every row at the current step; firing rows schedule
    /// their note-off for the next tick.
    fn process_step(&mut self, events: &mut Vec<SequencerEvent>)
        requires
            old(self).state.wf(),
            old(self).state.tick_count_since_midi_clock_start < u64::MAX,
        ensures
            final(events)@ == old(events)@ + rows_events(old(self).state, ROWS as int),
            final(self).pending_note_offs@ == old(self).pending_note_offs@ + rows_scheduled_offs(old(self).state, ROWS as int),
            final(self).state == old(self).state,
            final(self).undo_stack == old(self).undo_stack,
            final(self).redo_stack == old(self).redo_stack,
            final(self).patterns == old(self).patterns,
            final(self).test_mode == old(self).test_mode,
            final(self).max_undo_history == old(self).max_undo_history,
    {
        let ghost st = self.state;
        let mut r: usize = 0;
        while r < self.state.sequencer_a_row_states.len()
            invariant
                self.state == st,
                st.wf(),
                st.tick_count_since_midi_clock_start < u64::MAX,
                r <= ROWS,
                self.undo_stack == old(self).undo_stack,
                self.redo_stack == old(self).redo_stack,
                self.patterns == old(self).patterns,
                self.test_mode == old(self).test_mode,
                self.max_undo_history == old(self).max_undo_history,
                events@ == old(events)@ + rows_events(st, r as int),
                self.pending_note_offs@ == old(self).pending_note_offs@ + rows_scheduled_offs(st, r as int),
            decreases ROWS - r,
        {
            let rs = self.state.sequencer_a_row_states[r];
            let ghost ev_before = events@;
            let ghost offs_before = self.pending_note_offs@;
            if r <= 6 && rs.current_row_step < COLS {
                let grid_value = cell(&self.state.sequencer_a_grid, rs.current_row_step, r);
                if grid_value > 0 {
                    events.push(
                        SequencerEvent::MidiEvent(
                            MidiEvent {
                                note: rs.midi_note,
                                velocity: 100,
                                channel: rs.midi_channel,
                                note_on: true,
                                step: rs.current_row_step,
                                sequencer_source: 'A',
                            },
                        ),
                    );
                    self.pending_note_offs.push(
                        PendingNoteOff {
                            note: rs.midi_note,
                            channel: rs.midi_channel,
                            row: r,
                            target_tick: self.state.tick_count_since_midi_clock_start + 1,
                        },
                    );
                }
                events.push(
                    SequencerEvent::GridUpdate {
                        row: r,
                        old_step: rs.previous_row_step,
                        new_step: rs.current_row_step,
                    },
                );
            }
            proof {
                assert(events@ =~= ev_before + row_events(st, r as int));
                assert(self.pending_note_offs@ =~= offs_before + row_scheduled_offs(st, r as int));
                assert(rows_events(st, r + 1) == rows_events(st, r as int) + row_events(st, r as int));
                assert(rows_scheduled_offs(st, r + 1) == rows_scheduled_offs(st, r as int) + row_scheduled_offs(st, r as int));
            }
            r = r + 1;
        }
    }

    /// Sends the clock-division reset notes for the current tick: at tick 0
    /// of a step the note-ons (`reset_on_events`) and their flags are set; at
    /// tick 1 the note-offs of the flagged resets are sent and the flags
    /// cleared; other ticks send nothing.
    #[verifier::rlimit(40)]
    pub fn process_clock_division_resets_on_tick(&mut self) -> (events: Vec<SequencerEvent>)
        requires
            old(self).wf(),
        ensures
            final(self).wf(),
            resets_post(*old(self), *final(self), events@),
    {
        let mut events: Vec<SequencerEvent> = Vec::new();
        let tick_in_step = self.state.tick_in_step;
        let c = self.state.global_reset_step_counter;
        if tick_in_step == 0 {
            self.state.reset_1_active = true;
            events.push(reset_note_on(55));
            if c % 16 == 0 {
                self.state.reset_16_active = true;
                events.push(reset_note_on(56));
                if c % 32 == 0 {
                    self.state.reset_32_active = true;
                    events.push(reset_note_on(57));
                    if c % 64 == 0 {
                        self.state.reset_64_active = true;
                        events.push(reset_note_on(58));
                        if c == 0 {
                            self.state.reset_128_active = true;
                            events.push(reset_note_on(59));
                        }
                    }
                }
            }
            assert(events@ =~= reset_on_events(c));
        } else if tick_in_step == 1 {
            let ghost st = self.state;
            if self.state.reset_1_active {
                events.push(reset_note_off(55));
                self.state.reset_1_active = false;
            }
            if self.state.reset_16_active {
                events.push(reset_note_off(56));
                self.state.reset_16_active = false;
            }
            if self.state.reset_32_active {
                events.push(reset_note_off(57));
                self.state.reset_32_active = false;
            }
            if self.state.reset_64_active {
                events.push(reset_note_off(58));
                self.state.reset_64_active = false;
            }
            if self.state.reset_128_active {
                events.push(reset_note_off(59));
                self.state.reset_128_active = false;
            }
            assert(events@ =~= reset_off_events(st));
        }
        events
    }

    /// Counts one MIDI clock tick.
    pub fn increment_tick_count(&mut self)
        requires
            old(self).wf(),
            old(self).st().tick_count_since_midi_clock_start < u64::MAX,
            old(self).st().tick_in_step < u32::MAX,
        ensures
            final(self).wf(),
            tick_post(*old(self), *final(self)),
    {
        self.state.tick_count_since_midi_clock_start = self.state.tick_count_since_midi_clock_start + 1;
        self.state.tick_in_step = self.state.tick_in_step + 1;
    }

    /// Whether the tick counter is flagged for reset.
    pub fn get_reset_tick_counter_flag(&self) -> (b: bool)
        ensures
            b == self.st().reset_tick_counter,
    {
        self.state.reset_tick_counter
    }
}

/// A clock-division reset note-on message.
fn reset_note_on(note: u8) -> (e: SequencerEvent)
    ensures
        e == reset_on(note),
{
    SequencerEvent::MidiEvent(
        MidiEvent { note, velocity: 100, channel: 1, note_on: true, step: 0, sequencer_source: 'A' },
    )
}

/// A clock-division reset note-off message.
fn reset_note_off(note: u8) -> (e: SequencerEvent)
    ensures
        e == reset_off(note),
{
    SequencerEvent::MidiEvent(
        MidiEvent { note, velocity: 0, channel: 1, note_on: false, step: 0, sequencer_source: 'A' },
    )
}

/// The row messages and scheduled note-offs do not depend on the tick
/// within the step.
proof fn lemma_rows_events_ignore_tick(a: SequencerState, b: SequencerState, n: int)
    requires
        b == (SequencerState { tick_in_step: b.tick_in_step, ..a }),
    ensures
        rows_events(a, n) == rows_events(b, n),
        rows_scheduled_offs(a, n) == rows_scheduled_offs(b, n),
    decreases n,
{
    if n > 0 {
        lemma_rows_events_ignore_tick(a, b, n - 1);
    }
}

/// Advances every row by one step.
fn advance_rows(rows: &mut Vec<SequencerARowStates>)
    requires
        rows_ok(old(rows)@),
    ensures
        final(rows)@ == old(rows)@.map_values(|r: SequencerARowStates| advanced_row(r)),
{
    let mut i: usize = 0;
    while i < rows.len()
        invariant
            i <= rows.len(),
            rows@.len() == old(rows)@.len(),
            rows_ok(old(rows)@),
            forall|j: int| 0 <= j < i ==> #[trigger] rows@[j] == advanced_row(old(rows)@[j]),
            forall|j: int| i <= j < rows@.len() ==> #[trigger] rows@[j] == old(rows)@[j],
        decreases rows.len() - i,
    {
        let mut r = rows[i];
        assert(row_ok(old(rows)@[i as int]));
        r.previous_row_step = r.current_row_step;
        r.current_row_step = r.current_row_step + 1;
        if r.current_row_step > r.max_step {
            r.current_row_step = r.first_step;
        }
        rows.set(i, r);
        i = i + 1;
    }
    assert(rows@ =~= old(rows)@.map_values(|r: SequencerARowStates| advanced_row(r)));
}

/// `g` with row `row` of every column replaced by `f` of the column.
pub open spec fn row_replaced(g: Seq<Seq<u8>>, row: int, f: spec_fn(int) -> u8) -> Seq<Seq<u8>> {
    Seq::new(g.len(), |x: int| g[x].update(row, f(x)))
}

/// The number of ratchets of a trigger value: the value capped at 4 when
/// it is 2 or more, else 1.
pub open spec fn ratchet_count(v: u8) -> nat {
    if v >= 2 {
        if v <= 4 { v as nat } else { 4 }
    } else {
        1
    }
}

/// The note-on of ratchet `k` out of `count` in a step of `tps` ticks.
pub open spec fn ratchet_on(rs: SequencerARowStates, tps: u32, count: nat, k: nat) -> NoteEvent {
    NoteEvent {
        note: rs.midi_note,
        velocity: rs.midi_velocity,
        channel: rs.midi_channel,
        note_on: true,
        tick_offset: (k * ((tps as nat) / count)) as u32,
    }
}

/// The note-off of ratchet `k`: one tick before the next ratchet, or on the
/// last tick of the step for the last ratchet.
pub open spec fn ratchet_off(rs: SequencerARowStates, tps: u32, count: nat, k: nat) -> NoteEvent {
    NoteEvent {
        note: rs.midi_note,
        velocity: 0,
        channel: rs.midi_channel,
        note_on: false,
        tick_offset: (if k + 1 < count { k * ((tps as nat) / count) + (tps as nat) / count - 1 } else { tps - 1 }) as u32,
    }
}

/// The note events of the first `n` ratchets, each a note-on then its note-off.
pub open spec fn ratchet_events(rs: SequencerARowStates, tps: u32, count: nat, n: nat) -> Seq<NoteEvent>
    decreases n,
{
    if n == 0 {
        seq![]
    } else {
        ratchet_events(rs, tps, count, (n - 1) as nat) + seq![
            ratchet_on(rs, tps, count, (n - 1) as nat),
            ratchet_off(rs, tps, count, (n - 1) as nat),
        ]
    }
}

/// The note events of row `row` at `step`: none for the control row, an
/// empty cell or a step outside the row's cycle; else one note-on/note-off
/// pair per ratchet.
pub open spec fn step_events_spec(st: SequencerState, row: usize, step: usize) -> Option<Seq<NoteEvent>> {
    if row > 6 {
        None
    } else {
        let v = cells(st.sequencer_a_grid)[step as int][row as int];
        let rs = st.sequencer_a_row_states@[row as int];
        if v == 0 || step < rs.first_step || step > rs.max_step {
            None
        } else {
            Some(ratchet_events(rs, st.ticks_per_step, ratchet_count(v), ratchet_count(v)))
        }
    }
}

/// The inputs on which the step events can be computed: a sequence row
/// needs a step inside the grid, and a step with ratchets needs at least
/// one tick per ratchet.
pub open spec fn step_events_defined(st: SequencerState, row: usize, step: usize) -> bool {
    row <= 6 ==> {
        &&& step < COLS
        &&& (step_events_spec(st, row, step) is Some ==> st.ticks_per_step
            >= ratchet_count(cells(st.sequencer_a_grid)[step as int][row as int]))
    }
}

/// The label of a Euclidean generation.
pub open spec fn euclid_description(row: usize, events: usize, length: usize) -> Seq<char> {
    "Euclidean rhythm R"@ + decimal(row as nat) + ": "@ + decimal(events as nat) + " events in "@
        + decimal(length as nat) + " length"@
}

/// The effect of `generate_euclidean_rhythm`.
pub open spec fn euclid_post(s0: Sequencer, s1: Sequencer, row: usize, events: usize, length: usize, rotation: usize) -> bool {
    if row > 6 || length > 32 {
        s1 == s0
    } else {
        let e = if events > length { length } else { events };
        let rs = s0.st().sequencer_a_row_states@[row as int];
        &&& pushed_snapshot(s0.undo_history(), s1.undo_history(), s0.st(), euclid_description(row, e, length))
        &&& s1.redo_history().len() == 0
        &&& cells(s1.st().sequencer_a_grid) == row_replaced(
            cells(s0.st().sequencer_a_grid),
            row as int,
            |x: int| euclid_cell(e as nat, length as nat, rotation as nat, x),
        )
        &&& s1.st().sequencer_a_row_states@ == s0.st().sequencer_a_row_states@.update(
            row as int,
            SequencerARowStates {
                euclidean_events: e,
                max_step: (length - 1) as usize,
                euclidean_rotation: rotation,
                ..rs
            },
        )
        &&& (s1.st() == SequencerState {
            sequencer_a_grid: s1.st().sequencer_a_grid,
            sequencer_a_row_states: s1.st().sequencer_a_row_states,
            ..s0.st()
        })
        &&& s1.stored_patterns() == s0.stored_patterns()
        &&& s1.pending_offs() == s0.pending_offs()
        &&& s1.in_test_mode() == s0.in_test_mode()
    }
}

/// The preset rhythm of a column: 0 clears the row, 1-3 basic drums, 4-15
/// African rhythms, 16-23 salsa, 24-31 jazz (27 is 24 steps long); any other
/// column gives four-on-the-floor.
pub open spec fn preset_pattern(column: usize) -> Seq<u8> {
    if column == 0 {
        Seq::new(32, |i: int| 0u8)
    } else if column == 1 {
        seq![0u8,1,0,1,0,1,0,1,0,1,0,1,0,1,0,1,0,1,0,1,0,1,1,1,0,1,0,1,0,1,0,1]
    } else if column == 2 {
        seq![0u8,0,0,0,0,0,1,0,0,0,0,0,0,0,1,0,0,0,0,0,0,0,1,0,0,0,1,0,0,0,1,0]
    } else if column == 3 {
        seq![0u8,0,0,0,1,0,0,0,0,0,0,0,1,0,0,0,0,0,0,0,1,0,0,1,0,0,0,0,1,0,0,0]
    } else if column == 4 {
        seq![1u8,0,1,0,1,0,1,1,0,1,0,1,0,1,1,0,1,0,1,0,1,0,1,1,0,1,0,1,0,1,1,0]
    } else if column == 5 {
        seq![1u8,0,0,1,0,1,1,0,1,0,1,0,0,1,0,1,1,0,0,1,0,1,1,0,1,0,1,0,0,1,0,1]
    } else if column == 6 {
        seq![1u8,0,1,1,0,1,0,1,1,0,1,1,0,1,0,0,1,0,1,1,0,1,0,1,1,0,1,1,0,1,0,0]
    } else if column == 7 {
        seq![1u8,0,0,1,0,0,1,0,1,1,0,0,1,0,0,0,1,0,0,1,0,0,1,0,1,1,0,0,1,0,0,0]
    } else if column == 8 {
        seq![1u8,1,0,1,0,1,1,0,1,0,1,0,1,1,0,0,1,1,0,1,0,1,1,0,1,0,1,0,1,1,0,0]
    } else if column == 9 {
        seq![1u8,0,1,0,0,1,1,0,1,0,0,1,0,1,1,0,1,0,1,0,0,1,1,0,1,0,0,1,0,1,1,0]
    } else if column == 10 {
        seq![1u8,0,0,1,0,1,0,1,0,0,1,0,1,0,1,1,1,0,0,1,0,1,0,1,0,0,1,0,1,0,1,1]
    } else if column == 11 {
        seq![1u8,1,0,0,1,0,1,0,1,1,0,0,1,0,0,1,1,1,0,0,1,0,1,0,1,1,0,0,1,0,0,1]
    } else if column == 12 {
        seq![1u8,0,1,1,0,0,1,0,1,0,1,1,0,0,1,0,1,0,1,1,0,0,1,0,1,0,1,1,0,0,1,0]
    } else if column == 13 {
        seq![1u8,0,0,1,1,0,1,0,0,1,1,0,1,0,0,1,1,0,0,1,1,0,1,0,0,1,1,0,1,0,0,1]
    } else if column == 14 {
        seq![1u8,1,0,1,0,1,0,0,1,1,0,1,0,1,0,0,1,1,0,1,0,1,0,0,1,1,0,1,0,1,0,0]
    } else if column == 15 {
        seq![1u8,0,1,0,1,1,0,1,0,1,0,1,1,0,1,0,1,0,1,0,1,1,0,1,0,1,0,1,1,0,1,0]
    } else if column == 16 {
        seq![1u8,0,0,1,0,0,1,0,0,1,0,0,1,0,0,0,1,0,0,1,0,0,1,0,0,1,0,0,1,0,0,0]
    } else if column == 17 {
        seq![0u8,0,1,0,0,1,0,0,0,1,0,0,1,0,0,1,0,0,1,0,0,1,0,0,0,1,0,0,1,0,0,1]
    } else if column == 18 {
        seq![1u8,0,0,1,0,0,1,0,0,0,1,0,0,1,0,0,1,0,0,1,0,0,1,0,0,0,1,0,0,1,0,0]
    } else if column == 19 {
        seq![0u8,0,1,0,0,1,0,0,0,0,1,0,0,1,0,0,0,0,1,0,0,1,0,0,0,0,1,0,0,1,0,0]
    } else if column == 20 {
        seq![1u8,0,1,0,1,0,1,0,1,0,1,0,1,0,1,0,1,0,1,0,1,0,1,0,1,0,1,0,1,0,1,0]
    } else if column == 21 {
        seq![1u8,1,0,0,1,0,1,1,0,0,1,0,1,1,0,0,1,1,0,0,1,0,1,1,0,0,1,0,1,1,0,0]
    } else if column == 22 {
        seq![0u8,1,0,1,0,0,1,0,1,0,1,0,0,1,0,1,0,1,0,1,0,0,1,0,1,0,1,0,0,1,0,1]
    } else if column == 23 {
        seq![1u8,0,0,1,1,0,1,0,0,1,1,0,1,0,0,1,1,0,0,1,1,0,1,0,0,1,1,0,1,0,0,1]
    } else if column == 24 {
        seq![1u8,0,1,0,1,0,1,0,1,0,1,0,1,0,1,0,1,0,1,0,1,0,1,0,1,0,1,0,1,0,1,0]
    } else if column == 25 {
        seq![1u8,0,0,1,1,0,0,1,1,0,0,1,1,0,0,1,1,0,0,1,1,0,0,1,1,0,0,1,1,0,0,1]
    } else if column == 26 {
        seq![0u8,0,1,0,0,0,1,0,0,0,1,0,0,0,1,0,0,0,1,0,0,0,1,0,0,0,1,0,0,0,1,0]
    } else if column == 27 {
        seq![1u8,1,0,1,1,0,1,1,0,1,1,0,1,1,0,1,1,0,1,1,0,1,1,0]
    } else if column == 28 {
        seq![1u8,0,1,1,0,1,0,1,1,0,1,0,1,0,1,1,0,1,0,1,1,0,1,0,1,0,1,1,0,1,0,1]
    } else if column == 29 {
        seq![1u8,0,0,0,1,0,1,0,0,0,1,0,1,0,0,0,1,0,0,0,1,0,1,0,0,0,1,0,1,0,0,0]
    } else if column == 30 {
        seq![1u8,1,0,1,0,1,1,0,1,0,1,1,0,1,0,1,1,1,0,1,0,1,1,0,1,0,1,1,0,1,0,1]
    } else if column == 31 {
        seq![1u8,0,1,0,0,1,0,1,0,0,1,0,1,0,0,1,1,0,1,0,0,1,0,1,0,0,1,0,1,0,0,1]
    } else {
        seq![1u8,0,0,0,1,0,0,0,1,0,0,0,1,0,0,0,1,0,0,0,1,0,0,0,1,0,0,0,1,0,0,0]
    }
}

/// The label of a preset application.
pub open spec fn preset_description(column: usize, row: usize) -> Seq<char> {
    "Preset pattern column "@ + decimal(column as nat) + " on row "@ + decimal(row as nat)
}

/// The trigger value at column `x` of a row holding preset `p`.
pub open spec fn preset_cell(p: Seq<u8>, x: int) -> u8 {
    if 0 <= x < p.len() { p[x] } else { 0 }
}

/// One cell copy of `copy_section`: only when both cells are inside the grid.
pub open spec fn copy_cell(g: Seq<Seq<u8>>, sc: int, sr: int, dc: int, dr: int) -> Seq<Seq<u8>> {
    if sc < COLS && sr < ROWS && dc < COLS && dr < ROWS {
        grid_update(g, dc, dr, g[sc][sr])
    } else {
        g
    }
}

/// The first `n` cell copies of column `x` of a section, top to bottom.
pub open spec fn copy_column_cells(g: Seq<Seq<u8>>, sx: int, sy: int, dx: int, dy: int, x: int, n: int) -> Seq<Seq<u8>>
    decreases n,
{
    if n <= 0 {
        g
    } else {
        copy_cell(copy_column_cells(g, sx, sy, dx, dy, x, n - 1), sx + x, sy + n - 1, dx + x, dy + n - 1)
    }
}

/// The cell copies of the first `n` columns of a `h`-row section, column by
/// column; a copy reads the grid as the earlier copies left it.
pub open spec fn copy_block(g: Seq<Seq<u8>>, sx: int, sy: int, dx: int, dy: int, h: int, n: int) -> Seq<Seq<u8>>
    decreases n,
{
    if n <= 0 {
        g
    } else {
        copy_column_cells(copy_block(g, sx, sy, dx, dy, h, n - 1), sx, sy, dx, dy, n - 1, h)
    }
}

/// The label of a section copy.
pub open spec fn copy_description(w: usize, h: usize, sx: usize, sy: usize, dx: usize, dy: usize) -> Seq<char> {
    "Copy section "@ + decimal(w as nat) + "x"@ + decimal(h as nat) + " from ("@ + decimal(sx as nat) + ","@
        + decimal(sy as nat) + ") to ("@ + decimal(dx as nat) + ","@ + decimal(dy as nat) + ")"@
}

/// The label of a pattern load.
pub open spec fn load_description(id: usize) -> Seq<char> {
    "Load pattern "@ + decimal(id as nat)
}

/// `st` clamped: the transpose kept within two octaves either way.
pub open spec fn clamp_transpose(t: i8) -> i8 {
    if t < -24 { -24i8 } else if t > 24 { 24i8 } else { t }
}

/// A note moved by the global transpose, kept within 0..=127.
pub open spec fn effective_note(base: u8, transpose: i8) -> u8 {
    let n = base + transpose;
    if n < 0 { 0 } else if n > 127 { 127 } else { n as u8 }
}

impl Sequencer {
    /// The note events of row `row` at `step` (see `step_events_spec`).
    pub fn get_step_events(&self, row: usize, _bar: usize, step: usize) -> (r: Option<Vec<NoteEvent>>)
        requires
            self.wf(),
            step_events_defined(self.st(), row, step),
        ensures
            match step_events_spec(self.st(), row, step) {
                None => r is None,
                Some(evs) => r is Some && r->Some_0@ == evs,
            },
    {
        if row > 6 {
            return None;
        }
        let grid_value = cell(&self.state.sequencer_a_grid, step, row);
        if grid_value == 0 {
            return None;
        }
        let rs = self.state.sequencer_a_row_states[row];
        if step < rs.first_step || step > rs.max_step {
            return None;
        }
        let count: u32 = if grid_value >= 2 {
            if grid_value <= 4 { grid_value as u32 } else { 4 }
        } else {
            1
        };
        let tps = self.state.ticks_per_step;
        let between = tps / count;
        let mut events: Vec<NoteEvent> = Vec::new();
        let mut k: u32 = 0;
        while k < count
            invariant
                1 <= count <= 4,
                count as nat == ratchet_count(grid_value),
                tps >= count,
                between == tps / count,
                k <= count,
                events@ == ratchet_events(rs, tps, count as nat, k as nat),
            decreases count - k,
        {
            assert(k * between + between <= tps) by (nonlinear_arith)
                requires
                    k < count,
                    between == tps / count,
                    count > 0,
            {
                assert(count * (tps / count) <= tps) by (nonlinear_arith)
                    requires count > 0;
                assert((k + 1) * between <= count * between) by (nonlinear_arith)
                    requires k + 1 <= count, between >= 0;
            }
            assert(between >= 1) by (nonlinear_arith)
                requires
                    tps >= count,
                    count > 0,
                    between == tps / count,
            ;
            let tick_offset = k * between;
            events.push(
                NoteEvent {
                    note: rs.midi_note,
                    velocity: rs.midi_velocity,
                    channel: rs.midi_channel,
                    note_on: true,
                    tick_offset,
                },
            );
            let off_tick = if k < count - 1 { tick_offset + between - 1 } else { tps - 1 };
            events.push(
                NoteEvent {
                    note: rs.midi_note,
                    velocity: 0,
                    channel: rs.midi_channel,
                    note_on: false,
                    tick_offset: off_tick,
                },
            );
            assert(events@ =~= ratchet_events(rs, tps, count as nat, (k + 1) as nat));
            k = k + 1;
        }
        Some(events)
    }

    /// Draws a Euclidean rhythm of `events` onsets (at most `length`) over
    /// the first `length` steps of row `row`, rotated by `rotation`, and
    /// makes `length` the row's cycle; the row's Euclidean settings are
    /// recorded. Rows above 6 and lengths above 32 are ignored.
    pub fn generate_euclidean_rhythm(&mut self, row: usize, events: usize, length: usize, rotation: usize)
        requires
            old(self).wf(),
            row <= 6 && length <= 32 ==> length > 0,
            row <= 6 && length <= 32 && events > 0 ==> rotation + length - 1 <= usize::MAX,
        ensures
            final(self).wf(),
            euclid_post(*old(self), *final(self), row, events, length, rotation),
    {
        if row > 6 || length > 32 {
            return;
        }
        let e = if events > length { length } else { events };
        let mut d = String::from_str("Euclidean rhythm R");
        push_decimal(&mut d, row as u64);
        d.append(": ");
        push_decimal(&mut d, e as u64);
        d.append(" events in ");
        push_decimal(&mut d, length as u64);
        d.append(" length");
        assert(d@ =~= euclid_description(row, e, length));
        self.push_undo_snapshot(d);
        let ghost mid = self.state;
        let mut rs = self.state.sequencer_a_row_states[row];
        rs.euclidean_events = e;
        rs.max_step = length - 1;
        rs.euclidean_rotation = rotation;
        self.state.sequencer_a_row_states.set(row, rs);
        draw_euclidean_row(&mut self.state.sequencer_a_grid, row, e, length, rotation);
        proof {
            assert forall|i: int| 0 <= i < self.undo_stack@.len() implies snapshot_wf(#[trigger] self.undo_stack@[i]) by {}
        }
    }

    /// The preset rhythm of a column (see `preset_pattern`).
    pub fn get_preset_pattern(column: usize) -> (p: Vec<u8>)
        ensures
            p@ == preset_pattern(column),
    {
        match column {
            0 => zeros(32),
            1 => vec![0,1,0,1,0,1,0,1,0,1,0,1,0,1,0,1,0,1,0,1,0,1,1,1,0,1,0,1,0,1,0,1],
            2 => vec![0,0,0,0,0,0,1,0,0,0,0,0,0,0,1,0,0,0,0,0,0,0,1,0,0,0,1,0,0,0,1,0],
            3 => vec![0,0,0,0,1,0,0,0,0,0,0,0,1,0,0,0,0,0,0,0,1,0,0,1,0,0,0,0,1,0,0,0],
            4 => vec![1,0,1,0,1,0,1,1,0,1,0,1,0,1,1,0,1,0,1,0,1,0,1,1,0,1,0,1,0,1,1,0],
            5 => vec![1,0,0,1,0,1,1,0,1,0,1,0,0,1,0,1,1,0,0,1,0,1,1,0,1,0,1,0,0,1,0,1],
            6 => vec![1,0,1,1,0,1,0,1,1,0,1,1,0,1,0,0,1,0,1,1,0,1,0,1,1,0,1,1,0,1,0,0],
            7 => vec![1,0,0,1,0,0,1,0,1,1,0,0,1,0,0,0,1,0,0,1,0,0,1,0,1,1,0,0,1,0,0,0],
            8 => vec![1,1,0,1,0,1,1,0,1,0,1,0,1,1,0,0,1,1,0,1,0,1,1,0,1,0,1,0,1,1,0,0],
            9 => vec![1,0,1,0,0,1,1,0,1,0,0,1,0,1,1,0,1,0,1,0,0,1,1,0,1,0,0,1,0,1,1,0],
            10 => vec![1,0,0,1,0,1,0,1,0,0,1,0,1,0,1,1,1,0,0,1,0,1,0,1,0,0,1,0,1,0,1,1],
            11 => vec![1,1,0,0,1,0,1,0,1,1,0,0,1,0,0,1,1,1,0,0,1,0,1,0,1,1,0,0,1,0,0,1],
            12 => vec![1,0,1,1,0,0,1,0,1,0,1,1,0,0,1,0,1,0,1,1,0,0,1,0,1,0,1,1,0,0,1,0],
            13 => vec![1,0,0,1,1,0,1,0,0,1,1,0,1,0,0,1,1,0,0,1,1,0,1,0,0,1,1,0,1,0,0,1],
            14 => vec![1,1,0,1,0,1,0,0,1,1,0,1,0,1,0,0,1,1,0,1,0,1,0,0,1,1,0,1,0,1,0,0],
            15 => vec![1,0,1,0,1,1,0,1,0,1,0,1,1,0,1,0,1,0,1,0,1,1,0,1,0,1,0,1,1,0,1,0],
            16 => vec![1,0,0,1,0,0,1,0,0,1,0,0,1,0,0,0,1,0,0,1,0,0,1,0,0,1,0,0,1,0,0,0],
            17 => vec![0,0,1,0,0,1,0,0,0,1,0,0,1,0,0,1,0,0,1,0,0,1,0,0,0,1,0,0,1,0,0,1],
            18 => vec![1,0,0,1,0,0,1,0,0,0,1,0,0,1,0,0,1,0,0,1,0,0,1,0,0,0,1,0,0,1,0,0],
            19 => vec![0,0,1,0,0,1,0,0,0,0,1,0,0,1,0,0,0,0,1,0,0,1,0,0,0,0,1,0,0,1,0,0],
            20 => vec![1,0,1,0,1,0,1,0,1,0,1,0,1,0,1,0,1,0,1,0,1,0,1,0,1,0,1,0,1,0,1,0],
            21 => vec![1,1,0,0,1,0,1,1,0,0,1,0,1,1,0,0,1,1,0,0,1,0,1,1,0,0,1,0,1,1,0,0],
            22 => vec![0,1,0,1,0,0,1,0,1,0,1,0,0,1,0,1,0,1,0,1,0,0,1,0,1,0,1,0,0,1,0,1],
            23 => vec![1,0,0,1,1,0,1,0,0,1,1,0,1,0,0,1,1,0,0,1,1,0,1,0,0,1,1,0,1,0,0,1],
            24 => vec![1,0,1,0,1,0,1,0,1,0,1,0,1,0,1,0,1,0,1,0,1,0,1,0,1,0,1,0,1,0,1,0],
            25 => vec![1,0,0,1,1,0,0,1,1,0,0,1,1,0,0,1,1,0,0,1,1,0,0,1,1,0,0,1,1,0,0,1],
            26 => vec![0,0,1,0,0,0,1,0,0,0,1,0,0,0,1,0,0,0,1,0,0,0,1,0,0,0,1,0,0,0,1,0],
            27 => vec![1,1,0,1,1,0,1,1,0,1,1,0,1,1,0,1,1,0,1,1,0,1,1,0],
            28 => vec![1,0,1,1,0,1,0,1,1,0,1,0,1,0,1,1,0,1,0,1,1,0,1,0,1,0,1,1,0,1,0,1],
            29 => vec![1,0,0,0,1,0,1,0,0,0,1,0,1,0,0,0,1,0,0,0,1,0,1,0,0,0,1,0,1,0,0,0],
            30 => vec![1,1,0,1,0,1,1,0,1,0,1,1,0,1,0,1,1,1,0,1,0,1,1,0,1,0,1,1,0,1,0,1],
            31 => vec![1,0,1,0,0,1,0,1,0,0,1,0,1,0,0,1,1,0,1,0,0,1,0,1,0,0,1,0,1,0,0,1],
            _ => vec![1,0,0,0,1,0,0,0,1,0,0,0,1,0,0,0,1,0,0,0,1,0,0,0,1,0,0,0,1,0,0,0],
        }
    }

    /// Writes preset `column` into row `row` (cells beyond the preset
    /// cleared) and makes the preset's length the row's cycle. Rows above 6
    /// are ignored.
    pub fn apply_preset_pattern(&mut self, row: usize, column: usize)
        requires
            old(self).wf(),
        ensures
            final(self).wf(),
            apply_preset_post(*old(self), *final(self), row, column),
    {
        if row > 6 {
            return;
        }
        let mut d = String::from_str("Preset pattern column ");
        push_decimal(&mut d, column as u64);
        d.append(" on row ");
        push_decimal(&mut d, row as u64);
        assert(d@ =~= preset_description(column, row));
        self.push_undo_snapshot(d);
        let pattern = Self::get_preset_pattern(column);
        let pattern_length = pattern.len();
        write_preset_row(&mut self.state.sequencer_a_grid, row, &pattern);
        let mut rs = self.state.sequencer_a_row_states[row];
        rs.max_step = pattern_length - 1;
        self.state.sequencer_a_row_states.set(row, rs);
    }

    /// Copies the `width` x `height` section at (`src_x`, `src_y`) of both
    /// grids to (`dest_x`, `dest_y`), cell by cell, column by column; cells
    /// outside the grid are skipped. An undo snapshot is taken first.
    pub fn copy_section(&mut self, src_x: usize, src_y: usize, width: usize, height: usize, dest_x: usize, dest_y: usize)
        requires
            old(self).wf(),
            width > 0 && height > 0 ==> src_x + width - 1 <= usize::MAX && dest_x + width - 1 <= usize::MAX
                && src_y + height - 1 <= usize::MAX && dest_y + height - 1 <= usize::MAX,
        ensures
            final(self).wf(),
            pushed_snapshot(old(self).undo_history(), final(self).undo_history(), old(self).st(),
                copy_description(width, height, src_x, src_y, dest_x, dest_y)),
            final(self).redo_history().len() == 0,
            cells(final(self).st().sequencer_a_grid) == copy_block(cells(old(self).st().sequencer_a_grid),
                src_x as int, src_y as int, dest_x as int, dest_y as int, height as int, width as int),
            cells(final(self).st().sequencer_a_mozart) == copy_block(cells(old(self).st().sequencer_a_mozart),
                src_x as int, src_y as int, dest_x as int, dest_y as int, height as int, width as int),
            (final(self).st() == SequencerState {
                sequencer_a_grid: final(self).st().sequencer_a_grid,
                sequencer_a_mozart: final(self).st().sequencer_a_mozart,
                ..old(self).st()
            }),
            final(self).stored_patterns() == old(self).stored_patterns(),
            final(self).pending_offs() == old(self).pending_offs(),
            final(self).in_test_mode() == old(self).in_test_mode(),
    {
        let mut d = String::from_str("Copy section ");
        push_decimal(&mut d, width as u64);
        d.append("x");
        push_decimal(&mut d, height as u64);
        d.append(" from (");
        push_decimal(&mut d, src_x as u64);
        d.append(",");
        push_decimal(&mut d, src_y as u64);
        d.append(") to (");
        push_decimal(&mut d, dest_x as u64);
        d.append(",");
        push_decimal(&mut d, dest_y as u64);
        d.append(")");
        assert(d@ =~= copy_description(width, height, src_x, src_y, dest_x, dest_y));
        self.push_undo_snapshot(d);
        copy_block_cells(&mut self.state.sequencer_a_grid, src_x, src_y, width, height, dest_x, dest_y);
        copy_block_cells(&mut self.state.sequencer_a_mozart, src_x, src_y, width, height, dest_x, dest_y);
    }

    /// Stores a copy of the current state as pattern `pattern_id`, stopped
    /// and at step 0 (replacing any pattern under that id). `name` only
    /// labels the pattern for the user.
    pub fn save_pattern(&mut self, pattern_id: usize, name: Option<String>) -> (r: Result<(), SequencerError>)
        requires
            old(self).wf(),
        ensures
            final(self).wf(),
            r is Ok,
            save_pattern_post(*old(self), *final(self), pattern_id),
    {
        let mut pattern_state = self.state.copy();
        pattern_state.is_running = false;
        pattern_state.sequencer_a_current_master_step = 0;
        self.patterns.insert(pattern_id, pattern_state);
        Ok(())
    }

    /// Loads stored pattern `pattern_id`, keeping the current master step
    /// and running flag, after an undo snapshot; `PatternNotFound` when no
    /// pattern has that id.
    pub fn load_pattern(&mut self, pattern_id: usize) -> (r: Result<(), SequencerError>)
        requires
            old(self).wf(),
        ensures
            final(self).wf(),
            load_pattern_post(*old(self), *final(self), pattern_id, r),
    {
        let found = self.patterns.get(&pattern_id);
        match found {
            Some(p) => {
                let pattern_state = p.copy();
                let mut d = String::from_str("Load pattern ");
                push_decimal(&mut d, pattern_id as u64);
                assert(d@ =~= load_description(pattern_id));
                self.push_undo_snapshot(d);
                let current_step = self.state.sequencer_a_current_master_step;
                let is_running = self.state.is_running;
                self.state = pattern_state;
                self.state.sequencer_a_current_master_step = current_step;
                self.state.is_running = is_running;
                Ok(())
            },
            None => Err(SequencerError::PatternNotFound(pattern_id)),
        }
    }

    /// Takes a state read from outside in place of the current one, keeping
    /// the transport (master step, running flag, tick counters);
    /// `InvalidPattern` when it lacks the 32 x 8 shape.
    pub fn load_pattern_state(&mut self, loaded: SequencerState) -> (r: Result<(), SequencerError>)
        requires
            old(self).wf(),
        ensures
            final(self).wf(),
            r is Ok <==> loaded.wf(),
            r is Err ==> r == Err::<(), SequencerError>(SequencerError::InvalidPattern) && *final(self) == *old(self),
            r is Ok ==> final(self).st() == loaded_keeping_transport(loaded, old(self).st()),
            final(self).same_history(*old(self)),
    {
        if !loaded.is_well_formed() {
            return Err(SequencerError::InvalidPattern);
        }
        let current_step = self.state.sequencer_a_current_master_step;
        let is_running = self.state.is_running;
        let tick_count = self.state.tick_count_since_midi_clock_start;
        let tick_in_step = self.state.tick_in_step;
        self.state = loaded;
        self.state.sequencer_a_current_master_step = current_step;
        self.state.is_running = is_running;
        self.state.tick_count_since_midi_clock_start = tick_count;
        self.state.tick_in_step = tick_in_step;
        Ok(())
    }

    /// The state as the current pattern is saved: stopped, at step 0, with
    /// the tick counters cleared.
    pub fn state_for_saving(&self) -> (s: SequencerState)
        ensures
            s.same_as(SequencerState {
                is_running: false,
                sequencer_a_current_master_step: 0,
                tick_count_since_midi_clock_start: 0,
                tick_in_step: 0,
                ..self.st()
            }),
    {
        let mut s = self.state.copy();
        s.is_running = false;
        s.sequencer_a_current_master_step = 0;
        s.tick_count_since_midi_clock_start = 0;
        s.tick_in_step = 0;
        s
    }

    /// Replaces the settings of sequence row `row` (rows 0 to 6; others ignored).
    pub fn set_row_states(&mut self, row: usize, states: SequencerARowStates)
        requires
            old(self).wf(),
        ensures
            final(self).wf(),
            set_row_states_post(*old(self), *final(self), row, states),
    {
        if row < 7 {
            self.state.sequencer_a_row_states.set(row, states);
        }
    }

    /// The settings of sequence row `row` (rows 0 to 6).
    pub fn get_row_states(&self, row: usize) -> (r: Option<SequencerARowStates>)
        requires
            self.wf(),
        ensures
            row < 7 ==> r == Some(self.st().sequencer_a_row_states@[row as int]),
            row >= 7 ==> r is None,
    {
        if row < 7 {
            Some(self.state.sequencer_a_row_states[row])
        } else {
            None
        }
    }

    /// Sets the global transpose, kept within -24..=24 semitones.
    pub fn set_global_transpose(&mut self, semitones: i8)
        requires
            old(self).wf(),
        ensures
            final(self).wf(),
            set_transpose_post(*old(self), *final(self), semitones),
    {
        self.state.global_transpose = if semitones < -24 { -24 } else if semitones > 24 { 24 } else { semitones };
    }

    /// The global transpose.
    pub fn get_global_transpose(&self) -> (t: i8)
        ensures
            t == self.st().global_transpose,
    {
        self.state.global_transpose
    }

    /// A note moved by the global transpose and kept within 0..=127.
    pub fn get_effective_note(&self, base_note: u8, _row: usize) -> (n: u8)
        ensures
            n == effective_note(base_note, self.st().global_transpose),
    {
        let note: i16 = base_note as i16 + self.state.global_transpose as i16;
        if note < 0 {
            0
        } else if note > 127 {
            127
        } else {
            note as u8
        }
    }
}

/// A vector of `n` zeros.
fn zeros(n: usize) -> (v: Vec<u8>)
    ensures
        v@ == Seq::new(n as nat, |i: int| 0u8),
{
    let mut v: Vec<u8> = Vec::new();
    let mut i: usize = 0;
    while i < n
        invariant
            i <= n,
            v@ == Seq::new(i as nat, |j: int| 0u8),
        decreases n - i,
    {
        v.push(0);
        i = i + 1;
        assert(v@ =~= Seq::new(i as nat, |j: int| 0u8));
    }
    v
}

/// Two 32 x 8 matrices with equal cells are equal.
proof fn lemma_grid_ext(a: Seq<Seq<u8>>, b: Seq<Seq<u8>>)
    requires
        grid_shape_ok(a),
        grid_shape_ok(b),
        forall|x: int, y: int| 0 <= x < COLS && 0 <= y < ROWS ==> #[trigger] a[x][y] == b[x][y],
    ensures
        a == b,
{
    assert forall|x: int| 0 <= x < COLS implies #[trigger] a[x] == b[x] by {
        assert(a[x] =~= b[x]);
    }
    assert(a =~= b);
}

/// Replacing a row keeps the 32 x 8 shape.
proof fn lemma_row_replaced_shape(g: Seq<Seq<u8>>, row: int, f: spec_fn(int) -> u8)
    requires
        grid_shape_ok(g),
        0 <= row < ROWS,
    ensures
        grid_shape_ok(row_replaced(g, row, f)),
        forall|x: int, y: int| 0 <= x < COLS && 0 <= y < ROWS ==> #[trigger] row_replaced(g, row, f)[x][y]
            == if y == row { f(x) } else { g[x][y] },
{
}

/// Clears row `row` of every column.
fn clear_row(g: &mut Vec<Vec<u8>>, row: usize)
    requires
        grid_shape_ok(cells(*old(g))),
        row < ROWS,
    ensures
        grid_shape_ok(cells(*final(g))),
        cells(*final(g)) == row_replaced(cells(*old(g)), row as int, |x: int| 0u8),
{
    let ghost base = cells(*old(g));
    let mut c: usize = 0;
    while c < COLS
        invariant
            row < ROWS,
            c <= COLS,
            grid_shape_ok(base),
            grid_shape_ok(cells(*g)),
            forall|x: int, y: int| 0 <= x < COLS && 0 <= y < ROWS ==> #[trigger] cells(*g)[x][y]
                == if y == row && x < c { 0u8 } else { base[x][y] },
        decreases COLS - c,
    {
        set_cell(g, c, row, 0);
        c = c + 1;
    }
    proof {
        lemma_row_replaced_shape(base, row as int, |x: int| 0u8);
        lemma_grid_ext(cells(*g), row_replaced(base, row as int, |x: int| 0u8));
    }
}

/// Writes a preset into row `row`, clearing the cells beyond it.
fn write_preset_row(g: &mut Vec<Vec<u8>>, row: usize, pattern: &Vec<u8>)
    requires
        grid_shape_ok(cells(*old(g))),
        row < ROWS,
        pattern@.len() <= COLS,
    ensures
        grid_shape_ok(cells(*final(g))),
        cells(*final(g)) == row_replaced(cells(*old(g)), row as int, |x: int| preset_cell(pattern@, x)),
{
    let ghost base = cells(*old(g));
    clear_row(g, row);
    proof {
        lemma_row_replaced_shape(base, row as int, |x: int| 0u8);
    }
    let mut i: usize = 0;
    while i < pattern.len()
        invariant
            pattern@.len() <= COLS,
            row < ROWS,
            i <= pattern@.len(),
            grid_shape_ok(cells(*g)),
            grid_shape_ok(base),
            forall|x: int, y: int| 0 <= x < COLS && 0 <= y < ROWS ==> #[trigger] cells(*g)[x][y]
                == if y == row { if x < i { pattern@[x] } else { 0u8 } } else { base[x][y] },
        decreases pattern@.len() - i,
    {
        set_cell(g, i, row, pattern[i]);
        i = i + 1;
    }
    proof {
        let f = |x: int| preset_cell(pattern@, x);
        lemma_row_replaced_shape(base, row as int, f);
        lemma_grid_ext(cells(*g), row_replaced(base, row as int, f));
    }
}

/// Draws the rotated Euclidean rhythm into row `row` (see `euclid_cell`).
fn draw_euclidean_row(g: &mut Vec<Vec<u8>>, row: usize, e: usize, length: usize, rotation: usize)
    requires
        grid_shape_ok(cells(*old(g))),
        row < ROWS,
        0 < length <= 32,
        e <= length,
        e > 0 ==> rotation + length - 1 <= usize::MAX,
    ensures
        grid_shape_ok(cells(*final(g))),
        cells(*final(g)) == row_replaced(cells(*old(g)), row as int, |x: int| euclid_cell(e as nat, length as nat, rotation as nat, x)),
{
    clear_row(g, row);
    let ghost base = cells(*old(g));
    proof {
        lemma_row_replaced_shape(base, row as int, |x: int| 0u8);
    }
    let ghost len = length as int;
    let ghost rot = rotation as int;
    let mut bucket: usize = 0;
    let mut i: usize = 0;
    assert(0 * e == 0) by (nonlinear_arith);
    while i < length
        invariant
            grid_shape_ok(cells(*g)),
            row < ROWS,
            0 < length <= 32,
            e <= length,
            e > 0 ==> rotation + length - 1 <= usize::MAX,
            len == length,
            rot == rotation,
            i <= length,
            bucket == (i * e) % len,
            grid_shape_ok(base),
            forall|x: int, y: int| 0 <= x < COLS && 0 <= y < ROWS ==> #[trigger] cells(*g)[x][y]
                == if y == row { if 0 <= x < len && (x - rot) % len < i && euclid_hit(e as nat, length as nat, (x - rot) % len) { 1u8 } else { 0u8 } } else { base[x][y] },
        decreases length - i,
    {
        let ghost before = cells(*g);
        proof {
            lemma_bucket_step(i as int, e as nat, length as nat);
            vstd::arithmetic::div_mod::lemma_fundamental_div_mod(i * e, len);
        }
        let hit = bucket + e >= length;
        bucket = bucket + e;
        if bucket >= length {
            bucket = bucket - length;
        }
        if hit {
            assert(e > 0) by {
                if e == 0 {
                    assert(i * e == 0) by (nonlinear_arith) requires e == 0;
                }
            }
            let pos = (i + rotation) % length;
            proof {
                lemma_rotate_back(i as int, rot, len);
            }
            if pos < COLS {
                set_cell(g, pos, row, 1);
            }
            proof {
                assert forall|x: int, y: int| 0 <= x < COLS && 0 <= y < ROWS implies #[trigger] cells(*g)[x][y]
                    == if y == row { if 0 <= x < len && (x - rot) % len < i + 1 && euclid_hit(e as nat, length as nat, (x - rot) % len) { 1u8 } else { 0u8 } } else { base[x][y] } by {
                    if y == row && 0 <= x < len && x != pos && (x - rot) % len == i {
                        lemma_rotation_unique(x, rot, len, i as int);
                    }
                }
            }
        } else {
            proof {
                assert forall|x: int, y: int| 0 <= x < COLS && 0 <= y < ROWS implies #[trigger] cells(*g)[x][y]
                    == if y == row { if 0 <= x < len && (x - rot) % len < i + 1 && euclid_hit(e as nat, length as nat, (x - rot) % len) { 1u8 } else { 0u8 } } else { base[x][y] } by {
                    assert(before[x][y] == cells(*g)[x][y]);
                }
            }
        }
        i = i + 1;
    }
    proof {
        assert forall|x: int| 0 <= x < len implies #[trigger] ((x - rot) % len) < len by {
            vstd::arithmetic::div_mod::lemma_fundamental_div_mod(x - rot, len);
        }
        let f = |x: int| euclid_cell(e as nat, length as nat, rotation as nat, x);
        lemma_row_replaced_shape(base, row as int, f);
        lemma_grid_ext(cells(*g), row_replaced(base, row as int, f));
    }
}

/// Copies a section of a matrix cell by cell (see `copy_block`).
fn copy_block_cells(g: &mut Vec<Vec<u8>>, src_x: usize, src_y: usize, width: usize, height: usize, dest_x: usize, dest_y: usize)
    requires
        grid_shape_ok(cells(*old(g))),
        width > 0 && height > 0 ==> src_x + width - 1 <= usize::MAX && dest_x + width - 1 <= usize::MAX
            && src_y + height - 1 <= usize::MAX && dest_y + height - 1 <= usize::MAX,
    ensures
        grid_shape_ok(cells(*final(g))),
        cells(*final(g)) == copy_block(cells(*old(g)), src_x as int, src_y as int, dest_x as int, dest_y as int, height as int, width as int),
{
    let mut x: usize = 0;
    while x < width
        invariant
            x <= width,
            grid_shape_ok(cells(*g)),
            width > 0 && height > 0 ==> src_x + width - 1 <= usize::MAX && dest_x + width - 1 <= usize::MAX
                && src_y + height - 1 <= usize::MAX && dest_y + height - 1 <= usize::MAX,
            cells(*g) == copy_block(cells(*old(g)), src_x as int, src_y as int, dest_x as int, dest_y as int, height as int, x as int),
        decreases width - x,
    {
        let ghost col_start = cells(*g);
        let mut y: usize = 0;
        while y < height
            invariant
                x < width,
                y <= height,
                grid_shape_ok(cells(*g)),
                width > 0 && height > 0 ==> src_x + width - 1 <= usize::MAX && dest_x + width - 1 <= usize::MAX
                    && src_y + height - 1 <= usize::MAX && dest_y + height - 1 <= usize::MAX,
                cells(*g) == copy_column_cells(col_start, src_x as int, src_y as int, dest_x as int, dest_y as int, x as int, y as int),
            decreases height - y,
        {
            let src_col = src_x + x;
            let src_row = src_y + y;
            let dest_col = dest_x + x;
            let dest_row = dest_y + y;
            if src_col < COLS && src_row < ROWS && dest_col < COLS && dest_row < ROWS {
                let v = cell(g, src_col, src_row);
                set_cell(g, dest_col, dest_row, v);
            }
            y = y + 1;
        }
        x = x + 1;
    }
}

/// The effect of `start`.
pub open spec fn start_post(s0: Sequencer, s1: Sequencer) -> bool {
    &&& !s0.st().is_running ==> started(s0.st(), s1.st())
    &&& s0.st().is_running ==> s1.st() == s0.st()
    &&& s1.same_history(s0)
}

/// The effect of `stop`, which returns `save_now`.
pub open spec fn stop_post(s0: Sequencer, s1: Sequencer, save_now: bool) -> bool {
    &&& s0.st().is_running ==> stopped(s0.st(), s1.st())
    &&& !s0.st().is_running ==> s1.st() == s0.st()
    &&& save_now == (s0.st().is_running && !s0.in_test_mode())
    &&& s1.same_history(s0)
}

/// The effect of `set_row_states`.
pub open spec fn set_row_states_post(s0: Sequencer, s1: Sequencer, row: usize, states: SequencerARowStates) -> bool {
    &&& row < 7 ==> s1.st().sequencer_a_row_states@ == s0.st().sequencer_a_row_states@.update(row as int, states)
        && (s1.st() == SequencerState { sequencer_a_row_states: s1.st().sequencer_a_row_states, ..s0.st() })
    &&& row >= 7 ==> s1.st() == s0.st()
    &&& s1.same_history(s0)
}

/// The effect of `set_global_transpose`.
pub open spec fn set_transpose_post(s0: Sequencer, s1: Sequencer, semitones: i8) -> bool {
    &&& (s1.st() == SequencerState { global_transpose: clamp_transpose(semitones), ..s0.st() })
    &&& s1.same_history(s0)
}

/// The effect of `apply_preset_pattern`: rows above 6 are ignored; else
/// the row holds the preset (cleared beyond it) and the preset's length is
/// the row's cycle, after an undo snapshot.
pub open spec fn apply_preset_post(s0: Sequencer, s1: Sequencer, row: usize, column: usize) -> bool {
    if row > 6 {
        s1 == s0
    } else {
        let p = preset_pattern(column);
        let rs = s0.st().sequencer_a_row_states@[row as int];
        &&& pushed_snapshot(s0.undo_history(), s1.undo_history(), s0.st(), preset_description(column, row))
        &&& s1.redo_history().len() == 0
        &&& cells(s1.st().sequencer_a_grid) == row_replaced(
            cells(s0.st().sequencer_a_grid), row as int, |x: int| preset_cell(p, x))
        &&& s1.st().sequencer_a_row_states@ == s0.st().sequencer_a_row_states@.update(
            row as int, SequencerARowStates { max_step: (p.len() - 1) as usize, ..rs })
        &&& (s1.st() == SequencerState {
            sequencer_a_grid: s1.st().sequencer_a_grid,
            sequencer_a_row_states: s1.st().sequencer_a_row_states,
            ..s0.st()
        })
        &&& s1.stored_patterns() == s0.stored_patterns()
        &&& s1.pending_offs() == s0.pending_offs()
        &&& s1.in_test_mode() == s0.in_test_mode()
    }
}

/// The row states with their play positions cleared.
fn rows_without_position_vec(rows: &Vec<SequencerARowStates>) -> (r: Vec<SequencerARowStates>)
    ensures
        r@ == rows_without_positions(rows@),
{
    let mut r: Vec<SequencerARowStates> = Vec::new();
    let mut i: usize = 0;
    while i < rows.len()
        invariant
            i <= rows.len(),
            r@ =~= rows_without_positions(rows@.subrange(0, i as int)),
        decreases rows.len() - i,
    {
        let mut row = rows[i];
        row.current_row_step = 0;
        row.previous_row_step = 0;
        r.push(row);
        i = i + 1;
        assert(r@ =~= rows_without_positions(rows@.subrange(0, i as int)));
    }
    assert(rows@.subrange(0, rows@.len() as int) =~= rows@);
    r
}

/// `snapshot_rows` with the play positions of `current` put back, index by index.
fn rows_with_positions_vec(snapshot_rows: &Vec<SequencerARowStates>, current: &Vec<SequencerARowStates>) -> (r: Vec<SequencerARowStates>)
    ensures
        r@ == rows_with_positions_of(snapshot_rows@, current@),
{
    let mut r: Vec<SequencerARowStates> = Vec::new();
    let mut i: usize = 0;
    while i < snapshot_rows.len()
        invariant
            i <= snapshot_rows.len(),
            r@.len() == i,
            forall|j: int| 0 <= j < i ==> #[trigger] r@[j] == rows_with_positions_of(snapshot_rows@, current@)[j],
        decreases snapshot_rows.len() - i,
    {
        let mut row = snapshot_rows[i];
        if i < current.len() {
            row.current_row_step = current[i].current_row_step;
            row.previous_row_step = current[i].previous_row_step;
        }
        r.push(row);
        i = i + 1;
    }
    assert(r@ =~= rows_with_positions_of(snapshot_rows@, current@));
    r
}

} // verus!
