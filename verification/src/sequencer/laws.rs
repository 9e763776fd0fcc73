//! Properties of the sequencer that span operations: reading back a grid
//! edit, undo and redo, saving and loading patterns, the Euclidean
//! generator, row playback cycles and ratchet timing.

use vstd::prelude::*;
use vstd::arithmetic::div_mod::{lemma_fundamental_div_mod, lemma_fundamental_div_mod_converse};
use crate::grid_model::{COLS, ROWS, cells};
use crate::sequencer::types::{
    SequencerARowStates, SequencerState, MAX_UNDO_HISTORY, rows_without_positions,
    rows_with_positions_of, SequencerEvent, MidiEvent, NoteEvent,
};
use crate::sequencer::engine::{
    Sequencer, SequencerError, set_grid_value_post, undo_post, redo_post, euclid_post,
    pushed_snapshot, keep_last, grid_edit_description, advanced_row, ratchet_events, ratchet_on,
    ratchet_off, save_pattern_post, load_pattern_post, resets_post, tick_post, reset_on_events,
    reset_off_events, reset_off_events_for, apply_preset_post, advance_step_post, advanced_master,
    step_events_spec,
};
use crate::sequencer::euclid::{
    count_in, cell_fn, euclid_cell, lemma_rotated_total, lemma_count_ext, lemma_count_split,
};

verus! {

/// Clearing the play positions and putting the same positions back gives
/// the rows unchanged.
proof fn lemma_positions_round_trip(r: Seq<SequencerARowStates>)
    ensures
        rows_with_positions_of(rows_without_positions(r), r) == r,
{
    assert(rows_with_positions_of(rows_without_positions(r), r) =~= r);
}

/// Rows restored from a snapshot carry the play positions of the rows they
/// were restored over.
proof fn lemma_restored_positions(snap: Seq<SequencerARowStates>, cur: Seq<SequencerARowStates>, other: Seq<SequencerARowStates>)
    requires
        snap.len() == cur.len(),
        other.len() == cur.len(),
    ensures
        rows_with_positions_of(
            rows_without_positions(other),
            rows_with_positions_of(snap, cur),
        ) == rows_with_positions_of(rows_without_positions(other), cur),
{
    assert(rows_with_positions_of(rows_without_positions(other), rows_with_positions_of(snap, cur))
        =~= rows_with_positions_of(rows_without_positions(other), cur));
}

/// A cell set with `set_grid_value` reads back (as `get_grid_value` reads
/// it) with the value written, and every other cell keeps its value.
pub proof fn law_grid_read_back(s0: Sequencer, s1: Sequencer, x: usize, y: usize, value: u8, qx: usize, qy: usize)
    requires
        s0.wf(),
        set_grid_value_post(s0, s1, x, y, value),
        x < COLS,
        y < ROWS,
        qx < COLS,
        qy < ROWS,
    ensures
        cells(s1.st().sequencer_a_grid)[qx as int][qy as int] == if qx == x && qy == y {
            value
        } else {
            cells(s0.st().sequencer_a_grid)[qx as int][qy as int]
        },
{
    s0.lemma_wf_state();
}

/// Loading a pattern right after saving it under the same id gives back
/// the state it was saved from: the matrices, the row settings and every
/// other field, the master step and running flag included.
pub proof fn law_pattern_save_load(
    s0: Sequencer,
    s1: Sequencer,
    s2: Sequencer,
    id: usize,
    r: Result<(), SequencerError>,
)
    requires
        s0.wf(),
        save_pattern_post(s0, s1, id),
        load_pattern_post(s1, s2, id, r),
    ensures
        r is Ok,
        s2.st().same_as(s0.st()),
{
    assert(s1.stored_patterns().dom().contains(id));
}

/// Undo after a grid edit gives back the state before the edit (both
/// matrices, the held cells, the row settings and every other field), and
/// reports the edit's label.
pub proof fn law_undo_reverts_grid_edit(
    s0: Sequencer,
    s1: Sequencer,
    s2: Sequencer,
    x: usize,
    y: usize,
    value: u8,
    r: Result<String, SequencerError>,
)
    requires
        s0.wf(),
        x < COLS,
        y < ROWS,
        set_grid_value_post(s0, s1, x, y, value),
        undo_post(s1, s2, r),
    ensures
        r is Ok,
        r->Ok_0@ == grid_edit_description(x, y, value),
        s2.st().same_as(s0.st()),
{
    s0.lemma_wf_state();
    let snap = s1.undo_history().last();
    assert(s1.undo_history().len() >= 2);
    lemma_positions_round_trip(s0.st().sequencer_a_row_states@);
}

/// Undo after a grid edit gives back the matrices and the row settings
/// from before the edit even when other operations came in between, as long
/// as none of them took an undo snapshot; the rows keep the play positions
/// they had just before the undo, and every other field stays as it was
/// then.
pub proof fn law_undo_after_untracked_operations(
    s0: Sequencer,
    s1: Sequencer,
    s2: Sequencer,
    s3: Sequencer,
    x: usize,
    y: usize,
    value: u8,
    r: Result<String, SequencerError>,
)
    requires
        s0.wf(),
        x < COLS,
        y < ROWS,
        set_grid_value_post(s0, s1, x, y, value),
        s2.undo_history() == s1.undo_history(),
        undo_post(s2, s3, r),
    ensures
        r is Ok,
        r->Ok_0@ == grid_edit_description(x, y, value),
        cells(s3.st().sequencer_a_grid) == cells(s0.st().sequencer_a_grid),
        cells(s3.st().sequencer_a_mozart) == cells(s0.st().sequencer_a_mozart),
        s3.st().sequencer_a_row_states@ == rows_with_positions_of(
            rows_without_positions(s0.st().sequencer_a_row_states@),
            s2.st().sequencer_a_row_states@,
        ),
        s3.st() == (SequencerState {
            sequencer_a_grid: s3.st().sequencer_a_grid,
            sequencer_a_mozart: s3.st().sequencer_a_mozart,
            sequencer_a_row_states: s3.st().sequencer_a_row_states,
            ..s2.st()
        }),
{
    s0.lemma_wf_state();
    assert(s1.undo_history().len() >= 2);
}

/// Redo after an undo gives back the matrices and the row settings the
/// undo started from even when other operations came in between, as long
/// as none of them touched the redo history; the rows keep the play
/// positions they had just before the redo.
pub proof fn law_redo_after_untracked_operations(
    s1: Sequencer,
    s2: Sequencer,
    s3: Sequencer,
    s4: Sequencer,
    r1: Result<String, SequencerError>,
    r2: Result<String, SequencerError>,
)
    requires
        s1.wf(),
        r1 is Ok,
        undo_post(s1, s2, r1),
        s3.redo_history() == s2.redo_history(),
        redo_post(s3, s4, r2),
    ensures
        r2 is Ok,
        r2->Ok_0@ == "Current state before undo"@,
        cells(s4.st().sequencer_a_grid) == cells(s1.st().sequencer_a_grid),
        cells(s4.st().sequencer_a_mozart) == cells(s1.st().sequencer_a_mozart),
        s4.st().sequencer_a_row_states@ == rows_with_positions_of(
            rows_without_positions(s1.st().sequencer_a_row_states@),
            s3.st().sequencer_a_row_states@,
        ),
{
    s1.lemma_wf_state();
    assert(s1.undo_history().len() > 1);
}

/// A grid edit made after an undo leaves nothing to redo: redo then
/// reports `NothingToRedo` and changes nothing.
pub proof fn law_edit_clears_redo(
    s1: Sequencer,
    s2: Sequencer,
    s3: Sequencer,
    x: usize,
    y: usize,
    value: u8,
    r: Result<String, SequencerError>,
)
    requires
        x < COLS,
        y < ROWS,
        set_grid_value_post(s1, s2, x, y, value),
        redo_post(s2, s3, r),
    ensures
        r == Err::<String, SequencerError>(SequencerError::NothingToRedo),
        s3 == s2,
{
}

/// A Euclidean rhythm generated after an undo leaves nothing to redo
/// either.
pub proof fn law_euclid_clears_redo(
    s1: Sequencer,
    s2: Sequencer,
    s3: Sequencer,
    row: usize,
    events: usize,
    length: usize,
    rotation: usize,
    r: Result<String, SequencerError>,
)
    requires
        row <= 6,
        length <= 32,
        euclid_post(s1, s2, row, events, length, rotation),
        redo_post(s2, s3, r),
    ensures
        r == Err::<String, SequencerError>(SequencerError::NothingToRedo),
        s3 == s2,
{
}

/// The reset note-on of note `n`: velocity 100 on channel 1.
pub open spec fn reset_note_on_message(n: u8) -> SequencerEvent {
    SequencerEvent::MidiEvent(MidiEvent { note: n, velocity: 100, channel: 1, note_on: true, step: 0, sequencer_source: 'A' })
}

/// At tick 0 of a step the reset notes that go on are: 55 always, 56 when
/// the division counter is a multiple of 16, 57 of 32, 58 of 64, and 59
/// when it is 0; nothing else goes out.
pub proof fn law_reset_notes_by_division(s0: Sequencer, s1: Sequencer, on: Seq<SequencerEvent>)
    requires
        s0.st().tick_in_step == 0,
        resets_post(s0, s1, on),
    ensures
        on.contains(reset_note_on_message(55)),
        on.contains(reset_note_on_message(56)) <==> s0.st().global_reset_step_counter % 16 == 0,
        on.contains(reset_note_on_message(57)) <==> s0.st().global_reset_step_counter % 32 == 0,
        on.contains(reset_note_on_message(58)) <==> s0.st().global_reset_step_counter % 64 == 0,
        on.contains(reset_note_on_message(59)) <==> s0.st().global_reset_step_counter == 0,
        forall|i: int| 0 <= i < on.len() ==> exists|n: u8| 55 <= n <= 59 && #[trigger] on[i] == reset_note_on_message(n),
{
    let c = s0.st().global_reset_step_counter;
    let e55 = reset_note_on_message(55);
    let e56 = reset_note_on_message(56);
    let e57 = reset_note_on_message(57);
    let e58 = reset_note_on_message(58);
    let e59 = reset_note_on_message(59);
    if c % 16 != 0 {
        assert(on =~= seq![e55]);
    } else if c % 32 != 0 {
        assert(on =~= seq![e55, e56]);
    } else if c % 64 != 0 {
        assert(on =~= seq![e55, e56, e57]);
    } else if c != 0 {
        assert(on =~= seq![e55, e56, e57, e58]);
    } else {
        assert(on =~= seq![e55, e56, e57, e58, e59]);
    }
    assert(on[0] == e55);
    assert forall|i: int| 0 <= i < on.len() implies exists|n: u8| 55 <= n <= 59 && #[trigger] on[i] == reset_note_on_message(n) by {
        if i == 0 { assert(on[i] == reset_note_on_message(55)); }
        if i == 1 { assert(on[i] == reset_note_on_message(56)); }
        if i == 2 { assert(on[i] == reset_note_on_message(57)); }
        if i == 3 { assert(on[i] == reset_note_on_message(58)); }
        if i == 4 { assert(on[i] == reset_note_on_message(59)); }
    }
}

/// One step moves the master position on by one inside its cycle
/// `first_step..=last_step`, and from `last_step` back to `first_step`.
pub proof fn law_master_step_advances(s0: Sequencer, s1: Sequencer, events: Seq<SequencerEvent>)
    requires
        s0.st().first_step <= s0.st().sequencer_a_current_master_step <= s0.st().last_step,
        advance_step_post(s0, s1, events),
    ensures
        s0.st().sequencer_a_current_master_step < s0.st().last_step ==> s1.st().sequencer_a_current_master_step
            == s0.st().sequencer_a_current_master_step + 1,
        s0.st().sequencer_a_current_master_step == s0.st().last_step ==> s1.st().sequencer_a_current_master_step
            == s0.st().first_step,
        s1.st().first_step == s0.st().first_step,
        s1.st().last_step == s0.st().last_step,
        events.last() == (SequencerEvent::Step { step: s0.st().sequencer_a_current_master_step }),
{
}

/// The state after `n` master steps (only the master position moves).
pub open spec fn master_after(st: SequencerState, n: nat) -> SequencerState
    decreases n,
{
    if n == 0 {
        st
    } else {
        let prev = master_after(st, (n - 1) as nat);
        SequencerState { sequencer_a_current_master_step: advanced_master(prev), ..prev }
    }
}

/// The master position plays its cycle `first_step..=last_step` round and
/// round: `n` steps after a position inside the cycle it is `n` further,
/// modulo the cycle's length.
pub proof fn law_master_position_cycles(st: SequencerState, n: nat)
    requires
        st.first_step <= st.sequencer_a_current_master_step <= st.last_step,
    ensures
        master_after(st, n).sequencer_a_current_master_step == st.first_step
            + ((st.sequencer_a_current_master_step - st.first_step) + n) % ((st.last_step - st.first_step + 1) as int),
        master_after(st, n).first_step == st.first_step,
        master_after(st, n).last_step == st.last_step,
    decreases n,
{
    let len = (st.last_step - st.first_step + 1) as int;
    let d = (st.sequencer_a_current_master_step - st.first_step) as int;
    if n == 0 {
        lemma_fundamental_div_mod_converse(d, len, 0, d);
    } else {
        law_master_position_cycles(st, (n - 1) as nat);
        let a = d + n - 1;
        lemma_fundamental_div_mod(a, len);
        let q = a / len;
        let m = a % len;
        if m == len - 1 {
            assert(a + 1 == (q + 1) * len + 0) by (nonlinear_arith)
                requires
                    a == len * q + m,
                    m == len - 1,
            ;
            lemma_fundamental_div_mod_converse(a + 1, len, q + 1, 0);
        } else {
            assert(a + 1 == q * len + (m + 1)) by (nonlinear_arith)
                requires
                    a == len * q + m,
            ;
            lemma_fundamental_div_mod_converse(a + 1, len, q, m + 1);
        }
    }
}

/// The events of a step that plays: at least one note-on/note-off pair,
/// every note-on carrying the row's note, channel and velocity, every
/// note-off the row's note and channel with velocity 0.
pub proof fn law_step_events_carry_row_note(st: SequencerState, row: usize, step: usize)
    requires
        step_events_spec(st, row, step) is Some,
    ensures
        ({
            let evs = step_events_spec(st, row, step)->Some_0;
            let rs = st.sequencer_a_row_states@[row as int];
            &&& evs.len() >= 2
            &&& evs[0].note_on
            &&& forall|i: int| 0 <= i < evs.len() ==> {
                &&& (#[trigger] evs[i]).note == rs.midi_note
                &&& evs[i].channel == rs.midi_channel
                &&& (evs[i].note_on ==> evs[i].velocity == rs.midi_velocity)
                &&& (!evs[i].note_on ==> evs[i].velocity == 0)
            }
        }),
{
    let v = cells(st.sequencer_a_grid)[step as int][row as int];
    let rs = st.sequencer_a_row_states@[row as int];
    let count = crate::sequencer::engine::ratchet_count(v);
    lemma_ratchet_notes(rs, st.ticks_per_step, count, count);
}

/// The first `n` ratchets' events carry the row's note, channel and
/// velocity on, velocity 0 off.
proof fn lemma_ratchet_notes(rs: SequencerARowStates, tps: u32, count: nat, n: nat)
    ensures
        ratchet_events(rs, tps, count, n).len() == 2 * n,
        n > 0 ==> ratchet_events(rs, tps, count, n)[0].note_on,
        forall|i: int| 0 <= i < 2 * n ==> {
            let e = #[trigger] ratchet_events(rs, tps, count, n)[i];
            &&& e.note == rs.midi_note
            &&& e.channel == rs.midi_channel
            &&& (e.note_on ==> e.velocity == rs.midi_velocity)
            &&& (!e.note_on ==> e.velocity == 0)
        },
    decreases n,
{
    if n > 0 {
        lemma_ratchet_notes(rs, tps, count, (n - 1) as nat);
        let prev = ratchet_events(rs, tps, count, (n - 1) as nat);
        let cur = ratchet_events(rs, tps, count, n);
        assert forall|i: int| 0 <= i < 2 * n implies {
            let e = #[trigger] cur[i];
            &&& e.note == rs.midi_note
            &&& e.channel == rs.midi_channel
            &&& (e.note_on ==> e.velocity == rs.midi_velocity)
            &&& (!e.note_on ==> e.velocity == 0)
        } by {
            if i < 2 * (n - 1) {
                assert(cur[i] == prev[i]);
            }
        }
        if n > 1 {
            assert(cur[0] == prev[0]);
        }
    }
}

/// The clock-division resets of a step: at its tick 0 the note-ons of the
/// division counter go out (55 always, then 56, 57, 58 and 59 as the
/// counter is a multiple of 16, 32, 64 and is 0, each inside the one
/// before), the next tick brings the step to tick 1, and there the
/// note-offs of exactly the resets that are on go out, in the same order,
/// and every reset flag is cleared. When no reset was on before the step,
/// the note-offs answer the note-ons one for one.
pub proof fn law_reset_notes_on_then_off(
    s0: Sequencer,
    s1: Sequencer,
    s2: Sequencer,
    s3: Sequencer,
    on: Seq<crate::sequencer::types::SequencerEvent>,
    off: Seq<crate::sequencer::types::SequencerEvent>,
)
    requires
        s0.st().tick_in_step == 0,
        resets_post(s0, s1, on),
        tick_post(s1, s2),
        resets_post(s2, s3, off),
    ensures
        on == reset_on_events(s0.st().global_reset_step_counter),
        off == reset_off_events(s1.st()),
        !s3.st().reset_1_active && !s3.st().reset_16_active && !s3.st().reset_32_active
            && !s3.st().reset_64_active && !s3.st().reset_128_active,
        !s0.st().reset_1_active && !s0.st().reset_16_active && !s0.st().reset_32_active
            && !s0.st().reset_64_active && !s0.st().reset_128_active
            ==> off == reset_off_events_for(s0.st().global_reset_step_counter),
{
    let c = s0.st().global_reset_step_counter;
    assert(s2.st().tick_in_step == 1);
    if !s0.st().reset_1_active && !s0.st().reset_16_active && !s0.st().reset_32_active
        && !s0.st().reset_64_active && !s0.st().reset_128_active {
        assert(reset_off_events(s1.st()) =~= reset_off_events_for(c));
    }
}

/// An operation is undo-tracked when it takes an undo snapshot of the state
/// it started from and empties the redo history.
pub open spec fn tracked_edit(s0: Sequencer, s1: Sequencer) -> bool {
    &&& exists|d: Seq<char>| #[trigger] pushed_snapshot(s0.undo_history(), s1.undo_history(), s0.st(), d)
    &&& s1.redo_history().len() == 0
}

/// After any undo-tracked edit there is nothing to redo: redo reports
/// `NothingToRedo` and leaves everything, the grid included, as it was.
pub proof fn law_tracked_edit_clears_redo(
    s1: Sequencer,
    s2: Sequencer,
    s3: Sequencer,
    r: Result<String, SequencerError>,
)
    requires
        tracked_edit(s1, s2),
        redo_post(s2, s3, r),
    ensures
        r == Err::<String, SequencerError>(SequencerError::NothingToRedo),
        s3 == s2,
        cells(s3.st().sequencer_a_grid) == cells(s2.st().sequencer_a_grid),
{
}

/// The grid edits, Euclidean rhythms, presets and pattern loads are
/// undo-tracked (where they change anything).
pub proof fn law_edits_are_tracked(
    s0: Sequencer,
    s1: Sequencer,
    x: usize,
    y: usize,
    value: u8,
    row: usize,
    events: usize,
    length: usize,
    rotation: usize,
    column: usize,
    id: usize,
    r: Result<(), SequencerError>,
)
    ensures
        x < COLS && y < ROWS && set_grid_value_post(s0, s1, x, y, value) ==> tracked_edit(s0, s1),
        row <= 6 && length <= 32 && euclid_post(s0, s1, row, events, length, rotation) ==> tracked_edit(s0, s1),
        row <= 6 && apply_preset_post(s0, s1, row, column) ==> tracked_edit(s0, s1),
        s0.stored_patterns().contains_key(id) && load_pattern_post(s0, s1, id, r) ==> tracked_edit(s0, s1),
{
    if x < COLS && y < ROWS && set_grid_value_post(s0, s1, x, y, value) {
        assert(pushed_snapshot(s0.undo_history(), s1.undo_history(), s0.st(), grid_edit_description(x, y, value)));
    }
    if row <= 6 && length <= 32 && euclid_post(s0, s1, row, events, length, rotation) {
        let e = if events > length { length } else { events };
        assert(pushed_snapshot(s0.undo_history(), s1.undo_history(), s0.st(),
            crate::sequencer::engine::euclid_description(row, e, length)));
    }
    if row <= 6 && apply_preset_post(s0, s1, row, column) {
        assert(pushed_snapshot(s0.undo_history(), s1.undo_history(), s0.st(),
            crate::sequencer::engine::preset_description(column, row)));
    }
    if s0.stored_patterns().contains_key(id) && load_pattern_post(s0, s1, id, r) {
        assert(pushed_snapshot(s0.undo_history(), s1.undo_history(), s0.st(),
            crate::sequencer::engine::load_description(id)));
    }
}

/// Redo right after an undo gives back the state the undo started from.
pub proof fn law_redo_after_undo(
    s1: Sequencer,
    s2: Sequencer,
    s3: Sequencer,
    r1: Result<String, SequencerError>,
    r2: Result<String, SequencerError>,
)
    requires
        s1.wf(),
        r1 is Ok,
        undo_post(s1, s2, r1),
        redo_post(s2, s3, r2),
    ensures
        r2 is Ok,
        r2->Ok_0@ == "Current state before undo"@,
        s3.st().same_as(s1.st()),
{
    s1.lemma_wf_state();
    let snap = s1.undo_history().last();
    assert(s1.undo_history().len() > 1);
    assert(snap == s1.undo_history()[s1.undo_history().len() - 1]);
    lemma_restored_positions(snap.row_states@, s1.st().sequencer_a_row_states@, s1.st().sequencer_a_row_states@);
    lemma_positions_round_trip(s1.st().sequencer_a_row_states@);
}

/// The undo history never holds more than 50 snapshots after an edit.
pub proof fn law_undo_history_bounded(before: Seq<crate::sequencer::engine::StateSnapshot>, after: Seq<crate::sequencer::engine::StateSnapshot>, st: SequencerState, d: Seq<char>)
    requires
        pushed_snapshot(before, after, st, d),
    ensures
        after.len() <= MAX_UNDO_HISTORY,
        after.len() == if before.len() + 1 > MAX_UNDO_HISTORY { MAX_UNDO_HISTORY as int } else { before.len() + 1int },
{
}

/// A generated Euclidean row holds exactly as many onsets as were asked
/// for (at most its length), wherever it is rotated.
pub proof fn law_euclid_onset_count(
    s0: Sequencer,
    s1: Sequencer,
    row: usize,
    events: usize,
    length: usize,
    rotation: usize,
)
    requires
        s0.wf(),
        row <= 6,
        0 < length <= 32,
        euclid_post(s0, s1, row, events, length, rotation),
    ensures
        count_in(|x: int| cells(s1.st().sequencer_a_grid)[x][row as int] > 0, 0, COLS as int)
            == if events > length { length } else { events },
{
    s0.lemma_wf_state();
    let e = if events > length { length } else { events };
    let g = cells(s1.st().sequencer_a_grid);
    let f = |x: int| g[x][row as int] > 0;
    let c = cell_fn(e as nat, length as nat, rotation as nat);
    assert forall|x: int| 0 <= x < COLS implies #[trigger] f(x) == c(x) by {
        assert(g[x][row as int] == euclid_cell(e as nat, length as nat, rotation as nat, x));
    }
    lemma_count_ext(f, c, 0, COLS as int);
    lemma_count_split(c, 0, length as int, COLS as int);
    lemma_count_ext(c, |x: int| false, length as int, COLS as int);
    lemma_count_false(length as int, COLS as int);
    lemma_rotated_total(e as nat, length as nat, rotation as nat);
}

/// Nothing is counted for a predicate that never holds.
proof fn lemma_count_false(a: int, b: int)
    ensures
        count_in(|x: int| false, a, b) == 0,
    decreases b - a,
{
    if b > a {
        lemma_count_false(a, b - 1);
    }
}

/// A row advanced `n` steps.
pub open spec fn advanced_row_n(r: SequencerARowStates, n: nat) -> SequencerARowStates
    decreases n,
{
    if n == 0 {
        r
    } else {
        advanced_row(advanced_row_n(r, (n - 1) as nat))
    }
}

/// A row plays its cycle `first_step..=max_step` round and round: after `n`
/// steps from a position inside the cycle it is `n` steps further, modulo
/// the cycle's length.
pub proof fn law_row_position_cycles(r: SequencerARowStates, n: nat)
    requires
        r.first_step <= r.current_row_step <= r.max_step,
    ensures
        advanced_row_n(r, n).current_row_step == r.first_step + ((r.current_row_step - r.first_step) + n)
            % ((r.max_step - r.first_step + 1) as int),
        advanced_row_n(r, n).first_step == r.first_step,
        advanced_row_n(r, n).max_step == r.max_step,
    decreases n,
{
    let len = (r.max_step - r.first_step + 1) as int;
    let d = (r.current_row_step - r.first_step) as int;
    if n == 0 {
        lemma_fundamental_div_mod_converse(d, len, 0, d);
    } else {
        law_row_position_cycles(r, (n - 1) as nat);
        let a = d + n - 1;
        lemma_fundamental_div_mod(a, len);
        let q = a / len;
        let m = a % len;
        if m == len - 1 {
            assert(a + 1 == (q + 1) * len + 0) by (nonlinear_arith)
                requires
                    a == len * q + m,
                    m == len - 1,
            ;
            lemma_fundamental_div_mod_converse(a + 1, len, q + 1, 0);
        } else {
            assert(a + 1 == q * len + (m + 1)) by (nonlinear_arith)
                requires
                    a == len * q + m,
            ;
            lemma_fundamental_div_mod_converse(a + 1, len, q, m + 1);
        }
    }
}

/// After as many steps as its cycle is long, a row is back where it was.
pub proof fn law_row_returns_after_cycle(r: SequencerARowStates)
    requires
        r.first_step <= r.current_row_step <= r.max_step,
    ensures
        advanced_row_n(r, (r.max_step - r.first_step + 1) as nat).current_row_step == r.current_row_step,
{
    let len = (r.max_step - r.first_step + 1) as int;
    let d = (r.current_row_step - r.first_step) as int;
    law_row_position_cycles(r, len as nat);
    lemma_fundamental_div_mod_converse(d + len, len, 1, d);
}

/// Ratchet timing: in a step of `tps` ticks split into `count` ratchets,
/// the events alternate note-on and note-off, every note-off comes no
/// earlier than its note-on, and every event lies within the step.
#[verifier::spinoff_prover]
pub proof fn law_ratchet_timing(rs: SequencerARowStates, tps: u32, count: nat)
    requires
        1 <= count <= 4,
        tps >= count,
    ensures
        ratchet_events(rs, tps, count, count).len() == 2 * count,
        forall|k: int| 0 <= k < count ==> {
            let on = #[trigger] ratchet_events(rs, tps, count, count)[2 * k];
            let off = ratchet_events(rs, tps, count, count)[2 * k + 1];
            &&& on.note_on
            &&& !off.note_on
            &&& on.tick_offset <= off.tick_offset < tps
        },
{
    lemma_ratchet_prefix(rs, tps, count, count);
}

/// The first `n` ratchets' events, as in `law_ratchet_timing`.
#[verifier::spinoff_prover]
proof fn lemma_ratchet_prefix(rs: SequencerARowStates, tps: u32, count: nat, n: nat)
    requires
        1 <= count <= 4,
        tps >= count,
        n <= count,
    ensures
        ratchet_events(rs, tps, count, n).len() == 2 * n,
        forall|k: int| 0 <= k < n ==> {
            let on = #[trigger] ratchet_events(rs, tps, count, n)[2 * k];
            let off = ratchet_events(rs, tps, count, n)[2 * k + 1];
            &&& on.note_on
            &&& !off.note_on
            &&& on.tick_offset <= off.tick_offset < tps
        },
    decreases n,
{
    if n > 0 {
        lemma_ratchet_prefix(rs, tps, count, (n - 1) as nat);
        let k = (n - 1) as nat;
        let b = (tps as nat) / count;
        assert(count * b <= tps) by (nonlinear_arith)
            requires
                b == (tps as nat) / count,
                count > 0,
        ;
        assert(b >= 1) by (nonlinear_arith)
            requires
                b == (tps as nat) / count,
                tps >= count,
                count > 0,
        ;
        assert(k * b + b <= count * b) by (nonlinear_arith)
            requires
                k + 1 <= count,
        ;
        let on = ratchet_on(rs, tps, count, k);
        let off = ratchet_off(rs, tps, count, k);
        assert(on.tick_offset == k * b);
        assert(on.tick_offset <= off.tick_offset < tps);
        let evs = ratchet_events(rs, tps, count, n);
        let prev = ratchet_events(rs, tps, count, k);
        assert(evs == prev + seq![on, off]);
        assert forall|j: int| 0 <= j < n implies {
            let a = #[trigger] evs[2 * j];
            let z = evs[2 * j + 1];
            &&& a.note_on
            &&& !z.note_on
            &&& a.tick_offset <= z.tick_offset < tps
        } by {
            if j < k {
                assert(evs[2 * j] == prev[2 * j]);
                assert(evs[2 * j + 1] == prev[2 * j + 1]);
            }
        }
    }
}

} // verus!
