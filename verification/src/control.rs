//! The application's decisions: what a grid press, a key, a MIDI clock
//! message or a sequencer event does to the sequencer, and which LED, MIDI
//! and housekeeping commands the application is to carry out for it.
//!
//! Nothing here touches hardware: each handler returns the commands, in
//! order, as `AppCommand`s.

use vstd::prelude::*;
use vstd::string::*;
use crate::grid_model::{COLS, ROWS, cells};
use crate::sequencer::types::{SequencerARowStates, SequencerEvent, SequencerState, NoteEvent};
use crate::sequencer::engine::{
    Sequencer, set_grid_value_post, undo_post, redo_post, euclid_post, apply_preset_post,
    set_row_states_post, start_post, stop_post, set_transpose_post, step_events_spec,
    step_events_defined, advance_step_post,
};
use crate::hardware::HardwareEvent;
use crate::midi::MidiInputEvent;

verus! {

/// Empty step, no playhead (LED off).
pub const LED_OFF: u8 = 0;
/// Empty step, playhead present.
pub const LED_DIM: u8 = 6;
/// Empty step, playhead present (enhanced visibility).
pub const LED_DIM_PLUS: u8 = 8;
/// Pattern exists, no playhead.
pub const LED_BRIGHT: u8 = 10;
/// Pattern exists, playhead present.
pub const LED_MAX: u8 = 14;
/// Maximum brightness.
pub const LED_TURBO: u8 = 15;

/// ARM actions that can be triggered from row 7 (the control row) of the
/// first grid.
#[derive(Debug, Clone, Copy, PartialEq, Eq, Structural)]
pub enum ArmAction {
    Undo,
    Redo,
    EuclidianEvents,
    EuclidianLength,
    EuclidianRotation,
    Ratchet,
    SetMaxStepForRow,
    PresetGrid,
}

/// The ARM action of a control-row column: 0 undo, 1 redo, 4 Euclidean
/// events, 5 Euclidean length, 6 Euclidean rotation, 7 ratchet, 8 row
/// length, 10 preset.
pub open spec fn arm_action_at(column: usize) -> Option<ArmAction> {
    if column == 0 { Some(ArmAction::Undo) }
    else if column == 1 { Some(ArmAction::Redo) }
    else if column == 4 { Some(ArmAction::EuclidianEvents) }
    else if column == 5 { Some(ArmAction::EuclidianLength) }
    else if column == 6 { Some(ArmAction::EuclidianRotation) }
    else if column == 7 { Some(ArmAction::Ratchet) }
    else if column == 8 { Some(ArmAction::SetMaxStepForRow) }
    else if column == 10 { Some(ArmAction::PresetGrid) }
    else { None }
}

/// The control-row column of an ARM action.
pub open spec fn arm_column(a: ArmAction) -> usize {
    match a {
        ArmAction::Undo => 0,
        ArmAction::Redo => 1,
        ArmAction::EuclidianEvents => 4,
        ArmAction::EuclidianLength => 5,
        ArmAction::EuclidianRotation => 6,
        ArmAction::Ratchet => 7,
        ArmAction::SetMaxStepForRow => 8,
        ArmAction::PresetGrid => 10,
    }
}

impl ArmAction {
    /// The ARM action of a control-row column, if any.
    pub fn from_column(column: usize) -> (r: Option<ArmAction>)
        ensures
            r == arm_action_at(column),
    {
        match column {
            0 => Some(ArmAction::Undo),
            1 => Some(ArmAction::Redo),
            4 => Some(ArmAction::EuclidianEvents),
            5 => Some(ArmAction::EuclidianLength),
            6 => Some(ArmAction::EuclidianRotation),
            7 => Some(ArmAction::Ratchet),
            8 => Some(ArmAction::SetMaxStepForRow),
            10 => Some(ArmAction::PresetGrid),
            _ => None,
        }
    }

    /// The control-row column of the action.
    pub fn to_column(&self) -> (c: usize)
        ensures
            c == arm_column(*self),
    {
        match self {
            ArmAction::Undo => 0,
            ArmAction::Redo => 1,
            ArmAction::EuclidianEvents => 4,
            ArmAction::EuclidianLength => 5,
            ArmAction::EuclidianRotation => 6,
            ArmAction::Ratchet => 7,
            ArmAction::SetMaxStepForRow => 8,
            ArmAction::PresetGrid => 10,
        }
    }
}

/// Columns and ARM actions correspond one to one: an action's column maps
/// back to the action, and a column with an action is that action's column.
pub proof fn law_arm_column_round_trip(a: ArmAction, column: usize)
    ensures
        arm_action_at(arm_column(a)) == Some(a),
        arm_action_at(column) == Some(a) ==> arm_column(a) == column,
{
}

/// Which grid a press came from: the virtual grids that SysEx commands
/// address by name, and the first and second physical grids (by sorted id).
#[derive(Debug, Clone, Copy, PartialEq, Eq, Structural)]
pub struct GridIdentity {
    pub virtual_one: bool,
    pub virtual_two: bool,
    pub is_grid_one: bool,
    pub is_grid_two: bool,
}

/// The identity of a grid id, given the ids of the first and second grids.
pub fn identify_grid(grid_id: &String, grid_one: &Option<String>, grid_two: &Option<String>) -> (g: GridIdentity)
    ensures
        g.virtual_one == (grid_id@ == "grid_one"@),
        g.virtual_two == (grid_id@ == "grid_two"@),
        g.is_grid_one == (grid_one is Some && grid_id@ == grid_one->Some_0@),
        g.is_grid_two == (grid_two is Some && grid_id@ == grid_two->Some_0@),
{
    let v1 = String::from_str("grid_one");
    let v2 = String::from_str("grid_two");
    let one = match grid_one {
        Some(g) => *grid_id == *g,
        None => false,
    };
    let two = match grid_two {
        Some(g) => *grid_id == *g,
        None => false,
    };
    GridIdentity { virtual_one: *grid_id == v1, virtual_two: *grid_id == v2, is_grid_one: one, is_grid_two: two }
}

/// The grid an LED command is for.
#[derive(Debug, Clone, Copy, PartialEq, Eq, Structural)]
pub enum GridTarget {
    /// The first grid (steps 0 to 15).
    GridOne,
    /// The second grid (steps 16 to 31).
    GridTwo,
    /// The grid the handled press came from.
    Source,
}

/// What the application is to do, in order.
#[derive(Debug, Clone, Copy, PartialEq, Eq, Structural)]
pub enum AppCommand {
    /// Set LED (x, y) of a grid.
    SetLed { target: GridTarget, x: usize, y: usize, brightness: u8 },
    /// Send the LED changes to the grids.
    RefreshGrids,
    /// Forget the saved MIDI clock device and detect a clock source again.
    RedetectMidiClock,
    /// Save the current pattern (the transport just stopped).
    SaveCurrentPattern,
    /// Silence every sounding note.
    AllNotesOff,
    /// Send a note-on.
    NoteOn { note: u8, velocity: u8, channel: u8 },
    /// Send a note-off.
    NoteOff { note: u8, channel: u8 },
    /// Change the swing by `delta` hundredths.
    AdjustSwing { delta: i32 },
    /// Send the CO2 control voltages of a step.
    Co2StepOutput { step: usize },
    /// Advance the CO2 tick voltage.
    Co2TickAdvance,
    /// Reset the CO2 counters.
    ResetCo2Counters,
    /// Show a beat on the screen.
    BeatIndicator { beat: usize },
    /// Hand a sequencer event back to the event loop.
    QueueSequencerEvent(SequencerEvent),
    /// Reload the current pattern from its file.
    ReloadCurrentPattern,
    /// Feed a button event of a virtual grid into the grid input.
    InjectVirtualButton { second_grid: bool, x: usize, y: usize, pressed: bool },
    /// Answer the test-mode query over SysEx.
    SendTestModeReply { active: bool },
    /// Shut the application down.
    Shutdown,
}

/// The brightness of a step LED: 14 for a pattern step under the
/// playhead, 10 for a pattern step, 6 for the playhead on an empty step, 0
/// otherwise.
pub open spec fn step_brightness(has_pattern: bool, is_current: bool) -> u8 {
    if has_pattern {
        if is_current { LED_MAX } else { LED_BRIGHT }
    } else {
        if is_current { LED_DIM } else { LED_OFF }
    }
}

/// `step_brightness` with the playhead on an empty step at 8.
pub open spec fn display_brightness(has_pattern: bool, is_current: bool) -> u8 {
    if has_pattern {
        if is_current { LED_MAX } else { LED_BRIGHT }
    } else {
        if is_current { LED_DIM_PLUS } else { LED_OFF }
    }
}

/// The LED command of sequence step `x` on row `y`: steps 0 to 15 on the
/// first grid, 16 to 31 on the second, none beyond.
pub open spec fn routed_led(x: int, y: int, b: u8) -> Seq<AppCommand> {
    if x <= 15 {
        seq![AppCommand::SetLed { target: GridTarget::GridOne, x: x as usize, y: y as usize, brightness: b }]
    } else if x <= 31 {
        seq![AppCommand::SetLed { target: GridTarget::GridTwo, x: (x - 16) as usize, y: y as usize, brightness: b }]
    } else {
        seq![]
    }
}

/// The trigger value of a cell as `get_grid_value` reads it (0 outside).
pub open spec fn pattern_cell(st: SequencerState, x: int, y: int) -> u8 {
    if 0 <= x < COLS && 0 <= y < ROWS { cells(st.sequencer_a_grid)[x][y] } else { 0 }
}

/// The LED command of step `x` of sequence row `y`, lit by pattern and
/// playhead.
pub open spec fn step_led(st: SequencerState, x: int, y: int) -> Seq<AppCommand> {
    routed_led(x, y, step_brightness(pattern_cell(st, x, y) > 0, x == st.sequencer_a_row_states@[y].current_row_step))
}

/// The LED commands of steps `0..n` of row `y`.
pub open spec fn row_leds(st: SequencerState, y: int, n: int) -> Seq<AppCommand>
    decreases n,
{
    if n <= 0 { seq![] } else { row_leds(st, y, n - 1) + step_led(st, n - 1, y) }
}

/// The LED commands of rows `0..n`, row by row.
pub open spec fn rows_leds(st: SequencerState, n: int) -> Seq<AppCommand>
    decreases n,
{
    if n <= 0 { seq![] } else { rows_leds(st, n - 1) + row_leds(st, n - 1, COLS as int) }
}

/// The commands that redraw one sequence row on two grids.
pub open spec fn row_refresh(st: SequencerState, row: usize, connected: usize) -> Seq<AppCommand> {
    if connected >= 2 && row < 7 {
        row_leds(st, row as int, COLS as int).push(AppCommand::RefreshGrids)
    } else {
        seq![]
    }
}

/// The commands that redraw one pressed step.
pub open spec fn button_refresh(st: SequencerState, x: usize, y: usize, connected: usize) -> Seq<AppCommand> {
    if connected >= 2 && y < 7 {
        step_led(st, x as int, y as int).push(AppCommand::RefreshGrids)
    } else {
        seq![]
    }
}

/// The LED commands of the playhead leaving `old_step` and reaching
/// `new_step` on row `row`, then a refresh.
pub open spec fn grid_update_leds(st: SequencerState, row: usize, old_step: usize, new_step: usize, connected: usize) -> Seq<AppCommand> {
    (if connected >= 2 && row < 7 {
        routed_led(old_step as int, row as int, if pattern_cell(st, old_step as int, row as int) > 0 { LED_BRIGHT } else { LED_OFF })
            + routed_led(new_step as int, row as int, if pattern_cell(st, new_step as int, row as int) > 0 { LED_MAX } else { LED_DIM })
    } else {
        seq![]
    }).push(AppCommand::RefreshGrids)
}

/// The display LEDs of steps `0..n` of row `y` on one grid.
pub open spec fn display_row_leds(st: SequencerState, target: GridTarget, y: int, n: int) -> Seq<AppCommand>
    decreases n,
{
    if n <= 0 {
        seq![]
    } else {
        display_row_leds(st, target, y, n - 1) + seq![AppCommand::SetLed {
            target,
            x: (n - 1) as usize,
            y: y as usize,
            brightness: display_brightness(pattern_cell(st, n - 1, y) > 0, n - 1 == st.sequencer_a_row_states@[y].current_row_step),
        }]
    }
}

/// The display LEDs of rows `0..n` on one grid.
pub open spec fn display_rows_leds(st: SequencerState, target: GridTarget, n: int) -> Seq<AppCommand>
    decreases n,
{
    if n <= 0 { seq![] } else { display_rows_leds(st, target, n - 1) + display_row_leds(st, target, n - 1, 16) }
}

/// Row `y` (counted from 1) has a held button among columns 1 to 16.
pub open spec fn row_is_held(st: SequencerState, y: int) -> bool {
    exists|x: int| 1 <= x <= 16 && #[trigger] cells(st.held)[x - 1][y - 1] > 0
}

/// The held rows among rows `1..=n` (counted from 1), in order.
pub open spec fn held_rows(st: SequencerState, n: int) -> Seq<usize>
    decreases n,
{
    if n <= 0 {
        seq![]
    } else if row_is_held(st, n) {
        held_rows(st, n - 1).push(n as usize)
    } else {
        held_rows(st, n - 1)
    }
}

/// Some button among columns 1 to 16 and rows 1 to 8 is held.
pub open spec fn any_held(st: SequencerState) -> bool {
    exists|y: int| 1 <= y <= 8 && #[trigger] row_is_held(st, y)
}

/// Row `y` (0 to 7) has a held button in columns 0 to 31 as `is_held`
/// counts them (from 1, so column and row 0 never do).
pub open spec fn row_is_held_from_zero(st: SequencerState, y: int) -> bool {
    1 <= y <= 7 && exists|x: int| 1 <= x <= 31 && #[trigger] cells(st.held)[x - 1][y - 1] > 0
}

/// The first row among `0..n` with a held button as `get_first_held_row`
/// scans them.
pub open spec fn first_held_row(st: SequencerState, n: int) -> Option<usize>
    decreases n,
{
    if n <= 0 {
        None
    } else {
        match first_held_row(st, n - 1) {
            Some(y) => Some(y),
            None => if row_is_held_from_zero(st, n - 1) { Some((n - 1) as usize) } else { None },
        }
    }
}

/// The application's decision state: the sequencer and what the control
/// row and the clock have set.
pub struct SimonSaysSeeq {
    pub sequencer: Sequencer,
    /// The ARM action held down on the control row, if any.
    pub active_arm_action: Option<ArmAction>,
    pub crow_cv1_muted: bool,
    pub crow_cv2_muted: bool,
    pub crow_cv3_muted: bool,
    pub crow_cv4_muted: bool,
    /// The two second-grid buttons that together ask for MIDI clock detection.
    pub grid_two_button_0_pressed: bool,
    pub grid_two_button_1_pressed: bool,
    /// MIDI clock ticks since the external clock started (6 per step).
    pub external_clock_tick_counter: u32,
}

impl SimonSaysSeeq {
    /// The state is well formed when its sequencer is.
    pub open spec fn wf(&self) -> bool {
        self.sequencer.wf()
    }

    /// A fresh decision state around a sequencer: no ARM action, nothing
    /// muted or held, the clock count at 0.
    pub fn new(sequencer: Sequencer) -> (s: SimonSaysSeeq)
        ensures
            s.sequencer == sequencer,
            s.active_arm_action is None,
            !s.crow_cv1_muted && !s.crow_cv2_muted && !s.crow_cv3_muted && !s.crow_cv4_muted,
            !s.grid_two_button_0_pressed && !s.grid_two_button_1_pressed,
            s.external_clock_tick_counter == 0,
    {
        SimonSaysSeeq {
            sequencer,
            active_arm_action: None,
            crow_cv1_muted: false,
            crow_cv2_muted: false,
            crow_cv3_muted: false,
            crow_cv4_muted: false,
            grid_two_button_0_pressed: false,
            grid_two_button_1_pressed: false,
            external_clock_tick_counter: 0,
        }
    }

    /// Whether an ARM action is held.
    pub fn has_active_arm_action(&self) -> (b: bool)
        ensures
            b == self.active_arm_action is Some,
    {
        self.active_arm_action.is_some()
    }

    /// The held ARM action.
    pub fn get_active_arm_action(&self) -> (a: Option<ArmAction>)
        ensures
            a == self.active_arm_action,
    {
        self.active_arm_action
    }

    /// Whether `action` is the held ARM action.
    pub fn is_arm_action_active(&self, action: ArmAction) -> (b: bool)
        ensures
            b == (self.active_arm_action == Some(action)),
    {
        match self.active_arm_action {
            Some(a) => a == action,
            None => false,
        }
    }

    /// Whether any button among columns 1 to 16 and rows 1 to 8 is held.
    pub fn has_held_positions(&self) -> (b: bool)
        requires
            self.wf(),
        ensures
            b == any_held(self.sequencer.st()),
    {
        proof { self.sequencer.lemma_wf_state(); }
        let ghost st = self.sequencer.st();
        let mut x: usize = 1;
        while x <= 16
            invariant
                self.sequencer.wf(),
                st == self.sequencer.st(),
                1 <= x <= 17,
                forall|i: int, j: int| 1 <= i < x && 1 <= j <= 8 ==> !(#[trigger] cells(st.held)[i - 1][j - 1] > 0),
            decreases 17 - x,
        {
            let mut y: usize = 1;
            while y <= 8
                invariant
                    self.sequencer.wf(),
                    st == self.sequencer.st(),
                    1 <= x <= 16,
                    1 <= y <= 9,
                    forall|i: int, j: int| 1 <= i < x && 1 <= j <= 8 ==> !(#[trigger] cells(st.held)[i - 1][j - 1] > 0),
                    forall|j: int| 1 <= j < y ==> !(#[trigger] cells(st.held)[x - 1][j - 1] > 0),
                decreases 9 - y,
            {
                if self.sequencer.is_held(x, y) {
                    assert(row_is_held(st, y as int));
                    return true;
                }
                y = y + 1;
            }
            x = x + 1;
        }
        false
    }

    /// The held rows (counted from 1) among columns 1 to 16, in order.
    pub fn get_held_rows(&self) -> (rows: Vec<usize>)
        requires
            self.wf(),
        ensures
            rows@ == held_rows(self.sequencer.st(), 8),
    {
        let ghost st = self.sequencer.st();
        let mut rows: Vec<usize> = Vec::new();
        let mut y: usize = 1;
        while y <= 8
            invariant
                self.sequencer.wf(),
                st == self.sequencer.st(),
                1 <= y <= 9,
                rows@ == held_rows(st, y - 1),
            decreases 9 - y,
        {
            let mut found = false;
            let mut x: usize = 1;
            while x <= 16
                invariant
                    self.sequencer.wf(),
                    st == self.sequencer.st(),
                    1 <= y <= 8,
                    1 <= x <= 17,
                    found == exists|i: int| 1 <= i < x && #[trigger] cells(st.held)[i - 1][y - 1] > 0,
                decreases 17 - x,
            {
                if self.sequencer.is_held(x, y) {
                    found = true;
                }
                x = x + 1;
            }
            if found {
                rows.push(y);
            }
            y = y + 1;
        }
        rows
    }

    /// The first row (0 to 7) with a held button in columns 0 to 31.
    pub fn get_first_held_row(&self) -> (r: Option<usize>)
        requires
            self.wf(),
        ensures
            r == first_held_row(self.sequencer.st(), 8),
    {
        let ghost st = self.sequencer.st();
        let mut y: usize = 0;
        while y <= 7
            invariant
                self.sequencer.wf(),
                st == self.sequencer.st(),
                y <= 8,
                first_held_row(st, y as int) is None,
            decreases 8 - y,
        {
            let mut x: usize = 0;
            while x <= 31
                invariant
                    self.sequencer.wf(),
                    st == self.sequencer.st(),
                    y <= 7,
                    x <= 32,
                    first_held_row(st, y as int) is None,
                    forall|i: int| 1 <= i < x && 1 <= y ==> !(#[trigger] cells(st.held)[i - 1][y - 1] > 0),
                decreases 32 - x,
            {
                if self.sequencer.is_held(x, y) {
                    assert(row_is_held_from_zero(st, y as int));
                    proof {
                        lemma_first_held_stable(st, y as int + 1, 8);
                    }
                    return Some(y);
                }
                x = x + 1;
            }
            assert(!row_is_held_from_zero(st, y as int));
            y = y + 1;
        }
        None
    }

    /// The LED command of one step of a sequence row, appended to `cmds`.
    fn push_step_led(&self, cmds: &mut Vec<AppCommand>, x: usize, y: usize)
        requires
            self.wf(),
            y < 7,
        ensures
            final(cmds)@ == old(cmds)@ + step_led(self.sequencer.st(), x as int, y as int),
    {
        proof { self.sequencer.lemma_wf_state(); }
        let rs = match self.sequencer.get_row_states(y) {
            Some(rs) => rs,
            None => { return; },
        };
        let pattern_value = self.sequencer.get_grid_value(x, y);
        let is_current = x == rs.current_row_step;
        let brightness = led_brightness(pattern_value > 0, is_current);
        if x <= 15 {
            cmds.push(AppCommand::SetLed { target: GridTarget::GridOne, x, y, brightness });
        } else if x <= 31 {
            cmds.push(AppCommand::SetLed { target: GridTarget::GridTwo, x: x - 16, y, brightness });
        }
        proof {
            assert(cmds@ =~= old(cmds)@ + step_led(self.sequencer.st(), x as int, y as int));
        }
    }

    /// The LED commands of steps 0 to 31 of a sequence row.
    fn push_row_leds(&self, cmds: &mut Vec<AppCommand>, y: usize)
        requires
            self.wf(),
            y < 7,
        ensures
            final(cmds)@ == old(cmds)@ + row_leds(self.sequencer.st(), y as int, COLS as int),
    {
        let mut x: usize = 0;
        while x < COLS
            invariant
                self.wf(),
                y < 7,
                x <= COLS,
                cmds@ == old(cmds)@ + row_leds(self.sequencer.st(), y as int, x as int),
            decreases COLS - x,
        {
            self.push_step_led(cmds, x, y);
            proof {
                assert(row_leds(self.sequencer.st(), y as int, x + 1) == row_leds(self.sequencer.st(), y as int, x as int)
                    + step_led(self.sequencer.st(), x as int, y as int));
            }
            x = x + 1;
        }
    }

    /// Redraws every sequence row on two grids, then refreshes.
    pub fn refresh_all_pattern_leds(&self, connected: usize) -> (cmds: Vec<AppCommand>)
        requires
            self.wf(),
        ensures
            cmds@ == (if connected >= 2 { rows_leds(self.sequencer.st(), 7) } else { seq![] }).push(AppCommand::RefreshGrids),
    {
        let mut cmds: Vec<AppCommand> = Vec::new();
        if connected >= 2 {
            let mut y: usize = 0;
            while y <= 6
                invariant
                    self.wf(),
                    y <= 7,
                    cmds@ == rows_leds(self.sequencer.st(), y as int),
                decreases 7 - y,
            {
                self.push_row_leds(&mut cmds, y);
                y = y + 1;
            }
        }
        cmds.push(AppCommand::RefreshGrids);
        cmds
    }

    /// Redraws one sequence row on two grids, then refreshes.
    pub fn refresh_all_row_leds(&self, row: usize, connected: usize) -> (cmds: Vec<AppCommand>)
        requires
            self.wf(),
        ensures
            cmds@ == row_refresh(self.sequencer.st(), row, connected),
    {
        let mut cmds: Vec<AppCommand> = Vec::new();
        if connected >= 2 && row < 7 {
            self.push_row_leds(&mut cmds, row);
            cmds.push(AppCommand::RefreshGrids);
        }
        cmds
    }

    /// Redraws one step of a sequence row (no refresh).
    pub fn update_single_led(&self, seq_x: usize, seq_y: usize, connected: usize) -> (cmds: Vec<AppCommand>)
        requires
            self.wf(),
        ensures
            cmds@ == (if seq_y <= 6 && connected >= 2 { step_led(self.sequencer.st(), seq_x as int, seq_y as int) } else { seq![] }),
    {
        let mut cmds: Vec<AppCommand> = Vec::new();
        if seq_y <= 6 && connected >= 2 {
            self.push_step_led(&mut cmds, seq_x, seq_y);
        }
        cmds
    }

    /// Redraws the pressed step, then refreshes.
    pub fn update_single_button_led(&self, seq_x: usize, seq_y: usize, connected: usize) -> (cmds: Vec<AppCommand>)
        requires
            self.wf(),
        ensures
            cmds@ == button_refresh(self.sequencer.st(), seq_x, seq_y, connected),
    {
        let mut cmds: Vec<AppCommand> = Vec::new();
        if connected >= 2 && seq_y < 7 {
            self.push_step_led(&mut cmds, seq_x, seq_y);
            cmds.push(AppCommand::RefreshGrids);
        }
        cmds
    }

    /// Draws steps 0 to 15 of every sequence row on one grid.
    pub fn update_main_grid_display(&self, target: GridTarget) -> (cmds: Vec<AppCommand>)
        requires
            self.wf(),
        ensures
            cmds@ == display_rows_leds(self.sequencer.st(), target, 7),
    {
        proof { self.sequencer.lemma_wf_state(); }
        let ghost st = self.sequencer.st();
        let mut cmds: Vec<AppCommand> = Vec::new();
        let mut y: usize = 0;
        while y <= 6
            invariant
                self.wf(),
                st == self.sequencer.st(),
                y <= 7,
                cmds@ == display_rows_leds(st, target, y as int),
            decreases 7 - y,
        {
            let rs = match self.sequencer.get_row_states(y) {
                Some(rs) => rs,
                None => { return cmds; },
            };
            let mut x: usize = 0;
            while x <= 15
                invariant
                    self.wf(),
                    st == self.sequencer.st(),
                    y <= 6,
                    x <= 16,
                    rs == st.sequencer_a_row_states@[y as int],
                    cmds@ == display_rows_leds(st, target, y as int) + display_row_leds(st, target, y as int, x as int),
                decreases 16 - x,
            {
                let pattern_value = self.sequencer.get_grid_value(x, y);
                let is_current = x == rs.current_row_step;
                let brightness = if pattern_value > 0 {
                    if is_current { LED_MAX } else { LED_BRIGHT }
                } else {
                    if is_current { LED_DIM_PLUS } else { LED_OFF }
                };
                cmds.push(AppCommand::SetLed { target, x, y, brightness });
                x = x + 1;
            }
            y = y + 1;
        }
        cmds
    }

    /// The full redraw at start-up: the sequencer paints the grids as it
    /// plays, so only a refresh is sent.
    pub fn update_grid_display(&self) -> (cmds: Vec<AppCommand>)
        ensures
            cmds@ == seq![AppCommand::RefreshGrids],
    {
        let mut cmds: Vec<AppCommand> = Vec::new();
        cmds.push(AppCommand::RefreshGrids);
        cmds
    }

    /// The LED commands of a playhead move on a row (see `grid_update_leds`).
    pub fn handle_grid_update(&self, row: usize, old_step: usize, new_step: usize, connected: usize) -> (cmds: Vec<AppCommand>)
        requires
            self.wf(),
        ensures
            cmds@ == grid_update_leds(self.sequencer.st(), row, old_step, new_step, connected),
    {
        let mut cmds: Vec<AppCommand> = Vec::new();
        if connected >= 2 && row < 7 {
            let old_value = self.sequencer.get_grid_value(old_step, row);
            let old_brightness = if old_value > 0 { LED_BRIGHT } else { LED_OFF };
            if old_step <= 15 {
                cmds.push(AppCommand::SetLed { target: GridTarget::GridOne, x: old_step, y: row, brightness: old_brightness });
            } else if old_step <= 31 {
                cmds.push(AppCommand::SetLed { target: GridTarget::GridTwo, x: old_step - 16, y: row, brightness: old_brightness });
            }
            let new_value = self.sequencer.get_grid_value(new_step, row);
            let new_brightness = if new_value > 0 { LED_MAX } else { LED_DIM };
            if new_step <= 15 {
                cmds.push(AppCommand::SetLed { target: GridTarget::GridOne, x: new_step, y: row, brightness: new_brightness });
            } else if new_step <= 31 {
                cmds.push(AppCommand::SetLed { target: GridTarget::GridTwo, x: new_step - 16, y: row, brightness: new_brightness });
            }
        }
        cmds.push(AppCommand::RefreshGrids);
        proof {
            assert(cmds@ =~= grid_update_leds(self.sequencer.st(), row, old_step, new_step, connected));
        }
        cmds
    }
}

/// The sequence column of a press: the first grid holds steps 0 to 15,
/// the second 16 to 31 (a virtual grid's name decides first); `None` for
/// an unknown grid.
pub open spec fn sequence_column(id: GridIdentity, x: usize) -> Option<int> {
    if id.virtual_one || id.virtual_two {
        if id.virtual_one { Some(x as int) } else { Some(x + 16) }
    } else if id.is_grid_one {
        Some(x as int)
    } else if id.is_grid_two {
        Some(x + 16)
    } else {
        None
    }
}

/// The Euclidean length a press at sequence column `sx` asks for: the
/// column plus one, within 1 to 32.
pub open spec fn pressed_length(sx: int) -> usize {
    if sx + 1 < 1 { 1 } else if sx + 1 > 32 { 32 } else { (sx + 1) as usize }
}

/// The row length a press at sequence column `sx` asks for: the column as
/// the last step, at most 31.
pub open spec fn pressed_max_step(sx: int) -> usize {
    if sx > 31 { 31 } else { sx as usize }
}

/// The inputs on which a press can be handled: the second grid's columns
/// are shifted by 16 without overflow, and a held Euclidean ARM action has
/// a row whose length and rotation can be computed.
pub open spec fn press_defined(c: SimonSaysSeeq, id: GridIdentity, x: usize, y: usize, pressed: bool) -> bool {
    match sequence_column(id, x) {
        None => true,
        Some(sx) => sx <= usize::MAX && (y <= 6 && pressed ==> {
            let rs = c.sequencer.st().sequencer_a_row_states@[y as int];
            match c.active_arm_action {
                Some(ArmAction::EuclidianEvents) => rs.max_step < usize::MAX
                    && (rs.max_step + 1 <= 32 ==> rs.euclidean_rotation + rs.max_step <= usize::MAX),
                Some(ArmAction::EuclidianLength) => sx < usize::MAX
                    && (rs.euclidean_events > 0 ==> rs.euclidean_rotation + pressed_length(sx) - 1 <= usize::MAX),
                Some(ArmAction::EuclidianRotation) => rs.max_step < usize::MAX,
                _ => true,
            }
        }),
    }
}

/// Everything but the sequencer is unchanged.
pub open spec fn same_controls(c0: SimonSaysSeeq, c1: SimonSaysSeeq) -> bool {
    &&& c1.active_arm_action == c0.active_arm_action
    &&& c1.crow_cv1_muted == c0.crow_cv1_muted
    &&& c1.crow_cv2_muted == c0.crow_cv2_muted
    &&& c1.crow_cv3_muted == c0.crow_cv3_muted
    &&& c1.crow_cv4_muted == c0.crow_cv4_muted
    &&& c1.grid_two_button_0_pressed == c0.grid_two_button_0_pressed
    &&& c1.grid_two_button_1_pressed == c0.grid_two_button_1_pressed
    &&& c1.external_clock_tick_counter == c0.external_clock_tick_counter
}

/// A press with held buttons: with only the control row (row 8) held, a
/// press beyond column 8 clears rows 1 and 2 of its column; then the grid
/// is refreshed.
pub open spec fn advanced_op_post(s0: Sequencer, s1: Sequencer, x: usize, cmds: Seq<AppCommand>) -> bool {
    let hr = held_rows(s0.st(), 8);
    &&& (if hr.len() == 1 && hr[0] == 8 && x > 8 {
        exists|mid: Sequencer| #[trigger] set_grid_value_post(s0, mid, x, 1, 0) && set_grid_value_post(mid, s1, x, 2, 0)
    } else {
        s1 == s0
    })
    &&& cmds == seq![AppCommand::RefreshGrids]
}

/// A press on a sequence row with no grid-changing ARM action: with held
/// buttons the held-button operation, else the step toggles on (1) or off
/// and its LED is redrawn.
pub open spec fn normal_op_post(s0: Sequencer, s1: Sequencer, sx: usize, sy: usize, connected: usize, cmds: Seq<AppCommand>) -> bool {
    if any_held(s0.st()) {
        advanced_op_post(s0, s1, sx, cmds)
    } else {
        let v = pattern_cell(s0.st(), sx as int, sy as int);
        &&& set_grid_value_post(s0, s1, sx, sy, if v > 0 { 0 } else { 1 })
        &&& cmds == button_refresh(s1.st(), sx, sy, connected)
    }
}

/// A press on sequence row `sy` at sequence column `sx`: the held ARM
/// action decides (Euclidean events, length or rotation, row length,
/// preset), else the normal operation; the row is redrawn.
pub open spec fn sequence_press_post(c0: SimonSaysSeeq, c1: SimonSaysSeeq, sx: usize, sy: usize, connected: usize, cmds: Seq<AppCommand>) -> bool {
    let st = c0.sequencer.st();
    let rs = st.sequencer_a_row_states@[sy as int];
    &&& same_controls(c0, c1)
    &&& match c0.active_arm_action {
        Some(ArmAction::EuclidianEvents) => {
            &&& euclid_post(c0.sequencer, c1.sequencer, sy, (sx % 32 + 1) as usize, (rs.max_step + 1) as usize, rs.euclidean_rotation)
            &&& cmds == row_refresh(c1.sequencer.st(), sy, connected)
        },
        Some(ArmAction::EuclidianLength) => {
            let len = pressed_length(sx as int);
            &&& exists|mid: Sequencer| #[trigger] euclid_post(c0.sequencer, mid, sy, rs.euclidean_events, len, rs.euclidean_rotation)
                && (if rs.current_row_step > len - 1 {
                    set_row_states_post(mid, c1.sequencer, sy, SequencerARowStates {
                        current_row_step: mid.st().sequencer_a_row_states@[sy as int].first_step,
                        ..mid.st().sequencer_a_row_states@[sy as int]
                    })
                } else {
                    c1.sequencer == mid
                })
            &&& cmds == row_refresh(c1.sequencer.st(), sy, connected)
        },
        Some(ArmAction::EuclidianRotation) => {
            &&& euclid_post(c0.sequencer, c1.sequencer, sy, rs.euclidean_events, (rs.max_step + 1) as usize, (sx % 32) as usize)
            &&& cmds == row_refresh(c1.sequencer.st(), sy, connected)
        },
        Some(ArmAction::SetMaxStepForRow) => {
            let m = pressed_max_step(sx as int);
            let cur = if rs.current_row_step > m {
                rs.first_step
            } else if m == 31 {
                st.sequencer_a_current_master_step
            } else {
                rs.current_row_step
            };
            &&& set_row_states_post(c0.sequencer, c1.sequencer, sy, SequencerARowStates { max_step: m, current_row_step: cur, ..rs })
            &&& cmds == row_refresh(c1.sequencer.st(), sy, connected)
        },
        Some(ArmAction::PresetGrid) => {
            &&& apply_preset_post(c0.sequencer, c1.sequencer, sy, sx)
            &&& cmds == row_refresh(c1.sequencer.st(), sy, connected)
        },
        _ => normal_op_post(c0.sequencer, c1.sequencer, sx, sy, connected, cmds),
    }
}

/// The LED of a second-grid transport or mute button on release: a mute
/// button shows its state (10 muted, 0 not), the others go off.
pub open spec fn release_brightness(c: SimonSaysSeeq, x: usize) -> u8 {
    if x == 7 { if c.crow_cv1_muted { LED_BRIGHT } else { LED_OFF } }
    else if x == 8 { if c.crow_cv2_muted { LED_BRIGHT } else { LED_OFF } }
    else if x == 9 { if c.crow_cv3_muted { LED_BRIGHT } else { LED_OFF } }
    else if x == 10 { if c.crow_cv4_muted { LED_BRIGHT } else { LED_OFF } }
    else { 0 }
}

/// The mute flags after a press on second-grid column `x`: columns 7 to 10
/// toggle the CV 1 to 4 mutes.
pub open spec fn mutes_toggled(c0: SimonSaysSeeq, c1: SimonSaysSeeq, x: usize) -> bool {
    &&& c1.crow_cv1_muted == (if x == 7 { !c0.crow_cv1_muted } else { c0.crow_cv1_muted })
    &&& c1.crow_cv2_muted == (if x == 8 { !c0.crow_cv2_muted } else { c0.crow_cv2_muted })
    &&& c1.crow_cv3_muted == (if x == 9 { !c0.crow_cv3_muted } else { c0.crow_cv3_muted })
    &&& c1.crow_cv4_muted == (if x == 10 { !c0.crow_cv4_muted } else { c0.crow_cv4_muted })
}

/// A press or release on the second grid's control row: columns 0 and 1
/// together ask for MIDI clock detection; 7 to 10 toggle the CV mutes, 12
/// stops and 13 starts the transport (their LEDs light while pressed).
pub open spec fn grid_two_control_post(c0: SimonSaysSeeq, c1: SimonSaysSeeq, x: usize, pressed: bool, ext_running: bool, cmds: Seq<AppCommand>) -> bool {
    if x == 0 || x == 1 {
        let b0 = if x == 0 { pressed } else { c0.grid_two_button_0_pressed };
        let b1 = if x == 1 { pressed } else { c0.grid_two_button_1_pressed };
        &&& (c1 == SimonSaysSeeq { grid_two_button_0_pressed: b0, grid_two_button_1_pressed: b1, ..c0 })
        &&& cmds == if pressed {
            seq![AppCommand::SetLed { target: GridTarget::Source, x, y: 7, brightness: 10 }, AppCommand::RefreshGrids]
                + if b0 && b1 { seq![AppCommand::RedetectMidiClock] } else { seq![] }
        } else {
            seq![AppCommand::SetLed { target: GridTarget::Source, x, y: 7, brightness: 0 }, AppCommand::RefreshGrids]
        }
    } else if 7 <= x <= 15 {
        if pressed {
            let lit = seq![AppCommand::SetLed { target: GridTarget::Source, x, y: 7, brightness: 10 }, AppCommand::RefreshGrids];
            &&& mutes_toggled(c0, c1, x)
            &&& c1.active_arm_action == c0.active_arm_action
            &&& c1.grid_two_button_0_pressed == c0.grid_two_button_0_pressed
            &&& c1.grid_two_button_1_pressed == c0.grid_two_button_1_pressed
            &&& c1.external_clock_tick_counter == c0.external_clock_tick_counter
            &&& if x == 12 {
                exists|save: bool| #[trigger] stop_post(c0.sequencer, c1.sequencer, save)
                    && cmds == lit + if save { seq![AppCommand::SaveCurrentPattern] } else { seq![] }
            } else if x == 13 {
                start_post(c0.sequencer, c1.sequencer) && cmds == lit
            } else {
                c1.sequencer == c0.sequencer && cmds == lit
            }
        } else {
            &&& c1 == c0
            &&& cmds == if (x == 14 || x == 15) && ext_running {
                seq![]
            } else {
                seq![AppCommand::SetLed { target: GridTarget::Source, x, y: 7, brightness: release_brightness(c0, x) }, AppCommand::RefreshGrids]
            }
        }
    } else {
        c1 == c0 && cmds.len() == 0
    }
}

/// A press or release of an ARM button on the first grid's control row:
/// pressing makes its action the held one (the previous one's LED goes
/// off), lights it and runs undo or redo; releasing the held one clears it.
pub open spec fn arm_control_post(c0: SimonSaysSeeq, c1: SimonSaysSeeq, x: usize, pressed: bool, cmds: Seq<AppCommand>) -> bool {
    match arm_action_at(x) {
        None => c1 == c0 && cmds.len() == 0,
        Some(a) => if pressed {
            let off = match c0.active_arm_action {
                Some(p) => if p != a {
                    seq![AppCommand::SetLed { target: GridTarget::Source, x: arm_column(p), y: 7, brightness: 0 }]
                } else {
                    seq![]
                },
                None => seq![],
            };
            &&& cmds == off + seq![AppCommand::SetLed { target: GridTarget::Source, x, y: 7, brightness: LED_MAX }, AppCommand::RefreshGrids]
            &&& c1.active_arm_action == Some(a)
            &&& c1.crow_cv1_muted == c0.crow_cv1_muted
            &&& c1.crow_cv2_muted == c0.crow_cv2_muted
            &&& c1.crow_cv3_muted == c0.crow_cv3_muted
            &&& c1.crow_cv4_muted == c0.crow_cv4_muted
            &&& c1.grid_two_button_0_pressed == c0.grid_two_button_0_pressed
            &&& c1.grid_two_button_1_pressed == c0.grid_two_button_1_pressed
            &&& c1.external_clock_tick_counter == c0.external_clock_tick_counter
            &&& match a {
                ArmAction::Undo => exists|r: Result<String, crate::sequencer::engine::SequencerError>| #[trigger] undo_post(c0.sequencer, c1.sequencer, r),
                ArmAction::Redo => exists|r: Result<String, crate::sequencer::engine::SequencerError>| #[trigger] redo_post(c0.sequencer, c1.sequencer, r),
                _ => c1.sequencer == c0.sequencer,
            }
        } else if c0.active_arm_action == Some(a) {
            &&& (c1 == SimonSaysSeeq { active_arm_action: None, ..c0 })
            &&& cmds == seq![AppCommand::SetLed { target: GridTarget::Source, x, y: 7, brightness: 0 }, AppCommand::RefreshGrids]
        } else {
            c1 == c0 && cmds.len() == 0
        },
    }
}

/// The effect of a grid press or release at grid button (x, y): presses on
/// sequence rows 0 to 6 (`sequence_press_post`), presses and releases on
/// the control row (`grid_two_control_post`, `arm_control_post`); presses
/// from an unknown grid, or from a physical grid with fewer than two
/// connected, are ignored.
pub open spec fn grid_press_post(c0: SimonSaysSeeq, c1: SimonSaysSeeq, id: GridIdentity, connected: usize, x: usize, y: usize, pressed: bool, ext_running: bool, cmds: Seq<AppCommand>) -> bool {
    match sequence_column(id, x) {
        None => c1 == c0 && cmds.len() == 0,
        Some(sx) => if !(id.virtual_one || id.virtual_two || connected >= 2) {
            c1 == c0 && cmds.len() == 0
        } else if y <= 6 && pressed {
            sequence_press_post(c0, c1, sx as usize, y, connected, cmds)
        } else if y == 7 {
            if connected >= 2 && id.is_grid_two {
                grid_two_control_post(c0, c1, x, pressed, ext_running, cmds)
            } else if id.virtual_one || id.virtual_two || id.is_grid_one {
                arm_control_post(c0, c1, x, pressed, cmds)
            } else {
                c1 == c0 && cmds.len() == 0
            }
        } else {
            c1 == c0 && cmds.len() == 0
        },
    }
}

/// With nothing held, a press on a sequence step flips it: a set step
/// (any value above 0) is cleared to 0 and an empty one is set to 1; no
/// other cell of the trigger grid changes. Pressing the same step again
/// then gives back the grid as it was, when the step held 0 or 1.
pub proof fn law_press_flips_step(
    s0: Sequencer,
    s1: Sequencer,
    s2: Sequencer,
    sx: usize,
    sy: usize,
    connected: usize,
    cmds1: Seq<AppCommand>,
    cmds2: Seq<AppCommand>,
)
    requires
        s0.wf(),
        sx < COLS,
        sy < ROWS,
        !any_held(s0.st()),
        normal_op_post(s0, s1, sx, sy, connected, cmds1),
    ensures
        cells(s0.st().sequencer_a_grid)[sx as int][sy as int] > 0 ==> cells(s1.st().sequencer_a_grid)[sx as int][sy as int] == 0,
        cells(s0.st().sequencer_a_grid)[sx as int][sy as int] == 0 ==> cells(s1.st().sequencer_a_grid)[sx as int][sy as int] == 1,
        forall|x: int, y: int|
            0 <= x < COLS && 0 <= y < ROWS && (x != sx || y != sy) ==> #[trigger] cells(s1.st().sequencer_a_grid)[x][y]
                == cells(s0.st().sequencer_a_grid)[x][y],
        normal_op_post(s1, s2, sx, sy, connected, cmds2) && cells(s0.st().sequencer_a_grid)[sx as int][sy as int] <= 1
            ==> cells(s2.st().sequencer_a_grid) == cells(s0.st().sequencer_a_grid),
{
    s0.lemma_wf_state();
    let g0 = cells(s0.st().sequencer_a_grid);
    let g1 = cells(s1.st().sequencer_a_grid);
    assert(s1.st().held == s0.st().held);
    assert(!any_held(s1.st())) by {
        if any_held(s1.st()) {
            let y = choose|y: int| 1 <= y <= 8 && #[trigger] row_is_held(s1.st(), y);
            assert(row_is_held(s0.st(), y));
        }
    }
    if normal_op_post(s1, s2, sx, sy, connected, cmds2) && g0[sx as int][sy as int] <= 1 {
        let g2 = cells(s2.st().sequencer_a_grid);
        assert(g2 =~= g0) by {
            assert forall|x: int| 0 <= x < g0.len() implies g2[x] =~= g0[x] by {
                if x == sx {
                    assert(g2[x] =~= g0[x]);
                }
            }
        }
    }
}

/// ARM buttons are momentary: on the control row of grid one, pressing an
/// ARM button makes its action the one held, releasing it lets go of it
/// only if it is the one held, and any other button leaves the held action
/// as it was. So at most one ARM action is held at any time.
pub proof fn law_arm_buttons_momentary(
    c0: SimonSaysSeeq,
    c1: SimonSaysSeeq,
    id: GridIdentity,
    connected: usize,
    x: usize,
    pressed: bool,
    ext_running: bool,
    cmds: Seq<AppCommand>,
)
    requires
        id.virtual_one || id.virtual_two || id.is_grid_one,
        id.virtual_one || id.virtual_two || connected >= 2,
        !(connected >= 2 && id.is_grid_two),
        grid_press_post(c0, c1, id, connected, x, 7, pressed, ext_running, cmds),
    ensures
        arm_action_at(x) is None ==> c1.active_arm_action == c0.active_arm_action,
        arm_action_at(x) is Some && pressed ==> c1.active_arm_action == arm_action_at(x),
        arm_action_at(x) is Some && !pressed ==> c1.active_arm_action == (if c0.active_arm_action
            == arm_action_at(x) {
            None
        } else {
            c0.active_arm_action
        }),
{
}

impl SimonSaysSeeq {
    /// Runs a held ARM action that acts at once: undo or redo.
    pub fn handle_arm_action(&mut self, action: ArmAction)
        requires
            old(self).wf(),
        ensures
            final(self).wf(),
            same_controls(*old(self), *final(self)),
            action == ArmAction::Undo ==> exists|r: Result<String, crate::sequencer::engine::SequencerError>| #[trigger] undo_post(old(self).sequencer, final(self).sequencer, r),
            action == ArmAction::Redo ==> exists|r: Result<String, crate::sequencer::engine::SequencerError>| #[trigger] redo_post(old(self).sequencer, final(self).sequencer, r),
            action != ArmAction::Undo && action != ArmAction::Redo ==> final(self).sequencer == old(self).sequencer,
    {
        match action {
            ArmAction::Undo => {
                let r = self.sequencer.undo();
                assert(undo_post(old(self).sequencer, self.sequencer, r));
            },
            ArmAction::Redo => {
                let r = self.sequencer.redo();
                assert(redo_post(old(self).sequencer, self.sequencer, r));
            },
            _ => {},
        }
    }

    /// A press with held buttons (see `advanced_op_post`).
    pub fn handle_advanced_grid_operation(&mut self, x: usize, y: usize) -> (cmds: Vec<AppCommand>)
        requires
            old(self).wf(),
        ensures
            final(self).wf(),
            same_controls(*old(self), *final(self)),
            advanced_op_post(old(self).sequencer, final(self).sequencer, x, cmds@),
    {
        let held_rows = self.get_held_rows();
        if held_rows.len() == 1 {
            let held_row = held_rows[0];
            if held_row == 8 && x > 8 {
                self.sequencer.set_grid_value(x, 1, 0);
                let ghost mid = self.sequencer;
                self.sequencer.set_grid_value(x, 2, 0);
                assert(set_grid_value_post(old(self).sequencer, mid, x, 1, 0));
            }
        }
        self.update_grid_display()
    }

    /// A press on a sequence row with no grid-changing ARM action (see
    /// `normal_op_post`).
    pub fn handle_normal_grid_operation(&mut self, seq_x: usize, seq_y: usize, connected: usize) -> (cmds: Vec<AppCommand>)
        requires
            old(self).wf(),
        ensures
            final(self).wf(),
            same_controls(*old(self), *final(self)),
            normal_op_post(old(self).sequencer, final(self).sequencer, seq_x, seq_y, connected, cmds@),
    {
        if self.has_held_positions() {
            self.handle_advanced_grid_operation(seq_x, seq_y)
        } else {
            let current_value = self.sequencer.get_grid_value(seq_x, seq_y);
            let new_value: u8 = if current_value > 0 { 0 } else { 1 };
            self.sequencer.set_grid_value(seq_x, seq_y, new_value);
            self.update_single_button_led(seq_x, seq_y, connected)
        }
    }

    /// A press on sequence row `seq_y` at sequence column `seq_x` (see
    /// `sequence_press_post`).
    fn handle_sequence_press(&mut self, seq_x: usize, seq_y: usize, connected: usize) -> (cmds: Vec<AppCommand>)
        requires
            old(self).wf(),
            seq_y <= 6,
            ({
                let rs = old(self).sequencer.st().sequencer_a_row_states@[seq_y as int];
                match old(self).active_arm_action {
                    Some(ArmAction::EuclidianEvents) => rs.max_step < usize::MAX
                        && (rs.max_step + 1 <= 32 ==> rs.euclidean_rotation + rs.max_step <= usize::MAX),
                    Some(ArmAction::EuclidianLength) => seq_x < usize::MAX
                        && (rs.euclidean_events > 0 ==> rs.euclidean_rotation + pressed_length(seq_x as int) - 1 <= usize::MAX),
                    Some(ArmAction::EuclidianRotation) => rs.max_step < usize::MAX,
                    _ => true,
                }
            }),
        ensures
            final(self).wf(),
            sequence_press_post(*old(self), *final(self), seq_x, seq_y, connected, cmds@),
    {
        proof { self.sequencer.lemma_wf_state(); }
        let rs = match self.sequencer.get_row_states(seq_y) {
            Some(rs) => rs,
            None => { return Vec::new(); },
        };
        match self.active_arm_action {
            Some(ArmAction::EuclidianEvents) => {
                let events = (seq_x % 32) + 1;
                self.sequencer.generate_euclidean_rhythm(seq_y, events, rs.max_step + 1, rs.euclidean_rotation);
                self.refresh_all_row_leds(seq_y, connected)
            },
            Some(ArmAction::EuclidianLength) => {
                let length0 = seq_x + 1;
                let length = if length0 < 1 { 1 } else if length0 > 32 { 32 } else { length0 };
                self.sequencer.generate_euclidean_rhythm(seq_y, rs.euclidean_events, length, rs.euclidean_rotation);
                let ghost mid = self.sequencer;
                let last_step = length - 1;
                if rs.current_row_step > last_step {
                    // The new length stays; only the play position goes back
                    // to the row's first step.
                    match self.sequencer.get_row_states(seq_y) {
                        Some(generated) => {
                            let mut reset = generated;
                            reset.current_row_step = generated.first_step;
                            self.sequencer.set_row_states(seq_y, reset);
                        },
                        None => {},
                    }
                }
                assert(euclid_post(old(self).sequencer, mid, seq_y, rs.euclidean_events, length, rs.euclidean_rotation));
                self.refresh_all_row_leds(seq_y, connected)
            },
            Some(ArmAction::EuclidianRotation) => {
                let rotation = seq_x % 32;
                self.sequencer.generate_euclidean_rhythm(seq_y, rs.euclidean_events, rs.max_step + 1, rotation);
                self.refresh_all_row_leds(seq_y, connected)
            },
            Some(ArmAction::SetMaxStepForRow) => {
                let max_step = if seq_x > 31 { 31 } else { seq_x };
                let mut new_rs = rs;
                new_rs.max_step = max_step;
                if rs.current_row_step > max_step {
                    new_rs.current_row_step = rs.first_step;
                } else if max_step == 31 {
                    new_rs.current_row_step = self.sequencer.get_current_position();
                }
                self.sequencer.set_row_states(seq_y, new_rs);
                self.refresh_all_row_leds(seq_y, connected)
            },
            Some(ArmAction::PresetGrid) => {
                self.sequencer.apply_preset_pattern(seq_y, seq_x);
                self.refresh_all_row_leds(seq_y, connected)
            },
            _ => self.handle_normal_grid_operation(seq_x, seq_y, connected),
        }
    }

    /// A press or release on the second grid's control row (see
    /// `grid_two_control_post`).
    fn handle_grid_two_control(&mut self, x: usize, pressed: bool, ext_running: bool) -> (cmds: Vec<AppCommand>)
        requires
            old(self).wf(),
        ensures
            final(self).wf(),
            grid_two_control_post(*old(self), *final(self), x, pressed, ext_running, cmds@),
    {
        let mut cmds: Vec<AppCommand> = Vec::new();
        if x == 0 || x == 1 {
            if pressed {
                if x == 0 {
                    self.grid_two_button_0_pressed = true;
                } else {
                    self.grid_two_button_1_pressed = true;
                }
                cmds.push(AppCommand::SetLed { target: GridTarget::Source, x, y: 7, brightness: 10 });
                cmds.push(AppCommand::RefreshGrids);
                if self.grid_two_button_0_pressed && self.grid_two_button_1_pressed {
                    cmds.push(AppCommand::RedetectMidiClock);
                }
            } else {
                if x == 0 {
                    self.grid_two_button_0_pressed = false;
                } else {
                    self.grid_two_button_1_pressed = false;
                }
                cmds.push(AppCommand::SetLed { target: GridTarget::Source, x, y: 7, brightness: 0 });
                cmds.push(AppCommand::RefreshGrids);
            }
            proof {
                assert(cmds@ =~= if pressed {
                    seq![AppCommand::SetLed { target: GridTarget::Source, x, y: 7, brightness: 10 }, AppCommand::RefreshGrids]
                        + if self.grid_two_button_0_pressed && self.grid_two_button_1_pressed { seq![AppCommand::RedetectMidiClock] } else { seq![] }
                } else {
                    seq![AppCommand::SetLed { target: GridTarget::Source, x, y: 7, brightness: 0 }, AppCommand::RefreshGrids]
                });
            }
            return cmds;
        } else if x >= 7 && x <= 15 {
            if pressed {
                cmds.push(AppCommand::SetLed { target: GridTarget::Source, x, y: 7, brightness: 10 });
                cmds.push(AppCommand::RefreshGrids);
                let ghost lit = cmds@;
                if x == 12 {
                    let save = self.sequencer.stop();
                    if save {
                        cmds.push(AppCommand::SaveCurrentPattern);
                    }
                    assert(cmds@ =~= lit + if save { seq![AppCommand::SaveCurrentPattern] } else { seq![] });
                } else if x == 13 {
                    self.sequencer.start();
                }
                if x == 7 {
                    self.crow_cv1_muted = !self.crow_cv1_muted;
                } else if x == 8 {
                    self.crow_cv2_muted = !self.crow_cv2_muted;
                } else if x == 9 {
                    self.crow_cv3_muted = !self.crow_cv3_muted;
                } else if x == 10 {
                    self.crow_cv4_muted = !self.crow_cv4_muted;
                }
                assert(lit =~= seq![AppCommand::SetLed { target: GridTarget::Source, x, y: 7, brightness: 10 }, AppCommand::RefreshGrids]);
            } else {
                if (x == 14 || x == 15) && ext_running {
                    return cmds;
                }
                let brightness: u8 = if x == 7 {
                    if self.crow_cv1_muted { LED_BRIGHT } else { LED_OFF }
                } else if x == 8 {
                    if self.crow_cv2_muted { LED_BRIGHT } else { LED_OFF }
                } else if x == 9 {
                    if self.crow_cv3_muted { LED_BRIGHT } else { LED_OFF }
                } else if x == 10 {
                    if self.crow_cv4_muted { LED_BRIGHT } else { LED_OFF }
                } else {
                    0
                };
                cmds.push(AppCommand::SetLed { target: GridTarget::Source, x, y: 7, brightness });
                cmds.push(AppCommand::RefreshGrids);
                assert(cmds@ =~= seq![AppCommand::SetLed { target: GridTarget::Source, x, y: 7, brightness: release_brightness(*old(self), x) }, AppCommand::RefreshGrids]);
            }
        }
        cmds
    }

    /// A press or release of an ARM button on the first grid's control row
    /// (see `arm_control_post`).
    fn handle_arm_control(&mut self, x: usize, pressed: bool) -> (cmds: Vec<AppCommand>)
        requires
            old(self).wf(),
        ensures
            final(self).wf(),
            arm_control_post(*old(self), *final(self), x, pressed, cmds@),
    {
        let mut cmds: Vec<AppCommand> = Vec::new();
        match ArmAction::from_column(x) {
            Some(arm_action) => {
                if pressed {
                    match self.active_arm_action {
                        Some(prev) => {
                            if prev != arm_action {
                                cmds.push(AppCommand::SetLed { target: GridTarget::Source, x: prev.to_column(), y: 7, brightness: 0 });
                            }
                        },
                        None => {},
                    }
                    self.active_arm_action = Some(arm_action);
                    cmds.push(AppCommand::SetLed { target: GridTarget::Source, x, y: 7, brightness: LED_MAX });
                    cmds.push(AppCommand::RefreshGrids);
                    self.handle_arm_action(arm_action);
                    proof {
                        let off = match old(self).active_arm_action {
                            Some(p) => if p != arm_action {
                                seq![AppCommand::SetLed { target: GridTarget::Source, x: arm_column(p), y: 7, brightness: 0 }]
                            } else {
                                seq![]
                            },
                            None => seq![],
                        };
                        assert(cmds@ =~= off + seq![AppCommand::SetLed { target: GridTarget::Source, x, y: 7, brightness: LED_MAX }, AppCommand::RefreshGrids]);
                    }
                } else {
                    let held = match self.active_arm_action {
                        Some(a) => a == arm_action,
                        None => false,
                    };
                    if held {
                        self.active_arm_action = None;
                        cmds.push(AppCommand::SetLed { target: GridTarget::Source, x, y: 7, brightness: 0 });
                        cmds.push(AppCommand::RefreshGrids);
                        assert(cmds@ =~= seq![AppCommand::SetLed { target: GridTarget::Source, x, y: 7, brightness: 0 }, AppCommand::RefreshGrids]);
                    }
                }
            },
            None => {},
        }
        cmds
    }

    /// Handles a grid button press or release (see `grid_press_post`).
    /// `connected` is the number of physical grids, `ext_running` whether
    /// the external MIDI clock runs.
    pub fn handle_grid_press(&mut self, id: GridIdentity, connected: usize, x: usize, y: usize, pressed: bool, ext_running: bool) -> (cmds: Vec<AppCommand>)
        requires
            old(self).wf(),
            press_defined(*old(self), id, x, y, pressed),
        ensures
            final(self).wf(),
            grid_press_post(*old(self), *final(self), id, connected, x, y, pressed, ext_running, cmds@),
    {
        let seq_x = if id.virtual_one || id.virtual_two {
            if id.virtual_one { x } else { x + 16 }
        } else if id.is_grid_one {
            x
        } else if id.is_grid_two {
            x + 16
        } else {
            return Vec::new();
        };
        let seq_y = y;
        if id.virtual_one || id.virtual_two || connected >= 2 {
            if seq_y <= 6 && pressed {
                return self.handle_sequence_press(seq_x, seq_y, connected);
            } else if seq_y == 7 {
                if connected >= 2 && id.is_grid_two {
                    return self.handle_grid_two_control(x, pressed, ext_running);
                }
                if id.virtual_one || id.virtual_two || id.is_grid_one {
                    return self.handle_arm_control(x, pressed);
                }
            }
        }
        Vec::new()
    }
}

/// The identity of a grid id given the ids of the first and second grids.
pub open spec fn identity_of(grid_id: Seq<char>, grid_one: Option<String>, grid_two: Option<String>) -> GridIdentity {
    GridIdentity {
        virtual_one: grid_id == "grid_one"@,
        virtual_two: grid_id == "grid_two"@,
        is_grid_one: grid_one is Some && grid_id == grid_one->Some_0@,
        is_grid_two: grid_two is Some && grid_id == grid_two->Some_0@,
    }
}

/// The start/stop toggle: a running transport stops (saving the pattern
/// when `stop` asks for it) and every note is silenced; a stopped one
/// starts.
pub open spec fn toggle_post(s0: Sequencer, s1: Sequencer, cmds: Seq<AppCommand>) -> bool {
    if s0.st().is_running {
        exists|save: bool| #[trigger] stop_post(s0, s1, save)
            && cmds == (if save { seq![AppCommand::SaveCurrentPattern] } else { seq![] }) + seq![AppCommand::AllNotesOff]
    } else {
        start_post(s0, s1) && cmds.len() == 0
    }
}

/// The global transpose after an encoder turn: moved by `delta`, within
/// -24 to 24.
pub open spec fn turned_transpose(t: i8, delta: i32) -> i8 {
    let n = t + delta;
    if n < -24 { -24i8 } else if n > 24 { 24i8 } else { n as i8 }
}

/// The inputs on which a hardware event can be handled.
pub open spec fn hardware_event_defined(c: SimonSaysSeeq, event: HardwareEvent, grid_one: Option<String>, grid_two: Option<String>) -> bool {
    match event {
        HardwareEvent::EncoderTurn { encoder, delta } => encoder == 2 ==> i32::MIN <= c.sequencer.st().global_transpose + delta <= i32::MAX,
        HardwareEvent::GridPress { grid_id, x, y, pressed } => press_defined(c, identity_of(grid_id@, grid_one, grid_two), x, y, pressed),
        _ => true,
    }
}

/// The effect of a hardware event: encoder 1 changes the swing, encoder 2
/// the transpose; key 1 undoes, key 2 stops and silences, key 3 and the
/// toggle start or stop; grid presses as `grid_press_post`; shutdown is
/// passed on.
pub open spec fn hardware_event_post(c0: SimonSaysSeeq, c1: SimonSaysSeeq, event: HardwareEvent, grid_one: Option<String>, grid_two: Option<String>, connected: usize, ext_running: bool, cmds: Seq<AppCommand>) -> bool {
    match event {
        HardwareEvent::EncoderTurn { encoder, delta } => if encoder == 1 {
            c1 == c0 && cmds == seq![AppCommand::AdjustSwing { delta }]
        } else if encoder == 2 {
            same_controls(c0, c1)
                && set_transpose_post(c0.sequencer, c1.sequencer, turned_transpose(c0.sequencer.st().global_transpose, delta))
                && cmds.len() == 0
        } else {
            c1 == c0 && cmds.len() == 0
        },
        HardwareEvent::KeyPress { key, pressed } => if !pressed {
            c1 == c0 && cmds.len() == 0
        } else if key == 1 {
            same_controls(c0, c1)
                && (exists|r: Result<String, crate::sequencer::engine::SequencerError>| #[trigger] undo_post(c0.sequencer, c1.sequencer, r))
                && cmds.len() == 0
        } else if key == 2 {
            same_controls(c0, c1) && exists|save: bool| #[trigger] stop_post(c0.sequencer, c1.sequencer, save)
                && cmds == (if save { seq![AppCommand::SaveCurrentPattern] } else { seq![] }) + seq![AppCommand::AllNotesOff]
        } else if key == 3 {
            same_controls(c0, c1) && toggle_post(c0.sequencer, c1.sequencer, cmds)
        } else {
            c1 == c0 && cmds.len() == 0
        },
        HardwareEvent::StartStopToggle => same_controls(c0, c1) && toggle_post(c0.sequencer, c1.sequencer, cmds),
        HardwareEvent::GridPress { grid_id, x, y, pressed } => grid_press_post(
            c0, c1, identity_of(grid_id@, grid_one, grid_two), connected, x, y, pressed, ext_running, cmds),
        HardwareEvent::Shutdown => c1 == c0 && cmds == seq![AppCommand::Shutdown],
    }
}

/// The MIDI command of a note event.
pub open spec fn note_command(e: NoteEvent) -> AppCommand {
    if e.note_on {
        AppCommand::NoteOn { note: e.note, velocity: e.velocity, channel: e.channel }
    } else {
        AppCommand::NoteOff { note: e.note, channel: e.channel }
    }
}

/// The MIDI commands of the note events of rows `0..n` at `step`.
pub open spec fn step_note_commands(st: SequencerState, step: usize, n: int) -> Seq<AppCommand>
    decreases n,
{
    if n <= 0 {
        seq![]
    } else {
        step_note_commands(st, step, n - 1) + match step_events_spec(st, (n - 1) as usize, step) {
            None => seq![],
            Some(evs) => evs.map_values(|e: NoteEvent| note_command(e)),
        }
    }
}

/// The commands of a sequencer event: a step plays the note events of
/// rows 0 to 6 and sends the CO2 voltages; a beat is shown; a playhead move
/// redraws its LEDs; a note message of sequencer A is sent.
pub open spec fn sequencer_event_commands(st: SequencerState, event: SequencerEvent, connected: usize) -> Seq<AppCommand> {
    match event {
        SequencerEvent::Step { step } => step_note_commands(st, step, 7) + seq![AppCommand::Co2StepOutput { step }],
        SequencerEvent::Beat { beat } => seq![AppCommand::BeatIndicator { beat }],
        SequencerEvent::GridUpdate { row, old_step, new_step } => grid_update_leds(st, row, old_step, new_step, connected),
        SequencerEvent::MidiEvent(m) => if m.sequencer_source == 'A' {
            if m.note_on {
                seq![AppCommand::NoteOn { note: m.note, velocity: m.velocity, channel: m.channel }]
            } else {
                seq![AppCommand::NoteOff { note: m.note, channel: m.channel }]
            }
        } else {
            seq![]
        },
    }
}

/// The inputs on which a MIDI input event can be handled: a clock tick
/// that advances a step needs counters that can advance.
pub open spec fn midi_event_defined(c: SimonSaysSeeq, event: MidiInputEvent) -> bool {
    (event == MidiInputEvent::ClockTick && c.sequencer.st().is_running && c.external_clock_tick_counter % 6 == 0)
        ==> c.sequencer.st().counters_ok() && c.sequencer.st().tick_count_since_midi_clock_start < u64::MAX
}

/// The effect of a MIDI input event: start and stop drive the transport,
/// clear the clock count and reset the CO2 counters; while running, every
/// sixth clock tick (from the first) advances a step, whose events are
/// queued, and every tick advances the CO2 tick voltage.
pub open spec fn midi_event_post(c0: SimonSaysSeeq, c1: SimonSaysSeeq, event: MidiInputEvent, cmds: Seq<AppCommand>) -> bool {
    match event {
        MidiInputEvent::ClockStart => {
            &&& start_post(c0.sequencer, c1.sequencer)
            &&& (c1 == SimonSaysSeeq { sequencer: c1.sequencer, external_clock_tick_counter: 0, ..c0 })
            &&& cmds == seq![AppCommand::ResetCo2Counters]
        },
        MidiInputEvent::ClockStop => {
            &&& (c1 == SimonSaysSeeq { sequencer: c1.sequencer, external_clock_tick_counter: 0, ..c0 })
            &&& exists|save: bool| #[trigger] stop_post(c0.sequencer, c1.sequencer, save)
                && cmds == (if save { seq![AppCommand::SaveCurrentPattern] } else { seq![] }) + seq![AppCommand::ResetCo2Counters]
        },
        MidiInputEvent::ClockTick => if c0.sequencer.st().is_running {
            &&& (c1 == SimonSaysSeeq {
                sequencer: c1.sequencer,
                external_clock_tick_counter: if c0.external_clock_tick_counter == u32::MAX { 0 } else { (c0.external_clock_tick_counter + 1) as u32 },
                ..c0
            })
            &&& if c0.external_clock_tick_counter % 6 == 0 {
                exists|evs: Seq<SequencerEvent>| #[trigger] advance_step_post(c0.sequencer, c1.sequencer, evs)
                    && cmds == evs.map_values(|e: SequencerEvent| AppCommand::QueueSequencerEvent(e)) + seq![AppCommand::Co2TickAdvance]
            } else {
                c1.sequencer == c0.sequencer && cmds == seq![AppCommand::Co2TickAdvance]
            }
        } else {
            c1 == c0 && cmds.len() == 0
        },
        _ => c1 == c0 && cmds.len() == 0,
    }
}

/// The commands of a SimonSaysSeeq SysEx message `F0 7D 53 53 51 <cmd> ...`
/// (at least 7 bytes; the first is not checked): 01 reloads the pattern;
/// 02 `<row> <col> <press>` (at least 10 bytes) presses a virtual button,
/// columns 16 and up on the second grid; 10 asks whether test mode is on.
pub open spec fn sysex_commands(data: Seq<u8>, test_mode: bool) -> Seq<AppCommand> {
    if data.len() >= 7 && data[1] == 0x7D && data[2] == 0x53 && data[3] == 0x53 && data[4] == 0x51 {
        let cmd = data[5];
        if cmd == 0x01 {
            seq![AppCommand::ReloadCurrentPattern]
        } else if cmd == 0x02 {
            if data.len() >= 10 {
                let row = data[6] as usize;
                let col = data[7] as usize;
                seq![AppCommand::InjectVirtualButton {
                    second_grid: col >= 16,
                    x: if col < 16 { col } else { (col - 16) as usize },
                    y: row,
                    pressed: data[8] != 0,
                }]
            } else {
                seq![]
            }
        } else if cmd == 0x10 {
            seq![AppCommand::SendTestModeReply { active: test_mode }]
        } else {
            seq![]
        }
    } else {
        seq![]
    }
}

impl SimonSaysSeeq {
    /// The start/stop toggle (see `toggle_post`).
    fn toggle_transport(&mut self) -> (cmds: Vec<AppCommand>)
        requires
            old(self).wf(),
        ensures
            final(self).wf(),
            same_controls(*old(self), *final(self)),
            toggle_post(old(self).sequencer, final(self).sequencer, cmds@),
    {
        let mut cmds: Vec<AppCommand> = Vec::new();
        if self.sequencer.is_running() {
            let save = self.sequencer.stop();
            if save {
                cmds.push(AppCommand::SaveCurrentPattern);
            }
            cmds.push(AppCommand::AllNotesOff);
            assert(cmds@ =~= (if save { seq![AppCommand::SaveCurrentPattern] } else { seq![] }) + seq![AppCommand::AllNotesOff]);
            assert(stop_post(old(self).sequencer, self.sequencer, save)
                && cmds@ == (if save { seq![AppCommand::SaveCurrentPattern] } else { seq![] }) + seq![AppCommand::AllNotesOff]);
        } else {
            self.sequencer.start();
        }
        cmds
    }

    /// Handles a hardware event (see `hardware_event_post`). `grid_one` and
    /// `grid_two` are the ids of the first and second grids.
    pub fn handle_hardware_event(&mut self, event: HardwareEvent, grid_one: &Option<String>, grid_two: &Option<String>, connected: usize, ext_running: bool) -> (cmds: Vec<AppCommand>)
        requires
            old(self).wf(),
            hardware_event_defined(*old(self), event, *grid_one, *grid_two),
        ensures
            final(self).wf(),
            hardware_event_post(*old(self), *final(self), event, *grid_one, *grid_two, connected, ext_running, cmds@),
    {
        let mut cmds: Vec<AppCommand> = Vec::new();
        match event {
            HardwareEvent::EncoderTurn { encoder, delta } => {
                if encoder == 1 {
                    cmds.push(AppCommand::AdjustSwing { delta });
                    assert(cmds@ =~= seq![AppCommand::AdjustSwing { delta }]);
                } else if encoder == 2 {
                    let current = self.sequencer.get_global_transpose();
                    let n: i32 = current as i32 + delta;
                    let t: i8 = if n < -24 { -24 } else if n > 24 { 24 } else { n as i8 };
                    self.sequencer.set_global_transpose(t);
                }
            },
            HardwareEvent::KeyPress { key, pressed } => {
                if pressed {
                    if key == 1 {
                        let r = self.sequencer.undo();
                        assert(undo_post(old(self).sequencer, self.sequencer, r));
                    } else if key == 2 {
                        let save = self.sequencer.stop();
                        if save {
                            cmds.push(AppCommand::SaveCurrentPattern);
                        }
                        cmds.push(AppCommand::AllNotesOff);
                        assert(cmds@ =~= (if save { seq![AppCommand::SaveCurrentPattern] } else { seq![] }) + seq![AppCommand::AllNotesOff]);
                        assert(stop_post(old(self).sequencer, self.sequencer, save)
                            && cmds@ == (if save { seq![AppCommand::SaveCurrentPattern] } else { seq![] }) + seq![AppCommand::AllNotesOff]);
                    } else if key == 3 {
                        cmds = self.toggle_transport();
                    }
                }
            },
            HardwareEvent::StartStopToggle => {
                cmds = self.toggle_transport();
            },
            HardwareEvent::GridPress { grid_id, x, y, pressed } => {
                let id = identify_grid(&grid_id, grid_one, grid_two);
                assert(id == identity_of(grid_id@, *grid_one, *grid_two));
                cmds = self.handle_grid_press(id, connected, x, y, pressed, ext_running);
            },
            HardwareEvent::Shutdown => {
                cmds.push(AppCommand::Shutdown);
                assert(cmds@ =~= seq![AppCommand::Shutdown]);
            },
        }
        cmds
    }

    /// The commands of a sequencer event (see `sequencer_event_commands`).
    pub fn handle_sequencer_event(&self, event: SequencerEvent, connected: usize) -> (cmds: Vec<AppCommand>)
        requires
            self.wf(),
            event matches SequencerEvent::Step { step } ==> forall|r: usize| r < 7 ==> #[trigger] step_events_defined(self.sequencer.st(), r, step),
        ensures
            cmds@ == sequencer_event_commands(self.sequencer.st(), event, connected),
    {
        let mut cmds: Vec<AppCommand> = Vec::new();
        match event {
            SequencerEvent::Step { step } => {
                let ghost st = self.sequencer.st();
                let mut row: usize = 0;
                while row <= 6
                    invariant
                        self.wf(),
                        st == self.sequencer.st(),
                        row <= 7,
                        forall|r: usize| r < 7 ==> #[trigger] step_events_defined(st, r, step),
                        cmds@ == step_note_commands(st, step, row as int),
                    decreases 7 - row,
                {
                    assert(step_events_defined(st, row, step));
                    match self.sequencer.get_step_events(row, 0, step) {
                        Some(note_events) => {
                            let ghost before = cmds@;
                            let mut i: usize = 0;
                            while i < note_events.len()
                                invariant
                                    i <= note_events@.len(),
                                    cmds@ == before + note_events@.subrange(0, i as int).map_values(|e: NoteEvent| note_command(e)),
                                decreases note_events@.len() - i,
                            {
                                let e = note_events[i];
                                if e.note_on {
                                    cmds.push(AppCommand::NoteOn { note: e.note, velocity: e.velocity, channel: e.channel });
                                } else {
                                    cmds.push(AppCommand::NoteOff { note: e.note, channel: e.channel });
                                }
                                proof {
                                    assert(note_events@.subrange(0, i + 1).map_values(|e: NoteEvent| note_command(e))
                                        =~= note_events@.subrange(0, i as int).map_values(|e: NoteEvent| note_command(e)).push(note_command(e)));
                                }
                                i = i + 1;
                            }
                            proof {
                                assert(note_events@.subrange(0, note_events@.len() as int) =~= note_events@);
                            }
                        },
                        None => {},
                    }
                    row = row + 1;
                }
                cmds.push(AppCommand::Co2StepOutput { step });
            },
            SequencerEvent::Beat { beat } => {
                cmds.push(AppCommand::BeatIndicator { beat });
                assert(cmds@ =~= seq![AppCommand::BeatIndicator { beat }]);
            },
            SequencerEvent::GridUpdate { row, old_step, new_step } => {
                cmds = self.handle_grid_update(row, old_step, new_step, connected);
            },
            SequencerEvent::MidiEvent(m) => {
                if m.sequencer_source == 'A' {
                    if m.note_on {
                        cmds.push(AppCommand::NoteOn { note: m.note, velocity: m.velocity, channel: m.channel });
                    } else {
                        cmds.push(AppCommand::NoteOff { note: m.note, channel: m.channel });
                    }
                }
                assert(cmds@ =~= sequencer_event_commands(self.sequencer.st(), event, connected));
            },
        }
        cmds
    }

    /// Handles a MIDI input event (see `midi_event_post`).
    pub fn handle_midi_input_event(&mut self, event: MidiInputEvent) -> (cmds: Vec<AppCommand>)
        requires
            old(self).wf(),
            midi_event_defined(*old(self), event),
        ensures
            final(self).wf(),
            midi_event_post(*old(self), *final(self), event, cmds@),
    {
        let mut cmds: Vec<AppCommand> = Vec::new();
        match event {
            MidiInputEvent::ClockStart => {
                self.sequencer.start();
                self.external_clock_tick_counter = 0;
                cmds.push(AppCommand::ResetCo2Counters);
                assert(cmds@ =~= seq![AppCommand::ResetCo2Counters]);
            },
            MidiInputEvent::ClockStop => {
                let save = self.sequencer.stop();
                if save {
                    cmds.push(AppCommand::SaveCurrentPattern);
                }
                self.external_clock_tick_counter = 0;
                cmds.push(AppCommand::ResetCo2Counters);
                assert(cmds@ =~= (if save { seq![AppCommand::SaveCurrentPattern] } else { seq![] }) + seq![AppCommand::ResetCo2Counters]);
            },
            MidiInputEvent::ClockTick => {
                if self.sequencer.is_running() {
                    let tick_count = self.external_clock_tick_counter;
                    if tick_count % 6 == 0 {
                        let events = self.sequencer.external_advance_step();
                        let mut i: usize = 0;
                        while i < events.len()
                            invariant
                                i <= events@.len(),
                                cmds@ == events@.subrange(0, i as int).map_values(|e: SequencerEvent| AppCommand::QueueSequencerEvent(e)),
                            decreases events@.len() - i,
                        {
                            cmds.push(AppCommand::QueueSequencerEvent(events[i]));
                            proof {
                                assert(events@.subrange(0, i + 1).map_values(|e: SequencerEvent| AppCommand::QueueSequencerEvent(e))
                                    =~= events@.subrange(0, i as int).map_values(|e: SequencerEvent| AppCommand::QueueSequencerEvent(e))
                                        .push(AppCommand::QueueSequencerEvent(events@[i as int])));
                            }
                            i = i + 1;
                        }
                        proof {
                            assert(events@.subrange(0, events@.len() as int) =~= events@);
                        }
                        self.external_clock_tick_counter = if tick_count == u32::MAX { 0 } else { tick_count + 1 };
                        cmds.push(AppCommand::Co2TickAdvance);
                        assert(cmds@ =~= events@.map_values(|e: SequencerEvent| AppCommand::QueueSequencerEvent(e)) + seq![AppCommand::Co2TickAdvance]);
                        assert(advance_step_post(old(self).sequencer, self.sequencer, events@)
                            && cmds@ == events@.map_values(|e: SequencerEvent| AppCommand::QueueSequencerEvent(e)) + seq![AppCommand::Co2TickAdvance]);
                    } else {
                        self.external_clock_tick_counter = if tick_count == u32::MAX { 0 } else { tick_count + 1 };
                        cmds.push(AppCommand::Co2TickAdvance);
                        assert(cmds@ =~= seq![AppCommand::Co2TickAdvance]);
                    }
                }
            },
            _ => {},
        }
        cmds
    }

    /// The commands of a SysEx message (see `sysex_commands`).
    pub fn handle_sysex(&self, data: &[u8]) -> (cmds: Vec<AppCommand>)
        ensures
            cmds@ == sysex_commands(data@, self.sequencer.in_test_mode()),
    {
        let mut cmds: Vec<AppCommand> = Vec::new();
        if data.len() >= 7 && data[1] == 0x7D && data[2] == 0x53 && data[3] == 0x53 && data[4] == 0x51 {
            let command = data[5];
            if command == 0x01 {
                cmds.push(AppCommand::ReloadCurrentPattern);
            } else if command == 0x02 {
                if data.len() >= 10 {
                    let row = data[6] as usize;
                    let col = data[7] as usize;
                    let press = data[8] != 0;
                    let x = if col < 16 { col } else { col - 16 };
                    cmds.push(AppCommand::InjectVirtualButton { second_grid: col >= 16, x, y: row, pressed: press });
                }
            } else if command == 0x10 {
                cmds.push(AppCommand::SendTestModeReply { active: self.sequencer.is_test_mode() });
            }
        }
        assert(cmds@ =~= sysex_commands(data@, self.sequencer.in_test_mode()));
        cmds
    }
}

/// The SysEx answer to the test-mode query: `F0 7D 53 53 51 11 F7` when
/// test mode is on, `... 12 F7` when it is off.
pub fn test_mode_reply(active: bool) -> (msg: Vec<u8>)
    ensures
        msg@ == seq![0xF0u8, 0x7D, 0x53, 0x53, 0x51, if active { 0x11u8 } else { 0x12u8 }, 0xF7],
{
    let command: u8 = if active { 0x11 } else { 0x12 };
    vec![0xF0, 0x7D, 0x53, 0x53, 0x51, command, 0xF7]
}

/// Once a first held row is found among the first `k` rows, scanning more
/// rows finds the same one.
proof fn lemma_first_held_stable(st: SequencerState, k: int, n: int)
    requires
        k <= n,
        first_held_row(st, k) is Some,
    ensures
        first_held_row(st, n) == first_held_row(st, k),
    decreases n - k,
{
    if n > k {
        lemma_first_held_stable(st, k, n - 1);
    }
}

/// The brightness of a step LED (see `step_brightness`).
pub fn led_brightness(has_pattern: bool, is_current: bool) -> (b: u8)
    ensures
        b == step_brightness(has_pattern, is_current),
{
    if has_pattern {
        if is_current { LED_MAX } else { LED_BRIGHT }
    } else {
        if is_current { LED_DIM } else { LED_OFF }
    }
}

} // verus!
