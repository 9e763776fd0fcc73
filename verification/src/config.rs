//! Settings of the MIDI, grid, step and display parts, and the rules that a
//! configuration must meet.

use vstd::prelude::*;
use vstd::string::*;

verus! {

/// MIDI-related configuration.
#[derive(Debug, Clone)]
pub struct MidiConfig {
    /// MIDI output device name (empty = auto-detect).
    pub device: String,
    /// Default MIDI channel (1-16).
    pub default_channel: u8,
    /// Default velocity.
    pub default_velocity: u8,
    /// Send MIDI clock.
    pub send_clock: bool,
    /// MIDI clock pulses per quarter note.
    pub clock_ppq: u16,
    /// Stuck note cleanup timeout (seconds).
    pub stuck_note_timeout: u64,
}

/// Grid-related configuration.
#[derive(Debug, Clone, Copy, PartialEq, Eq, Structural)]
pub struct GridConfig {
    /// Grid rotation (0, 90, 180, 270 degrees).
    pub rotation: u16,
    /// Default LED brightness (0-15).
    pub default_brightness: u8,
    /// Button debounce time (milliseconds).
    pub debounce_ms: u64,
    /// Auto-detect grids.
    pub auto_detect: bool,
}

/// The step layout of the sequencer settings.
#[derive(Debug, Clone, Copy, PartialEq, Eq, Structural)]
pub struct StepSettings {
    /// Steps per bar.
    pub steps_per_bar: usize,
    /// Ticks per step.
    pub ticks_per_step: u32,
    /// Default first step for new patterns.
    pub default_first_step: usize,
    /// Default last step for new patterns.
    pub default_last_step: usize,
    /// Auto-save interval (seconds, 0 = disabled).
    pub auto_save_interval: u64,
}

/// Display configuration.
#[derive(Debug, Clone, Copy, PartialEq, Eq, Structural)]
pub struct DisplayConfig {
    /// Screen refresh rate (frames per second).
    pub refresh_rate: u32,
    /// Screen brightness (0-255).
    pub brightness: u8,
    /// Show beat indicators.
    pub show_beat_indicators: bool,
    /// Show tempo visualization.
    pub show_tempo_viz: bool,
    /// Text font scale.
    pub font_scale: u8,
}

impl Default for MidiConfig {
    fn default() -> (c: Self)
        ensures
            c.device@.len() == 0,
            c.default_channel == 1,
            c.default_velocity == 100,
            c.send_clock,
            c.clock_ppq == 24,
            c.stuck_note_timeout == 5,
    {
        MidiConfig {
            device: String::new(),
            default_channel: 1,
            default_velocity: 100,
            send_clock: true,
            clock_ppq: 24,
            stuck_note_timeout: 5,
        }
    }
}

impl Default for GridConfig {
    fn default() -> (c: Self)
        ensures
            c == (GridConfig { rotation: 0, default_brightness: 5, debounce_ms: 50, auto_detect: true }),
    {
        GridConfig { rotation: 0, default_brightness: 5, debounce_ms: 50, auto_detect: true }
    }
}

impl Default for StepSettings {
    fn default() -> (c: Self)
        ensures
            c == (StepSettings {
                steps_per_bar: 16,
                ticks_per_step: 12,
                default_first_step: 1,
                default_last_step: 16,
                auto_save_interval: 300,
            }),
    {
        StepSettings {
            steps_per_bar: 16,
            ticks_per_step: 12,
            default_first_step: 1,
            default_last_step: 16,
            auto_save_interval: 300,
        }
    }
}

impl Default for DisplayConfig {
    fn default() -> (c: Self)
        ensures
            c == (DisplayConfig {
                refresh_rate: 30,
                brightness: 255,
                show_beat_indicators: true,
                show_tempo_viz: true,
                font_scale: 1,
            }),
    {
        DisplayConfig {
            refresh_rate: 30,
            brightness: 255,
            show_beat_indicators: true,
            show_tempo_viz: true,
            font_scale: 1,
        }
    }
}

/// The first rule that a configuration breaks.
#[derive(Debug, Clone, Copy, PartialEq, Eq, Structural)]
pub enum ConfigError {
    MidiChannel,
    MidiVelocity,
    GridRotation,
    GridBrightness,
    Tempo,
    StepsPerBar,
    TicksPerStep,
    StepRange,
    RefreshRate,
    FontScale,
}

impl ConfigError {
    /// The text that reports the error.
    pub fn message(&self) -> (s: String)
        ensures
            s@ == self.text()@,
    {
        let text = match self {
            ConfigError::MidiChannel => "MIDI channel must be 1-16",
            ConfigError::MidiVelocity => "MIDI velocity must be 0-127",
            ConfigError::GridRotation => "Grid rotation must be 0, 90, 180, or 270 degrees",
            ConfigError::GridBrightness => "Grid brightness must be 0-15",
            ConfigError::Tempo => "Tempo must be between 60-200 BPM",
            ConfigError::StepsPerBar => "Steps per bar must be 1-64",
            ConfigError::TicksPerStep => "Ticks per step must be 1-96",
            ConfigError::StepRange => "Invalid step range",
            ConfigError::RefreshRate => "Refresh rate must be 1-120 FPS",
            ConfigError::FontScale => "Font scale must be 1-4",
        };
        String::from_str(text)
    }

    /// The text of each error.
    pub open spec fn text(&self) -> &'static str {
        match self {
            ConfigError::MidiChannel => "MIDI channel must be 1-16",
            ConfigError::MidiVelocity => "MIDI velocity must be 0-127",
            ConfigError::GridRotation => "Grid rotation must be 0, 90, 180, or 270 degrees",
            ConfigError::GridBrightness => "Grid brightness must be 0-15",
            ConfigError::Tempo => "Tempo must be between 60-200 BPM",
            ConfigError::StepsPerBar => "Steps per bar must be 1-64",
            ConfigError::TicksPerStep => "Ticks per step must be 1-96",
            ConfigError::StepRange => "Invalid step range",
            ConfigError::RefreshRate => "Refresh rate must be 1-120 FPS",
            ConfigError::FontScale => "Font scale must be 1-4",
        }
    }
}

/// The rules in the order in which they are checked, each with the error it
/// raises; the first rule broken decides.
pub open spec fn config_check(
    midi: MidiConfig,
    grid: GridConfig,
    tempo_within_limits: bool,
    steps: StepSettings,
    display: DisplayConfig,
) -> Result<(), ConfigError> {
    if midi.default_channel < 1 || midi.default_channel > 16 {
        Err(ConfigError::MidiChannel)
    } else if midi.default_velocity > 127 {
        Err(ConfigError::MidiVelocity)
    } else if !(grid.rotation == 0 || grid.rotation == 90 || grid.rotation == 180 || grid.rotation
        == 270) {
        Err(ConfigError::GridRotation)
    } else if grid.default_brightness > 15 {
        Err(ConfigError::GridBrightness)
    } else if !tempo_within_limits {
        Err(ConfigError::Tempo)
    } else if steps.steps_per_bar == 0 || steps.steps_per_bar > 64 {
        Err(ConfigError::StepsPerBar)
    } else if steps.ticks_per_step == 0 || steps.ticks_per_step > 96 {
        Err(ConfigError::TicksPerStep)
    } else if steps.default_first_step == 0 || steps.default_last_step == 0
        || steps.default_first_step > steps.default_last_step || steps.default_last_step
        > steps.steps_per_bar {
        Err(ConfigError::StepRange)
    } else if display.refresh_rate == 0 || display.refresh_rate > 120 {
        Err(ConfigError::RefreshRate)
    } else if display.font_scale == 0 || display.font_scale > 4 {
        Err(ConfigError::FontScale)
    } else {
        Ok(())
    }
}

/// Checks a configuration. `tempo_within_limits` says whether the default
/// tempo lies within 60-200 BPM, which the caller judges on its own value.
pub fn validate_config(
    midi: &MidiConfig,
    grid: &GridConfig,
    tempo_within_limits: bool,
    steps: &StepSettings,
    display: &DisplayConfig,
) -> (r: Result<(), ConfigError>)
    ensures
        r == config_check(*midi, *grid, tempo_within_limits, *steps, *display),
{
    if midi.default_channel < 1 || midi.default_channel > 16 {
        return Err(ConfigError::MidiChannel);
    }
    if midi.default_velocity > 127 {
        return Err(ConfigError::MidiVelocity);
    }
    let rotation = grid.rotation;
    if !(rotation == 0 || rotation == 90 || rotation == 180 || rotation == 270) {
        return Err(ConfigError::GridRotation);
    }
    if grid.default_brightness > 15 {
        return Err(ConfigError::GridBrightness);
    }
    if !tempo_within_limits {
        return Err(ConfigError::Tempo);
    }
    if steps.steps_per_bar == 0 || steps.steps_per_bar > 64 {
        return Err(ConfigError::StepsPerBar);
    }
    if steps.ticks_per_step == 0 || steps.ticks_per_step > 96 {
        return Err(ConfigError::TicksPerStep);
    }
    if steps.default_first_step == 0 || steps.default_last_step == 0 || steps.default_first_step
        > steps.default_last_step || steps.default_last_step > steps.steps_per_bar {
        return Err(ConfigError::StepRange);
    }
    if display.refresh_rate == 0 || display.refresh_rate > 120 {
        return Err(ConfigError::RefreshRate);
    }
    if display.font_scale == 0 || display.font_scale > 4 {
        return Err(ConfigError::FontScale);
    }
    Ok(())
}

} // verus!
