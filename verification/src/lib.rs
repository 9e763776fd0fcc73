//! Verified core of the SimonSaysSeeq gate sequencer for Norns-class hardware.

pub mod grid_model;
pub mod text;
pub mod sequencer;
pub mod hardware;
pub mod midi;
pub mod midi_ports;
pub mod control;
pub mod screen;
pub mod config;
pub mod version;
pub mod midi_scanner;
pub mod grid_osc;
pub mod test_script;
pub mod state_log;
pub mod clock_generator;
pub mod generator_input;
pub mod clock_monitor;
pub mod co2;
pub mod crow;

pub use version::VERSION;
