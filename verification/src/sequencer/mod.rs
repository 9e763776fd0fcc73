//! The sequencer: pattern grid, per-row step counters, transport, undo/redo,
//! pattern storage and the events produced when the external clock advances
//! a step.
//!
//! The sequencer is a plain value. Everything it wants to send to the outside
//! (MIDI notes, LED updates, step notifications) is returned as a list of
//! `SequencerEvent`s, in the order in which they are to be sent.

pub mod types;
pub mod euclid;
pub mod engine;
pub mod laws;

pub use types::{
    MidiEvent, MidiNoteEvent, NoteEvent, PendingNoteOff, SequencerARowStates, SequencerEvent,
    SequencerState,
};
pub use engine::{Sequencer, SequencerError, StateSnapshot};
