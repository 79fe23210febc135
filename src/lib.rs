//! Control plane of a polyphonic software synthesizer.
//!
//! The library turns MIDI bytes and a step sequencer's clock into messages
//! for an external audio engine: it builds the per-channel synthesis graph,
//! allocates a fixed pool of voices with deterministic stealing, runs the
//! sequencer's tick/tock grid and the drift-correcting clock that drives it.
//! Everything that touches devices, threads or floating point lives outside.

pub mod config;
pub mod message;
pub mod control;
pub mod engine;
pub mod note;
pub mod sequencer;
pub mod clock;
pub mod midi;
pub mod serial;

pub use clock::{Clock, Phase};
pub use control::{ControlMap, ModuleType};
pub use engine::{Core, Engine, NodeId};
pub use message::{Fraction, Level, Message, ModuleSpec, ParamValue};
pub use midi::Midi;
pub use note::{NoteEvent, NoteModule, Voice};
pub use sequencer::Sequencer;
pub use serial::Serial;
