//! Turns the notes held on a MIDI instrument into the button bytes of a
//! game controller's input report.
//!
//! * [`midi`] parses messages and keeps the list of held notes.
//! * [`mapping`] says which buttons a note stands for.
//! * [`nscontroller`] packs a set of buttons into the three button bytes.
//! * [`relay`] writes those bytes into the frames that pass from the
//!   controller to the gadget.

pub mod mapping;
pub mod midi;
pub mod nscontroller;
pub mod relay;

pub use crate::midi::{MidiMessageData, MidiMessageTypes};
