//! Semantic events and commands exchanged with the grid controller.

use vstd::prelude::*;

verus! {

/// An event produced by the hardware for the host application.
#[derive(Clone, Copy, Debug, PartialEq, Eq, Structural)]
pub enum MidiEvent {
    NoteOn { note: u8, velocity: u8 },
    ControlChange { controller: u8, value: u8 },
    Connected,
    Disconnected,
}

/// A command issued by the host application for the hardware.
#[derive(Clone, Copy, Debug, PartialEq, Eq, Structural)]
pub enum MidiCommand {
    SetPadColor { note: u8, color: u8 },
    SetButtonColor { cc: u8, color: u8 },
    ClearAll,
}

} // verus!
