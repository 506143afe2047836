use vstd::prelude::*;

verus! {

/// The unified error type for every MIDI transport operation.
///
/// The transport itself lives outside this crate; it converts its own
/// failures into one of these variants, so no transport-specific error type
/// crosses a public API boundary.
#[derive(Debug, Copy, Clone)]
pub enum MidiError {
    /// Connecting to a MIDI input port failed.
    InputConnectError,
    /// Connecting to a MIDI output port failed.
    OutputConnectError,
    /// MIDI context initialization failed.
    InitError,
    /// Retrieving a MIDI port's information failed.
    PortInfoError,
    /// Sending a MIDI message failed.
    SendError,
    /// No port matched the device keyword that was searched for.
    NoPortFound { keyword: &'static str },
}

impl MidiError {
    /// A short human-readable description of the failure.
    pub fn description(&self) -> &'static str {
        match self {
            MidiError::InputConnectError => "connecting to MIDI input port failed",
            MidiError::OutputConnectError => "connecting to MIDI output port failed",
            MidiError::InitError => "MIDI context initialization failed",
            MidiError::PortInfoError => "MIDI port retrieval failed",
            MidiError::SendError => "sending MIDI message failed",
            MidiError::NoPortFound { .. } => "couldn't find a matching port",
        }
    }
}

} // verus!
