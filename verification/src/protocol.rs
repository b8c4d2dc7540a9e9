//! The pluggable protocol seat: the capability a connection handler
//! could consult, with its actions, and the placeholder that fills the
//! seat today.  The placeholder performs no protocol step: poking it
//! always answers that there is nothing to do yet, and a delivered
//! message changes nothing.

use vstd::prelude::*;

verus! {

/// What a protocol step asks of its host: wait for more messages,
/// send bytes to the peers, or finish with an output.
#[derive(Debug, PartialEq)]
pub enum ProtocolAction {
    Wait,
    Send { data: Vec<u8> },
    Return { output: String },
}

/// The failure a protocol step may report.
#[derive(Debug, PartialEq)]
pub enum ProtocolError {
    Failed { reason: String },
}

/// The placeholder protocol: it never advances and never fails.
#[derive(Clone, Copy, Debug, PartialEq, Eq, Structural)]
pub struct StubProtocol {}

impl StubProtocol {
    /// Creates the placeholder.
    pub fn new() -> (p: StubProtocol) {
        StubProtocol {  }
    }

    /// One poke of the placeholder: always `Wait`, never an error,
    /// nothing changed.
    pub fn poke(&mut self) -> (r: Result<ProtocolAction, ProtocolError>)
        ensures
            *final(self) == *old(self),
            r == Result::<ProtocolAction, ProtocolError>::Ok(ProtocolAction::Wait),
    {
        Ok(ProtocolAction::Wait)
    }

    /// A message delivered to the placeholder: dropped, nothing
    /// changed.
    pub fn on_message(&mut self, _from: u32, _data: Vec<u8>)
        ensures
            *final(self) == *old(self),
    {
    }
}

} // verus!
