//! The decisions of the accept loop and of the per-connection inbound
//! handler.  The surrounding tasks do the socket work and hand each
//! outcome here; these functions decide, exactly, what follows: spawn
//! a handler or keep listening, forward a message or stop.

use crate::addr::Addr;
use crate::channel::{lemma_channel_delivers_exactly, spec_after_sends};
use crate::message::{lossy_decode, Message};
use vstd::prelude::*;

verus! {

/// The outcome of one read on an inbound connection, as the handler's
/// task observes it: a chunk of bytes (empty when the peer closed its
/// write side cleanly), or a read error.
#[derive(Debug, PartialEq)]
pub enum ReadEvent {
    Data { bytes: Vec<u8> },
    ReadError,
}

/// What the handler does after one read: forward a message to the
/// channel, stop because the peer closed cleanly, or stop on an error.
/// Either stop is final for this one connection and touches no other.
#[derive(Debug, PartialEq)]
pub enum HandlerStep {
    Forward { message: Message },
    StopClean,
    StopError,
}

/// The inbound handler's decision for one read outcome.
///
/// A non-empty chunk becomes exactly one message, decoded best-effort
/// and tagged with the connection's remote endpoint; an empty read
/// (the peer closed) ends the handler cleanly with no message at all;
/// a read error ends it too.  The handler never retries.
pub fn inbound_step(origin: Addr, event: ReadEvent) -> (step: HandlerStep)
    ensures
        match event {
            ReadEvent::Data { bytes } => {
                if bytes@.len() == 0 {
                    step == HandlerStep::StopClean
                } else {
                    step matches HandlerStep::Forward { message } && message.origin == origin
                        && message.text@ == lossy_decode(bytes@)
                }
            },
            ReadEvent::ReadError => step == HandlerStep::StopError,
        },
{
    match event {
        ReadEvent::Data { bytes } => {
            if bytes.len() == 0 {
                HandlerStep::StopClean
            } else {
                HandlerStep::Forward { message: Message::from_bytes(origin, bytes.as_slice()) }
            }
        },
        ReadEvent::ReadError => HandlerStep::StopError,
    }
}

/// Every byte a peer writes reaches the display loop, cut only at the
/// read-chunk boundaries: when a handler forwards one message per
/// non-empty chunk — each, as `inbound_step` ensures, decoding exactly
/// its chunk's bytes and tagged with the connection's endpoint — then
/// after sending them the channel delivers exactly one message per
/// chunk, in chunk order, each still carrying that chunk's decoded
/// bytes and the right origin: nothing lost, nothing added, nothing
/// reordered.
pub proof fn lemma_connection_bytes_delivered(
    origin: Addr,
    chunks: Seq<Seq<u8>>,
    msgs: Seq<Message>,
)
    requires
        msgs.len() == chunks.len(),
        forall|i: int|
            0 <= i < msgs.len() ==> (#[trigger] msgs[i]).origin == origin && msgs[i].text@
                == lossy_decode(chunks[i]),
    ensures
        ({
            let delivered = spec_after_sends(Seq::<Message>::empty(), msgs);
            &&& delivered.len() == chunks.len()
            &&& forall|i: int|
                0 <= i < delivered.len() ==> (#[trigger] delivered[i]).origin == origin
                    && delivered[i].text@ == lossy_decode(chunks[i])
        }),
{
    lemma_channel_delivers_exactly(msgs);
}

/// What the accept loop does with one accept outcome: start a handler
/// task for the new connection, or keep listening.
#[derive(Debug, PartialEq)]
pub enum AcceptDecision {
    SpawnHandler,
    KeepListening,
}

/// The accept loop's decision for one accept outcome.  A successful
/// accept spawns one handler; an accept error is transient and never
/// stops the listener.
pub fn accept_step(accepted: bool) -> (d: AcceptDecision)
    ensures
        d == if accepted {
            AcceptDecision::SpawnHandler
        } else {
            AcceptDecision::KeepListening
        },
{
    if accepted {
        AcceptDecision::SpawnHandler
    } else {
        AcceptDecision::KeepListening
    }
}

} // verus!
