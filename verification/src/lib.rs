//! The engine of a minimal peer-to-peer text-messaging node: the
//! decisions of the accept loop, of each inbound connection handler,
//! of the single outbound session driver, and the bounded channel
//! that serializes all inbound messages for display.  The
//! surrounding process performs the socket work and hands every
//! outcome to these functions; what they decide is stated, exactly,
//! in their contracts.

pub mod addr;
pub mod channel;
pub mod inbound;
pub mod message;
pub mod outbound;
pub mod protocol;

use vstd::prelude::*;

verus! {

/// Number of messages the bounded message channel can hold at once.
pub const CHANNEL_CAPACITY: usize = 32;

} // verus!
