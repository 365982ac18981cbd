//! The messages that worker threads exchange through the broker.

use crate::frame_messages::{ClientPayload, FilterAck, FilterFrame};
use vstd::prelude::*;

verus! {

/// A message between workers. `R` is the handle of an outbound relay
/// connection, which only the threads that do I/O know how to use.
#[derive(Debug, Clone)]
pub enum InternalMessage<R> {
    NewClientMessage(ClientPayload),
    RelayReady(R),
    NewFilter(FilterFrame),
    FilterAck(FilterAck),
    Shutdown,
}

} // verus!
