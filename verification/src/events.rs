//! Messages passed between the node's tasks.
use vstd::prelude::*;

use crate::text::Text;

verus! {

/// Events sent to the display task.
pub enum DisplayEvent {
    /// A new message arrived from a remote node.
    MessageReceived { id: u8, text: Text },
    /// Our outgoing message was transmitted (awaiting ACK).
    MessageSent { id: u8, text: Text },
    /// A previously sent message was acknowledged by the remote.
    MessageConfirmed { id: u8 },
    /// A previously sent message was given up on after retries.
    MessageDiscarded { id: u8 },
}

/// Raw bytes from the UART or BLE, to be framed by the protocol layer.
pub struct TxRequest {
    pub payload: heapless::Vec<u8, 124>,
}

} // verus!
