//! What the radio hardware reports back to the coordinator.
use vstd::prelude::*;

verus! {

/// Errors surfaced from radio operations.
///
/// Kept coarse on purpose: the coordinator only needs to decide whether to
/// retry, log, or give up.
#[derive(Debug, PartialEq, Eq, Structural)]
pub enum RadioError {
    /// Configuration step failed (modulation/packet params, settings).
    Config,
    /// Transmit operation failed.
    Tx,
    /// Receive operation failed.
    Rx,
    /// CAD operation failed.
    Cad,
}

} // verus!
