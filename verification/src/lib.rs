//! Verified core of a LoRa text-messaging node: the wire protocol, the
//! delivery session (deduplication, acknowledgement tracking, retransmission),
//! the coordinator's decisions, the screen state machines and the peer store.

pub mod config;
pub mod text;
pub mod protocol;
pub mod bounded;
pub mod clock;
pub mod session;
pub mod radio;
pub mod coordinator;
pub mod settings;
pub mod display;
pub mod events;
pub mod uart;
pub mod ble;
pub mod storage;
