use vstd::prelude::*;

verus! {

// -- Radio ------------------------------------------------------------------
/// Carrier frequency of the LoRa link.
pub const LORA_FREQUENCY_HZ: u32 = 868_000_000;
/// Largest frame the radio carries.
pub const LORA_MAX_PAYLOAD: usize = 128;
/// Preamble length for both TX and RX.
pub const LORA_PREAMBLE_SYMBOLS: u16 = 16;

// -- Listen Before Talk (CSMA) ----------------------------------------------
/// Max CAD attempts before giving up on TX (channel persistently busy).
pub const LBT_MAX_ATTEMPTS: u8 = 5;
/// Base backoff between busy CAD detections (milliseconds).
pub const LBT_BACKOFF_BASE_MS: u64 = 50;

// -- Session ----------------------------------------------------------------
/// How many outgoing frames can await an ACK simultaneously.
pub const MAX_PENDING_ACKS: usize = 5;
/// How many recently seen message IDs to remember for deduplication.
pub const DEDUP_WINDOW: usize = 16;
/// How long to wait for an ACK before retransmitting (milliseconds).
pub const ACK_TIMEOUT_MS: u64 = 5_000;
/// Maximum number of retransmit attempts before giving up.
pub const MAX_RETRIES: u8 = 2;

// -- Channels ---------------------------------------------------------------
/// Depth of the display event queue.
pub const DISPLAY_CHANNEL_SIZE: usize = 8;
/// Depth of the TX request queue.
pub const TX_CHANNEL_SIZE: usize = 4;
/// Depth of the BLE notify queue.
pub const BLE_CHANNEL_SIZE: usize = 4;

// -- BLE --------------------------------------------------------------------
/// Static random BLE address. Last octet must have top two bits set (0b11).
pub const BLE_ADDRESS: [u8; 6] = [0xff, 0x8f, 0x1a, 0x05, 0xe4, 0xff];
/// Max payload bytes per BLE write forwarded into the TX queue.
pub const BLE_MAX_PAYLOAD: usize = 124;

} // verus!
