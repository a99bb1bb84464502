//! What passes between the radio side and the BLE link: message texts
//! notified to the central, and writes from it turned into transmit requests.
use vstd::prelude::*;

use crate::bounded::{request_bytes, request_extend_from_slice, request_new};
use crate::config::BLE_MAX_PAYLOAD;
use crate::events::TxRequest;
use crate::text::{text_as_bytes, text_bytes, Text};

verus! {

/// A received message text to notify to the connected central.
pub struct BleMessage(pub Text);

/// Characteristic value size: a pool MTU of 128 less 4 bytes of HCI ACL,
/// 4 of L2CAP and 3 of ATT opcode and handle.
pub const CHAR_MAX: usize = 117;

/// The first `n` bytes of `s` (all of it when shorter), zero-padded to `len`.
pub open spec fn zero_padded(s: Seq<u8>, n: int, len: int) -> Seq<u8> {
    let kept = if s.len() <= n { s } else { s.take(n) };
    kept + Seq::new((len - kept.len()) as nat, |i: int| 0u8)
}

/// The notification value for a message: its bytes, cut to `CHAR_MAX`,
/// zero-padded.
pub fn notify_frame(msg: &BleMessage) -> (r: [u8; 117])
    ensures
        r@ == zero_padded(text_bytes(msg.0), CHAR_MAX as int, CHAR_MAX as int),
{
    let bytes = text_as_bytes(&msg.0);
    let take = if bytes.len() < CHAR_MAX { bytes.len() } else { CHAR_MAX };
    let mut buf = [0u8; 117];
    let mut i: usize = 0;
    while i < take
        invariant
            take <= CHAR_MAX,
            take <= bytes@.len(),
            i <= take,
            forall|k: int| 0 <= k < i ==> #[trigger] buf@[k] == bytes@[k],
            forall|k: int| take <= k < CHAR_MAX ==> #[trigger] buf@[k] == 0u8,
        decreases take - i,
    {
        buf[i] = bytes[i];
        i += 1;
    }
    assert(buf@ =~= zero_padded(bytes@, CHAR_MAX as int, CHAR_MAX as int));
    buf
}

/// The transmit request for a write from the central: its first
/// `BLE_MAX_PAYLOAD` bytes.
pub fn tx_request_from_write(data: &[u8]) -> (r: TxRequest)
    ensures
        request_bytes(r.payload) == (if data@.len() <= BLE_MAX_PAYLOAD {
            data@
        } else {
            data@.take(BLE_MAX_PAYLOAD as int)
        }),
{
    let take = if data.len() < BLE_MAX_PAYLOAD { data.len() } else { BLE_MAX_PAYLOAD };
    let mut payload = request_new();
    let _ = request_extend_from_slice(&mut payload, &data[0..take]);
    assert(data@.subrange(0, take as int) =~= (if data@.len() <= BLE_MAX_PAYLOAD {
        data@
    } else {
        data@.take(BLE_MAX_PAYLOAD as int)
    }));
    TxRequest { payload }
}

/// The transmit request for a GATT write: a write to the RX
/// characteristic (`rx_handle`) is forwarded as `tx_request_from_write`
/// makes it; writes to any other handle are not forwarded.
pub fn gatt_write_request(handle: u16, rx_handle: u16, data: &[u8]) -> (r: Option<TxRequest>)
    ensures
        r is Some <==> handle == rx_handle,
        r matches Some(req) ==> request_bytes(req.payload) == (if data@.len() <= BLE_MAX_PAYLOAD {
            data@
        } else {
            data@.take(BLE_MAX_PAYLOAD as int)
        }),
{
    if handle == rx_handle {
        Some(tx_request_from_write(data))
    } else {
        None
    }
}

// ── Advertising data ───────────────────────────────────────────────────────────

/// Why the advertising data could not be built.
#[derive(Debug, PartialEq, Eq, Structural)]
pub enum AdvertisingError {
    /// The structures do not fit in the 31 bytes of a legacy advertisement.
    InsufficientSpace,
}

/// Flags advertised: LE General Discoverable Mode (bit 1) and BR/EDR Not
/// Supported (bit 2), as the Bluetooth Core Specification defines them.
pub const ADV_FLAGS: u8 = 0x06;

/// The advertising payload: a Flags structure (length 2, type 0x01) and a
/// Complete Local Name structure (length `1 + name.len()`, type 0x09).
pub open spec fn advertising_payload(flags: u8, name: Seq<u8>) -> Seq<u8> {
    advertising_headers(flags, name.len()) + name
}

/// The Flags structure and the header of the Complete Local Name structure
/// for a name of `len` bytes.
pub open spec fn advertising_headers(flags: u8, len: nat) -> Seq<u8> {
    seq![2u8, 1u8, flags, (len + 1) as u8, 9u8]
}

/// `buf` with its first bytes replaced by `prefix`.
pub open spec fn overwritten(buf: Seq<u8>, prefix: Seq<u8>) -> Seq<u8> {
    prefix + buf.subrange(prefix.len() as int, buf.len() as int)
}

/// `trouble_host::advertise::AdStructure::encode_slice` on a Flags structure
/// and a Complete Local Name structure. Each structure's header and data are
/// appended only when they fit in what is left of `dest`; the first part that
/// does not fit ends the encoding with `InsufficientSpace`, after what fitted
/// was written. The encoder reports no other error for these two structures.
#[verifier::external_body]
fn encode_flags_and_name(flags: u8, name: &[u8], dest: &mut [u8; 31]) -> (r: Result<usize, AdvertisingError>)
    ensures
        r is Ok <==> 5 + name@.len() <= 31,
        r matches Ok(n) ==> n == 5 + name@.len()
            && final(dest)@ == overwritten(old(dest)@, advertising_payload(flags, name@)),
        r is Err ==> (r matches Err(AdvertisingError::InsufficientSpace))
            && final(dest)@ == overwritten(old(dest)@, advertising_headers(flags, name@.len())),
{
    match trouble_host::advertise::AdStructure::encode_slice(
        &[
            trouble_host::advertise::AdStructure::Flags(flags),
            trouble_host::advertise::AdStructure::CompleteLocalName(name),
        ],
        &mut dest[..],
    ) {
        Ok(n) => Ok(n),
        Err(_) => Err(AdvertisingError::InsufficientSpace),
    }
}

/// The advertising data for a node named `name`: `ADV_FLAGS` and the
/// complete local name, in a 31-byte buffer of which the first `n` bytes are
/// used. Fails when the name is longer than the 26 bytes left for it.
pub fn advertising_data(name: &[u8]) -> (r: Result<([u8; 31], usize), AdvertisingError>)
    ensures
        r is Ok <==> name@.len() <= 26,
        r matches Ok((buf, n)) ==> n == 5 + name@.len() && buf@.subrange(0, n as int)
            == advertising_payload(ADV_FLAGS, name@),
        r is Err ==> (r matches Err(AdvertisingError::InsufficientSpace)),
{
    let mut buf = [0u8; 31];
    match encode_flags_and_name(ADV_FLAGS, name, &mut buf) {
        Ok(n) => {
            assert(buf@.subrange(0, n as int) =~= advertising_payload(ADV_FLAGS, name@));
            Ok((buf, n))
        },
        Err(e) => Err(e),
    }
}

} // verus!
