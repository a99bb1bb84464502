//! The over-the-air frame format.
//!
//! ```text
//!  Byte 0:        [type:4 | dest:4]
//!  Byte 1:        id
//!  Byte 2:        size  (text length, 0..=MAX_TEXT)
//!  Bytes 3..3+n:  UTF-8 text payload
//!  Byte 3+n:      checksum (XOR of bytes 0..3+n-1, i.e. the header + payload)
//! ```
use vstd::prelude::*;
use vstd::utf8::*;
use vstd::string::*;

use crate::config::LORA_MAX_PAYLOAD;
use crate::text::{Text, text_view, text_bytes, text_as_bytes, str_from_utf8, text_try_from};

verus! {

broadcast use vstd::array::group_array_axioms;

pub const HEADER_SIZE: usize = 3;
pub const CHECKSUM_SIZE: usize = 1;
pub const OVERHEAD: usize = HEADER_SIZE + CHECKSUM_SIZE;
/// Largest text a message frame carries.
pub const MAX_TEXT: usize = LORA_MAX_PAYLOAD - OVERHEAD;

pub const TYPE_MESSAGE: u8 = 0;
pub const TYPE_ACK: u8 = 1;
pub const TYPE_PING: u8 = 2;
pub const TYPE_GPS: u8 = 3;
pub const TYPE_RESEND: u8 = 4;

// ── Error ────────────────────────────────────────────────────────────────────

/// Why a received frame was rejected.
#[derive(Debug, PartialEq, Eq)]
pub enum ProtocolError {
    TooShort,
    InvalidType(u8),
    InvalidUtf8,
    SizeMismatch,
    BadChecksum,
}

// ── Packet types ─────────────────────────────────────────────────────────────

/// A text message addressed to node `dest`.
#[derive(Debug, PartialEq)]
pub struct MessagePacket {
    pub dest: u8,
    pub id: u8,
    pub text: Text,
}

/// Acknowledgement of the message with the same `id`.
#[derive(Debug, PartialEq, Eq)]
pub struct AckPacket {
    pub id: u8,
}

/// Any frame the node understands.
#[derive(Debug, PartialEq)]
pub enum Packet {
    Message(MessagePacket),
    Ack(AckPacket),
    Ping,
    Gps,
    Resend,
}

/// What a packet means: the message text is taken by its characters.
pub enum PacketView {
    Message { dest: u8, id: u8, text: Seq<char> },
    Ack { id: u8 },
    Ping,
    Gps,
    Resend,
}

impl MessagePacket {
    pub open spec fn packet_view(self) -> PacketView {
        PacketView::Message { dest: self.dest, id: self.id, text: text_view(self.text) }
    }
}

impl View for Packet {
    type V = PacketView;

    open spec fn view(&self) -> PacketView {
        match self {
            Packet::Message(m) => m.packet_view(),
            Packet::Ack(a) => PacketView::Ack { id: a.id },
            Packet::Ping => PacketView::Ping,
            Packet::Gps => PacketView::Gps,
            Packet::Resend => PacketView::Resend,
        }
    }
}

pub open spec fn result_view(r: Result<Packet, ProtocolError>) -> Result<PacketView, ProtocolError> {
    match r {
        Ok(p) => Ok(p@),
        Err(e) => Err(e),
    }
}

// ── The format, as a specification ───────────────────────────────────────────

/// XOR of all bytes, folded from the left starting at 0.
pub open spec fn xor_all(bytes: Seq<u8>) -> u8
    decreases bytes.len(),
{
    if bytes.len() == 0 {
        0
    } else {
        xor_all(bytes.drop_last()) ^ bytes.last()
    }
}

/// The packet type carried in the high nibble of the first byte.
pub open spec fn frame_type(b0: u8) -> u8 {
    b0 >> 4u8
}

/// The text payload of a message frame whose size byte is `size`.
pub open spec fn frame_payload(raw: Seq<u8>, size: int) -> Seq<u8> {
    raw.subrange(HEADER_SIZE as int, HEADER_SIZE + size)
}

/// How a message frame is read (the type nibble has already been checked).
pub open spec fn message_from_wire(raw: Seq<u8>) -> Result<PacketView, ProtocolError> {
    if raw.len() < OVERHEAD {
        Err(ProtocolError::TooShort)
    } else {
        let size = raw[2] as int;
        if raw.len() < HEADER_SIZE + size + CHECKSUM_SIZE {
            Err(ProtocolError::SizeMismatch)
        } else if raw[HEADER_SIZE + size] != xor_all(raw.take(HEADER_SIZE + size)) {
            Err(ProtocolError::BadChecksum)
        } else if !valid_utf8(frame_payload(raw, size)) {
            Err(ProtocolError::InvalidUtf8)
        } else if size > MAX_TEXT {
            Err(ProtocolError::SizeMismatch)
        } else {
            Ok(
                PacketView::Message {
                    dest: raw[0] & 0x0Fu8,
                    id: raw[1],
                    text: decode_utf8(frame_payload(raw, size)),
                },
            )
        }
    }
}

/// How an acknowledgement frame is read (the type nibble has already been checked).
pub open spec fn ack_from_wire(raw: Seq<u8>) -> Result<PacketView, ProtocolError> {
    if raw.len() < 2 {
        Err(ProtocolError::TooShort)
    } else {
        Ok(PacketView::Ack { id: raw[1] })
    }
}

/// How any received frame is read.
pub open spec fn packet_from_wire(raw: Seq<u8>) -> Result<PacketView, ProtocolError> {
    if raw.len() == 0 {
        Err(ProtocolError::TooShort)
    } else {
        let t = frame_type(raw[0]);
        if t == TYPE_MESSAGE {
            message_from_wire(raw)
        } else if t == TYPE_ACK {
            ack_from_wire(raw)
        } else if t == TYPE_PING {
            Ok(PacketView::Ping)
        } else if t == TYPE_GPS {
            Ok(PacketView::Gps)
        } else if t == TYPE_RESEND {
            Ok(PacketView::Resend)
        } else {
            Err(ProtocolError::InvalidType(t))
        }
    }
}

/// Header and payload of a message frame (what the checksum covers).
pub open spec fn message_body(dest: u8, id: u8, text: Seq<u8>) -> Seq<u8> {
    seq![(TYPE_MESSAGE << 4u8) | (dest & 0x0Fu8), id, text.len() as u8] + text
}

/// The complete frame of a message.
pub open spec fn message_frame(dest: u8, id: u8, text: Seq<u8>) -> Seq<u8> {
    message_body(dest, id, text).push(xor_all(message_body(dest, id, text)))
}

/// The complete frame of an acknowledgement.
pub open spec fn ack_frame(id: u8) -> Seq<u8> {
    seq![TYPE_ACK << 4u8, id]
}

// ── Checksum ─────────────────────────────────────────────────────────────────

/// XOR of all bytes.
pub fn checksum(bytes: &[u8]) -> (r: u8)
    ensures
        r == xor_all(bytes@),
{
    let mut acc: u8 = 0;
    let mut i: usize = 0;
    while i < bytes.len()
        invariant
            i <= bytes@.len(),
            acc == xor_all(bytes@.take(i as int)),
        decreases bytes@.len() - i,
    {
        assert(bytes@.take(i + 1).drop_last() == bytes@.take(i as int));
        acc = acc ^ bytes[i];
        i += 1;
    }
    assert(bytes@.take(i as int) == bytes@);
    acc
}

// ── Packet: parse ─────────────────────────────────────────────────────────────

impl Packet {
    /// Reads a received frame.
    pub fn parse(raw: &[u8]) -> (r: Result<Self, ProtocolError>)
        ensures
            result_view(r) == packet_from_wire(raw@),
    {
        if raw.len() == 0 {
            return Err(ProtocolError::TooShort);
        }
        let t = raw[0] >> 4u8;
        if t == TYPE_MESSAGE {
            match MessagePacket::parse(raw) {
                Ok(m) => Ok(Packet::Message(m)),
                Err(e) => Err(e),
            }
        } else if t == TYPE_ACK {
            match AckPacket::parse(raw) {
                Ok(a) => Ok(Packet::Ack(a)),
                Err(e) => Err(e),
            }
        } else if t == TYPE_PING {
            Ok(Packet::Ping)
        } else if t == TYPE_GPS {
            Ok(Packet::Gps)
        } else if t == TYPE_RESEND {
            Ok(Packet::Resend)
        } else {
            Err(ProtocolError::InvalidType(t))
        }
    }
}

// ── MessagePacket ─────────────────────────────────────────────────────────────

impl MessagePacket {
    pub fn new(dest: u8, id: u8, text: Text) -> (r: Self)
        ensures
            r == (MessagePacket { dest, id, text }),
    {
        Self { dest, id, text }
    }

    fn parse(raw: &[u8]) -> (r: Result<Self, ProtocolError>)
        ensures
            match r {
                Ok(m) => message_from_wire(raw@) == Ok::<PacketView, ProtocolError>(m.packet_view()),
                Err(e) => message_from_wire(raw@) == Err::<PacketView, ProtocolError>(e),
            },
    {
        if raw.len() < OVERHEAD {
            return Err(ProtocolError::TooShort);
        }
        let dest = raw[0] & 0x0Fu8;
        let id = raw[1];
        let size = raw[2] as usize;

        let expected_len = HEADER_SIZE + size + CHECKSUM_SIZE;
        if raw.len() < expected_len {
            return Err(ProtocolError::SizeMismatch);
        }

        let payload = &raw[HEADER_SIZE..HEADER_SIZE + size];
        let received_checksum = raw[HEADER_SIZE + size];

        // Checksum covers header bytes + payload bytes.
        let computed = checksum(&raw[0..HEADER_SIZE + size]);
        assert(raw@.subrange(0, HEADER_SIZE + size) == raw@.take(HEADER_SIZE + size));
        if received_checksum != computed {
            return Err(ProtocolError::BadChecksum);
        }

        let text_str = match str_from_utf8(payload) {
            Ok(s) => s,
            Err(_) => return Err(ProtocolError::InvalidUtf8),
        };
        proof {
            encode_utf8_decode_utf8(text_str@);
        }
        let text = match text_try_from(text_str) {
            Ok(t) => t,
            Err(_) => return Err(ProtocolError::SizeMismatch),
        };
        Ok(Self { dest, id, text })
    }

    /// Encodes into `buf`. Returns the number of bytes written, or `None` if
    /// `buf` is too small or the text exceeds `MAX_TEXT`.
    pub fn encode(&self, buf: &mut [u8]) -> (r: Option<usize>)
        ensures
            ({
                let frame = message_frame(self.dest, self.id, text_bytes(self.text));
                &&& r is Some <==> frame.len() <= old(buf)@.len()
                &&& r matches Some(n) ==> n == frame.len() && final(buf)@ == frame + old(buf)@.skip(n as int)
                &&& r is None ==> final(buf)@ == old(buf)@
            }),
    {
        let text_bytes = text_as_bytes(&self.text);
        let n = text_bytes.len();
        let frame_len = HEADER_SIZE + n + CHECKSUM_SIZE;

        if buf.len() < frame_len || n > MAX_TEXT {
            return None;
        }
        let ghost old_buf = buf@;
        let ghost body = message_body(self.dest, self.id, text_bytes@);

        buf[0] = (TYPE_MESSAGE << 4u8) | (self.dest & 0x0Fu8);
        buf[1] = self.id;
        buf[2] = n as u8;
        let mut i: usize = 0;
        while i < n
            invariant
                i <= n,
                n == text_bytes@.len(),
                n <= MAX_TEXT,
                buf@.len() == old_buf.len(),
                HEADER_SIZE + n + CHECKSUM_SIZE <= buf@.len(),
                body == message_body(self.dest, self.id, text_bytes@),
                forall|k: int| 0 <= k < HEADER_SIZE + i ==> #[trigger] buf@[k] == body[k],
                forall|k: int| HEADER_SIZE + n <= k < buf@.len() ==> #[trigger] buf@[k] == old_buf[k],
            decreases n - i,
        {
            buf[HEADER_SIZE + i] = text_bytes[i];
            i += 1;
        }
        assert(buf@.subrange(0, HEADER_SIZE + n) == body);

        // Checksum covers header + payload (same range as parse).
        let c = checksum(&buf[0..HEADER_SIZE + n]);
        buf[HEADER_SIZE + n] = c;
        assert(buf@ == message_frame(self.dest, self.id, text_bytes@) + old_buf.skip(frame_len as int));
        Some(frame_len)
    }
}

// ── AckPacket ─────────────────────────────────────────────────────────────────

impl AckPacket {
    pub fn new(id: u8) -> (r: Self)
        ensures
            r.id == id,
    {
        Self { id }
    }

    fn parse(raw: &[u8]) -> (r: Result<Self, ProtocolError>)
        ensures
            match r {
                Ok(a) => ack_from_wire(raw@) == Ok::<PacketView, ProtocolError>(PacketView::Ack { id: a.id }),
                Err(e) => ack_from_wire(raw@) == Err::<PacketView, ProtocolError>(e),
            },
    {
        if raw.len() < 2 {
            return Err(ProtocolError::TooShort);
        }
        Ok(Self { id: raw[1] })
    }

    /// Encodes into `buf`. Returns the number of bytes written, or `None` if
    /// `buf` is too small.
    pub fn encode(&self, buf: &mut [u8]) -> (r: Option<usize>)
        ensures
            r is Some <==> old(buf)@.len() >= 2,
            r matches Some(n) ==> n == 2 && final(buf)@ == ack_frame(self.id) + old(buf)@.skip(2),
            r is None ==> final(buf)@ == old(buf)@,
    {
        if buf.len() < 2 {
            return None;
        }
        buf[0] = TYPE_ACK << 4u8;
        buf[1] = self.id;
        assert(buf@ == ack_frame(self.id) + old(buf)@.skip(2));
        Some(2)
    }
}

// ── Convenience helpers ───────────────────────────────────────────────────────

/// Encodes an ACK for `id` into a fixed 2-byte array. Always succeeds.
pub fn encode_ack(id: u8) -> (r: [u8; 2])
    ensures
        r@ == ack_frame(id),
{
    let mut buf = [0u8; 2];
    let _ = AckPacket::new(id).encode(&mut buf);
    buf
}

// ── Laws ─────────────────────────────────────────────────────────────────────

/// Reading back an encoded message gives the message: same id, same text,
/// and the destination as its low nibble (the frame keeps 4 bits of it).
pub proof fn lemma_message_roundtrip(dest: u8, id: u8, text: Seq<char>)
    requires
        encode_utf8(text).len() <= MAX_TEXT,
    ensures
        packet_from_wire(message_frame(dest, id, encode_utf8(text)))
            == Ok::<PacketView, ProtocolError>(PacketView::Message { dest: dest & 0x0Fu8, id, text }),
{
    let bytes = encode_utf8(text);
    let body = message_body(dest, id, bytes);
    let frame = message_frame(dest, id, bytes);
    let b0 = (TYPE_MESSAGE << 4u8) | (dest & 0x0Fu8);
    assert(b0 >> 4u8 == 0u8 && b0 & 0x0Fu8 == dest & 0x0Fu8) by (bit_vector)
        requires
            b0 == (0u8 << 4u8) | (dest & 0x0Fu8),
    ;
    let size = bytes.len() as u8;
    assert(frame[2] == size);
    assert(size as int == bytes.len());
    assert(frame.take(HEADER_SIZE + size as int) == body);
    assert(frame_payload(frame, size as int) == bytes);
    encode_utf8_valid_utf8(text);
    encode_utf8_decode_utf8(text);
}

/// Reading back an encoded acknowledgement gives the acknowledgement.
pub proof fn lemma_ack_roundtrip(id: u8)
    ensures
        packet_from_wire(ack_frame(id)) == Ok::<PacketView, ProtocolError>(PacketView::Ack { id }),
{
    assert((1u8 << 4u8) >> 4u8 == 1u8) by (bit_vector);
}

/// A message frame whose checksum byte has been altered is rejected as
/// `BadChecksum`.
pub proof fn lemma_corrupted_checksum_rejected(dest: u8, id: u8, text: Seq<char>, bad: u8)
    requires
        encode_utf8(text).len() <= MAX_TEXT,
        bad != xor_all(message_body(dest, id, encode_utf8(text))),
    ensures
        ({
            let frame = message_frame(dest, id, encode_utf8(text));
            packet_from_wire(frame.update(frame.len() - 1, bad))
                == Err::<PacketView, ProtocolError>(ProtocolError::BadChecksum)
        }),
{
    let bytes = encode_utf8(text);
    let body = message_body(dest, id, bytes);
    let frame = message_frame(dest, id, bytes);
    let corrupted = frame.update(frame.len() - 1, bad);
    let b0 = (TYPE_MESSAGE << 4u8) | (dest & 0x0Fu8);
    assert(b0 >> 4u8 == 0u8) by (bit_vector)
        requires
            b0 == (0u8 << 4u8) | (dest & 0x0Fu8),
    ;
    let size = bytes.len() as u8;
    assert(corrupted[0] == b0);
    assert(corrupted[2] == size);
    assert(corrupted.take(HEADER_SIZE + size as int) == body);
}

} // verus!
