use lora_chat::config::LORA_MAX_PAYLOAD;
use lora_chat::protocol::{
    checksum, encode_ack, AckPacket, MessagePacket, Packet, ProtocolError, MAX_TEXT, TYPE_MESSAGE,
};

fn make_text(s: &str) -> heapless::String<MAX_TEXT> {
    heapless::String::try_from(s).unwrap()
}

#[test]
fn message_roundtrip() {
    let msg = MessagePacket::new(3, 42, make_text("hello"));
    let mut buf = [0u8; LORA_MAX_PAYLOAD];
    let len = msg.encode(&mut buf).unwrap();

    match Packet::parse(&buf[..len]).unwrap() {
        Packet::Message(m) => {
            assert_eq!(m.dest, 3);
            assert_eq!(m.id, 42);
            assert_eq!(m.text.as_str(), "hello");
        }
        _ => panic!("expected Message"),
    }
}

#[test]
fn ack_roundtrip() {
    let ack = encode_ack(7);
    match Packet::parse(&ack).unwrap() {
        Packet::Ack(a) => assert_eq!(a.id, 7),
        _ => panic!("expected Ack"),
    }
}

#[test]
fn bad_checksum_rejected() {
    let msg = MessagePacket::new(0, 1, make_text("test"));
    let mut buf = [0u8; LORA_MAX_PAYLOAD];
    let len = msg.encode(&mut buf).unwrap();
    buf[len - 1] ^= 0xFF; // corrupt checksum
    assert_eq!(Packet::parse(&buf[..len]), Err(ProtocolError::BadChecksum));
}

#[test]
fn too_short_rejected() {
    assert_eq!(Packet::parse(&[]), Err(ProtocolError::TooShort));
    assert_eq!(
        Packet::parse(&[TYPE_MESSAGE << 4, 0]),
        Err(ProtocolError::TooShort)
    );
}

#[test]
fn unknown_type_rejected() {
    assert_eq!(Packet::parse(&[0xF0]), Err(ProtocolError::InvalidType(0xF)));
}

// -- Further cases ------------------------------------------------------------

#[test]
fn message_frame_layout() {
    let msg = MessagePacket::new(0x25, 9, make_text("hi"));
    let mut buf = [0xEEu8; 10];
    assert_eq!(msg.encode(&mut buf), Some(6));
    let body = [0x05, 9, 2, b'h', b'i'];
    let sum = body.iter().fold(0u8, |a, b| a ^ b);
    assert_eq!(&buf[..6], &[0x05, 9, 2, b'h', b'i', sum]);
    assert_eq!(&buf[6..], &[0xEE; 4]);
}

#[test]
fn message_dest_keeps_low_nibble() {
    let msg = MessagePacket::new(0x25, 9, make_text("hi"));
    let mut buf = [0u8; 8];
    let len = msg.encode(&mut buf).unwrap();
    match Packet::parse(&buf[..len]).unwrap() {
        Packet::Message(m) => assert_eq!(m.dest, 5),
        _ => panic!("expected Message"),
    }
}

#[test]
fn message_encode_needs_room() {
    let msg = MessagePacket::new(0, 1, make_text("hello"));
    let mut buf = [0u8; 8];
    assert_eq!(msg.encode(&mut buf), None);
    assert_eq!(buf, [0u8; 8]);
}

#[test]
fn message_with_full_text_roundtrips() {
    let text: std::string::String = std::iter::repeat('a').take(MAX_TEXT).collect();
    let msg = MessagePacket::new(1, 200, make_text(&text));
    let mut buf = [0u8; LORA_MAX_PAYLOAD];
    assert_eq!(msg.encode(&mut buf), Some(LORA_MAX_PAYLOAD));
    match Packet::parse(&buf).unwrap() {
        Packet::Message(m) => assert_eq!(m.text.as_str(), text.as_str()),
        _ => panic!("expected Message"),
    }
}

#[test]
fn message_with_multibyte_text_roundtrips() {
    let msg = MessagePacket::new(2, 3, make_text("héllo ✓"));
    let mut buf = [0u8; LORA_MAX_PAYLOAD];
    let len = msg.encode(&mut buf).unwrap();
    assert_eq!(len, 3 + "héllo ✓".len() + 1);
    match Packet::parse(&buf[..len]).unwrap() {
        Packet::Message(m) => assert_eq!(m.text.as_str(), "héllo ✓"),
        _ => panic!("expected Message"),
    }
}

#[test]
fn size_beyond_frame_is_mismatch() {
    // type 0, id 1, size 5 but only 2 payload bytes and no checksum room
    assert_eq!(Packet::parse(&[0x00, 1, 5, b'a', b'b']), Err(ProtocolError::SizeMismatch));
}

#[test]
fn size_beyond_max_text_is_mismatch() {
    // a valid frame whose text is 125 bytes long
    let mut raw = vec![0x00u8, 1, 125];
    raw.extend(std::iter::repeat(b'a').take(125));
    let sum = checksum(&raw);
    raw.push(sum);
    assert_eq!(Packet::parse(&raw), Err(ProtocolError::SizeMismatch));
}

#[test]
fn invalid_utf8_rejected() {
    let mut raw = vec![0x00u8, 1, 2, 0xC3, 0x28];
    let sum = checksum(&raw);
    raw.push(sum);
    assert_eq!(Packet::parse(&raw), Err(ProtocolError::InvalidUtf8));
}

#[test]
fn short_ack_rejected() {
    assert_eq!(Packet::parse(&[0x10]), Err(ProtocolError::TooShort));
}

#[test]
fn ping_gps_resend_recognized() {
    assert_eq!(Packet::parse(&[0x20]), Ok(Packet::Ping));
    assert_eq!(Packet::parse(&[0x3F, 1, 2]), Ok(Packet::Gps));
    assert_eq!(Packet::parse(&[0x40]), Ok(Packet::Resend));
    assert_eq!(Packet::parse(&[0x50]), Err(ProtocolError::InvalidType(5)));
}

#[test]
fn checksum_is_xor_of_bytes() {
    assert_eq!(checksum(&[]), 0);
    assert_eq!(checksum(&[0x0F, 0xF0, 0x01]), 0xFE);
}

#[test]
fn ack_encode_layout() {
    let mut buf = [0xAAu8; 3];
    assert_eq!(AckPacket::new(0x42).encode(&mut buf), Some(2));
    assert_eq!(buf, [0x10, 0x42, 0xAA]);
    let mut small = [0u8; 1];
    assert_eq!(AckPacket::new(1).encode(&mut small), None);
    assert_eq!(encode_ack(0x42), [0x10, 0x42]);
}
