use lora_chat::coordinator::{
    backoff_with_jitter, handle_recv, handle_send, handle_send_at, lbt_backoff_ms, lbt_next_attempt,
    lbt_step, parse_input, InputCommand,
    LbtStep, RecvAction, SendAction,
};
use lora_chat::protocol::{encode_ack, MessagePacket, Packet, ProtocolError};
use lora_chat::radio::RadioError;
use lora_chat::session::Session;

fn frame_for(id: u8, text: &str) -> Vec<u8> {
    let msg = MessagePacket::new(0, id, heapless::String::try_from(text).unwrap());
    let mut buf = [0u8; 128];
    let len = msg.encode(&mut buf).unwrap();
    buf[..len].to_vec()
}

#[test]
fn parse_input_commands() {
    assert!(matches!(parse_input(b"up"), InputCommand::NavUp));
    assert!(matches!(parse_input(b"down"), InputCommand::NavDown));
    assert!(matches!(parse_input(b"menu"), InputCommand::NavMenu));
    match parse_input(b"hello") {
        InputCommand::Message(m) => assert_eq!(m, b"hello"),
        _ => panic!("expected Message"),
    }
    assert!(matches!(parse_input(b"Up"), InputCommand::Message(_)));
    assert!(matches!(parse_input(b""), InputCommand::Message(_)));
}

#[test]
fn received_message_is_acked_shown_once() {
    let mut s = Session::new();
    let frame = frame_for(9, "hey");
    match handle_recv(&mut s, &frame).unwrap() {
        RecvAction::Message { id, ack, text } => {
            assert_eq!(id, 9);
            assert_eq!(ack, encode_ack(9));
            assert_eq!(text.unwrap().as_str(), "hey");
        }
        _ => panic!("expected Message"),
    }
    // the same message again is acknowledged but not shown
    match handle_recv(&mut s, &frame).unwrap() {
        RecvAction::Message { id, text, .. } => {
            assert_eq!(id, 9);
            assert!(text.is_none());
        }
        _ => panic!("expected Message"),
    }
}

#[test]
fn received_ack_confirms_pending() {
    let mut s = Session::new();
    match handle_send(&mut s, b"hi") {
        SendAction::Transmit { id, .. } => assert_eq!(id, 0),
        _ => panic!("expected Transmit"),
    }
    assert!(matches!(handle_recv(&mut s, &encode_ack(0)), Ok(RecvAction::Confirmed { id: 0 })));
    assert!(matches!(handle_recv(&mut s, &encode_ack(0)), Ok(RecvAction::UnexpectedAck { id: 0 })));
}

#[test]
fn received_garbage_is_an_error() {
    let mut s = Session::new();
    assert!(matches!(handle_recv(&mut s, &[]), Err(ProtocolError::TooShort)));
    assert!(matches!(handle_recv(&mut s, &[0x20]), Ok(RecvAction::Ignored)));
}

#[test]
fn send_frames_the_message() {
    let mut s = Session::new();
    s.next_id();
    match handle_send(&mut s, "héllo".as_bytes()) {
        SendAction::Transmit { id, text, wire } => {
            assert_eq!(id, 1);
            assert_eq!(text.as_str(), "héllo");
            match Packet::parse(&wire).unwrap() {
                Packet::Message(m) => {
                    assert_eq!(m.dest, 0);
                    assert_eq!(m.id, 1);
                    assert_eq!(m.text.as_str(), "héllo");
                }
                _ => panic!("expected Message"),
            }
        }
        _ => panic!("expected Transmit"),
    }
    assert!(s.earliest_deadline().is_some());
}

#[test]
fn send_navigation_and_drops() {
    let mut s = Session::new();
    assert!(matches!(handle_send(&mut s, b"up"), SendAction::NavUp));
    assert!(matches!(handle_send(&mut s, b"down"), SendAction::NavDown));
    assert!(matches!(handle_send(&mut s, b"menu"), SendAction::NavMenu));
    assert!(matches!(handle_send(&mut s, &[0xFF, 0xFE]), SendAction::NotUtf8));
    assert!(matches!(handle_send(&mut s, &[b'a'; 125]), SendAction::TooLong));
    // nothing above consumed an id
    assert_eq!(s.next_id(), 0);
}

#[test]
fn send_queue_full() {
    let mut s = Session::new();
    for _ in 0..5 {
        assert!(matches!(handle_send(&mut s, b"x"), SendAction::Transmit { .. }));
    }
    assert!(matches!(handle_send(&mut s, b"x"), SendAction::QueueFull));
    // the refused message still took an id
    assert_eq!(s.next_id(), 6);
}

#[test]
fn backoff_doubles_and_caps() {
    assert_eq!(backoff_with_jitter(0, 0), 50);
    assert_eq!(backoff_with_jitter(1, 0), 100);
    assert_eq!(backoff_with_jitter(4, 0x40), 800);
    assert_eq!(backoff_with_jitter(5, 0x7F), 1600 + 63);
    assert_eq!(backoff_with_jitter(9, 3), 1600 + 3);
    let b = lbt_backoff_ms(2);
    assert!(200 <= b && b < 264);
}

#[test]
fn lbt_steps() {
    assert!(matches!(lbt_step(0, Ok(false)), LbtStep::Transmit));
    assert!(matches!(lbt_step(3, Err(RadioError::Cad)), LbtStep::Abort));
    match lbt_step(1, Ok(true)) {
        LbtStep::Backoff { ms } => assert!(100 <= ms && ms < 164),
        _ => panic!("expected Backoff"),
    }
}

#[test]
fn sent_frame_reads_back_at_the_peer() {
    let mut sender = Session::new();
    let mut receiver = Session::new();
    let wire = match handle_send(&mut sender, "ça va?".as_bytes()) {
        SendAction::Transmit { wire, .. } => wire,
        _ => panic!("expected Transmit"),
    };
    match handle_recv(&mut receiver, &wire).unwrap() {
        RecvAction::Message { id, ack, text } => {
            assert_eq!(id, 0);
            assert_eq!(text.unwrap().as_str(), "ça va?");
            // the peer's acknowledgement confirms the sender's pending frame
            assert!(matches!(handle_recv(&mut sender, &ack), Ok(RecvAction::Confirmed { id: 0 })));
        }
        _ => panic!("expected Message"),
    }
}

#[test]
fn send_at_tracks_with_deadline_from_now() {
    let mut s = Session::new();
    match handle_send_at(&mut s, b"yo", 1_000) {
        SendAction::Transmit { id, wire, .. } => {
            assert_eq!(id, 0);
            assert_eq!(wire.as_slice(), frame_for(0, "yo").as_slice());
        }
        _ => panic!("expected Transmit"),
    }
    let deadline = s.earliest_deadline().unwrap();
    assert!(deadline > 1_000);
}

#[test]
fn send_at_clock_end_is_queue_full() {
    let mut s = Session::new();
    assert!(matches!(handle_send_at(&mut s, b"yo", u64::MAX), SendAction::QueueFull));
    // the id was taken, nothing was tracked
    assert_eq!(s.next_id(), 1);
    assert!(s.earliest_deadline().is_none());
}

#[test]
fn lbt_gives_up_after_max_attempts() {
    assert_eq!(lbt_next_attempt(0), Some(1));
    assert_eq!(lbt_next_attempt(3), Some(4));
    assert_eq!(lbt_next_attempt(4), None);
}
