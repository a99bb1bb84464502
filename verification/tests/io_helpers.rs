use lora_chat::ble::{advertising_data, AdvertisingError, ADV_FLAGS, gatt_write_request, notify_frame, tx_request_from_write, BleMessage, CHAR_MAX};
use lora_chat::storage::{PeerList, MAGIC};
use lora_chat::uart::{LineBuffer, MAX_LINE};

#[test]
fn uart_lines() {
    let mut lb = LineBuffer::new();
    let mut out = Vec::new();
    for &b in b"\r\nhi\r\n\nthere\n" {
        if let Some(req) = lb.push_byte(b) {
            out.push(req.payload.to_vec());
        }
    }
    assert_eq!(out, vec![b"hi".to_vec(), b"there".to_vec()]);
}

#[test]
fn uart_long_line_is_cut() {
    let mut lb = LineBuffer::new();
    for _ in 0..200 {
        assert!(lb.push_byte(b'x').is_none());
    }
    let req = lb.push_byte(b'\n').unwrap();
    assert_eq!(req.payload.len(), MAX_LINE);
    assert_eq!(MAX_LINE, 124);
}

#[test]
fn uart_line_of_request_capacity_is_sent_whole() {
    let mut lb = LineBuffer::new();
    let line: Vec<u8> = (0..124u32).map(|i| b'a' + (i % 26) as u8).collect();
    for &b in &line {
        assert!(lb.push_byte(b).is_none());
    }
    let req = lb.push_byte(b'\r').unwrap();
    assert_eq!(req.payload.as_slice(), line.as_slice());
}

#[test]
fn uart_reset_drops_line() {
    let mut lb = LineBuffer::new();
    lb.push_byte(b'a');
    lb.reset();
    assert!(lb.push_byte(b'\n').is_none());
}

#[test]
fn ble_notify_cut_and_padded() {
    let short = notify_frame(&BleMessage(heapless::String::try_from("ok").unwrap()));
    assert_eq!(&short[..2], b"ok");
    assert!(short[2..].iter().all(|&b| b == 0));

    let long: String = std::iter::repeat('z').take(124).collect();
    let frame = notify_frame(&BleMessage(heapless::String::try_from(long.as_str()).unwrap()));
    assert_eq!(frame.len(), CHAR_MAX);
    assert!(frame.iter().all(|&b| b == b'z'));
}

#[test]
fn ble_write_is_cut() {
    let req = tx_request_from_write(&[7u8; 200]);
    assert_eq!(req.payload.len(), 124);
    let req = tx_request_from_write(b"abc");
    assert_eq!(req.payload.as_slice(), b"abc");
}

#[test]
fn peers_roundtrip_through_sector() {
    let mut peers = PeerList::new();
    assert!(peers.insert(3));
    assert!(peers.insert(9));
    assert!(!peers.insert(3));
    assert_eq!(peers.peer_count(), 2);
    let sector = peers.to_sector();
    assert_eq!(sector[0], MAGIC);
    assert_eq!(sector[1], 2);
    assert_eq!(&sector[2..4], &[3, 9]);
    assert!(sector[4..].iter().all(|&b| b == 0xFF));
    let back = PeerList::from_sector(&sector).unwrap();
    assert_eq!(back.peer_count(), 2);
    assert_eq!(back.to_sector(), sector);
}

#[test]
fn peers_from_blank_or_overfull_sector() {
    let blank = [0xFFu8; 34];
    assert!(PeerList::from_sector(&blank).is_none());
    let mut empty = [0xFFu8; 34];
    empty[0] = MAGIC;
    empty[1] = 0;
    assert_eq!(PeerList::from_sector(&empty).unwrap().peer_count(), 0);
    let mut over = [1u8; 34];
    over[0] = MAGIC;
    over[1] = 200;
    assert_eq!(PeerList::from_sector(&over).unwrap().peer_count(), 32);
}

#[test]
fn peers_full_list_reports_new_but_keeps_32() {
    let mut peers = PeerList::new();
    for i in 0..32u8 {
        assert!(peers.insert(i));
    }
    assert!(peers.insert(100));
    assert_eq!(peers.peer_count(), 32);
}

#[test]
fn gatt_writes_forwarded_only_from_rx_handle() {
    let req = gatt_write_request(12, 12, b"hello").unwrap();
    assert_eq!(req.payload.as_slice(), b"hello");
    assert!(gatt_write_request(13, 12, b"hello").is_none());
    let req = gatt_write_request(12, 12, &[1u8; 130]).unwrap();
    assert_eq!(req.payload.len(), 124);
}

#[test]
fn advertising_data_holds_flags_and_name() {
    let (buf, n) = advertising_data(b"LilyGoLoRa").unwrap();
    assert_eq!(n, 15);
    assert_eq!(&buf[..5], &[2, 1, ADV_FLAGS, 11, 9]);
    assert_eq!(&buf[5..n], b"LilyGoLoRa");
    assert_eq!(ADV_FLAGS, 0x06);
    let (_, n) = advertising_data(&[b'n'; 26]).unwrap();
    assert_eq!(n, 31);
    assert!(matches!(advertising_data(&[b'n'; 27]), Err(AdvertisingError::InsufficientSpace)));
}
