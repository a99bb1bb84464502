use lora_chat::config::{DEDUP_WINDOW, MAX_PENDING_ACKS, MAX_RETRIES};
use lora_chat::session::{AckTracker, DedupFilter, Session, TimeoutAction};

#[test]
fn dedup_new_id_not_duplicate() {
    let f = DedupFilter::new();
    assert!(!f.is_duplicate(1));
}

#[test]
fn dedup_recorded_id_is_duplicate() {
    let mut f = DedupFilter::new();
    f.record(42);
    assert!(f.is_duplicate(42));
}

#[test]
fn dedup_ring_evicts_oldest() {
    let mut f = DedupFilter::new();
    for i in 0..DEDUP_WINDOW as u8 {
        f.record(i);
    }
    assert!(!f.is_duplicate(0));
    assert!(f.is_duplicate((DEDUP_WINDOW - 1) as u8));
}

#[test]
fn ack_tracker_next_id_increments() {
    let mut t = AckTracker::new();
    assert_eq!(t.next_id(), 0);
    assert_eq!(t.next_id(), 1);
}

#[test]
fn ack_tracker_next_id_wraps() {
    let mut t = AckTracker::new();
    // bring the sequence counter to 255
    for _ in 0..255 {
        t.next_id();
    }
    assert_eq!(t.next_id(), 255);
    assert_eq!(t.next_id(), 0);
}

#[test]
fn ack_tracker_on_ack_known_id() {
    let mut t = AckTracker::new();
    t.track(7, heapless::Vec::new());
    assert!(t.on_ack(7));
    assert!(t.earliest_deadline().is_none());
}

#[test]
fn ack_tracker_on_ack_unknown_id() {
    let mut t = AckTracker::new();
    assert!(!t.on_ack(99));
}

#[test]
fn ack_tracker_full_rejects_track() {
    let mut t = AckTracker::new();
    for i in 0..MAX_PENDING_ACKS as u8 {
        assert!(t.track(i, heapless::Vec::new()));
    }
    assert!(!t.track(99, heapless::Vec::new()));
}

#[test]
fn process_timeouts_retries_then_gives_up() {
    let mut t = AckTracker::new();
    t.track(1, heapless::Vec::new());

    let mut retries = 0u8;
    let mut gave_up = false;

    for _ in 0..=MAX_RETRIES {
        // the pending entry is due now
        let now = t.earliest_deadline().unwrap();
        for action in t.process_timeouts(now) {
            match action {
                TimeoutAction::Retry { .. } => retries += 1,
                TimeoutAction::GiveUp { .. } => gave_up = true,
            }
        }
    }

    assert_eq!(retries, MAX_RETRIES);
    assert!(gave_up);
    assert!(t.earliest_deadline().is_none());
}

// -- Further cases ------------------------------------------------------------

#[test]
fn dedup_holds_last_ids_in_order() {
    let mut f = DedupFilter::new();
    for i in 0..40u8 {
        f.record(i);
    }
    for i in 0..40u8 {
        let kept = i as usize >= 40 - (DEDUP_WINDOW - 1);
        assert_eq!(f.is_duplicate(i), kept, "id {}", i);
    }
}

#[test]
fn process_timeouts_leaves_unexpired_entries() {
    let mut t = AckTracker::new();
    assert!(t.track_at(1, heapless::Vec::new(), 1_000));
    let deadline = t.earliest_deadline().unwrap();
    assert!(deadline > 1_000);
    assert_eq!(t.process_timeouts(deadline - 1).len(), 0);
    assert_eq!(t.earliest_deadline(), Some(deadline));
}

#[test]
fn retry_keeps_wire_and_backs_off_linearly() {
    let mut t = AckTracker::new();
    let wire: heapless::Vec<u8, 128> = heapless::Vec::from_slice(&[1, 2, 3]).unwrap();
    assert!(t.track_at(4, wire, 0));
    let first = t.earliest_deadline().unwrap();

    let actions = t.process_timeouts(first);
    assert_eq!(actions.len(), 1);
    match &actions[0] {
        TimeoutAction::Retry { id, wire } => {
            assert_eq!(*id, 4);
            assert_eq!(wire.as_slice(), &[1, 2, 3]);
        }
        _ => panic!("expected Retry"),
    }
    // first retry waits one timeout
    assert_eq!(t.earliest_deadline(), Some(first + first));

    let now = t.earliest_deadline().unwrap();
    t.process_timeouts(now);
    // second retry waits two timeouts
    assert_eq!(t.earliest_deadline(), Some(now + 2 * first));
}

#[test]
fn earliest_deadline_is_minimum() {
    let mut t = AckTracker::new();
    assert_eq!(t.earliest_deadline(), None);
    assert!(t.track_at(1, heapless::Vec::new(), 500));
    assert!(t.track_at(2, heapless::Vec::new(), 100));
    assert!(t.track_at(3, heapless::Vec::new(), 900));
    let d1 = t.earliest_deadline().unwrap();
    assert!(t.on_ack(2));
    let d2 = t.earliest_deadline().unwrap();
    assert_eq!(d2 - d1, 400);
}

#[test]
fn on_ack_removes_only_first_match() {
    let mut t = AckTracker::new();
    assert!(t.track_at(5, heapless::Vec::new(), 0));
    assert!(t.track_at(5, heapless::Vec::new(), 10));
    assert!(t.on_ack(5));
    assert!(t.on_ack(5));
    assert!(!t.on_ack(5));
}

#[test]
fn session_delegates() {
    let mut s = Session::new();
    assert!(!s.is_duplicate(3));
    s.record(3);
    assert!(s.is_duplicate(3));
    assert_eq!(s.next_id(), 0);
    assert_eq!(s.next_id(), 1);
    assert!(s.track(0, heapless::Vec::new()));
    assert!(s.earliest_deadline().is_some());
    assert!(s.on_ack(0));
    assert!(s.earliest_deadline().is_none());
    let actions = s.poll_timeouts().unwrap();
    assert_eq!(actions.len(), 0);
}

#[test]
fn poll_timeouts_with_unexpired_entries_succeeds() {
    let mut s = Session::new();
    assert!(s.track(4, heapless::Vec::new()));
    // the deadline is ACK_TIMEOUT_MS away: nothing expires, nothing is asked
    let actions = s.poll_timeouts().unwrap();
    assert_eq!(actions.len(), 0);
    assert!(s.earliest_deadline().is_some());
}

#[test]
fn dedup_recorded_id_lifetime() {
    let mut f = DedupFilter::new();
    f.record(200);
    for i in 0..(DEDUP_WINDOW as u8 - 2) {
        f.record(i);
    }
    // fewer than DEDUP_WINDOW - 1 records followed it
    assert!(f.is_duplicate(200));
    f.record(100);
    assert!(!f.is_duplicate(200));
    // recording adds no other id
    assert!(!f.is_duplicate(101));
}
