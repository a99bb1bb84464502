//! The coordinator's decisions: what to do with a received frame, with a
//! line of user input, and with each channel-activity check before a
//! transmission. The coordinator task performs the radio and queue work
//! these decisions ask for.
use vstd::prelude::*;
use vstd::utf8::*;

use crate::bounded::{wire_bytes, wire_clone, wire_from_slice};
use crate::clock::{duration_ticks, now_ticks, ticks_for_millis};
use crate::config::{ACK_TIMEOUT_MS, LBT_BACKOFF_BASE_MS, LBT_MAX_ATTEMPTS, LORA_MAX_PAYLOAD, MAX_PENDING_ACKS};
use crate::protocol::{
    ack_frame, encode_ack, message_frame, packet_from_wire, MessagePacket, Packet, PacketView,
    ProtocolError, MAX_TEXT,
};
use crate::radio::RadioError;
use crate::session::{ack_deadline_fits, fresh_entry, has_id, first_with_id, remember, PendingAck, Session, Wire};
use crate::text::{str_from_utf8, text_clone, text_try_from, text_view, Text};

verus! {

// -- Input parsing -------------------------------------------------------------

/// A line of user input: a navigation command or a message to send.
pub enum InputCommand<'a> {
    NavUp,
    NavDown,
    NavMenu,
    Message(&'a [u8]),
}

/// A line of user input, by its bytes.
pub enum InputView {
    NavUp,
    NavDown,
    NavMenu,
    Message(Seq<u8>),
}

impl<'a> View for InputCommand<'a> {
    type V = InputView;

    open spec fn view(&self) -> InputView {
        match self {
            InputCommand::NavUp => InputView::NavUp,
            InputCommand::NavDown => InputView::NavDown,
            InputCommand::NavMenu => InputView::NavMenu,
            InputCommand::Message(m) => InputView::Message(m@),
        }
    }
}

/// `up`, `down` and `menu` are navigation commands; anything else is text.
/// (The byte values are those of the ASCII letters.)
pub open spec fn input_command(payload: Seq<u8>) -> InputView {
    if payload == seq![0x75u8, 0x70u8] {
        InputView::NavUp
    } else if payload == seq![0x64u8, 0x6fu8, 0x77u8, 0x6eu8] {
        InputView::NavDown
    } else if payload == seq![0x6du8, 0x65u8, 0x6eu8, 0x75u8] {
        InputView::NavMenu
    } else {
        InputView::Message(payload)
    }
}

pub fn parse_input(payload: &[u8]) -> (r: InputCommand<'_>)
    ensures
        r@ == input_command(payload@),
        r is NavUp <==> payload@ == seq![0x75u8, 0x70u8],
        r is NavDown <==> payload@ == seq![0x64u8, 0x6fu8, 0x77u8, 0x6eu8],
        r is NavMenu <==> payload@ == seq![0x6du8, 0x65u8, 0x6eu8, 0x75u8],
        r matches InputCommand::Message(m) ==> m@ == payload@,
{
    let n = payload.len();
    // "up", "down", "menu"
    if n == 2 && payload[0] == 0x75u8 && payload[1] == 0x70u8 {
        assert(payload@ =~= seq![0x75u8, 0x70u8]);
        InputCommand::NavUp
    } else if n == 4 && payload[0] == 0x64u8 && payload[1] == 0x6fu8 && payload[2] == 0x77u8 && payload[3] == 0x6eu8 {
        assert(payload@ =~= seq![0x64u8, 0x6fu8, 0x77u8, 0x6eu8]);
        InputCommand::NavDown
    } else if n == 4 && payload[0] == 0x6du8 && payload[1] == 0x65u8 && payload[2] == 0x6eu8 && payload[3] == 0x75u8 {
        assert(payload@ =~= seq![0x6du8, 0x65u8, 0x6eu8, 0x75u8]);
        InputCommand::NavMenu
    } else {
        proof {
            if payload@ == seq![0x75u8, 0x70u8] {
                assert(payload@[0] == 0x75u8 && payload@[1] == 0x70u8);
            }
            if payload@ == seq![0x64u8, 0x6fu8, 0x77u8, 0x6eu8] {
                assert(payload@[0] == 0x64u8);
            }
            if payload@ == seq![0x6du8, 0x65u8, 0x6eu8, 0x75u8] {
                assert(payload@[0] == 0x6du8 && payload@[1] == 0x65u8 && payload@[2] == 0x6eu8 && payload@[3] == 0x75u8);
            }
        }
        InputCommand::Message(payload)
    }
}

// -- Received frames -------------------------------------------------------------

/// What the coordinator does with a received frame.
pub enum RecvAction {
    /// A message: send `ack` back; `text` is the message text to show and
    /// forward, or `None` when the message was already received.
    Message { id: u8, ack: [u8; 2], text: Option<Text> },
    /// An acknowledgement of a frame we were waiting on.
    Confirmed { id: u8 },
    /// An acknowledgement of nothing we are waiting on.
    UnexpectedAck { id: u8 },
    /// A frame type the node does not act on.
    Ignored,
}

impl Session {
    /// Everything the session holds.
    pub open spec fn state(&self) -> (Seq<u8>, u8, Seq<PendingAck>) {
        (self.seen(), self.seq_counter(), self.entries())
    }
}

/// Decides what to do with a received frame, and updates the session.
pub fn handle_recv(session: &mut Session, frame: &[u8]) -> (r: Result<RecvAction, ProtocolError>)
    requires
        old(session).wf(),
    ensures
        final(session).wf(),
        match packet_from_wire(frame@) {
            Err(e) => r == Err::<RecvAction, ProtocolError>(e) && final(session).state() == old(session).state(),
            Ok(PacketView::Message { id, text, .. }) => {
                &&& r matches Ok(RecvAction::Message { id: rid, ack, text: t }) && rid == id && ack@ == ack_frame(id)
                    && (old(session).seen().contains(id) ==> t is None)
                    && (!old(session).seen().contains(id) ==> (t matches Some(tt) && text_view(tt) == text))
                &&& final(session).seq_counter() == old(session).seq_counter()
                &&& final(session).entries() == old(session).entries()
                &&& final(session).seen() == (if old(session).seen().contains(id) {
                    old(session).seen()
                } else {
                    remember(old(session).seen(), id)
                })
            },
            Ok(PacketView::Ack { id }) => {
                &&& r == Ok::<RecvAction, ProtocolError>(if has_id(old(session).entries(), id) {
                    RecvAction::Confirmed { id }
                } else {
                    RecvAction::UnexpectedAck { id }
                })
                &&& final(session).seen() == old(session).seen()
                &&& final(session).seq_counter() == old(session).seq_counter()
                &&& has_id(old(session).entries(), id) ==> exists|k: int|
                    first_with_id(old(session).entries(), id, k)
                        && final(session).entries() == old(session).entries().remove(k)
                &&& !has_id(old(session).entries(), id) ==> final(session).entries() == old(session).entries()
            },
            Ok(_) => r == Ok::<RecvAction, ProtocolError>(RecvAction::Ignored)
                && final(session).state() == old(session).state(),
        },
{
    let packet = match Packet::parse(frame) {
        Ok(p) => p,
        Err(e) => return Err(e),
    };
    match packet {
        Packet::Message(msg) => {
            let ack = encode_ack(msg.id);
            if session.is_duplicate(msg.id) {
                return Ok(RecvAction::Message { id: msg.id, ack, text: None });
            }
            session.record(msg.id);
            Ok(RecvAction::Message { id: msg.id, ack, text: Some(msg.text) })
        },
        Packet::Ack(ack) => {
            if session.on_ack(ack.id) {
                Ok(RecvAction::Confirmed { id: ack.id })
            } else {
                Ok(RecvAction::UnexpectedAck { id: ack.id })
            }
        },
        _ => Ok(RecvAction::Ignored),
    }
}

// -- Outgoing input ----------------------------------------------------------------

/// What the coordinator does with a line of user input.
pub enum SendAction {
    NavUp,
    NavDown,
    NavMenu,
    /// Dropped: the text is not UTF-8.
    NotUtf8,
    /// Dropped: the text does not fit in a frame.
    TooLong,
    /// Dropped: the frame could not be encoded (a text within `MAX_TEXT`
    /// always encodes, so this is never returned).
    EncodeFailed,
    /// Dropped: the acknowledgement queue is full.
    QueueFull,
    /// Show `text` as sent with `id`, and transmit `wire`.
    Transmit { id: u8, text: Text, wire: Wire },
}

/// Decides what to do with a line of user input, with `now` as the clock
/// tick of transmission. A message is given the next id, framed for
/// destination 0 and registered for acknowledgement, due `ACK_TIMEOUT_MS`
/// after `now`; it is dropped as `QueueFull` when the acknowledgement queue
/// is full or that deadline would not fit in the clock's range.
pub fn handle_send_at(session: &mut Session, payload: &[u8], now: u64) -> (r: SendAction)
    requires
        old(session).wf(),
    ensures
        final(session).wf(),
        final(session).seen() == old(session).seen(),
        !(r is EncodeFailed),
        match input_command(payload@) {
            InputView::NavUp => r is NavUp && final(session).state() == old(session).state(),
            InputView::NavDown => r is NavDown && final(session).state() == old(session).state(),
            InputView::NavMenu => r is NavMenu && final(session).state() == old(session).state(),
            InputView::Message(bytes) => {
                &&& !valid_utf8(bytes) ==> r is NotUtf8 && final(session).state() == old(session).state()
                &&& valid_utf8(bytes) && bytes.len() > MAX_TEXT ==> r is TooLong
                    && final(session).state() == old(session).state()
                &&& valid_utf8(bytes) && bytes.len() <= MAX_TEXT ==> {
                    let id = old(session).seq_counter();
                    &&& final(session).seq_counter() == (if id == 255 { 0 } else { id + 1 })
                    &&& (r is Transmit || r is QueueFull)
                    &&& r is QueueFull <==> (old(session).entries().len() >= MAX_PENDING_ACKS
                        || !ack_deadline_fits(now))
                    &&& r is QueueFull ==> final(session).entries() == old(session).entries()
                    &&& r matches SendAction::Transmit { id: rid, text, wire } ==> {
                        &&& rid == id
                        &&& text_view(text) == decode_utf8(bytes)
                        &&& wire_bytes(wire) == message_frame(0, id, bytes)
                        &&& exists|w: Wire|
                            wire_bytes(w) == wire_bytes(wire) && final(session).entries()
                                == old(session).entries().push(
                                #[trigger] fresh_entry(id, w, (now + ticks_for_millis(ACK_TIMEOUT_MS)) as u64),
                            )
                    }
                }
            },
        },
{
    match parse_input(payload) {
        InputCommand::NavUp => SendAction::NavUp,
        InputCommand::NavDown => SendAction::NavDown,
        InputCommand::NavMenu => SendAction::NavMenu,
        InputCommand::Message(raw) => {
            let text_str = match str_from_utf8(raw) {
                Ok(s) => s,
                Err(_) => return SendAction::NotUtf8,
            };
            proof {
                decode_utf8_encode_utf8(raw@);
                encode_utf8_decode_utf8(text_str@);
            }
            let text: Text = match text_try_from(text_str) {
                Ok(t) => t,
                Err(_) => return SendAction::TooLong,
            };

            let id = session.next_id();
            let msg = MessagePacket::new(0, id, text_clone(&text));

            let mut buf = [0u8; 128];
            let len = match msg.encode(&mut buf) {
                Some(l) => l,
                None => return SendAction::EncodeFailed,
            };
            let wire = match wire_from_slice(&buf[0..len]) {
                Ok(w) => w,
                Err(_) => return SendAction::EncodeFailed,
            };
            proof {
                assert(buf@.subrange(0, len as int) =~= message_frame(0, id, raw@));
            }

            let dt = duration_ticks(ACK_TIMEOUT_MS);
            if now > u64::MAX - dt {
                return SendAction::QueueFull;
            }
            let tracked_wire = wire_clone(&wire);
            if !session.track_at(id, tracked_wire, now) {
                return SendAction::QueueFull;
            }
            SendAction::Transmit { id, text, wire }
        },
    }
}

/// Decides what to do with a line of user input at the current time (see
/// `handle_send_at`). With room in the acknowledgement queue, a message
/// that fits is dropped as `QueueFull` only when its acknowledgement
/// deadline would not fit in the clock's range.
pub fn handle_send(session: &mut Session, payload: &[u8]) -> (r: SendAction)
    requires
        old(session).wf(),
    ensures
        final(session).wf(),
        final(session).seen() == old(session).seen(),
        !(r is EncodeFailed),
        match input_command(payload@) {
            InputView::NavUp => r is NavUp && final(session).state() == old(session).state(),
            InputView::NavDown => r is NavDown && final(session).state() == old(session).state(),
            InputView::NavMenu => r is NavMenu && final(session).state() == old(session).state(),
            InputView::Message(bytes) => {
                &&& !valid_utf8(bytes) ==> r is NotUtf8 && final(session).state() == old(session).state()
                &&& valid_utf8(bytes) && bytes.len() > MAX_TEXT ==> r is TooLong
                    && final(session).state() == old(session).state()
                &&& valid_utf8(bytes) && bytes.len() <= MAX_TEXT ==> {
                    let id = old(session).seq_counter();
                    &&& final(session).seq_counter() == (if id == 255 { 0 } else { id + 1 })
                    &&& (r is Transmit || r is QueueFull)
                    &&& old(session).entries().len() >= MAX_PENDING_ACKS ==> r is QueueFull
                    &&& old(session).entries().len() < MAX_PENDING_ACKS && r is QueueFull ==> exists|now: u64|
                        !(#[trigger] ack_deadline_fits(now))
                    &&& r is QueueFull ==> final(session).entries() == old(session).entries()
                    &&& r matches SendAction::Transmit { id: rid, text, wire } ==> {
                        &&& rid == id
                        &&& text_view(text) == decode_utf8(bytes)
                        &&& wire_bytes(wire) == message_frame(0, id, bytes)
                        &&& exists|now: u64, w: Wire|
                            #[trigger] ack_deadline_fits(now) && wire_bytes(w) == wire_bytes(wire)
                                && final(session).entries() == old(session).entries().push(
                                #[trigger] fresh_entry(id, w, (now + ticks_for_millis(ACK_TIMEOUT_MS)) as u64),
                            )
                        &&& exists|w: Wire, deadline: u64|
                            wire_bytes(w) == wire_bytes(wire) && final(session).entries()
                                == old(session).entries().push(#[trigger] fresh_entry(id, w, deadline))
                    }
                }
            },
        },
{
    let now = now_ticks();
    let r = handle_send_at(session, payload, now);
    proof {
        if let InputView::Message(bytes) = input_command(payload@) {
            if valid_utf8(bytes) && bytes.len() <= MAX_TEXT {
                if old(session).entries().len() < MAX_PENDING_ACKS && r is QueueFull {
                    assert(!ack_deadline_fits(now));
                }
                if r is Transmit {
                    assert(ack_deadline_fits(now));
                }
            }
        }
    }
    r
}

// -- Listen Before Talk --------------------------------------------------------

/// The backoff before the next channel check after `attempt` found the
/// channel busy, without jitter: doubling from `LBT_BACKOFF_BASE_MS`,
/// capped at the fifth doubling.
pub open spec fn backoff_base_ms(attempt: u8) -> u64 {
    LBT_BACKOFF_BASE_MS << (if attempt < 5u8 { attempt } else { 5u8 })
}

/// The backoff after a busy channel check, with jitter taken from the low
/// six bits of the clock tick count `ticks`.
pub fn backoff_with_jitter(attempt: u8, ticks: u64) -> (r: u64)
    ensures
        r == backoff_base_ms(attempt) + (ticks & 0x3Fu64),
        backoff_base_ms(attempt) <= r < backoff_base_ms(attempt) + 64,
{
    let shift: u8 = if attempt < 5 { attempt } else { 5 };
    let base = LBT_BACKOFF_BASE_MS << shift;
    let jitter = ticks & 0x3F;
    assert(base <= 1600) by (bit_vector)
        requires
            base == 50u64 << shift,
            shift <= 5,
    ;
    assert(jitter < 64) by (bit_vector)
        requires
            jitter == ticks & 0x3Fu64,
    ;
    base + jitter
}

/// The backoff after `attempt` found the channel busy, with jitter from the
/// current clock.
pub fn lbt_backoff_ms(attempt: u8) -> (r: u64)
    ensures
        backoff_base_ms(attempt) <= r < backoff_base_ms(attempt) + 64,
{
    backoff_with_jitter(attempt, now_ticks())
}

/// The next step of a listen-before-talk transmission.
pub enum LbtStep {
    /// The channel is clear: transmit now.
    Transmit,
    /// The channel is busy: wait this long before checking again.
    Backoff { ms: u64 },
    /// The channel check failed: give up.
    Abort,
}

/// Decides the next step after channel-activity check number `attempt`
/// (counting from 0) reported `cad`.
pub fn lbt_step(attempt: u8, cad: Result<bool, RadioError>) -> (r: LbtStep)
    requires
        attempt < LBT_MAX_ATTEMPTS,
    ensures
        cad == Ok::<bool, RadioError>(false) ==> r is Transmit,
        cad is Err ==> r is Abort,
        cad == Ok::<bool, RadioError>(true) ==> (r matches LbtStep::Backoff { ms }
            && backoff_base_ms(attempt) <= ms < backoff_base_ms(attempt) + 64),
{
    match cad {
        Ok(false) => LbtStep::Transmit,
        Ok(true) => LbtStep::Backoff { ms: lbt_backoff_ms(attempt) },
        Err(_) => LbtStep::Abort,
    }
}

/// The attempt after a busy channel check number `attempt` (counting from
/// 0), once its backoff has been waited out: the next one, or `None` when
/// `LBT_MAX_ATTEMPTS` checks have all found the channel busy and the
/// transmission is given up.
pub fn lbt_next_attempt(attempt: u8) -> (r: Option<u8>)
    requires
        attempt < LBT_MAX_ATTEMPTS,
    ensures
        r == (if attempt + 1 < LBT_MAX_ATTEMPTS { Some((attempt + 1) as u8) } else { None::<u8> }),
{
    if attempt + 1 < LBT_MAX_ATTEMPTS {
        Some(attempt + 1)
    } else {
        None
    }
}

// -- Laws ------------------------------------------------------------------------

/// Only the exact words `up`, `down` and `menu` are navigation commands;
/// every other line, a longer one that starts with a command word included,
/// is a message carrying the line's bytes unchanged.
pub proof fn lemma_only_exact_words_navigate(payload: Seq<u8>)
    ensures
        input_command(payload) is NavUp <==> payload == seq![0x75u8, 0x70u8],
        input_command(payload) is NavDown <==> payload == seq![0x64u8, 0x6fu8, 0x77u8, 0x6eu8],
        input_command(payload) is NavMenu <==> payload == seq![0x6du8, 0x65u8, 0x6eu8, 0x75u8],
        payload != seq![0x75u8, 0x70u8] && payload != seq![0x64u8, 0x6fu8, 0x77u8, 0x6eu8]
            && payload != seq![0x6du8, 0x65u8, 0x6eu8, 0x75u8]
            ==> input_command(payload) == InputView::Message(payload),
{
    let up = seq![0x75u8, 0x70u8];
    let down = seq![0x64u8, 0x6fu8, 0x77u8, 0x6eu8];
    let menu = seq![0x6du8, 0x65u8, 0x6eu8, 0x75u8];
    assert(up != down && up != menu) by {
        assert(up.len() != down.len() && up.len() != menu.len());
    }
    assert(down != menu) by {
        assert(down[0] != menu[0]);
    }
}

/// A frame that `handle_send` transmits for a text is read by the receiving
/// node's `handle_recv` as a message to destination 0 with the same id and
/// the same text.
pub proof fn lemma_sent_frame_reads_back(id: u8, bytes: Seq<u8>)
    requires
        valid_utf8(bytes),
        bytes.len() <= MAX_TEXT,
    ensures
        packet_from_wire(message_frame(0, id, bytes)) == Ok::<PacketView, ProtocolError>(
            PacketView::Message { dest: 0, id, text: decode_utf8(bytes) },
        ),
{
    decode_utf8_encode_utf8(bytes);
    crate::protocol::lemma_message_roundtrip(0, id, decode_utf8(bytes));
    assert(0u8 & 0x0Fu8 == 0u8) by (bit_vector);
}

} // verus!
