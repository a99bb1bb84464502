//! The chat screen's history: the last few messages received and sent, with
//! the delivery status of each sent one.
use vstd::prelude::*;
use vstd::string::*;

use crate::bounded::{chat_at, chat_at_mut, chat_entries, chat_is_full, chat_len, chat_new, chat_push, chat_remove};
use crate::display::{ScreenId, ScreenTransition, UIEvent};
use crate::text::{line_bytes, line_new, line_push_str, text_as_str, text_bytes, text_clone, text_view, Text};

verus! {

/// How many messages the chat screen keeps.
pub const MAX_MSGS: usize = 5;

/// Where a sent message stands.
#[derive(Clone, Copy, Debug, PartialEq, Eq, Structural)]
pub enum DeliveryStatus {
    Pending,
    Confirmed,
    Failed,
}

/// One line of chat history.
pub enum ChatEntry {
    Incoming { id: u8, text: Text },
    Outgoing { id: u8, text: Text, status: DeliveryStatus },
}

/// A line of chat history, with its text taken by its characters.
pub enum EntryView {
    Incoming { id: u8, text: Seq<char> },
    Outgoing { id: u8, text: Seq<char>, status: DeliveryStatus },
}

impl View for ChatEntry {
    type V = EntryView;

    open spec fn view(&self) -> EntryView {
        match self {
            ChatEntry::Incoming { id, text } => EntryView::Incoming { id: *id, text: text_view(*text) },
            ChatEntry::Outgoing { id, text, status } => EntryView::Outgoing {
                id: *id,
                text: text_view(*text),
                status: *status,
            },
        }
    }
}

pub open spec fn entry_id(e: EntryView) -> u8 {
    match e {
        EntryView::Incoming { id, .. } => id,
        EntryView::Outgoing { id, .. } => id,
    }
}

/// The entry with a new status when it is an outgoing one.
pub open spec fn with_status(e: EntryView, status: DeliveryStatus) -> EntryView {
    match e {
        EntryView::Outgoing { id, text, .. } => EntryView::Outgoing { id, text, status },
        EntryView::Incoming { .. } => e,
    }
}

/// The history with room for one more entry: the oldest goes when it is full.
pub open spec fn with_room(history: Seq<EntryView>) -> Seq<EntryView> {
    if history.len() >= MAX_MSGS {
        history.drop_first()
    } else {
        history
    }
}

/// The history after `update_status(id, status)`: the first entry with
/// that id gets the status if it is outgoing.
pub open spec fn status_updated(history: Seq<EntryView>, id: u8, status: DeliveryStatus) -> Seq<EntryView> {
    if exists|k: int| 0 <= k < history.len() && entry_id(#[trigger] history[k]) == id {
        let k = choose|k: int|
            0 <= k < history.len() && entry_id(#[trigger] history[k]) == id && forall|j: int|
                0 <= j < k ==> entry_id(#[trigger] history[j]) != id;
        history.update(k, with_status(history[k], status))
    } else {
        history
    }
}

/// The bytes of an ASCII text.
pub open spec fn ascii(s: Seq<char>) -> Seq<u8> {
    s.map_values(|c: char| c as u8)
}

/// The mark shown after a sent message: pending, confirmed or failed.
pub open spec fn status_mark(status: DeliveryStatus) -> Seq<char> {
    match status {
        DeliveryStatus::Pending => " ~"@,
        DeliveryStatus::Confirmed => " +"@,
        DeliveryStatus::Failed => " x"@,
    }
}

/// The display line of an entry: `< text` for a received message,
/// `> text` and its delivery mark for a sent one.
pub open spec fn entry_line(e: ChatEntry) -> Seq<u8> {
    match e {
        ChatEntry::Incoming { text, .. } => ascii("< "@) + text_bytes(text),
        ChatEntry::Outgoing { text, status, .. } => ascii("> "@) + text_bytes(text) + ascii(status_mark(status)),
    }
}

/// The history after `event`: received and sent messages join it, and
/// confirmations and discards update the status of the sent message.
pub open spec fn history_after(history: Seq<EntryView>, event: UIEvent) -> Seq<EntryView> {
    match event {
        UIEvent::MessageReceived { id, text } => with_room(history).push(
            EntryView::Incoming { id, text: text_view(text) },
        ),
        UIEvent::MessageSent { id, text } => with_room(history).push(
            EntryView::Outgoing { id, text: text_view(text), status: DeliveryStatus::Pending },
        ),
        UIEvent::MessageConfirmed { id } => status_updated(history, id, DeliveryStatus::Confirmed),
        UIEvent::MessageDiscarded { id } => status_updated(history, id, DeliveryStatus::Failed),
        _ => history,
    }
}

/// The screen change the chat screen asks for on `event`: to the menu on
/// the menu button.
pub open spec fn chat_transition(event: UIEvent) -> Option<ScreenTransition> {
    match event {
        UIEvent::NavMenu => Some(ScreenTransition::GoTo(ScreenId::Menu)),
        _ => None,
    }
}

impl ChatEntry {
    /// The line shown for this entry.
    pub fn line(&self) -> (r: heapless::String<132>)
        ensures
            line_bytes(r) == entry_line(*self),
    {
        broadcast use is_ascii_spec_bytes;
        proof {
            reveal_strlit("< ");
            reveal_strlit("> ");
            reveal_strlit(" ~");
            reveal_strlit(" +");
            reveal_strlit(" x");
        }
        let mut line = line_new();
        match self {
            ChatEntry::Incoming { text, .. } => {
                let open = "< ";
                assert(is_ascii(open));
                assert(open.spec_bytes() =~= ascii("< "@));
                let _ = line_push_str(&mut line, open);
                let body = text_as_str(text);
                let _ = line_push_str(&mut line, body);
                assert(line_bytes(line) =~= entry_line(*self));
            },
            ChatEntry::Outgoing { text, status, .. } => {
                let open = "> ";
                assert(is_ascii(open));
                assert(open.spec_bytes() =~= ascii("> "@));
                let _ = line_push_str(&mut line, open);
                let body = text_as_str(text);
                let _ = line_push_str(&mut line, body);
                let mark = match status {
                    DeliveryStatus::Pending => " ~",
                    DeliveryStatus::Confirmed => " +",
                    DeliveryStatus::Failed => " x",
                };
                assert(is_ascii(mark));
                assert(mark.spec_bytes() =~= ascii(status_mark(*status)));
                let _ = line_push_str(&mut line, mark);
                assert(line_bytes(line) =~= entry_line(*self));
            },
        }
        line
    }

    pub fn id(&self) -> (r: u8)
        ensures
            r == entry_id(self@),
    {
        match self {
            ChatEntry::Incoming { id, .. } | ChatEntry::Outgoing { id, .. } => *id,
        }
    }
}

/// The chat history screen.
pub struct ChatScreen {
    entries: heapless::Vec<ChatEntry, 5>,
}

impl View for ChatScreen {
    type V = Seq<EntryView>;

    /// The history, oldest first.
    closed spec fn view(&self) -> Seq<EntryView> {
        chat_entries(self.entries).map_values(|e: ChatEntry| e@)
    }
}

proof fn lemma_first_index_unique(history: Seq<EntryView>, id: u8, k1: int, k2: int)
    requires
        0 <= k1 < history.len() && entry_id(history[k1]) == id,
        forall|j: int| 0 <= j < k1 ==> entry_id(#[trigger] history[j]) != id,
        0 <= k2 < history.len() && entry_id(history[k2]) == id,
        forall|j: int| 0 <= j < k2 ==> entry_id(#[trigger] history[j]) != id,
    ensures
        k1 == k2,
{
    if k1 < k2 {
        assert(entry_id(history[k1]) != id);
    } else if k2 < k1 {
        assert(entry_id(history[k2]) != id);
    }
}

impl ChatScreen {
    pub open spec fn wf(&self) -> bool {
        self@.len() <= MAX_MSGS
    }

    pub fn new() -> (r: Self)
        ensures
            r.wf(),
            r@ == Seq::<EntryView>::empty(),
    {
        let r = Self { entries: chat_new() };
        assert(r@ =~= Seq::<EntryView>::empty());
        r
    }

    /// The entry shown on row `i`.
    pub fn entry(&self, i: usize) -> (r: &ChatEntry)
        requires
            i < self@.len(),
        ensures
            r@ == self@[i as int],
    {
        chat_at(&self.entries, i)
    }

    /// The number of entries.
    pub fn len(&self) -> (r: usize)
        ensures
            r == self@.len(),
    {
        chat_len(&self.entries)
    }

    pub fn push_incoming(&mut self, id: u8, text: Text)
        requires
            old(self).wf(),
        ensures
            final(self).wf(),
            final(self)@ == with_room(old(self)@).push(EntryView::Incoming { id, text: text_view(text) }),
    {
        self.evict_oldest_if_full();
        let ghost before = chat_entries(self.entries);
        let _ = chat_push(&mut self.entries, ChatEntry::Incoming { id, text });
        assert(self@ =~= before.map_values(|e: ChatEntry| e@).push(
            EntryView::Incoming { id, text: text_view(text) },
        ));
    }

    pub fn push_outgoing(&mut self, id: u8, text: Text)
        requires
            old(self).wf(),
        ensures
            final(self).wf(),
            final(self)@ == with_room(old(self)@).push(
                EntryView::Outgoing { id, text: text_view(text), status: DeliveryStatus::Pending },
            ),
    {
        self.evict_oldest_if_full();
        let ghost before = chat_entries(self.entries);
        let _ = chat_push(&mut self.entries, ChatEntry::Outgoing { id, text, status: DeliveryStatus::Pending });
        assert(self@ =~= before.map_values(|e: ChatEntry| e@).push(
            EntryView::Outgoing { id, text: text_view(text), status: DeliveryStatus::Pending },
        ));
    }

    /// Sets the status of the first entry with `id`, when it is outgoing.
    pub fn update_status(&mut self, id: u8, status: DeliveryStatus)
        requires
            old(self).wf(),
        ensures
            final(self).wf(),
            final(self)@ == status_updated(old(self)@, id, status),
    {
        let ghost h = self@;
        let n = chat_len(&self.entries);
        let mut i: usize = 0;
        while i < n
            invariant
                n == chat_entries(self.entries).len(),
                h == self@,
                h == old(self)@,
                h.len() == n,
                n <= MAX_MSGS,
                i <= n,
                forall|j: int| 0 <= j < i ==> entry_id(#[trigger] h[j]) != id,
            decreases n - i,
        {
            assert(h[i as int] == chat_entries(self.entries)[i as int]@);
            if chat_at(&self.entries, i).id() == id {
                let ghost before = chat_entries(self.entries);
                let entry = chat_at_mut(&mut self.entries, i);
                if let ChatEntry::Outgoing { status: s, .. } = entry {
                    *s = status;
                }
                proof {
                    assert(chat_entries(self.entries) == before.update(i as int, chat_entries(self.entries)[i as int]));
                    assert(chat_entries(self.entries)[i as int]@ == with_status(before[i as int]@, status));
                    let k = choose|k: int|
                        0 <= k < h.len() && entry_id(#[trigger] h[k]) == id && forall|j: int|
                            0 <= j < k ==> entry_id(#[trigger] h[j]) != id;
                    assert(0 <= i < h.len() && entry_id(h[i as int]) == id);
                    lemma_first_index_unique(h, id, k, i as int);
                    assert(self@ =~= h.update(i as int, with_status(h[i as int], status)));
                }
                return;
            }
            i += 1;
        }
    }

    fn evict_oldest_if_full(&mut self)
        requires
            old(self).wf(),
        ensures
            final(self)@ == with_room(old(self)@),
            final(self)@.len() < MAX_MSGS,
    {
        if chat_is_full(&self.entries) {
            let ghost before = chat_entries(self.entries);
            let _ = chat_remove(&mut self.entries, 0);
            assert(self@ =~= before.map_values(|e: ChatEntry| e@).drop_first());
        }
    }

    /// Navigation to the menu, and the message events that change the history.
    pub fn on_event(&mut self, event: &UIEvent) -> (r: Option<ScreenTransition>)
        requires
            old(self).wf(),
        ensures
            final(self).wf(),
            final(self)@ == history_after(old(self)@, *event),
            r == chat_transition(*event),
    {
        match event {
            UIEvent::NavMenu => Some(ScreenTransition::GoTo(ScreenId::Menu)),
            UIEvent::MessageReceived { id, text } => {
                self.push_incoming(*id, text_clone(text));
                None
            },
            UIEvent::MessageSent { id, text } => {
                self.push_outgoing(*id, text_clone(text));
                None
            },
            UIEvent::MessageConfirmed { id } => {
                self.update_status(*id, DeliveryStatus::Confirmed);
                None
            },
            UIEvent::MessageDiscarded { id } => {
                self.update_status(*id, DeliveryStatus::Failed);
                None
            },
            _ => None,
        }
    }
}

// ── Laws ─────────────────────────────────────────────────────────────────────

/// A delivery report for `id` changes only the first entry with that id:
/// when it is a sent message, a confirmation marks it `Confirmed` and a
/// discard marks it `Failed`, keeping its id and text; a received message
/// is left as it is. Every other entry stays, and so does the length.
pub proof fn lemma_delivery_report_marks_entry(h: Seq<EntryView>, id: u8, k: int)
    requires
        0 <= k < h.len(),
        entry_id(h[k]) == id,
        forall|j: int| 0 <= j < k ==> entry_id(#[trigger] h[j]) != id,
    ensures
        ({
            let c = history_after(h, UIEvent::MessageConfirmed { id });
            let d = history_after(h, UIEvent::MessageDiscarded { id });
            &&& c.len() == h.len()
            &&& d.len() == h.len()
            &&& forall|j: int| 0 <= j < h.len() && j != k ==> #[trigger] c[j] == h[j] && d[j] == h[j]
            &&& (h[k] matches EntryView::Outgoing { id: oid, text, .. } ==> c[k] == (EntryView::Outgoing {
                id: oid,
                text,
                status: DeliveryStatus::Confirmed,
            }) && d[k] == (EntryView::Outgoing { id: oid, text, status: DeliveryStatus::Failed }))
            &&& (h[k] is Incoming ==> c[k] == h[k] && d[k] == h[k])
        }),
{
    let k2 = choose|k2: int|
        0 <= k2 < h.len() && entry_id(#[trigger] h[k2]) == id && forall|j: int|
            0 <= j < k2 ==> entry_id(#[trigger] h[j]) != id;
    assert(0 <= k < h.len() && entry_id(h[k]) == id);
    lemma_first_index_unique(h, id, k, k2);
}

/// A delivery report for an id that no entry carries leaves the history
/// as it is.
pub proof fn lemma_delivery_report_without_entry(h: Seq<EntryView>, id: u8)
    requires
        forall|j: int| 0 <= j < h.len() ==> entry_id(#[trigger] h[j]) != id,
    ensures
        history_after(h, UIEvent::MessageConfirmed { id }) == h,
        history_after(h, UIEvent::MessageDiscarded { id }) == h,
{
}

/// A received or sent message joins the history as its newest entry (a sent
/// one as pending), the oldest entry giving way when five are kept; the
/// other entries keep their order.
pub proof fn lemma_new_message_appended(h: Seq<EntryView>, id: u8, text: Text)
    requires
        h.len() <= MAX_MSGS,
    ensures
        ({
            let r = history_after(h, UIEvent::MessageReceived { id, text });
            let s = history_after(h, UIEvent::MessageSent { id, text });
            let kept = if h.len() == MAX_MSGS { h.len() - 1 } else { h.len() as int };
            &&& r.len() == kept + 1 && s.len() == kept + 1
            &&& r.len() <= MAX_MSGS
            &&& r[kept] == (EntryView::Incoming { id, text: text_view(text) })
            &&& s[kept] == (EntryView::Outgoing { id, text: text_view(text), status: DeliveryStatus::Pending })
            &&& forall|j: int| 0 <= j < kept ==> #[trigger] r[j] == h[h.len() - kept + j] && s[j] == h[h.len() - kept + j]
        }),
{
}

} // verus!
