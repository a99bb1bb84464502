//! Delivery session: duplicate suppression for received messages, and
//! acknowledgement tracking with retransmission for sent ones.
use vstd::prelude::*;

use crate::bounded::{
    action_entries, actions_new, actions_push, pending_at, pending_at_mut, pending_entries,
    pending_is_full, pending_len, pending_new, pending_push, pending_remove, seen_contains,
    seen_ids, seen_is_full, seen_new, seen_push, seen_remove, wire_bytes, wire_clone,
};
use crate::clock::{duration_ticks, lemma_whole_seconds, now_ticks, ticks_for_millis, ticks_per_second};
use crate::config::{ACK_TIMEOUT_MS, DEDUP_WINDOW, MAX_PENDING_ACKS, MAX_RETRIES};

verus! {

/// The bytes of a frame kept for retransmission.
pub type Wire = heapless::Vec<u8, 128>;

// -- TimeoutAction ----------------------------------------------------------

/// What the coordinator must do about a frame whose acknowledgement is late.
pub enum TimeoutAction {
    /// Transmit `wire` again.
    Retry { id: u8, wire: Wire },
    /// Stop waiting for an acknowledgement of `id`.
    GiveUp { id: u8 },
}

/// A timeout action, with the frame taken by its bytes.
pub enum ActionView {
    Retry { id: u8, wire: Seq<u8> },
    GiveUp { id: u8 },
}

impl View for TimeoutAction {
    type V = ActionView;

    open spec fn view(&self) -> ActionView {
        match self {
            TimeoutAction::Retry { id, wire } => ActionView::Retry { id: *id, wire: wire_bytes(*wire) },
            TimeoutAction::GiveUp { id } => ActionView::GiveUp { id: *id },
        }
    }
}

pub open spec fn action_views(s: Seq<TimeoutAction>) -> Seq<ActionView> {
    s.map_values(|a: TimeoutAction| a@)
}

// -- DedupFilter ------------------------------------------------------------

/// Remembers the ids of recently received messages: a ring of
/// `DEDUP_WINDOW` slots that evicts its oldest id as it fills, so that it
/// holds the last `DEDUP_WINDOW - 1` ids.
pub struct DedupFilter {
    seen: heapless::Vec<u8, 16>,
}

impl View for DedupFilter {
    type V = Seq<u8>;

    /// The remembered ids, oldest first.
    closed spec fn view(&self) -> Seq<u8> {
        seen_ids(self.seen)
    }
}

/// The window after `id` is recorded: the id joins at the end, and the
/// oldest id drops out when the window would otherwise fill its
/// `DEDUP_WINDOW` slots.
pub open spec fn remember(window: Seq<u8>, id: u8) -> Seq<u8> {
    if window.len() + 1 >= DEDUP_WINDOW {
        window.push(id).drop_first()
    } else {
        window.push(id)
    }
}

/// The last `DEDUP_WINDOW - 1` entries of a history of recorded ids.
pub open spec fn last_ids(history: Seq<u8>) -> Seq<u8> {
    if history.len() < DEDUP_WINDOW {
        history
    } else {
        history.skip(history.len() - (DEDUP_WINDOW - 1))
    }
}

impl DedupFilter {
    pub open spec fn wf(&self) -> bool {
        self@.len() < DEDUP_WINDOW
    }

    pub fn new() -> (r: Self)
        ensures
            r.wf(),
            r@ == Seq::<u8>::empty(),
    {
        Self { seen: seen_new() }
    }

    pub fn is_duplicate(&self, id: u8) -> (r: bool)
        ensures
            r == self@.contains(id),
    {
        seen_contains(&self.seen, id)
    }

    pub fn record(&mut self, id: u8)
        requires
            old(self).wf(),
        ensures
            final(self).wf(),
            final(self)@ == remember(old(self)@, id),
    {
        let _ = seen_push(&mut self.seen, id);
        if seen_is_full(&self.seen) {
            seen_remove(&mut self.seen, 0);
        }
    }
}

// -- AckTracker -------------------------------------------------------------

/// A transmitted frame awaiting its acknowledgement.
pub struct PendingAck {
    pub id: u8,
    pub wire: Wire,
    pub retries_left: u8,
    /// Clock tick at which the acknowledgement is late.
    pub deadline: u64,
}

/// Vends message ids and tracks the frames awaiting an acknowledgement.
pub struct AckTracker {
    next_seq: u8,
    pending: heapless::Vec<PendingAck, 5>,
}

/// Clock ticks to wait after the `attempt`-th retransmission: linear
/// backoff, `attempt` acknowledgement timeouts.
pub open spec fn retry_delay_ticks(attempt: u8) -> int {
    attempt * ((ACK_TIMEOUT_MS / 1000) * ticks_per_second())
}

pub open spec fn is_expired(e: PendingAck, now: u64) -> bool {
    e.deadline <= now
}

/// The retransmission number an expired entry with retries left is at.
pub open spec fn retry_attempt(e: PendingAck) -> u8 {
    (MAX_RETRIES - (e.retries_left - 1)) as u8
}

/// The entry, if the timeouts at `now` reschedule it, gets a deadline that
/// fits in the clock.
pub open spec fn reschedule_fits(e: PendingAck, now: u64) -> bool {
    is_expired(e, now) && e.retries_left > 0 ==> now + retry_delay_ticks(retry_attempt(e)) <= u64::MAX
}

/// Every deadline that the timeouts at `now` set fits in the clock.
pub open spec fn reschedules_fit(s: Seq<PendingAck>, now: u64) -> bool {
    forall|k: int| 0 <= k < s.len() ==> reschedule_fits(#[trigger] s[k], now)
}

/// A deadline `ACK_TIMEOUT_MS` after `now` fits in the clock.
pub open spec fn ack_deadline_fits(now: u64) -> bool {
    now + ticks_for_millis(ACK_TIMEOUT_MS) <= u64::MAX
}

/// An expired entry with retries left, after its retransmission: one retry
/// fewer, and a deadline that grows with each attempt.
pub open spec fn rescheduled(e: PendingAck, now: u64) -> PendingAck {
    let left = (e.retries_left - 1) as u8;
    PendingAck {
        id: e.id,
        wire: e.wire,
        retries_left: left,
        deadline: (now + retry_delay_ticks((MAX_RETRIES - left) as u8)) as u64,
    }
}

/// The pending entries after the timeouts at `now`: unexpired entries stay,
/// expired ones with retries left are rescheduled, the others are dropped.
pub open spec fn kept_after_timeouts(s: Seq<PendingAck>, now: u64) -> Seq<PendingAck>
    decreases s.len(),
{
    if s.len() == 0 {
        s
    } else {
        let e = s[0];
        let rest = kept_after_timeouts(s.drop_first(), now);
        if !is_expired(e, now) {
            seq![e] + rest
        } else if e.retries_left > 0 {
            seq![rescheduled(e, now)] + rest
        } else {
            rest
        }
    }
}

/// The action owed for each expired entry, the last entry's first.
pub open spec fn timeout_actions(s: Seq<PendingAck>, now: u64) -> Seq<ActionView>
    decreases s.len(),
{
    if s.len() == 0 {
        Seq::empty()
    } else {
        let e = s[0];
        let rest = timeout_actions(s.drop_first(), now);
        if !is_expired(e, now) {
            rest
        } else if e.retries_left > 0 {
            rest.push(ActionView::Retry { id: e.id, wire: wire_bytes(e.wire) })
        } else {
            rest.push(ActionView::GiveUp { id: e.id })
        }
    }
}

pub open spec fn count_expired(s: Seq<PendingAck>, now: u64) -> nat
    decreases s.len(),
{
    if s.len() == 0 {
        0
    } else {
        (if is_expired(s[0], now) { 1nat } else { 0nat }) + count_expired(s.drop_first(), now)
    }
}

pub open spec fn retries_bounded(s: Seq<PendingAck>) -> bool {
    forall|k: int| 0 <= k < s.len() ==> #[trigger] s[k].retries_left <= MAX_RETRIES
}

/// The entry that `track` adds.
pub open spec fn fresh_entry(id: u8, wire: Wire, deadline: u64) -> PendingAck {
    PendingAck { id, wire, retries_left: MAX_RETRIES, deadline }
}

/// Some entry carries `id`.
pub open spec fn has_id(s: Seq<PendingAck>, id: u8) -> bool {
    exists|k: int| 0 <= k < s.len() && #[trigger] s[k].id == id
}

/// `k` is the first position of an entry carrying `id`.
pub open spec fn first_with_id(s: Seq<PendingAck>, id: u8, k: int) -> bool {
    &&& 0 <= k < s.len()
    &&& s[k].id == id
    &&& forall|j: int| 0 <= j < k ==> #[trigger] s[j].id != id
}

proof fn lemma_retry_delay(attempt: u64)
    requires
        attempt <= MAX_RETRIES,
    ensures
        ((ACK_TIMEOUT_MS * attempt) as u64 * ticks_for_millis(1000) + 999) / 1000
            == retry_delay_ticks(attempt as u8),
{
    let ms = (ACK_TIMEOUT_MS * attempt) as u64;
    assert(ms % 1000 == 0 && ms / 1000 == 5 * attempt);
    lemma_whole_seconds(ms);
    let t = ticks_per_second();
    assert((5 * attempt) * t == attempt * (5 * t)) by (nonlinear_arith);
}

proof fn lemma_timeouts_skip_step(s: Seq<PendingAck>, now: u64, i: int)
    requires
        0 < i <= s.len(),
    ensures
        s.skip(i - 1).drop_first() == s.skip(i),
        s.skip(i - 1)[0] == s[i - 1],
        kept_after_timeouts(s.skip(i - 1), now) == (if !is_expired(s[i - 1], now) {
            seq![s[i - 1]] + kept_after_timeouts(s.skip(i), now)
        } else if s[i - 1].retries_left > 0 {
            seq![rescheduled(s[i - 1], now)] + kept_after_timeouts(s.skip(i), now)
        } else {
            kept_after_timeouts(s.skip(i), now)
        }),
{
    assert(s.skip(i - 1).drop_first() =~= s.skip(i));
}

proof fn lemma_timeout_actions_len(s: Seq<PendingAck>, now: u64)
    ensures
        timeout_actions(s, now).len() == count_expired(s, now),
        count_expired(s, now) <= s.len(),
    decreases s.len(),
{
    if s.len() > 0 {
        lemma_timeout_actions_len(s.drop_first(), now);
    }
}

proof fn lemma_kept_retries_bounded(s: Seq<PendingAck>, now: u64)
    requires
        retries_bounded(s),
    ensures
        retries_bounded(kept_after_timeouts(s, now)),
        kept_after_timeouts(s, now).len() <= s.len(),
    decreases s.len(),
{
    if s.len() > 0 {
        assert(retries_bounded(s.drop_first())) by {
            assert forall|k: int| 0 <= k < s.drop_first().len() implies #[trigger] s.drop_first()[k].retries_left
                <= MAX_RETRIES by {
                assert(s.drop_first()[k] == s[k + 1]);
            }
        }
        lemma_kept_retries_bounded(s.drop_first(), now);
        let rest = kept_after_timeouts(s.drop_first(), now);
        assert(s[0].retries_left <= MAX_RETRIES);
        if !is_expired(s[0], now) {
            assert(retries_bounded(seq![s[0]] + rest)) by {
                assert forall|k: int| 0 <= k < (seq![s[0]] + rest).len() implies #[trigger] (seq![s[0]]
                    + rest)[k].retries_left <= MAX_RETRIES by {
                    if k > 0 {
                        assert((seq![s[0]] + rest)[k] == rest[k - 1]);
                    }
                }
            }
        } else if s[0].retries_left > 0 {
            let r = rescheduled(s[0], now);
            assert(retries_bounded(seq![r] + rest)) by {
                assert forall|k: int| 0 <= k < (seq![r] + rest).len() implies #[trigger] (seq![r]
                    + rest)[k].retries_left <= MAX_RETRIES by {
                    if k > 0 {
                        assert((seq![r] + rest)[k] == rest[k - 1]);
                    }
                }
            }
        }
    }
}

impl AckTracker {
    /// The id the next `next_id` call vends.
    pub closed spec fn seq_counter(&self) -> u8 {
        self.next_seq
    }

    /// The frames awaiting an acknowledgement, oldest first.
    pub closed spec fn entries(&self) -> Seq<PendingAck> {
        pending_entries(self.pending)
    }

    pub open spec fn wf(&self) -> bool {
        &&& self.entries().len() <= MAX_PENDING_ACKS
        &&& retries_bounded(self.entries())
    }

    pub fn new() -> (r: Self)
        ensures
            r.wf(),
            r.seq_counter() == 0,
            r.entries() == Seq::<PendingAck>::empty(),
    {
        Self { next_seq: 0, pending: pending_new() }
    }

    /// Vends the next sequence ID and advances the counter, wrapping after 255.
    pub fn next_id(&mut self) -> (r: u8)
        ensures
            r == old(self).seq_counter(),
            final(self).seq_counter() == (if r == 255 { 0 } else { r + 1 }),
            final(self).entries() == old(self).entries(),
    {
        let id = self.next_seq;
        self.next_seq = self.next_seq.wrapping_add(1);
        id
    }

    /// Registers a transmitted frame for ACK tracking, with `now` as the
    /// time of transmission. Returns `false` if the pending queue is full.
    pub fn track_at(&mut self, id: u8, wire: Wire, now: u64) -> (r: bool)
        requires
            old(self).wf(),
            now + ticks_for_millis(ACK_TIMEOUT_MS) <= u64::MAX,
        ensures
            final(self).wf(),
            final(self).seq_counter() == old(self).seq_counter(),
            r == (old(self).entries().len() < MAX_PENDING_ACKS),
            r ==> final(self).entries() == old(self).entries().push(
                fresh_entry(id, wire, (now + ticks_for_millis(ACK_TIMEOUT_MS)) as u64),
            ),
            !r ==> final(self).entries() == old(self).entries(),
    {
        if pending_is_full(&self.pending) {
            return false;
        }
        let dt = duration_ticks(ACK_TIMEOUT_MS);
        let entry = PendingAck { id, wire, retries_left: MAX_RETRIES, deadline: now + dt };
        let _ = pending_push(&mut self.pending, entry);
        proof {
            let s = self.entries();
            assert forall|k: int| 0 <= k < s.len() implies #[trigger] s[k].retries_left <= MAX_RETRIES by {
                if k < s.len() - 1 {
                    assert(s[k] == old(self).entries()[k]);
                }
            }
        }
        true
    }

    /// Registers a transmitted frame for ACK tracking, due at the current
    /// time plus `ACK_TIMEOUT_MS`. Returns `false` if the pending queue is
    /// full, and also, leaving the queue as it was, when that deadline would
    /// not fit in the clock's range; with room in the queue it fails for no
    /// other reason.
    pub fn track(&mut self, id: u8, wire: Wire) -> (r: bool)
        requires
            old(self).wf(),
        ensures
            final(self).wf(),
            final(self).seq_counter() == old(self).seq_counter(),
            old(self).entries().len() >= MAX_PENDING_ACKS ==> !r,
            old(self).entries().len() < MAX_PENDING_ACKS && !r ==> exists|now: u64|
                !(#[trigger] ack_deadline_fits(now)),
            r ==> exists|now: u64|
                #[trigger] ack_deadline_fits(now) && final(self).entries() == old(self).entries().push(
                    fresh_entry(id, wire, (now + ticks_for_millis(ACK_TIMEOUT_MS)) as u64),
                ),
            r ==> exists|deadline: u64|
                final(self).entries() == old(self).entries().push(#[trigger] fresh_entry(id, wire, deadline)),
            !r ==> final(self).entries() == old(self).entries(),
    {
        if pending_is_full(&self.pending) {
            return false;
        }
        let now = now_ticks();
        let dt = duration_ticks(ACK_TIMEOUT_MS);
        if now > u64::MAX - dt {
            assert(!ack_deadline_fits(now));
            return false;
        }
        let r = self.track_at(id, wire, now);
        proof {
            assert(r);
            let deadline = (now + ticks_for_millis(ACK_TIMEOUT_MS)) as u64;
            assert(ack_deadline_fits(now));
            assert(final(self).entries() == old(self).entries().push(fresh_entry(id, wire, deadline)));
        }
        r
    }

    /// Marks a frame as acknowledged. Returns `false` if the ID was not pending.
    pub fn on_ack(&mut self, id: u8) -> (r: bool)
        requires
            old(self).wf(),
        ensures
            final(self).wf(),
            final(self).seq_counter() == old(self).seq_counter(),
            r == has_id(old(self).entries(), id),
            r ==> exists|k: int|
                first_with_id(old(self).entries(), id, k)
                    && final(self).entries() == old(self).entries().remove(k),
            !r ==> final(self).entries() == old(self).entries(),
    {
        let len = pending_len(&self.pending);
        let mut i: usize = 0;
        while i < len
            invariant
                len == self.entries().len(),
                i <= len,
                self.wf(),
                self.pending == old(self).pending,
                self.next_seq == old(self).next_seq,
                forall|j: int| 0 <= j < i ==> #[trigger] self.entries()[j].id != id,
            decreases len - i,
        {
            if pending_at(&self.pending, i).id == id {
                let _ = pending_remove(&mut self.pending, i);
                proof {
                    let s = self.entries();
                    let o = old(self).entries();
                    assert(first_with_id(o, id, i as int));
                    assert forall|k: int| 0 <= k < s.len() implies #[trigger] s[k].retries_left
                        <= MAX_RETRIES by {
                        if k < i {
                            assert(s[k] == o[k]);
                        } else {
                            assert(s[k] == o[k + 1]);
                        }
                    }
                }
                return true;
            }
            i += 1;
        }
        false
    }

    /// The earliest pending deadline, used by the coordinator to arm its timer.
    pub fn earliest_deadline(&self) -> (r: Option<u64>)
        ensures
            r is None <==> self.entries().len() == 0,
            r matches Some(d) ==> (exists|k: int|
                0 <= k < self.entries().len() && #[trigger] self.entries()[k].deadline == d),
            r matches Some(d) ==> (forall|k: int|
                0 <= k < self.entries().len() ==> d <= #[trigger] self.entries()[k].deadline),
    {
        let len = pending_len(&self.pending);
        let mut best: Option<u64> = None;
        let mut i: usize = 0;
        while i < len
            invariant
                len == self.entries().len(),
                i <= len,
                best is None <==> i == 0,
                best matches Some(d) ==> (exists|k: int| 0 <= k < i && #[trigger] self.entries()[k].deadline == d),
                best matches Some(d) ==> (forall|k: int| 0 <= k < i ==> d <= #[trigger] self.entries()[k].deadline),
            decreases len - i,
        {
            let d = pending_at(&self.pending, i).deadline;
            best = match best {
                None => Some(d),
                Some(b) => if d < b { Some(d) } else { Some(b) },
            };
            i += 1;
        }
        best
    }

    /// Walks all expired entries and returns the actions the coordinator
    /// must take.
    ///
    /// Entries with retries remaining are rescheduled with linear backoff and
    /// returned as `Retry` (with cloned wire bytes the coordinator can transmit).
    /// Entries with no retries left are removed and returned as `GiveUp`.
    pub fn process_timeouts(&mut self, now: u64) -> (r: heapless::Vec<TimeoutAction, 5>)
        requires
            old(self).wf(),
            reschedules_fit(old(self).entries(), now),
        ensures
            final(self).wf(),
            final(self).seq_counter() == old(self).seq_counter(),
            final(self).entries() == kept_after_timeouts(old(self).entries(), now),
            action_views(action_entries(r)) == timeout_actions(old(self).entries(), now),
    {
        let ghost o = old(self).entries();
        let mut actions = actions_new();
        let mut i = pending_len(&self.pending);
        proof {
            assert(o.skip(o.len() as int) =~= Seq::<PendingAck>::empty());
            assert(o.take(o.len() as int) =~= o);
            assert(o.take(o.len() as int) + Seq::<PendingAck>::empty() =~= o);
            assert(action_views(action_entries(actions)) =~= Seq::<ActionView>::empty());
        }
        while i > 0
            invariant
                o == old(self).entries(),
                o.len() <= MAX_PENDING_ACKS,
                retries_bounded(o),
                i <= o.len(),
                reschedules_fit(o, now),
                self.next_seq == old(self).next_seq,
                self.entries() == o.take(i as int) + kept_after_timeouts(o.skip(i as int), now),
                action_views(action_entries(actions)) == timeout_actions(o.skip(i as int), now),
            decreases i,
        {
            let ghost before = self.entries();
            let ghost before_actions = action_entries(actions);
            proof {
                lemma_timeouts_skip_step(o, now, i as int);
                lemma_timeout_actions_len(o.skip(i as int), now);
                assert(before[i - 1] == o[i - 1]);
                assert(o[i - 1].retries_left <= MAX_RETRIES);
            }
            i -= 1;

            let deadline = pending_at(&self.pending, i).deadline;
            if deadline > now {
                proof {
                    assert(o.take(i + 1) =~= o.take(i as int).push(o[i as int]));
                    assert(self.entries() =~= o.take(i as int) + kept_after_timeouts(o.skip(i as int), now));
                }
                continue;
            }
            let retries_left = pending_at(&self.pending, i).retries_left;
            if retries_left > 0 {
                let entry = pending_at_mut(&mut self.pending, i);
                entry.retries_left = entry.retries_left - 1;
                let attempt = (MAX_RETRIES - entry.retries_left) as u64;
                let dt = duration_ticks(ACK_TIMEOUT_MS * attempt);
                proof {
                    lemma_retry_delay(attempt);
                    assert(dt == retry_delay_ticks(attempt as u8));
                    assert(reschedule_fits(o[i as int], now));
                    assert(attempt as u8 == retry_attempt(o[i as int]));
                }
                entry.deadline = now + dt;
                let id = entry.id;
                let wire = wire_clone(&entry.wire);
                let _ = actions_push(&mut actions, TimeoutAction::Retry { id, wire });
                proof {
                    let e = o[i as int];
                    assert(self.entries()[i as int] == rescheduled(e, now));
                    assert(self.entries() =~= o.take(i as int) + kept_after_timeouts(o.skip(i as int), now));
                    assert(action_views(action_entries(actions)) =~= action_views(before_actions).push(
                        ActionView::Retry { id: e.id, wire: wire_bytes(e.wire) },
                    ));
                }
            } else {
                let id = pending_at(&self.pending, i).id;
                let _ = pending_remove(&mut self.pending, i);
                let _ = actions_push(&mut actions, TimeoutAction::GiveUp { id });
                proof {
                    assert(self.entries() =~= o.take(i as int) + kept_after_timeouts(o.skip(i as int), now));
                    assert(action_views(action_entries(actions)) =~= action_views(before_actions).push(
                        ActionView::GiveUp { id },
                    ));
                }
            }
        }
        proof {
            assert(o.skip(0) =~= o);
            assert(o.take(0) + kept_after_timeouts(o, now) =~= kept_after_timeouts(o, now));
            lemma_kept_retries_bounded(o, now);
        }
        actions
    }
}

// -- Session ----------------------------------------------------------------

/// The delivery state of one node.
pub struct Session {
    dedup: DedupFilter,
    ack_tracker: AckTracker,
}

impl Session {
    /// Ids of the recently received messages, oldest first.
    pub closed spec fn seen(&self) -> Seq<u8> {
        self.dedup@
    }

    /// The id the next `next_id` call vends.
    pub closed spec fn seq_counter(&self) -> u8 {
        self.ack_tracker.seq_counter()
    }

    /// The frames awaiting an acknowledgement, oldest first.
    pub closed spec fn entries(&self) -> Seq<PendingAck> {
        self.ack_tracker.entries()
    }

    pub open spec fn wf(&self) -> bool {
        &&& self.seen().len() < DEDUP_WINDOW
        &&& self.entries().len() <= MAX_PENDING_ACKS
        &&& retries_bounded(self.entries())
    }

    pub fn new() -> (r: Self)
        ensures
            r.wf(),
            r.seen() == Seq::<u8>::empty(),
            r.seq_counter() == 0,
            r.entries() == Seq::<PendingAck>::empty(),
    {
        Self { dedup: DedupFilter::new(), ack_tracker: AckTracker::new() }
    }

    pub fn is_duplicate(&self, id: u8) -> (r: bool)
        ensures
            r == self.seen().contains(id),
    {
        self.dedup.is_duplicate(id)
    }

    pub fn record(&mut self, id: u8)
        requires
            old(self).wf(),
        ensures
            final(self).wf(),
            final(self).seen() == remember(old(self).seen(), id),
            final(self).seq_counter() == old(self).seq_counter(),
            final(self).entries() == old(self).entries(),
    {
        self.dedup.record(id)
    }

    pub fn next_id(&mut self) -> (r: u8)
        requires
            old(self).wf(),
        ensures
            final(self).wf(),
            r == old(self).seq_counter(),
            final(self).seq_counter() == (if r == 255 { 0 } else { r + 1 }),
            final(self).seen() == old(self).seen(),
            final(self).entries() == old(self).entries(),
    {
        self.ack_tracker.next_id()
    }

    /// Registers a transmitted frame for ACK tracking, with `now` as the
    /// time of transmission (see `AckTracker::track_at`).
    pub fn track_at(&mut self, id: u8, wire: Wire, now: u64) -> (r: bool)
        requires
            old(self).wf(),
            ack_deadline_fits(now),
        ensures
            final(self).wf(),
            final(self).seen() == old(self).seen(),
            final(self).seq_counter() == old(self).seq_counter(),
            r == (old(self).entries().len() < MAX_PENDING_ACKS),
            r ==> final(self).entries() == old(self).entries().push(
                fresh_entry(id, wire, (now + ticks_for_millis(ACK_TIMEOUT_MS)) as u64),
            ),
            !r ==> final(self).entries() == old(self).entries(),
    {
        self.ack_tracker.track_at(id, wire, now)
    }

    /// Registers a transmitted frame for ACK tracking (see `AckTracker::track`).
    pub fn track(&mut self, id: u8, wire: Wire) -> (r: bool)
        requires
            old(self).wf(),
        ensures
            final(self).wf(),
            final(self).seen() == old(self).seen(),
            final(self).seq_counter() == old(self).seq_counter(),
            old(self).entries().len() >= MAX_PENDING_ACKS ==> !r,
            old(self).entries().len() < MAX_PENDING_ACKS && !r ==> exists|now: u64|
                !(#[trigger] ack_deadline_fits(now)),
            r ==> exists|now: u64|
                #[trigger] ack_deadline_fits(now) && final(self).entries() == old(self).entries().push(
                    fresh_entry(id, wire, (now + ticks_for_millis(ACK_TIMEOUT_MS)) as u64),
                ),
            r ==> exists|deadline: u64|
                final(self).entries() == old(self).entries().push(#[trigger] fresh_entry(id, wire, deadline)),
            !r ==> final(self).entries() == old(self).entries(),
    {
        self.ack_tracker.track(id, wire)
    }

    pub fn on_ack(&mut self, id: u8) -> (r: bool)
        requires
            old(self).wf(),
        ensures
            final(self).wf(),
            final(self).seen() == old(self).seen(),
            final(self).seq_counter() == old(self).seq_counter(),
            r == has_id(old(self).entries(), id),
            r ==> exists|k: int|
                first_with_id(old(self).entries(), id, k)
                    && final(self).entries() == old(self).entries().remove(k),
            !r ==> final(self).entries() == old(self).entries(),
    {
        self.ack_tracker.on_ack(id)
    }

    pub fn earliest_deadline(&self) -> (r: Option<u64>)
        ensures
            r is None <==> self.entries().len() == 0,
            r matches Some(d) ==> (exists|k: int|
                0 <= k < self.entries().len() && #[trigger] self.entries()[k].deadline == d),
            r matches Some(d) ==> (forall|k: int|
                0 <= k < self.entries().len() ==> d <= #[trigger] self.entries()[k].deadline),
    {
        self.ack_tracker.earliest_deadline()
    }

    pub fn process_timeouts(&mut self, now: u64) -> (r: heapless::Vec<TimeoutAction, 5>)
        requires
            old(self).wf(),
            reschedules_fit(old(self).entries(), now),
        ensures
            final(self).wf(),
            final(self).seen() == old(self).seen(),
            final(self).seq_counter() == old(self).seq_counter(),
            final(self).entries() == kept_after_timeouts(old(self).entries(), now),
            action_views(action_entries(r)) == timeout_actions(old(self).entries(), now),
    {
        self.ack_tracker.process_timeouts(now)
    }

    /// Processes the timeouts at clock tick `now`. Returns `None`, leaving
    /// the session as it was, exactly when an expired entry with retries left
    /// would be rescheduled past the end of the clock's range.
    pub fn poll_timeouts_at(&mut self, now: u64) -> (r: Option<heapless::Vec<TimeoutAction, 5>>)
        requires
            old(self).wf(),
        ensures
            final(self).wf(),
            final(self).seen() == old(self).seen(),
            final(self).seq_counter() == old(self).seq_counter(),
            r is None <==> !reschedules_fit(old(self).entries(), now),
            r is None ==> final(self).entries() == old(self).entries(),
            r matches Some(actions) ==> final(self).entries() == kept_after_timeouts(old(self).entries(), now)
                && action_views(action_entries(actions)) == timeout_actions(old(self).entries(), now),
    {
        let n = pending_len(&self.ack_tracker.pending);
        let mut i: usize = 0;
        while i < n
            invariant
                n == self.entries().len(),
                i <= n,
                self.wf(),
                *self == *old(self),
                forall|k: int| 0 <= k < i ==> reschedule_fits(#[trigger] self.entries()[k], now),
            decreases n - i,
        {
            let e = pending_at(&self.ack_tracker.pending, i);
            assert(e.retries_left <= MAX_RETRIES);
            if e.deadline <= now && e.retries_left > 0 {
                let attempt = (MAX_RETRIES - (e.retries_left - 1)) as u64;
                let dt = duration_ticks(ACK_TIMEOUT_MS * attempt);
                proof {
                    assert(attempt as u8 == retry_attempt(*e));
                    lemma_retry_delay(attempt);
                    assert(dt == retry_delay_ticks(retry_attempt(*e)));
                }
                if now > u64::MAX - dt {
                    proof {
                        assert(!reschedule_fits(self.entries()[i as int], now));
                        assert(!reschedules_fit(old(self).entries(), now));
                    }
                    return None;
                }
            }
            i += 1;
        }
        let actions = self.process_timeouts(now);
        assert(reschedules_fit(old(self).entries(), now) && self.entries() == kept_after_timeouts(
            old(self).entries(),
            now,
        ));
        Some(actions)
    }

    /// Processes the timeouts at the current time (see `poll_timeouts_at`).
    /// Returns `None`, leaving the session as it was, when an expired entry with retries left would
    /// be rescheduled past the end of the clock's range; that can only happen
    /// near the end of that range, and never when no entry has retries left.
    pub fn poll_timeouts(&mut self) -> (r: Option<heapless::Vec<TimeoutAction, 5>>)
        requires
            old(self).wf(),
        ensures
            final(self).wf(),
            final(self).seen() == old(self).seen(),
            final(self).seq_counter() == old(self).seq_counter(),
            r is None ==> final(self).entries() == old(self).entries()
                && exists|now: u64| !(#[trigger] reschedules_fit(old(self).entries(), now)),
            r matches Some(actions) ==> exists|now: u64|
                #[trigger] reschedules_fit(old(self).entries(), now)
                    && final(self).entries() == kept_after_timeouts(old(self).entries(), now)
                    && action_views(action_entries(actions)) == timeout_actions(old(self).entries(), now),
    {
        let now = now_ticks();
        let r = self.poll_timeouts_at(now);
        proof {
            if r is None {
                assert(!reschedules_fit(old(self).entries(), now));
            } else {
                assert(reschedules_fit(old(self).entries(), now));
            }
        }
        r
    }
}

// -- Laws -------------------------------------------------------------------

/// The deduplication window holds exactly the last `DEDUP_WINDOW - 1` ids
/// recorded: recording an id into the window of a history gives the window
/// of the history extended by that id.
pub proof fn lemma_dedup_window(history: Seq<u8>, id: u8)
    ensures
        remember(last_ids(history), id) == last_ids(history.push(id)),
{
    let h = history.push(id);
    if history.len() + 1 < DEDUP_WINDOW {
        assert(remember(last_ids(history), id) =~= last_ids(h));
    } else if history.len() + 1 == DEDUP_WINDOW {
        assert(history.push(id).drop_first() =~= h.skip(h.len() - (DEDUP_WINDOW - 1)));
    } else {
        let w = history.skip(history.len() - (DEDUP_WINDOW - 1));
        assert(w.push(id).drop_first() =~= h.skip(h.len() - (DEDUP_WINDOW - 1)));
    }
}

/// The window after recording each of `ids` in turn.
pub open spec fn remember_all(window: Seq<u8>, ids: Seq<u8>) -> Seq<u8>
    decreases ids.len(),
{
    if ids.len() == 0 {
        window
    } else {
        remember_all(remember(window, ids[0]), ids.drop_first())
    }
}

/// Recording ids one after another into the window of a history gives the
/// window of the whole history. A filter starts with the window of the
/// empty history, so after any sequence of records its window holds the
/// last `DEDUP_WINDOW - 1` ids recorded.
pub proof fn lemma_window_of_history(history: Seq<u8>, ids: Seq<u8>)
    ensures
        remember_all(last_ids(history), ids) == last_ids(history + ids),
    decreases ids.len(),
{
    if ids.len() == 0 {
        assert(history + ids =~= history);
    } else {
        lemma_dedup_window(history, ids[0]);
        lemma_window_of_history(history.push(ids[0]), ids.drop_first());
        assert(history.push(ids[0]) + ids.drop_first() =~= history + ids);
    }
}

/// An id recorded and followed by `later` records of other ids is still a
/// duplicate exactly while fewer than `DEDUP_WINDOW - 1` records followed it.
pub proof fn lemma_recorded_id_lifetime(history: Seq<u8>, x: u8, later: Seq<u8>)
    requires
        !later.contains(x),
    ensures
        last_ids(history.push(x) + later).contains(x) <==> later.len() < DEDUP_WINDOW - 1,
{
    let h = history.push(x) + later;
    let w = last_ids(h);
    let p = history.len() as int;
    assert(h[p] == x);
    if h.len() < DEDUP_WINDOW {
        assert(w[p] == x);
    } else {
        let start = h.len() - (DEDUP_WINDOW - 1);
        if later.len() < DEDUP_WINDOW - 1 {
            assert(start <= p);
            assert(w[p - start] == h[p]);
        } else {
            assert forall|j: int| 0 <= j < w.len() implies w[j] != x by {
                assert(w[j] == h[start + j]);
                assert(h[start + j] == later[start + j - p - 1]);
            }
        }
    }
}

/// Recording `x` makes no other id a duplicate.
pub proof fn lemma_record_adds_only(window: Seq<u8>, x: u8, y: u8)
    requires
        y != x,
        remember(window, x).contains(y),
    ensures
        window.contains(y),
{
    let w = remember(window, x);
    let j = choose|j: int| 0 <= j < w.len() && w[j] == y;
    if window.len() + 1 >= DEDUP_WINDOW {
        assert(w[j] == window.push(x)[j + 1]);
        assert(j + 1 < window.len());
        assert(window[j + 1] == y);
    } else {
        assert(w[j] == window.push(x)[j]);
        assert(window[j] == y);
    }
}

/// Timeouts act on every late entry wherever it stands in the queue: an
/// expired entry with retries left is retransmitted (its frame unchanged)
/// and kept with one retry fewer and its next retransmission delay added to
/// `now` as its deadline; an expired entry with
/// none left is given up and dropped; an entry not yet due is kept as it is.
pub proof fn lemma_late_entry_handled(s: Seq<PendingAck>, now: u64, k: int)
    requires
        0 <= k < s.len(),
        reschedules_fit(s, now),
    ensures
        is_expired(s[k], now) && s[k].retries_left > 0 ==> {
            &&& timeout_actions(s, now).contains(ActionView::Retry { id: s[k].id, wire: wire_bytes(s[k].wire) })
            &&& kept_after_timeouts(s, now).contains(rescheduled(s[k], now))
            &&& rescheduled(s[k], now).retries_left == s[k].retries_left - 1
            &&& rescheduled(s[k], now).deadline == now + retry_delay_ticks(retry_attempt(s[k]))
        },
        is_expired(s[k], now) && s[k].retries_left == 0 ==> timeout_actions(s, now).contains(
            ActionView::GiveUp { id: s[k].id },
        ),
        !is_expired(s[k], now) ==> kept_after_timeouts(s, now).contains(s[k]),
    decreases s.len(),
{
    let rest = s.drop_first();
    let ra = timeout_actions(rest, now);
    let rk = kept_after_timeouts(rest, now);
    if k == 0 {
        let e = s[0];
        if is_expired(e, now) && e.retries_left > 0 {
            let a = ActionView::Retry { id: e.id, wire: wire_bytes(e.wire) };
            assert(timeout_actions(s, now) == ra.push(a));
            assert(ra.push(a)[ra.len() as int] == a);
            assert((seq![rescheduled(e, now)] + rk)[0] == rescheduled(e, now));
            assert(reschedule_fits(s[0], now));
        } else if is_expired(e, now) {
            let a = ActionView::GiveUp { id: e.id };
            assert(ra.push(a)[ra.len() as int] == a);
        } else {
            assert((seq![e] + rk)[0] == e);
        }
    } else {
        assert(rest[k - 1] == s[k]);
        assert(reschedules_fit(rest, now)) by {
            assert forall|j: int| 0 <= j < rest.len() implies reschedule_fits(#[trigger] rest[j], now) by {
                assert(rest[j] == s[j + 1]);
            }
        }
        lemma_late_entry_handled(rest, now, k - 1);
        let e = s[0];
        if is_expired(s[k], now) && s[k].retries_left > 0 {
            let a = ActionView::Retry { id: s[k].id, wire: wire_bytes(s[k].wire) };
            let j = choose|j: int| 0 <= j < ra.len() && ra[j] == a;
            if is_expired(e, now) {
                let b = if e.retries_left > 0 {
                    ActionView::Retry { id: e.id, wire: wire_bytes(e.wire) }
                } else {
                    ActionView::GiveUp { id: e.id }
                };
                assert(ra.push(b)[j] == a);
            }
            let r = rescheduled(s[k], now);
            let j2 = choose|j2: int| 0 <= j2 < rk.len() && rk[j2] == r;
            if !is_expired(e, now) {
                assert((seq![e] + rk)[j2 + 1] == r);
            } else if e.retries_left > 0 {
                assert((seq![rescheduled(e, now)] + rk)[j2 + 1] == r);
            }
        } else if is_expired(s[k], now) {
            let a = ActionView::GiveUp { id: s[k].id };
            let j = choose|j: int| 0 <= j < ra.len() && ra[j] == a;
            if is_expired(e, now) {
                let b = if e.retries_left > 0 {
                    ActionView::Retry { id: e.id, wire: wire_bytes(e.wire) }
                } else {
                    ActionView::GiveUp { id: e.id }
                };
                assert(ra.push(b)[j] == a);
            }
        } else {
            let j2 = choose|j2: int| 0 <= j2 < rk.len() && rk[j2] == s[k];
            if !is_expired(e, now) {
                assert((seq![e] + rk)[j2 + 1] == s[k]);
            } else if e.retries_left > 0 {
                assert((seq![rescheduled(e, now)] + rk)[j2 + 1] == s[k]);
            }
        }
    }
}

/// Retransmissions back off linearly: the `n`-th retransmission of a frame
/// is next due `n` times the first retransmission's delay after it is sent.
pub proof fn lemma_linear_backoff(e: PendingAck, now: u64)
    requires
        is_expired(e, now),
        0 < e.retries_left <= MAX_RETRIES,
        reschedule_fits(e, now),
    ensures
        rescheduled(e, now).deadline == now + retry_attempt(e) * retry_delay_ticks(1),
        1 <= retry_attempt(e) <= MAX_RETRIES,
{
    let a = retry_attempt(e) as int;
    let t = ticks_per_second();
    assert(a * (5 * t) == a * (1 * (5 * t))) by (nonlinear_arith);
}

/// An id just recorded is reported as a duplicate.
pub proof fn lemma_recorded_is_duplicate(window: Seq<u8>, id: u8)
    ensures
        remember(window, id).contains(id),
{
    let w = remember(window, id);
    assert(w[w.len() - 1] == id);
}

/// A frame just tracked can be acknowledged.
pub proof fn lemma_tracked_is_ackable(entries: Seq<PendingAck>, id: u8, wire: Wire, deadline: u64)
    ensures
        has_id(entries.push(fresh_entry(id, wire, deadline)), id),
{
    let s = entries.push(fresh_entry(id, wire, deadline));
    assert(s[entries.len() as int].id == id);
}

/// Timeouts leave a queue with no expired entry as it is, and ask for nothing.
pub proof fn lemma_unexpired_untouched(entries: Seq<PendingAck>, now: u64)
    requires
        forall|k: int| 0 <= k < entries.len() ==> !is_expired(#[trigger] entries[k], now),
    ensures
        kept_after_timeouts(entries, now) == entries,
        timeout_actions(entries, now) == Seq::<ActionView>::empty(),
    decreases entries.len(),
{
    if entries.len() > 0 {
        let rest = entries.drop_first();
        assert forall|k: int| 0 <= k < rest.len() implies !is_expired(#[trigger] rest[k], now) by {
            assert(rest[k] == entries[k + 1]);
        }
        lemma_unexpired_untouched(rest, now);
        assert(!is_expired(entries[0], now));
        assert(seq![entries[0]] + rest =~= entries);
    }
}

/// Timeouts ask for exactly one action per expired entry.
pub proof fn lemma_one_action_per_expired(entries: Seq<PendingAck>, now: u64)
    ensures
        timeout_actions(entries, now).len() == count_expired(entries, now),
{
    lemma_timeout_actions_len(entries, now);
}

/// An expired entry is retransmitted with one retry fewer while it has
/// retries left, and is given up and dropped when it has none.
pub proof fn lemma_expired_entry(e: PendingAck, now: u64)
    requires
        is_expired(e, now),
    ensures
        e.retries_left > 0 ==> kept_after_timeouts(seq![e], now) == seq![rescheduled(e, now)]
            && rescheduled(e, now).retries_left == e.retries_left - 1
            && timeout_actions(seq![e], now) == seq![ActionView::Retry { id: e.id, wire: wire_bytes(e.wire) }],
        e.retries_left == 0 ==> kept_after_timeouts(seq![e], now) == Seq::<PendingAck>::empty()
            && timeout_actions(seq![e], now) == seq![ActionView::GiveUp { id: e.id }],
{
    let s = seq![e];
    assert(s.drop_first() =~= Seq::<PendingAck>::empty());
    assert(kept_after_timeouts(s.drop_first(), now) == Seq::<PendingAck>::empty());
    assert(timeout_actions(s.drop_first(), now) == Seq::<ActionView>::empty());
    assert(seq![rescheduled(e, now)] + Seq::<PendingAck>::empty() =~= seq![rescheduled(e, now)]);
    assert(Seq::<ActionView>::empty().push(ActionView::Retry { id: e.id, wire: wire_bytes(e.wire) })
        =~= seq![ActionView::Retry { id: e.id, wire: wire_bytes(e.wire) }]);
    assert(Seq::<ActionView>::empty().push(ActionView::GiveUp { id: e.id }) =~= seq![ActionView::GiveUp { id: e.id }]);
}

} // verus!
