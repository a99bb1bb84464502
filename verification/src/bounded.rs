//! The fixed-capacity vectors (`heapless::Vec<T, N>`) the node keeps its
//! state in. Each instantiation has a name for what it holds, and each
//! method the logic calls has a wrapper stating what the method does to that
//! content, as heapless 0.8's source shows it.
use vstd::prelude::*;

use crate::display::chat::ChatEntry;
use crate::session::{PendingAck, TimeoutAction};

verus! {

#[verifier::external_type_specification]
#[verifier::external_body]
#[verifier::reject_recursive_types(T)]
pub struct ExHeaplessVec<T, const N: usize>(heapless::Vec<T, N>);

// ── Recently seen message ids (`Vec<u8, 16>`) ─────────────────────────────────

/// The ids held, oldest first.
pub uninterp spec fn seen_ids(v: heapless::Vec<u8, 16>) -> Seq<u8>;

/// `Vec::new`: empty.
#[verifier::external_body]
pub fn seen_new() -> (r: heapless::Vec<u8, 16>)
    ensures
        seen_ids(r) == Seq::<u8>::empty(),
{
    heapless::Vec::new()
}

/// `<[u8]>::contains` through `Vec`'s `Deref`.
#[verifier::external_body]
pub fn seen_contains(v: &heapless::Vec<u8, 16>, id: u8) -> (r: bool)
    ensures
        r == seen_ids(*v).contains(id),
{
    v.contains(&id)
}

/// `Vec::is_full`: the length equals the capacity 16.
#[verifier::external_body]
pub fn seen_is_full(v: &heapless::Vec<u8, 16>) -> (r: bool)
    ensures
        r == (seen_ids(*v).len() == 16),
{
    v.is_full()
}

/// `Vec::remove`: takes out the element at `index`, shifting the rest down.
/// It panics when `index` is out of bounds, which `requires` excludes.
#[verifier::external_body]
pub fn seen_remove(v: &mut heapless::Vec<u8, 16>, index: usize) -> (r: u8)
    requires
        index < seen_ids(*old(v)).len(),
    ensures
        r == seen_ids(*old(v))[index as int],
        seen_ids(*final(v)) == seen_ids(*old(v)).remove(index as int),
{
    v.remove(index)
}

/// `Vec::push`: appends when there is room (fewer than 16 elements), else
/// hands the element back and leaves the vector as it was.
#[verifier::external_body]
pub fn seen_push(v: &mut heapless::Vec<u8, 16>, id: u8) -> (r: Result<(), u8>)
    ensures
        r == (if seen_ids(*old(v)).len() < 16 { Ok::<(), u8>(()) } else { Err::<(), u8>(id) }),
        seen_ids(*final(v)) == (if seen_ids(*old(v)).len() < 16 {
            seen_ids(*old(v)).push(id)
        } else {
            seen_ids(*old(v))
        }),
{
    v.push(id)
}

// ── Frame bytes (`Vec<u8, 128>`) ──────────────────────────────────────────────

/// The bytes held.
pub uninterp spec fn wire_bytes(v: heapless::Vec<u8, 128>) -> Seq<u8>;

/// `Vec::clone`: the same bytes.
#[verifier::external_body]
pub fn wire_clone(v: &heapless::Vec<u8, 128>) -> (r: heapless::Vec<u8, 128>)
    ensures
        wire_bytes(r) == wire_bytes(*v),
{
    v.clone()
}

/// `Vec::from_slice`: succeeds exactly when the slice fits in 128 bytes, and
/// then holds its bytes.
#[verifier::external_body]
pub fn wire_from_slice(s: &[u8]) -> (r: Result<heapless::Vec<u8, 128>, ()>)
    ensures
        r is Ok <==> s@.len() <= 128,
        r matches Ok(v) ==> wire_bytes(v) == s@,
{
    heapless::Vec::from_slice(s)
}

// ── Frames awaiting an acknowledgement (`Vec<PendingAck, 5>`) ─────────────────

/// The entries held, in order.
pub uninterp spec fn pending_entries(v: heapless::Vec<PendingAck, 5>) -> Seq<PendingAck>;

/// `Vec::new`: empty.
#[verifier::external_body]
pub fn pending_new() -> (r: heapless::Vec<PendingAck, 5>)
    ensures
        pending_entries(r) == Seq::<PendingAck>::empty(),
{
    heapless::Vec::new()
}

/// `<[T]>::len` through `Vec`'s `Deref`; never more than the capacity 5.
#[verifier::external_body]
pub fn pending_len(v: &heapless::Vec<PendingAck, 5>) -> (r: usize)
    ensures
        r == pending_entries(*v).len(),
        r <= 5,
{
    v.len()
}

/// `Vec::is_full`: the length equals the capacity 5.
#[verifier::external_body]
pub fn pending_is_full(v: &heapless::Vec<PendingAck, 5>) -> (r: bool)
    ensures
        r == (pending_entries(*v).len() == 5),
{
    v.is_full()
}

/// `Vec::push`: appends when there is room, else hands the entry back and
/// leaves the vector as it was.
#[verifier::external_body]
pub fn pending_push(v: &mut heapless::Vec<PendingAck, 5>, e: PendingAck) -> (r: Result<(), PendingAck>)
    ensures
        r == (if pending_entries(*old(v)).len() < 5 {
            Ok::<(), PendingAck>(())
        } else {
            Err::<(), PendingAck>(e)
        }),
        pending_entries(*final(v)) == (if pending_entries(*old(v)).len() < 5 {
            pending_entries(*old(v)).push(e)
        } else {
            pending_entries(*old(v))
        }),
{
    v.push(e)
}

/// `Index` through `Vec`'s `Deref`. It panics when `index` is out of
/// bounds, which `requires` excludes.
#[verifier::external_body]
pub fn pending_at(v: &heapless::Vec<PendingAck, 5>, index: usize) -> (r: &PendingAck)
    requires
        index < pending_entries(*v).len(),
    ensures
        *r == pending_entries(*v)[index as int],
{
    &v[index]
}

/// `IndexMut` through `Vec`'s `DerefMut`: the element at `index`, which the
/// caller may change in place. It panics when `index` is out of bounds, which
/// `requires` excludes.
#[verifier::external_body]
pub fn pending_at_mut(v: &mut heapless::Vec<PendingAck, 5>, index: usize) -> (r: &mut PendingAck)
    requires
        index < pending_entries(*old(v)).len(),
    ensures
        *r == pending_entries(*old(v))[index as int],
        pending_entries(*final(v)) == pending_entries(*old(v)).update(index as int, *final(r)),
{
    &mut v[index]
}

/// `Vec::remove`: takes out the entry at `index`, shifting the rest down.
/// It panics when `index` is out of bounds, which `requires` excludes.
#[verifier::external_body]
pub fn pending_remove(v: &mut heapless::Vec<PendingAck, 5>, index: usize) -> (r: PendingAck)
    requires
        index < pending_entries(*old(v)).len(),
    ensures
        r == pending_entries(*old(v))[index as int],
        pending_entries(*final(v)) == pending_entries(*old(v)).remove(index as int),
{
    v.remove(index)
}

// ── Actions after an acknowledgement timeout (`Vec<TimeoutAction, 5>`) ────────

/// The actions held, in order.
pub uninterp spec fn action_entries(v: heapless::Vec<TimeoutAction, 5>) -> Seq<TimeoutAction>;

/// `Vec::new`: empty.
#[verifier::external_body]
pub fn actions_new() -> (r: heapless::Vec<TimeoutAction, 5>)
    ensures
        action_entries(r) == Seq::<TimeoutAction>::empty(),
{
    heapless::Vec::new()
}

/// `Vec::push`: appends when there is room, else hands the action back and
/// leaves the vector as it was.
#[verifier::external_body]
pub fn actions_push(v: &mut heapless::Vec<TimeoutAction, 5>, a: TimeoutAction) -> (r: Result<(), TimeoutAction>)
    ensures
        r == (if action_entries(*old(v)).len() < 5 {
            Ok::<(), TimeoutAction>(())
        } else {
            Err::<(), TimeoutAction>(a)
        }),
        action_entries(*final(v)) == (if action_entries(*old(v)).len() < 5 {
            action_entries(*old(v)).push(a)
        } else {
            action_entries(*old(v))
        }),
{
    v.push(a)
}

// ── Chat history (`Vec<ChatEntry, 5>`) ────────────────────────────────────────

/// The chat entries held, oldest first.
pub uninterp spec fn chat_entries(v: heapless::Vec<ChatEntry, 5>) -> Seq<ChatEntry>;

/// `Vec::new`: empty.
#[verifier::external_body]
pub fn chat_new() -> (r: heapless::Vec<ChatEntry, 5>)
    ensures
        chat_entries(r) == Seq::<ChatEntry>::empty(),
{
    heapless::Vec::new()
}

/// `<[T]>::len` through `Vec`'s `Deref`; never more than the capacity 5.
#[verifier::external_body]
pub fn chat_len(v: &heapless::Vec<ChatEntry, 5>) -> (r: usize)
    ensures
        r == chat_entries(*v).len(),
        r <= 5,
{
    v.len()
}

/// `Vec::is_full`: the length equals the capacity 5.
#[verifier::external_body]
pub fn chat_is_full(v: &heapless::Vec<ChatEntry, 5>) -> (r: bool)
    ensures
        r == (chat_entries(*v).len() == 5),
{
    v.is_full()
}

/// `Vec::remove`: takes out the entry at `index`, shifting the rest down.
/// It panics when `index` is out of bounds, which `requires` excludes.
#[verifier::external_body]
pub fn chat_remove(v: &mut heapless::Vec<ChatEntry, 5>, index: usize) -> (r: ChatEntry)
    requires
        index < chat_entries(*old(v)).len(),
    ensures
        r == chat_entries(*old(v))[index as int],
        chat_entries(*final(v)) == chat_entries(*old(v)).remove(index as int),
{
    v.remove(index)
}

/// `Vec::push`: appends when there is room, else hands the entry back and
/// leaves the vector as it was.
#[verifier::external_body]
pub fn chat_push(v: &mut heapless::Vec<ChatEntry, 5>, e: ChatEntry) -> (r: Result<(), ChatEntry>)
    ensures
        r == (if chat_entries(*old(v)).len() < 5 {
            Ok::<(), ChatEntry>(())
        } else {
            Err::<(), ChatEntry>(e)
        }),
        chat_entries(*final(v)) == (if chat_entries(*old(v)).len() < 5 {
            chat_entries(*old(v)).push(e)
        } else {
            chat_entries(*old(v))
        }),
{
    v.push(e)
}

/// `Index` through `Vec`'s `Deref`. It panics when `index` is out of
/// bounds, which `requires` excludes.
#[verifier::external_body]
pub fn chat_at(v: &heapless::Vec<ChatEntry, 5>, index: usize) -> (r: &ChatEntry)
    requires
        index < chat_entries(*v).len(),
    ensures
        *r == chat_entries(*v)[index as int],
{
    &v[index]
}

/// `IndexMut` through `Vec`'s `DerefMut`: the entry at `index`, which the
/// caller may change in place. It panics when `index` is out of bounds, which
/// `requires` excludes.
#[verifier::external_body]
pub fn chat_at_mut(v: &mut heapless::Vec<ChatEntry, 5>, index: usize) -> (r: &mut ChatEntry)
    requires
        index < chat_entries(*old(v)).len(),
    ensures
        *r == chat_entries(*old(v))[index as int],
        chat_entries(*final(v)) == chat_entries(*old(v)).update(index as int, *final(r)),
{
    &mut v[index]
}

// ── Request payload bytes (`Vec<u8, 124>`) ───────────────────────────────────

/// The bytes held.
pub uninterp spec fn request_bytes(v: heapless::Vec<u8, 124>) -> Seq<u8>;

/// `Vec::new`: empty.
#[verifier::external_body]
pub fn request_new() -> (r: heapless::Vec<u8, 124>)
    ensures
        request_bytes(r) == Seq::<u8>::empty(),
{
    heapless::Vec::new()
}

/// `Vec::extend_from_slice`: appends the slice when it fits in the
/// remaining capacity, else leaves the vector as it was and fails.
#[verifier::external_body]
pub fn request_extend_from_slice(v: &mut heapless::Vec<u8, 124>, s: &[u8]) -> (r: Result<(), ()>)
    ensures
        r is Ok <==> request_bytes(*old(v)).len() + s@.len() <= 124,
        request_bytes(*final(v)) == (if request_bytes(*old(v)).len() + s@.len() <= 124 {
            request_bytes(*old(v)) + s@
        } else {
            request_bytes(*old(v))
        }),
{
    v.extend_from_slice(s)
}

// ── Known peers (`Vec<u8, 32>`) ───────────────────────────────────────────────

/// The peer ids held, in order.
pub uninterp spec fn peer_ids(v: heapless::Vec<u8, 32>) -> Seq<u8>;

/// `Vec::new`: empty.
#[verifier::external_body]
pub fn peers_new() -> (r: heapless::Vec<u8, 32>)
    ensures
        peer_ids(r) == Seq::<u8>::empty(),
{
    heapless::Vec::new()
}

/// `<[u8]>::contains` through `Vec`'s `Deref`.
#[verifier::external_body]
pub fn peers_contains(v: &heapless::Vec<u8, 32>, id: u8) -> (r: bool)
    ensures
        r == peer_ids(*v).contains(id),
{
    v.contains(&id)
}

/// `Vec::push`: appends when there is room (fewer than 32 ids), else hands
/// the id back and leaves the vector as it was.
#[verifier::external_body]
pub fn peers_push(v: &mut heapless::Vec<u8, 32>, id: u8) -> (r: Result<(), u8>)
    ensures
        r == (if peer_ids(*old(v)).len() < 32 { Ok::<(), u8>(()) } else { Err::<(), u8>(id) }),
        peer_ids(*final(v)) == (if peer_ids(*old(v)).len() < 32 {
            peer_ids(*old(v)).push(id)
        } else {
            peer_ids(*old(v))
        }),
{
    v.push(id)
}

/// `Vec::as_slice`: the ids held, never more than the capacity 32.
#[verifier::external_body]
pub fn peers_as_slice(v: &heapless::Vec<u8, 32>) -> (r: &[u8])
    ensures
        r@ == peer_ids(*v),
        r@.len() <= 32,
{
    v.as_slice()
}

} // verus!
