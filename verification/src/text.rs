//! Message text: UTF-8 validation of received bytes and the fixed-capacity
//! string (`heapless::String<124>`) that carries a message through the node.
use vstd::prelude::*;
use vstd::utf8::*;
use vstd::string::*;

verus! {

/// Capacity, in bytes, of a message text.
pub const TEXT_CAPACITY: usize = 124;

/// A message text as it travels through the node (`heapless::String<124>`).
pub type Text = heapless::String<124>;

#[verifier::external_type_specification]
#[verifier::external_body]
pub struct ExHeaplessString<const N: usize>(heapless::String<N>);

#[verifier::external_type_specification]
#[verifier::external_body]
pub struct ExUtf8Error(core::str::Utf8Error);

/// The characters held by a message text.
pub uninterp spec fn text_view(t: heapless::String<124>) -> Seq<char>;

/// The UTF-8 bytes of a message text.
pub open spec fn text_bytes(t: Text) -> Seq<u8> {
    encode_utf8(text_view(t))
}

/// `core::str::from_utf8`: succeeds exactly on valid UTF-8 and then yields a
/// string slice whose bytes are the input bytes.
#[verifier::external_body]
pub fn str_from_utf8(bytes: &[u8]) -> (r: Result<&str, core::str::Utf8Error>)
    ensures
        r is Ok <==> valid_utf8(bytes@),
        r matches Ok(s) ==> s.spec_bytes() == bytes@,
{
    core::str::from_utf8(bytes)
}

/// `heapless::String::<124>::try_from(&str)`: succeeds exactly when the slice
/// fits in 124 bytes, and then holds the slice's characters.
#[verifier::external_body]
pub fn text_try_from(s: &str) -> (r: Result<Text, ()>)
    ensures
        r is Ok <==> s.spec_bytes().len() <= TEXT_CAPACITY,
        r matches Ok(t) ==> text_view(t) == s@,
{
    heapless::String::<124>::try_from(s)
}

/// `heapless::String::<124>::as_str`: the characters of the text, which
/// never take more than 124 bytes.
#[verifier::external_body]
pub fn text_as_str(t: &Text) -> (r: &str)
    ensures
        r@ == text_view(*t),
        r.spec_bytes().len() <= TEXT_CAPACITY,
{
    t.as_str()
}

/// `heapless::String::<124>::clone`: a text with the same characters.
#[verifier::external_body]
pub fn text_clone(t: &Text) -> (r: Text)
    ensures
        text_view(r) == text_view(*t),
{
    t.clone()
}

/// The bytes of a text, with the facts that callers need about them: they
/// are valid UTF-8, they decode to the text's characters, and there are at
/// most 124 of them.
pub fn text_as_bytes(t: &Text) -> (r: &[u8])
    ensures
        r@ == text_bytes(*t),
        valid_utf8(r@),
        decode_utf8(r@) == text_view(*t),
        r@.len() <= TEXT_CAPACITY,
{
    let s = text_as_str(t);
    let b = s.as_bytes();
    proof {
        encode_utf8_valid_utf8(text_view(*t));
        encode_utf8_decode_utf8(text_view(*t));
    }
    b
}

// ── Display lines (`heapless::String<132>` and `heapless::String<32>`) ────────

/// The bytes of a chat display line.
pub uninterp spec fn line_bytes(s: heapless::String<132>) -> Seq<u8>;

/// `heapless::String::<132>::new`: empty.
#[verifier::external_body]
pub fn line_new() -> (r: heapless::String<132>)
    ensures
        line_bytes(r) == Seq::<u8>::empty(),
{
    heapless::String::new()
}

/// `heapless::String::<132>::push_str`: appends the slice's bytes when they
/// fit in the remaining capacity, else leaves the string as it was and fails.
#[verifier::external_body]
pub fn line_push_str(s: &mut heapless::String<132>, t: &str) -> (r: Result<(), ()>)
    ensures
        r is Ok <==> line_bytes(*old(s)).len() + t.spec_bytes().len() <= 132,
        line_bytes(*final(s)) == (if line_bytes(*old(s)).len() + t.spec_bytes().len() <= 132 {
            line_bytes(*old(s)) + t.spec_bytes()
        } else {
            line_bytes(*old(s))
        }),
{
    s.push_str(t)
}

/// The bytes of a menu display row.
pub uninterp spec fn row_bytes(s: heapless::String<32>) -> Seq<u8>;

/// `heapless::String::<32>::new`: empty.
#[verifier::external_body]
pub fn row_new() -> (r: heapless::String<32>)
    ensures
        row_bytes(r) == Seq::<u8>::empty(),
{
    heapless::String::new()
}

/// `heapless::String::<32>::push_str`: appends the slice's bytes when they
/// fit in the remaining capacity, else leaves the string as it was and fails.
#[verifier::external_body]
pub fn row_push_str(s: &mut heapless::String<32>, t: &str) -> (r: Result<(), ()>)
    ensures
        r is Ok <==> row_bytes(*old(s)).len() + t.spec_bytes().len() <= 32,
        row_bytes(*final(s)) == (if row_bytes(*old(s)).len() + t.spec_bytes().len() <= 32 {
            row_bytes(*old(s)) + t.spec_bytes()
        } else {
            row_bytes(*old(s))
        }),
{
    s.push_str(t)
}

} // verus!
