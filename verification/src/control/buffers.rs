//! The fixed-capacity `heapless::Vec` buffers that carry replies and frames,
//! and the few of their methods that the control logic calls.

use vstd::prelude::*;

verus! {

#[verifier::external_type_specification]
#[verifier::external_body]
#[verifier::reject_recursive_types(T)]
pub struct ExHeaplessVec<T, const N: usize>(heapless::Vec<T, N>);

/// The bytes held by a frame buffer (capacity 260), in order.
pub uninterp spec fn frame_bytes(buffer: heapless::Vec<u8, 260>) -> Seq<u8>;

/// The bytes held by a reply buffer (capacity 256), in order.
pub uninterp spec fn reply_bytes(buffer: heapless::Vec<u8, 256>) -> Seq<u8>;

/// `heapless::Vec::<u8, 260>::new`: a vector that holds nothing.
#[verifier::external_body]
pub(crate) fn frame_new() -> (r: heapless::Vec<u8, 260>)
    ensures
        frame_bytes(r) == Seq::<u8>::empty(),
{
    heapless::Vec::new()
}

/// `heapless::Vec::<u8, 260>::push`: appends the byte when fewer than 260 are
/// held, and otherwise hands it back and leaves the vector as it was.
#[verifier::external_body]
pub(crate) fn frame_push(buffer: &mut heapless::Vec<u8, 260>, byte: u8) -> (r: Result<(), u8>)
    ensures
        frame_bytes(*old(buffer)).len() < 260 ==> r is Ok
            && frame_bytes(*final(buffer)) == frame_bytes(*old(buffer)).push(byte),
        frame_bytes(*old(buffer)).len() >= 260 ==> (r matches Err(back) && back == byte)
            && frame_bytes(*final(buffer)) == frame_bytes(*old(buffer)),
{
    buffer.push(byte)
}

/// `heapless::Vec::<u8, 260>::extend_from_slice`: appends all of `other` when
/// it fits in the capacity of 260, and otherwise fails and changes nothing.
#[verifier::external_body]
pub(crate) fn frame_extend(buffer: &mut heapless::Vec<u8, 260>, other: &[u8]) -> (r: Result<(), ()>)
    requires
        frame_bytes(*old(buffer)).len() <= 260,
        other@.len() <= 260,
    ensures
        frame_bytes(*old(buffer)).len() + other@.len() <= 260 ==> r is Ok
            && frame_bytes(*final(buffer)) == frame_bytes(*old(buffer)) + other@,
        frame_bytes(*old(buffer)).len() + other@.len() > 260 ==> r is Err
            && frame_bytes(*final(buffer)) == frame_bytes(*old(buffer)),
{
    buffer.extend_from_slice(other)
}

/// Writing one held byte of a `heapless::Vec<u8, 260>` through its `DerefMut` slice.
#[verifier::external_body]
pub(crate) fn frame_set(buffer: &mut heapless::Vec<u8, 260>, index: usize, byte: u8)
    requires
        index < frame_bytes(*old(buffer)).len(),
    ensures
        frame_bytes(*final(buffer)) == frame_bytes(*old(buffer)).update(index as int, byte),
{
    buffer[index] = byte;
}

/// `heapless::Vec::<u8, 260>::as_slice`: the held bytes, of which there are never more than 260.
#[verifier::external_body]
pub(crate) fn frame_as_slice(buffer: &heapless::Vec<u8, 260>) -> (r: &[u8])
    ensures
        r@ == frame_bytes(*buffer),
        r@.len() <= 260,
{
    buffer.as_slice()
}

/// `heapless::Vec::<u8, 256>::from_slice`: a copy of `other` when it fits in
/// the capacity of 256, and an error otherwise.
#[verifier::external_body]
pub(crate) fn reply_from_slice(other: &[u8]) -> (r: Result<heapless::Vec<u8, 256>, ()>)
    ensures
        r is Ok <==> other@.len() <= 256,
        r matches Ok(v) ==> reply_bytes(v) == other@,
{
    heapless::Vec::from_slice(other)
}

/// `heapless::Vec::<u8, 256>::as_slice`: the held bytes, of which there are never more than 256.
#[verifier::external_body]
pub(crate) fn reply_as_slice(buffer: &heapless::Vec<u8, 256>) -> (r: &[u8])
    ensures
        r@ == reply_bytes(*buffer),
        r@.len() <= 256,
{
    buffer.as_slice()
}

} // verus!
