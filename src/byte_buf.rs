//! `bytes::BytesMut`, the growable byte buffer that carries run and channel
//! data, with contracts over the bytes it holds.
use bytes::BytesMut;
use vstd::prelude::*;

verus! {

#[verifier::external_type_specification]
#[verifier::external_body]
pub struct ExBytesMut(BytesMut);

/// The bytes that a `BytesMut` holds, in order.
pub uninterp spec fn bytes_of(b: BytesMut) -> Seq<u8>;

/// Relies on `BytesMut::new`: a new buffer holds no bytes.
#[verifier::external_body]
pub(crate) fn bytes_new() -> (r: BytesMut)
    ensures
        bytes_of(r) == Seq::<u8>::empty(),
{
    BytesMut::new()
}

/// Relies on `BytesMut::from(&[u8])`: the buffer holds a copy of the slice.
#[verifier::external_body]
pub(crate) fn bytes_from_slice(s: &[u8]) -> (r: BytesMut)
    ensures
        bytes_of(r) == s@,
{
    BytesMut::from(s)
}

/// Relies on `BytesMut::len`: the number of bytes held.
#[verifier::external_body]
pub(crate) fn bytes_len(b: &BytesMut) -> (r: usize)
    ensures
        r == bytes_of(*b).len(),
{
    b.len()
}

/// Relies on `BytesMut`'s `Deref` to `[u8]`: a view of the bytes held.
#[verifier::external_body]
pub(crate) fn bytes_as_slice(b: &BytesMut) -> (r: &[u8])
    ensures
        r@ == bytes_of(*b),
{
    b.as_ref()
}

/// Relies on `BytesMut::split_to`: the first `at` bytes move to the result,
/// the rest stay. It panics when `at` exceeds the length.
#[verifier::external_body]
pub(crate) fn bytes_split_to(b: &mut BytesMut, at: usize) -> (r: BytesMut)
    requires
        at <= bytes_of(*old(b)).len(),
    ensures
        bytes_of(r) == bytes_of(*old(b)).take(at as int),
        bytes_of(*final(b)) == bytes_of(*old(b)).skip(at as int),
{
    b.split_to(at)
}

/// Relies on `BytesMut::unsplit`: the bytes of `other` are appended.
#[verifier::external_body]
pub(crate) fn bytes_unsplit(b: &mut BytesMut, other: BytesMut)
    ensures
        bytes_of(*final(b)) == bytes_of(*old(b)) + bytes_of(other),
{
    b.unsplit(other)
}

/// Relies on `BytesMut::extend_from_slice`: the slice is appended.
#[verifier::external_body]
pub(crate) fn bytes_extend(b: &mut BytesMut, s: &[u8])
    ensures
        bytes_of(*final(b)) == bytes_of(*old(b)) + s@,
{
    b.extend_from_slice(s)
}

} // verus!
