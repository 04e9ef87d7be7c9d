use bytes::BufMut;
use vstd::prelude::*;

use crate::protocol::codec::be64;

verus! {

/// `bytes::BytesMut`, the growable byte buffer requests are encoded into;
/// its contents are known only through `bytes_mut_contents`.
#[verifier::external_type_specification]
#[verifier::external_body]
pub struct ExBytesMut(bytes::BytesMut);

/// The bytes held by a `BytesMut` buffer.
pub uninterp spec fn bytes_mut_contents(b: bytes::BytesMut) -> Seq<u8>;

/// An empty buffer with room reserved for `capacity` bytes
/// (`BytesMut::with_capacity`).
#[verifier::external_body]
pub(crate) fn bytes_mut_with_capacity(capacity: usize) -> (b: bytes::BytesMut)
    requires
        capacity <= isize::MAX,
    ensures
        bytes_mut_contents(b) == Seq::<u8>::empty(),
{
    bytes::BytesMut::with_capacity(capacity)
}

/// Appends one byte (`BufMut::put_u8`); the buffer may hold at most
/// `isize::MAX` bytes.
#[verifier::external_body]
pub(crate) fn bytes_mut_put_u8(b: &mut bytes::BytesMut, v: u8)
    requires
        bytes_mut_contents(*old(b)).len() + 1 <= isize::MAX,
    ensures
        bytes_mut_contents(*final(b)) == bytes_mut_contents(*old(b)).push(v),
{
    b.put_u8(v);
}

/// Appends the big-endian encoding of `v` (`BufMut::put_u64`).
#[verifier::external_body]
pub(crate) fn bytes_mut_put_u64(b: &mut bytes::BytesMut, v: u64)
    requires
        bytes_mut_contents(*old(b)).len() + 8 <= isize::MAX,
    ensures
        bytes_mut_contents(*final(b)) == bytes_mut_contents(*old(b)) + be64(v),
{
    b.put_u64(v);
}

/// Appends a slice (`BytesMut::extend_from_slice`).
#[verifier::external_body]
pub(crate) fn bytes_mut_extend(b: &mut bytes::BytesMut, s: &[u8])
    requires
        bytes_mut_contents(*old(b)).len() + s@.len() <= isize::MAX,
    ensures
        bytes_mut_contents(*final(b)) == bytes_mut_contents(*old(b)) + s@,
{
    b.extend_from_slice(s);
}

/// The bytes of the buffer as a slice (`Deref for BytesMut`).
#[verifier::external_body]
pub(crate) fn bytes_mut_as_slice(b: &bytes::BytesMut) -> (s: &[u8])
    ensures
        s@ == bytes_mut_contents(*b),
{
    b
}

} // verus!
