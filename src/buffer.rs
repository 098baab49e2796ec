//! The byte buffers of the `bytes` crate, as this library uses them.
use vstd::prelude::*;

verus! {

#[verifier::external_type_specification]
#[verifier::external_body]
pub struct ExBytes(bytes::Bytes);

#[verifier::external_type_specification]
#[verifier::external_body]
pub struct ExBytesMut(bytes::BytesMut);

/// The bytes that a frozen buffer holds, in order.
pub uninterp spec fn bytes_view(b: bytes::Bytes) -> Seq<u8>;

/// The bytes that a growable buffer holds, in order.
pub uninterp spec fn bytes_mut_view(b: bytes::BytesMut) -> Seq<u8>;

/// Relies on `BytesMut::with_capacity`: the new buffer is empty.
#[verifier::external_body]
pub(crate) fn bytes_mut_with_capacity(capacity: usize) -> (r: bytes::BytesMut)
    ensures
        bytes_mut_view(r) == Seq::<u8>::empty(),
{
    bytes::BytesMut::with_capacity(capacity)
}

/// Relies on `BufMut::put_u32` for `BytesMut`: appends the four big-endian
/// bytes of `n`.
#[verifier::external_body]
pub(crate) fn put_u32(b: &mut bytes::BytesMut, n: u32)
    ensures
        bytes_mut_view(*final(b)) == bytes_mut_view(*old(b)) + seq![
            (n >> 24u32) as u8,
            (n >> 16u32) as u8,
            (n >> 8u32) as u8,
            n as u8,
        ],
{
    bytes::BufMut::put_u32(b, n)
}

/// Relies on `BufMut::put_u16` for `BytesMut`: appends the two big-endian
/// bytes of `n`.
#[verifier::external_body]
pub(crate) fn put_u16(b: &mut bytes::BytesMut, n: u16)
    ensures
        bytes_mut_view(*final(b)) == bytes_mut_view(*old(b)) + seq![(n >> 8u16) as u8, n as u8],
{
    bytes::BufMut::put_u16(b, n)
}

/// Relies on `BufMut::put_slice` for `BytesMut`: appends `src`.
#[verifier::external_body]
pub(crate) fn put_slice(b: &mut bytes::BytesMut, src: &[u8])
    ensures
        bytes_mut_view(*final(b)) == bytes_mut_view(*old(b)) + src@,
{
    bytes::BufMut::put_slice(b, src)
}

/// Relies on `DerefMut<Target = [u8]>` for `BytesMut`: overwrites byte `i`.
#[verifier::external_body]
pub(crate) fn bytes_mut_set(b: &mut bytes::BytesMut, i: usize, v: u8)
    requires
        i < bytes_mut_view(*old(b)).len(),
    ensures
        bytes_mut_view(*final(b)) == bytes_mut_view(*old(b)).update(i as int, v),
{
    b[i] = v;
}

/// Relies on `impl From<Vec<u8>> for Bytes`: the buffer holds the vector's bytes.
#[verifier::external_body]
pub(crate) fn bytes_from_vec(v: Vec<u8>) -> (r: bytes::Bytes)
    ensures
        bytes_view(r) == v@,
{
    bytes::Bytes::from(v)
}

/// Relies on `BytesMut::freeze`: the frozen buffer holds the same bytes.
#[verifier::external_body]
pub(crate) fn freeze(b: bytes::BytesMut) -> (r: bytes::Bytes)
    ensures
        bytes_view(r) == bytes_mut_view(b),
{
    b.freeze()
}

/// Relies on `Deref<Target = [u8]>` for `BytesMut`: the slice is the contents.
#[verifier::external_body]
pub(crate) fn bytes_mut_as_slice(b: &bytes::BytesMut) -> (r: &[u8])
    ensures
        r@ == bytes_mut_view(*b),
{
    b
}

/// Relies on `Deref<Target = [u8]>` for `Bytes`: the slice is the contents.
#[verifier::external_body]
pub(crate) fn bytes_as_slice(b: &bytes::Bytes) -> (r: &[u8])
    ensures
        r@ == bytes_view(*b),
{
    b
}

/// Relies on `Bytes::slice`, which panics unless `begin <= end <= len`:
/// the result holds the bytes from `begin` up to `end`.
#[verifier::external_body]
pub(crate) fn bytes_slice(b: &bytes::Bytes, begin: usize, end: usize) -> (r: bytes::Bytes)
    requires
        begin <= end <= bytes_view(*b).len(),
    ensures
        bytes_view(r) == bytes_view(*b).subrange(begin as int, end as int),
{
    b.slice(begin..end)
}

} // verus!
