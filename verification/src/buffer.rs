//! The output byte buffer: `bytes::BytesMut` behind trusted wrappers, with
//! its contents named as a sequence of bytes.

use vstd::prelude::*;
use bytes::BufMut;

verus! {

/// `bytes::BytesMut` declared as an opaque type; `buf_bytes` names what a
/// buffer holds.
#[verifier::external_type_specification]
#[verifier::external_body]
pub struct ExBytesMut(bytes::BytesMut);

/// The bytes a buffer holds, in order.
pub uninterp spec fn buf_bytes(b: bytes::BytesMut) -> Seq<u8>;

/// The four bytes of `x` in big-endian order.
pub open spec fn u32_be_bytes(x: u32) -> Seq<u8> {
    seq![
        ((x >> 24) & 0xff) as u8,
        ((x >> 16) & 0xff) as u8,
        ((x >> 8) & 0xff) as u8,
        (x & 0xff) as u8,
    ]
}

/// Relies on `bytes::BytesMut::reserve`: it grows the capacity and leaves
/// the contents alone; it panics only when the new capacity cannot be
/// allocated (allocations are capped at `isize::MAX`).
#[verifier::external_body]
pub(crate) fn buf_reserve(buf: &mut bytes::BytesMut, additional: usize)
    requires
        buf_bytes(*old(buf)).len() + additional <= isize::MAX,
    ensures
        buf_bytes(*final(buf)) == buf_bytes(*old(buf)),
{
    buf.reserve(additional);
}

/// Relies on `bytes::BufMut::put_u32` for `BytesMut`: it appends the four
/// bytes of `x` in big-endian order (its body is `put_slice` of
/// `x.to_be_bytes()`), growing the buffer as needed.
#[verifier::external_body]
pub(crate) fn buf_put_u32(buf: &mut bytes::BytesMut, x: u32)
    requires
        buf_bytes(*old(buf)).len() + 4 <= isize::MAX,
    ensures
        buf_bytes(*final(buf)) == buf_bytes(*old(buf)) + u32_be_bytes(x),
{
    buf.put_u32(x);
}

/// Relies on `bytes::BytesMut::extend_from_slice`: it appends a copy of `s`,
/// growing the buffer as needed.
#[verifier::external_body]
pub(crate) fn buf_extend(buf: &mut bytes::BytesMut, s: &[u8])
    requires
        buf_bytes(*old(buf)).len() + s@.len() <= isize::MAX,
    ensures
        buf_bytes(*final(buf)) == buf_bytes(*old(buf)) + s@,
{
    buf.extend_from_slice(s);
}

} // verus!
