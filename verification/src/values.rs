//! Argument value shapes: a 64-bit integer scalar and a byte-string
//! scalar, each with its reciprocal decode.

use vstd::prelude::*;
use crate::buffer::{buf_bytes, buf_extend, buf_put_u32, u32_be_bytes};
use crate::descriptors::{Descriptor, DescriptorContext};
use crate::errors::EncodeError;
use crate::query_arg::QueryArg;

verus! {

/// The low bits of the well-known id of the `int64` base scalar type.
pub const INT64_TYPE_ID: u16 = 0x105;

/// The low bits of the well-known id of the `bytes` base scalar type.
pub const BYTES_TYPE_ID: u16 = 0x102;

/// Whether the descriptor at `type_pos` is the base scalar with id `id`.
pub open spec fn scalar_at(ctx: DescriptorContext, type_pos: u16, id: u16) -> bool {
    &&& (type_pos as int) < ctx.descriptors@.len()
    &&& match ctx.descriptors@[type_pos as int] {
        Descriptor::BaseScalar(s) => s.id == id,
        _ => false,
    }
}

/// Validate that the descriptor at `type_pos` is the base scalar `id`:
/// a lookup failure passes through, any other descriptor is a value
/// mismatch at that position.
fn check_scalar(ctx: &DescriptorContext, type_pos: u16, id: u16) -> (r: Result<(), EncodeError>)
    ensures
        r is Ok <==> scalar_at(*ctx, type_pos, id),
        (type_pos as int) >= ctx.descriptors@.len() ==> r == Result::<(), EncodeError>::Err(
            EncodeError::LookupFailed { position: type_pos },
        ),
        (type_pos as int) < ctx.descriptors@.len() && !scalar_at(*ctx, type_pos, id) ==> r
            == Result::<(), EncodeError>::Err(EncodeError::ValueMismatch { position: type_pos }),
{
    match ctx.get(type_pos) {
        Ok(d) => match d {
            Descriptor::BaseScalar(s) => {
                if s.id == id {
                    Ok(())
                } else {
                    Err(EncodeError::ValueMismatch { position: type_pos })
                }
            },
            _ => Err(EncodeError::ValueMismatch { position: type_pos }),
        },
        Err(e) => Err(e),
    }
}

/// The value of four big-endian bytes.
pub open spec fn u32_of_bytes(b0: u8, b1: u8, b2: u8, b3: u8) -> u32 {
    ((b0 as u32) << 24) | ((b1 as u32) << 16) | ((b2 as u32) << 8) | (b3 as u32)
}

/// Reading four big-endian bytes undoes writing them.
proof fn lemma_u32_of_be_bytes(x: u32)
    ensures
        u32_of_bytes(
            ((x >> 24) & 0xff) as u8,
            ((x >> 16) & 0xff) as u8,
            ((x >> 8) & 0xff) as u8,
            (x & 0xff) as u8,
        ) == x,
{
    assert((((((x >> 24) & 0xff) as u8) as u32) << 24) | (((((x >> 16) & 0xff) as u8) as u32)
        << 16) | (((((x >> 8) & 0xff) as u8) as u32) << 8) | (((x & 0xff) as u8) as u32) == x)
        by (bit_vector);
}

/// Rebuild a `u32` from four big-endian bytes.
fn u32_from_be(b0: u8, b1: u8, b2: u8, b3: u8) -> (r: u32)
    ensures
        r == u32_of_bytes(b0, b1, b2, b3),
{
    ((b0 as u32) << 24) | ((b1 as u32) << 16) | ((b2 as u32) << 8) | (b3 as u32)
}

/// A 64-bit integer argument (the `int64` scalar).
#[derive(Debug, Clone, Copy, PartialEq, Eq, Structural)]
pub struct Int64Value {
    pub value: i64,
}

/// The two's-complement bit pattern of `x`, as an unsigned value.
pub open spec fn i64_bits(x: i64) -> u64 {
    if x >= 0 {
        x as u64
    } else {
        (x + 0x1_0000_0000_0000_0000) as u64
    }
}

/// The signed value with the bit pattern `bits`.
pub open spec fn i64_of_bits(bits: u64) -> i64 {
    if bits < 0x8000_0000_0000_0000 {
        bits as i64
    } else {
        (bits - 0x1_0000_0000_0000_0000) as i64
    }
}

/// The value of the high four big-endian bytes of `x`.
pub open spec fn i64_hi(x: i64) -> u32 {
    (i64_bits(x) >> 32) as u32
}

/// The value of the low four big-endian bytes of `x`.
pub open spec fn i64_lo(x: i64) -> u32 {
    i64_bits(x) as u32
}

/// The eight bytes of `x` in big-endian order.
pub open spec fn i64_be_bytes(x: i64) -> Seq<u8> {
    u32_be_bytes(i64_hi(x)) + u32_be_bytes(i64_lo(x))
}

/// The length-prefixed payload of an int64: the length 8, then the bytes.
pub open spec fn int64_payload(x: i64) -> Seq<u8> {
    u32_be_bytes(8) + i64_be_bytes(x)
}

/// Split `x` into the values of its high and low four big-endian bytes.
fn i64_split(x: i64) -> (r: (u32, u32))
    ensures
        r.0 == i64_hi(x),
        r.1 == i64_lo(x),
{
    let bits: u64 = if x >= 0 {
        x as u64
    } else {
        ((x as i128) + 0x1_0000_0000_0000_0000i128) as u64
    };
    proof {
        assert(bits == i64_bits(x));
        assert(bits >> 32 <= 0xFFFF_FFFFu64) by (bit_vector);
    }
    let hi = (bits >> 32) as u32;
    let lo = #[verifier::truncate] (bits as u32);
    (hi, lo)
}

impl QueryArg for Int64Value {
    open spec fn payload(self) -> Seq<u8> {
        int64_payload(self.value)
    }

    open spec fn type_matches(self, ctx: DescriptorContext, type_pos: u16) -> bool {
        scalar_at(ctx, type_pos, INT64_TYPE_ID)
    }

    open spec fn encodable(self) -> bool {
        true
    }

    proof fn payload_is_prefixed(self) {
    }

    fn check_descriptor(&self, ctx: &DescriptorContext, type_pos: u16) -> (r: Result<
        (),
        EncodeError,
    >) {
        check_scalar(ctx, type_pos, INT64_TYPE_ID)
    }

    fn encode_slot(&self, buf: &mut bytes::BytesMut) -> (r: Result<(), EncodeError>) {
        let (hi, lo) = i64_split(self.value);
        buf_put_u32(buf, 8);
        buf_put_u32(buf, hi);
        buf_put_u32(buf, lo);
        proof {
            assert(buf_bytes(*buf) =~= buf_bytes(*old(buf)) + int64_payload(self.value));
        }
        Ok(())
    }
}

/// Decode of a single int64 payload: twelve bytes, the length prefix 8,
/// then the value's eight bytes in big-endian order.
pub open spec fn spec_decode_int64(s: Seq<u8>) -> Option<i64> {
    if s.len() == 12 && s.subrange(0, 4) == u32_be_bytes(8) {
        Option::Some(
            i64_of_bits(
                ((u32_of_bytes(s[4], s[5], s[6], s[7]) as u64) << 32) | (u32_of_bytes(
                    s[8],
                    s[9],
                    s[10],
                    s[11],
                ) as u64),
            ),
        )
    } else {
        Option::None
    }
}

/// Decode a single int64 payload, the reciprocal of the int64 slot
/// encoding once the four-byte reserved field is stripped.
pub fn decode_int64(data: &Vec<u8>) -> (r: Option<i64>)
    ensures
        r == spec_decode_int64(data@),
{
    if data.len() != 12 {
        return None;
    }
    proof {
        assert((8u32 >> 24) & 0xff == 0 && (8u32 >> 16) & 0xff == 0 && (8u32 >> 8) & 0xff == 0
            && 8u32 & 0xff == 8) by (bit_vector);
    }
    if !(data[0] == 0 && data[1] == 0 && data[2] == 0 && data[3] == 8) {
        proof {
            assert(data@.subrange(0, 4)[0] == data@[0] && data@.subrange(0, 4)[1] == data@[1]
                && data@.subrange(0, 4)[2] == data@[2] && data@.subrange(0, 4)[3] == data@[3]);
        }
        return None;
    }
    proof {
        assert(data@.subrange(0, 4) =~= u32_be_bytes(8));
    }
    let hi = u32_from_be(data[4], data[5], data[6], data[7]);
    let lo = u32_from_be(data[8], data[9], data[10], data[11]);
    let bits: u64 = ((hi as u64) << 32) | (lo as u64);
    proof {
        assert(bits < 0x8000_0000_0000_0000u64 ==> bits <= 0x7FFF_FFFF_FFFF_FFFFu64)
            by (bit_vector);
    }
    let v: i64 = if bits >= 0x8000_0000_0000_0000 {
        ((bits as i128) - 0x1_0000_0000_0000_0000i128) as i64
    } else {
        bits as i64
    };
    Some(v)
}

/// Law: decoding the payload the encoder produces for an int64 yields the
/// value back.
pub proof fn lemma_int64_round_trip(v: Int64Value)
    ensures
        spec_decode_int64(v.payload()) == Some(v.value),
{
    let x = v.value;
    let s = int64_payload(x);
    let hi = i64_hi(x);
    let lo = i64_lo(x);
    assert(s.subrange(0, 4) =~= u32_be_bytes(8));
    assert(s[4] == u32_be_bytes(hi)[0] && s[5] == u32_be_bytes(hi)[1] && s[6] == u32_be_bytes(
        hi,
    )[2] && s[7] == u32_be_bytes(hi)[3]);
    assert(s[8] == u32_be_bytes(lo)[0] && s[9] == u32_be_bytes(lo)[1] && s[10] == u32_be_bytes(
        lo,
    )[2] && s[11] == u32_be_bytes(lo)[3]);
    lemma_u32_of_be_bytes(hi);
    lemma_u32_of_be_bytes(lo);
    let bits = i64_bits(x);
    assert(((((bits >> 32) as u32) as u64) << 32) | (((#[verifier::truncate] (bits as u32))
        as u64)) == bits) by (bit_vector);
    assert(i64_of_bits(i64_bits(x)) == x);
}

/// A byte-string argument (the `bytes` scalar).
#[derive(Debug, Clone, PartialEq, Eq)]
pub struct BytesValue {
    pub data: Vec<u8>,
}

/// The length-prefixed payload of a byte string.
pub open spec fn bytes_payload(data: Seq<u8>) -> Seq<u8> {
    u32_be_bytes(data.len() as u32) + data
}

impl QueryArg for BytesValue {
    open spec fn payload(self) -> Seq<u8> {
        bytes_payload(self.data@)
    }

    open spec fn type_matches(self, ctx: DescriptorContext, type_pos: u16) -> bool {
        scalar_at(ctx, type_pos, BYTES_TYPE_ID)
    }

    open spec fn encodable(self) -> bool {
        self.data@.len() <= u32::MAX
    }

    proof fn payload_is_prefixed(self) {
    }

    fn check_descriptor(&self, ctx: &DescriptorContext, type_pos: u16) -> (r: Result<
        (),
        EncodeError,
    >) {
        check_scalar(ctx, type_pos, BYTES_TYPE_ID)
    }

    fn encode_slot(&self, buf: &mut bytes::BytesMut) -> (r: Result<(), EncodeError>) {
        if self.data.len() > u32::MAX as usize {
            return Err(EncodeError::ValueTooLong { length: self.data.len() });
        }
        buf_put_u32(buf, self.data.len() as u32);
        buf_extend(buf, self.data.as_slice());
        proof {
            assert(buf_bytes(*buf) =~= buf_bytes(*old(buf)) + bytes_payload(self.data@));
        }
        Ok(())
    }
}

/// Decode of a byte-string payload: a four-byte big-endian length, then
/// exactly that many bytes.
pub open spec fn spec_decode_bytes(s: Seq<u8>) -> Option<Seq<u8>> {
    if s.len() >= 4 && s.len() - 4 == u32_of_bytes(s[0], s[1], s[2], s[3]) {
        Option::Some(s.skip(4))
    } else {
        Option::None
    }
}

/// Decode a byte-string payload, the reciprocal of the bytes slot encoding
/// once the four-byte reserved field is stripped.
pub fn decode_bytes(data: &Vec<u8>) -> (r: Option<Vec<u8>>)
    ensures
        match r {
            Option::Some(v) => spec_decode_bytes(data@) == Option::Some(v@),
            Option::None => spec_decode_bytes(data@) is None,
        },
{
    if data.len() < 4 {
        return None;
    }
    let k = u32_from_be(data[0], data[1], data[2], data[3]);
    if (data.len() - 4) as u64 != k as u64 {
        return None;
    }
    let mut out: Vec<u8> = Vec::new();
    let mut i: usize = 4;
    while i < data.len()
        invariant
            4 <= i <= data@.len(),
            out@ == data@.subrange(4, i as int),
        decreases data@.len() - i,
    {
        let b = data[i];
        out.push(b);
        proof {
            assert(out@ =~= data@.subrange(4, i + 1));
        }
        i += 1;
    }
    proof {
        assert(out@ =~= data@.skip(4));
    }
    Some(out)
}

/// Law: decoding the payload the encoder produces for a byte string yields
/// the data back.
pub proof fn lemma_bytes_round_trip(v: BytesValue)
    requires
        v.encodable(),
    ensures
        spec_decode_bytes(v.payload()) == Some(v.data@),
{
    let s = bytes_payload(v.data@);
    let n = v.data@.len() as u32;
    lemma_u32_of_be_bytes(n);
    assert(s[0] == u32_be_bytes(n)[0] && s[1] == u32_be_bytes(n)[1] && s[2] == u32_be_bytes(n)[2]
        && s[3] == u32_be_bytes(n)[3]);
    assert(s.skip(4) =~= v.data@);
}

} // verus!
