//! The capability each positional argument value implements: validate
//! against a declared type position, and serialize a length-prefixed
//! payload.

use vstd::prelude::*;
use crate::buffer::buf_bytes;
use crate::descriptors::DescriptorContext;
use crate::errors::EncodeError;

verus! {

/// One positional argument value.
///
/// `payload` is the length-prefixed byte encoding the value appends to the
/// buffer; `type_matches` says when the value agrees with the type declared
/// at a position; `encodable` says when the payload is representable at all.
pub trait QueryArg: Sized {
    /// The value's length-prefixed wire encoding.
    spec fn payload(self) -> Seq<u8>;

    /// Whether the value agrees with the type declared at `type_pos`.
    spec fn type_matches(self, ctx: DescriptorContext, type_pos: u16) -> bool;

    /// Whether the value's payload is representable at all.
    spec fn encodable(self) -> bool;

    /// The payload is length-prefixed, so it holds at least the four
    /// prefix bytes.
    proof fn payload_is_prefixed(self)
        ensures
            self.payload().len() >= 4,
    ;

    /// Validate this value against the type declared at `type_pos`.
    fn check_descriptor(&self, ctx: &DescriptorContext, type_pos: u16) -> (r: Result<
        (),
        EncodeError,
    >)
        ensures
            r is Ok <==> self.type_matches(*ctx, type_pos),
    ;

    /// Append this value's length-prefixed payload to the buffer.
    fn encode_slot(&self, buf: &mut bytes::BytesMut) -> (r: Result<(), EncodeError>)
        requires
            buf_bytes(*old(buf)).len() + self.payload().len() <= isize::MAX,
        ensures
            r is Ok <==> self.encodable(),
            r is Ok ==> buf_bytes(*final(buf)) == buf_bytes(*old(buf)) + self.payload(),
            r is Err ==> buf_bytes(*final(buf)) == buf_bytes(*old(buf)),
    ;
}

} // verus!
