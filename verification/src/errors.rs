//! The error kinds an encode call can surface.

use vstd::prelude::*;
use crate::descriptors::DescriptorKind;

verus! {

/// A structural disagreement between the supplied arguments and the declared
/// shape that is not reducible to a count.
#[derive(Debug, Clone, PartialEq, Eq)]
pub enum Mismatch {
    /// The context holds no root descriptor position: the server expects no
    /// positional arguments, yet `provided` of them were supplied.
    NoArgumentsExpected { provided: usize },
    /// The shape element at `index` is declared under `name`, which does not
    /// parse as the decimal index itself.
    WrongElementName { index: usize, name: String },
}

/// Why an encode call failed.
#[derive(Debug, Clone, PartialEq, Eq)]
pub enum EncodeError {
    /// Structural disagreement between arguments and descriptor.
    DescriptorMismatch(Mismatch),
    /// The descriptor declares `expected` elements; `actual` were supplied.
    FieldCountMismatch { expected: usize, actual: usize },
    /// The resolved descriptor's kind is not the kind the protocol era
    /// calls for.
    WrongType { found: DescriptorKind, expected: DescriptorKind },
    /// The registry holds no descriptor at `position`.
    LookupFailed { position: u16 },
    /// A value does not agree with the type declared at `position`.
    ValueMismatch { position: u16 },
    /// A value's data is too long for its four-byte length prefix.
    ValueTooLong { length: usize },
}

} // verus!
