//! Server-declared type descriptors and the context they are resolved in.

use vstd::prelude::*;
use crate::errors::EncodeError;

verus! {

/// The negotiated protocol version (major.minor). Which descriptor kind
/// expresses positional arguments depends on this version.
#[derive(Clone, Copy, Debug, PartialEq, Eq, Structural)]
pub struct ProtocolVersion {
    pub major: u16,
    pub minor: u16,
}

impl ProtocolVersion {
    /// Lexicographic comparison: `self` >= `major.minor`.
    pub open spec fn spec_is_at_least(self, major: u16, minor: u16) -> bool {
        self.major > major || (self.major == major && self.minor >= minor)
    }

    /// Lexicographic comparison: `self` <= `major.minor`.
    pub open spec fn spec_is_at_most(self, major: u16, minor: u16) -> bool {
        self.major < major || (self.major == major && self.minor <= minor)
    }

    pub fn is_at_least(&self, major: u16, minor: u16) -> (r: bool)
        ensures
            r == self.spec_is_at_least(major, minor),
    {
        self.major > major || (self.major == major && self.minor >= minor)
    }

    pub fn is_at_most(&self, major: u16, minor: u16) -> (r: bool)
        ensures
            r == self.spec_is_at_most(major, minor),
    {
        self.major < major || (self.major == major && self.minor <= minor)
    }
}

/// One element of an object-shape descriptor: a declared name and the
/// position of the element's type descriptor.
#[derive(Debug, Clone, PartialEq, Eq)]
pub struct ShapeElement {
    pub name: String,
    pub type_pos: u16,
}

/// An ordered list of named elements, each with a type position.
#[derive(Debug, Clone, PartialEq, Eq)]
pub struct ObjectShapeDescriptor {
    pub elements: Vec<ShapeElement>,
}

/// An ordered list of type positions only.
#[derive(Debug, Clone, PartialEq, Eq)]
pub struct TupleDescriptor {
    pub element_types: Vec<u16>,
}

/// A scalar type, identified by the low bits of its well-known id.
#[derive(Debug, Clone, PartialEq, Eq)]
pub struct BaseScalarTypeDescriptor {
    pub id: u16,
}

/// A tagged descriptor retrieved by position from the registry.
#[derive(Debug, Clone, PartialEq, Eq)]
pub enum Descriptor {
    ObjectShape(ObjectShapeDescriptor),
    Tuple(TupleDescriptor),
    BaseScalar(BaseScalarTypeDescriptor),
}

/// The kind tag of a descriptor, used by wrong-type reports.
#[derive(Debug, Clone, Copy, PartialEq, Eq, Structural)]
pub enum DescriptorKind {
    ObjectShape,
    Tuple,
    BaseScalar,
}

impl Descriptor {
    pub open spec fn spec_kind(self) -> DescriptorKind {
        match self {
            Descriptor::ObjectShape(_) => DescriptorKind::ObjectShape,
            Descriptor::Tuple(_) => DescriptorKind::Tuple,
            Descriptor::BaseScalar(_) => DescriptorKind::BaseScalar,
        }
    }

    pub fn kind(&self) -> (k: DescriptorKind)
        ensures
            k == self.spec_kind(),
    {
        match self {
            Descriptor::ObjectShape(_) => DescriptorKind::ObjectShape,
            Descriptor::Tuple(_) => DescriptorKind::Tuple,
            Descriptor::BaseScalar(_) => DescriptorKind::BaseScalar,
        }
    }
}

impl DescriptorKind {
    /// The label a wrong-type report names this kind by.
    pub open spec fn spec_label(self) -> Seq<char> {
        match self {
            DescriptorKind::ObjectShape => "object"@,
            DescriptorKind::Tuple => "tuple"@,
            DescriptorKind::BaseScalar => "scalar"@,
        }
    }

    pub fn label(&self) -> (s: String)
        ensures
            s@ == self.spec_label(),
    {
        match self {
            DescriptorKind::ObjectShape => "object".to_owned(),
            DescriptorKind::Tuple => "tuple".to_owned(),
            DescriptorKind::BaseScalar => "scalar".to_owned(),
        }
    }
}

/// What one encode call reads: an optional root descriptor position, the
/// negotiated protocol version, and the registry of descriptors, indexed
/// by position.
pub struct DescriptorContext {
    pub root_pos: Option<u16>,
    pub proto: ProtocolVersion,
    pub descriptors: Vec<Descriptor>,
}

impl DescriptorContext {
    /// Looks a descriptor up by position; fails when the registry holds none.
    pub fn get(&self, pos: u16) -> (r: Result<&Descriptor, EncodeError>)
        ensures
            match r {
                Ok(d) => pos < self.descriptors@.len() && *d == self.descriptors@[pos as int],
                Err(e) => pos as int >= self.descriptors@.len() && e == (EncodeError::LookupFailed {
                    position: pos,
                }),
            },
    {
        if (pos as usize) < self.descriptors.len() {
            Ok(&self.descriptors[pos as usize])
        } else {
            Err(EncodeError::LookupFailed { position: pos })
        }
    }
}

} // verus!
