//! Positional-argument encoding for a typed binary database protocol.
//!
//! An ordered sequence of argument values is validated against a
//! server-supplied type descriptor and serialized into the protocol's
//! self-describing argument block.

pub mod buffer;
pub mod descriptors;
pub mod encode;
pub mod errors;
pub mod names;
pub mod query_arg;
pub mod values;
