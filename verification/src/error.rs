use vstd::prelude::*;

verus! {

/// Why a decode, or a typed access to a layer, failed.
#[derive(Clone, Copy, Debug, PartialEq, Eq, Structural)]
pub enum HXAError {
    /// A read asked for more bytes than the stream has left.
    UnexpectedEof,
    /// A name or a text payload is not valid UTF-8.
    InvalidUtf8,
    /// A node's type tag is none of meta-only, geometry or image.
    UnknownNodeType,
    /// The stream does not begin with the format's identifier.
    BadMagic,
    /// Metadata nests deeper than the decoder follows.
    RecursionLimitExceeded,
    /// A layer was asked for values of a type it does not hold.
    TypeMismatch,
}

} // verus!
