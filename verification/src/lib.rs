//! Decoder for the HxA 3D-geometry interchange format.
//!
//! A file is a sequence of nodes. Every node carries a list of named metadata
//! entries, which may nest, and a geometry node carries four stacks of named
//! typed arrays: the vertex, corner, edge and face layers. Decoding is
//! all-or-nothing: a successful decode yields the whole document, a failed one
//! yields an [`HXAError`] and nothing else.
//!
//! The wire format is defined by the spec functions of each module
//! (`u32_at`, `meta_at`, `layer_at`, `node_at`, `file_at`, ...), which map a
//! byte sequence and a position to the decoded value and the position behind
//! it. The executable decoders are proved to compute exactly those functions.
//! Floating-point payloads are kept as their IEEE-754 bit patterns.
pub mod error;
pub mod cursor;
pub mod model;
pub mod wire;
pub mod enums;
pub mod meta;
pub mod layer;
pub mod node;
pub mod hxfile;
pub mod conventions;
pub mod laws;

pub use cursor::ByteCursor;
pub use error::HXAError;
pub use hxfile::HXAFile;
pub use layer::{HXALayer, HXALayerStack};
pub use meta::HXAMeta;
pub use node::{HXAGeometryNode, HXANode};
