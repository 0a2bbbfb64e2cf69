use vstd::prelude::*;
use vstd::utf8::encode_utf8;

verus! {

/// The value of a metadata entry.
pub enum MetaValue {
    /// Signed 64-bit integers.
    Int64Array(Seq<i64>),
    /// Double-precision numbers, as their IEEE-754 bit patterns.
    Float64Array(Seq<u64>),
    /// A marker without a payload.
    NodeMarker,
    /// A text.
    Text(Seq<char>),
    /// A marker without a payload.
    Binary,
    /// Nested metadata entries, in stream order.
    Meta(Seq<MetaEntry>),
    /// A marker without a payload.
    Count,
    /// An entry whose type tag the format does not define. It has no payload.
    Unknown,
}

/// A named, typed metadata entry.
pub struct MetaEntry {
    pub name: Seq<char>,
    pub value: MetaValue,
    /// The length that the stream declares for the entry: the number of
    /// integers or of numbers, of bytes of text, or of nested entries.
    pub declared_length: u32,
}

impl MetaEntry {
    /// The entry holds as much as it declares: as many integers or numbers,
    /// as many bytes of text in UTF-8, or as many nested entries, each of
    /// which holds as much as it declares in turn. A marker declares a length
    /// and holds nothing.
    pub open spec fn lengths_agree(self) -> bool
        decreases self,
    {
        match self.value {
            MetaValue::Int64Array(values) => values.len() == self.declared_length,
            MetaValue::Float64Array(values) => values.len() == self.declared_length,
            MetaValue::Text(text) => encode_utf8(text).len() == self.declared_length,
            MetaValue::Meta(children) => {
                &&& children.len() == self.declared_length
                &&& forall|i: int|
                    0 <= i < children.len() ==> (#[trigger] children[i]).lengths_agree()
            },
            _ => true,
        }
    }
}

/// The values of a layer.
pub enum LayerValues {
    /// Unsigned bytes.
    UInt8Array(Seq<u8>),
    /// Signed 32-bit integers.
    Int32Array(Seq<i32>),
    /// Single-precision numbers, as their IEEE-754 bit patterns.
    Float32Array(Seq<u32>),
    /// Double-precision numbers, as their IEEE-754 bit patterns.
    Float64Array(Seq<u64>),
    /// A layer whose type tag the format does not define. It has no values.
    Unknown,
}

impl LayerValues {
    /// The number of values.
    pub open spec fn len(self) -> nat {
        match self {
            LayerValues::UInt8Array(v) => v.len(),
            LayerValues::Int32Array(v) => v.len(),
            LayerValues::Float32Array(v) => v.len(),
            LayerValues::Float64Array(v) => v.len(),
            LayerValues::Unknown => 0,
        }
    }
}

/// A named array of values, `components` of them for each item of the section
/// that the layer belongs to.
pub struct Layer {
    pub name: Seq<char>,
    pub components: u8,
    pub values: LayerValues,
}

impl Layer {
    /// The layer holds `components` values for each of `item_count` items,
    /// unless its type is undefined.
    pub open spec fn sized_for(self, item_count: u32) -> bool {
        self.values is Unknown || self.values.len() == item_count * self.components
    }
}

/// The layers of one section of a geometry node, in stream order.
pub struct LayerStack {
    /// The number of layers that the stream declares.
    pub layer_count: u32,
    pub layers: Seq<Layer>,
}

impl LayerStack {
    /// The stack holds as many layers as it declares, each sized for
    /// `item_count` items.
    pub open spec fn sized_for(self, item_count: u32) -> bool {
        &&& self.layers.len() == self.layer_count
        &&& forall|i: int|
            0 <= i < self.layers.len() ==> (#[trigger] self.layers[i]).sized_for(item_count)
    }
}

/// The payload of a geometry node.
pub struct GeometryNode {
    pub vertex_count: u32,
    pub vertex_stack: LayerStack,
    pub edge_corner_count: u32,
    pub corner_stack: LayerStack,
    pub edge_stack: LayerStack,
    pub face_count: u32,
    pub face_stack: LayerStack,
}

impl GeometryNode {
    /// Every stack is sized for the number of items of its section; the edge
    /// layers count by the corners.
    pub open spec fn well_formed(self) -> bool {
        &&& self.vertex_stack.sized_for(self.vertex_count)
        &&& self.corner_stack.sized_for(self.edge_corner_count)
        &&& self.edge_stack.sized_for(self.edge_corner_count)
        &&& self.face_stack.sized_for(self.face_count)
    }
}

/// What a node is, with its payload.
pub enum NodeKind {
    MetaOnly,
    Geometry(GeometryNode),
    Image,
    /// A node whose type tag the format does not define.
    Unknown,
}

/// A node: its kind and its metadata, in stream order.
pub struct Node {
    pub kind: NodeKind,
    /// The number of metadata entries that the stream declares.
    pub metadata_count: u32,
    pub metadata: Seq<MetaEntry>,
}

impl Node {
    /// The node is of a defined kind, holds as many metadata entries as it
    /// declares, each of which holds as much as it declares, and its geometry,
    /// if it has one, is well formed.
    pub open spec fn well_formed(self) -> bool {
        &&& self.kind !is Unknown
        &&& self.metadata.len() == self.metadata_count
        &&& forall|i: int|
            0 <= i < self.metadata.len() ==> (#[trigger] self.metadata[i]).lengths_agree()
        &&& self.kind matches NodeKind::Geometry(g) ==> g.well_formed()
    }
}

/// A whole file.
pub struct Document {
    pub version: u8,
    /// The number of nodes that the stream declares.
    pub node_count: u32,
    pub nodes: Seq<Node>,
}

impl Document {
    /// The document holds as many nodes as it declares, each well formed.
    pub open spec fn well_formed(self) -> bool {
        &&& self.nodes.len() == self.node_count
        &&& forall|i: int| 0 <= i < self.nodes.len() ==> (#[trigger] self.nodes[i]).well_formed()
    }
}

} // verus!
