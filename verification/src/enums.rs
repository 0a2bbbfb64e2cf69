use vstd::prelude::*;
use vstd::std_specs::convert::FromSpecImpl;
use crate::meta::{HXAMeta, meta_list_model};
use crate::model::{LayerValues, MetaValue, NodeKind};
use crate::node::HXAGeometryNode;
use crate::wire::{layer_tag_values, meta_tag_value, node_tag_kind};

verus! {

/// The value of a metadata entry, by the type that its tag names.
#[allow(non_camel_case_types)]
#[derive(Debug)]
pub enum HXAMetaDataType {
    /// `data_length` signed 64-bit integers.
    INT64 { int_array: Vec<i64> },
    /// `data_length` double-precision numbers, as their IEEE-754 bit patterns.
    DOUBLE { double_array: Vec<u64> },
    NODE,
    /// A text of `data_length` bytes.
    TEXT { text: String },
    BINARY,
    /// `data_length` nested metadata entries.
    META { meta_array: Vec<HXAMeta> },
    COUNT,
    /// A type tag that the format does not define.
    Unknown,
}

/// What a metadata value holds.
pub open spec fn meta_value_model(v: HXAMetaDataType) -> MetaValue
    decreases v,
{
    match v {
        HXAMetaDataType::INT64 { int_array } => MetaValue::Int64Array(int_array@),
        HXAMetaDataType::DOUBLE { double_array } => MetaValue::Float64Array(double_array@),
        HXAMetaDataType::NODE => MetaValue::NodeMarker,
        HXAMetaDataType::TEXT { text } => MetaValue::Text(text@),
        HXAMetaDataType::BINARY => MetaValue::Binary,
        HXAMetaDataType::META { meta_array } => MetaValue::Meta(meta_list_model(meta_array@)),
        HXAMetaDataType::COUNT => MetaValue::Count,
        HXAMetaDataType::Unknown => MetaValue::Unknown,
    }
}

impl View for HXAMetaDataType {
    type V = MetaValue;

    open spec fn view(&self) -> MetaValue {
        meta_value_model(*self)
    }
}

/// What `from` gives is stated by its own `ensures`, over the view of the
/// result: no specification function can build the vectors that the
/// variants hold.
impl FromSpecImpl<u8> for HXAMetaDataType {
    open spec fn obeys_from_spec() -> bool {
        false
    }

    open spec fn from_spec(v: u8) -> Self {
        HXAMetaDataType::Unknown
    }
}

impl From<u8> for HXAMetaDataType {
    /// The variant that a metadata type tag names, with an empty payload.
    fn from(value: u8) -> (ret: Self)
        ensures
            ret@ == meta_tag_value(value),
    {
        match value {
            0u8 => HXAMetaDataType::INT64 { int_array: Vec::new() },
            1u8 => HXAMetaDataType::DOUBLE { double_array: Vec::new() },
            2u8 => HXAMetaDataType::NODE,
            3u8 => HXAMetaDataType::TEXT { text: "NO TEXT".to_owned() },
            4u8 => HXAMetaDataType::BINARY,
            5u8 => {
                let meta_array: Vec<HXAMeta> = Vec::new();
                assert(meta_list_model(meta_array@) =~= Seq::empty());
                HXAMetaDataType::META { meta_array }
            },
            6u8 => HXAMetaDataType::COUNT,
            _ => HXAMetaDataType::Unknown,
        }
    }
}

/// The values of a layer, by the type that its tag names.
#[allow(non_camel_case_types)]
#[derive(Debug)]
pub enum HXALayerDataType {
    UINT8(Vec<u8>),
    INT32(Vec<i32>),
    /// Single-precision numbers, as their IEEE-754 bit patterns.
    FLOAT(Vec<u32>),
    /// Double-precision numbers, as their IEEE-754 bit patterns.
    DOUBLE(Vec<u64>),
    /// A type tag that the format does not define.
    Unknown,
}

impl View for HXALayerDataType {
    type V = LayerValues;

    open spec fn view(&self) -> LayerValues {
        match *self {
            HXALayerDataType::UINT8(v) => LayerValues::UInt8Array(v@),
            HXALayerDataType::INT32(v) => LayerValues::Int32Array(v@),
            HXALayerDataType::FLOAT(v) => LayerValues::Float32Array(v@),
            HXALayerDataType::DOUBLE(v) => LayerValues::Float64Array(v@),
            HXALayerDataType::Unknown => LayerValues::Unknown,
        }
    }
}

/// What `from` gives is stated by its own `ensures`, over the view of the
/// result: no specification function can build the vectors that the
/// variants hold.
impl FromSpecImpl<u8> for HXALayerDataType {
    open spec fn obeys_from_spec() -> bool {
        false
    }

    open spec fn from_spec(v: u8) -> Self {
        HXALayerDataType::Unknown
    }
}

impl From<u8> for HXALayerDataType {
    /// The variant that a layer type tag names, with no values in it.
    fn from(value: u8) -> (ret: Self)
        ensures
            ret@ == layer_tag_values(value),
    {
        match value {
            0u8 => HXALayerDataType::UINT8(Vec::new()),
            1u8 => HXALayerDataType::INT32(Vec::new()),
            2u8 => HXALayerDataType::FLOAT(Vec::new()),
            3u8 => HXALayerDataType::DOUBLE(Vec::new()),
            _ => HXALayerDataType::Unknown,
        }
    }
}

/// What a node is, with its payload.
#[derive(Debug)]
pub enum HXANodeType {
    /// A node that holds metadata only.
    MetaOnly,
    /// A node that holds a geometry mesh, and metadata.
    Geometry(HXAGeometryNode),
    /// A node that holds a 1D, 2D, 3D or cube image, and metadata.
    Image,
    /// A type tag that the format does not define.
    Unknown,
}

impl View for HXANodeType {
    type V = NodeKind;

    open spec fn view(&self) -> NodeKind {
        match *self {
            HXANodeType::MetaOnly => NodeKind::MetaOnly,
            HXANodeType::Geometry(g) => NodeKind::Geometry(g@),
            HXANodeType::Image => NodeKind::Image,
            HXANodeType::Unknown => NodeKind::Unknown,
        }
    }
}

/// What `from` gives is stated by its own `ensures`, over the view of the
/// result: no specification function can build the vectors that the
/// variants hold.
impl FromSpecImpl<u8> for HXANodeType {
    open spec fn obeys_from_spec() -> bool {
        false
    }

    open spec fn from_spec(v: u8) -> Self {
        HXANodeType::Unknown
    }
}

impl From<u8> for HXANodeType {
    /// The kind that a node type tag names, a geometry node without items or
    /// layers.
    fn from(value: u8) -> (ret: Self)
        ensures
            ret@ == node_tag_kind(value),
    {
        match value {
            0u8 => HXANodeType::MetaOnly,
            1u8 => HXANodeType::Geometry(HXAGeometryNode::new()),
            2u8 => HXANodeType::Image,
            _ => HXANodeType::Unknown,
        }
    }
}

} // verus!
