use vstd::prelude::*;
use crate::cursor::{
    Outcome, bytes_at, done, failed, i32_array_at, i64_array_at, u32_array_at, u32_at,
    u64_array_at, u8_at, utf8_at,
};
use crate::error::HXAError;
use crate::model::{
    Document, GeometryNode, Layer, LayerStack, LayerValues, MetaEntry, MetaValue, Node, NodeKind,
};

verus! {

/// The identifier that every stream begins with: the bytes `H`, `x`, `A` and
/// zero, read as a little-endian unsigned 32-bit integer.
pub const MAGIC_NUMBER: u32 = 0x0041_7848;

/// How many levels of nested metadata the decoder follows. The format itself
/// sets no limit, so a stream could otherwise nest as deep as it is long.
pub const MAX_META_DEPTH: u32 = 64;

/// The outcome of reading a list, given what was read of it so far and the
/// outcome of reading the rest.
pub open spec fn prepend<T>(head: Seq<T>, rest: Outcome<Seq<T>>) -> Outcome<Seq<T>> {
    match rest.result {
        Ok(tail) => done(head + tail, rest.end),
        Err(e) => failed(e, rest.end),
    }
}

/// Reading an item and then the rest of the list gives the same as taking the
/// item to what was read so far and then reading the rest.
pub proof fn lemma_prepend_push<T>(head: Seq<T>, item: T, rest: Outcome<Seq<T>>)
    ensures
        prepend(head, prepend(seq![item], rest)) == prepend(head.push(item), rest),
{
    if let Ok(tail) = rest.result {
        assert(head + (seq![item] + tail) =~= head.push(item) + tail);
    }
}

/// Nothing is left to read after the last item.
pub proof fn lemma_prepend_nothing<T>(head: Seq<T>, end: int)
    ensures
        prepend(head, done(Seq::empty(), end)) == done(head, end),
{
    assert(head + Seq::<T>::empty() =~= head);
}

/// A name: one byte that gives its length, then that many bytes of UTF-8.
pub open spec fn name_at(s: Seq<u8>, p: int) -> Outcome<Seq<char>> {
    let length = u8_at(s, p);
    match length.result {
        Ok(n) => utf8_at(s, length.end, n as int),
        Err(e) => failed(e, length.end),
    }
}

/// The value that a metadata type tag stands for before its payload is read:
/// the variant that the tag names, with nothing in it.
pub open spec fn meta_tag_value(tag: u8) -> MetaValue {
    if tag == 0 {
        MetaValue::Int64Array(Seq::empty())
    } else if tag == 1 {
        MetaValue::Float64Array(Seq::empty())
    } else if tag == 2 {
        MetaValue::NodeMarker
    } else if tag == 3 {
        MetaValue::Text("NO TEXT"@)
    } else if tag == 4 {
        MetaValue::Binary
    } else if tag == 5 {
        MetaValue::Meta(Seq::empty())
    } else if tag == 6 {
        MetaValue::Count
    } else {
        MetaValue::Unknown
    }
}

/// The payload of a metadata entry with type tag `tag` and declared length
/// `length`, where `depth` more levels of nesting may follow.
///
/// Integers, numbers and nested entries come `length` at a time, a text takes
/// `length` bytes, and the other tags are markers with no payload. Nested
/// entries at depth 0 are refused before any of them is read.
pub open spec fn meta_payload_at(s: Seq<u8>, p: int, tag: u8, length: u32, depth: nat) -> Outcome<
    MetaValue,
>
    decreases depth, 0nat,
{
    match meta_tag_value(tag) {
        MetaValue::Int64Array(_) => {
            let array = i64_array_at(s, p, length as int);
            match array.result {
                Ok(values) => done(MetaValue::Int64Array(values), array.end),
                Err(e) => failed(e, array.end),
            }
        },
        MetaValue::Float64Array(_) => {
            let array = u64_array_at(s, p, length as int);
            match array.result {
                Ok(values) => done(MetaValue::Float64Array(values), array.end),
                Err(e) => failed(e, array.end),
            }
        },
        MetaValue::Text(_) => {
            let text = utf8_at(s, p, length as int);
            match text.result {
                Ok(chars) => done(MetaValue::Text(chars), text.end),
                Err(e) => failed(e, text.end),
            }
        },
        MetaValue::Meta(_) => {
            if depth == 0 {
                failed(HXAError::RecursionLimitExceeded, p)
            } else {
                let children = meta_list_at(s, p, length as nat, (depth - 1) as nat);
                match children.result {
                    Ok(entries) => done(MetaValue::Meta(entries), children.end),
                    Err(e) => failed(e, children.end),
                }
            }
        },
        marker => done(marker, p),
    }
}

/// A metadata entry: its name, one byte of type tag, its declared length as an
/// unsigned 32-bit integer, and its payload.
pub open spec fn meta_at(s: Seq<u8>, p: int, depth: nat) -> Outcome<MetaEntry>
    decreases depth, 1nat,
{
    let name = name_at(s, p);
    match name.result {
        Err(e) => failed(e, name.end),
        Ok(text) => {
            let tag = u8_at(s, name.end);
            match tag.result {
                Err(e) => failed(e, tag.end),
                Ok(t) => {
                    let length = u32_at(s, tag.end);
                    match length.result {
                        Err(e) => failed(e, length.end),
                        Ok(n) => {
                            let payload = meta_payload_at(s, length.end, t, n, depth);
                            match payload.result {
                                Err(e) => failed(e, payload.end),
                                Ok(value) => done(
                                    MetaEntry { name: text, value, declared_length: n },
                                    payload.end,
                                ),
                            }
                        },
                    }
                },
            }
        },
    }
}

/// `count` metadata entries, one behind the other. The first entry that fails
/// fails the list.
pub open spec fn meta_list_at(s: Seq<u8>, p: int, count: nat, depth: nat) -> Outcome<
    Seq<MetaEntry>,
>
    decreases depth, count + 2,
{
    if count == 0 {
        done(Seq::empty(), p)
    } else {
        let first = meta_at(s, p, depth);
        match first.result {
            Err(e) => failed(e, first.end),
            Ok(entry) => prepend(
                seq![entry],
                meta_list_at(s, first.end, (count - 1) as nat, depth),
            ),
        }
    }
}

/// The values that a layer type tag stands for before its payload is read:
/// the variant that the tag names, with nothing in it.
pub open spec fn layer_tag_values(tag: u8) -> LayerValues {
    if tag == 0 {
        LayerValues::UInt8Array(Seq::empty())
    } else if tag == 1 {
        LayerValues::Int32Array(Seq::empty())
    } else if tag == 2 {
        LayerValues::Float32Array(Seq::empty())
    } else if tag == 3 {
        LayerValues::Float64Array(Seq::empty())
    } else {
        LayerValues::Unknown
    }
}

/// The number of values in a layer of a section with `item_count` items:
/// `components` values for each item, whatever the type of the values.
pub open spec fn element_count(item_count: u32, components: u8) -> int {
    item_count * components
}

/// The `count` values of a layer with type tag `tag`. A layer of an undefined
/// type has no values and takes no bytes.
pub open spec fn layer_values_at(s: Seq<u8>, p: int, tag: u8, count: int) -> Outcome<LayerValues> {
    match layer_tag_values(tag) {
        LayerValues::UInt8Array(_) => {
            let array = bytes_at(s, p, count);
            match array.result {
                Ok(values) => done(LayerValues::UInt8Array(values), array.end),
                Err(e) => failed(e, array.end),
            }
        },
        LayerValues::Int32Array(_) => {
            let array = i32_array_at(s, p, count);
            match array.result {
                Ok(values) => done(LayerValues::Int32Array(values), array.end),
                Err(e) => failed(e, array.end),
            }
        },
        LayerValues::Float32Array(_) => {
            let array = u32_array_at(s, p, count);
            match array.result {
                Ok(values) => done(LayerValues::Float32Array(values), array.end),
                Err(e) => failed(e, array.end),
            }
        },
        LayerValues::Float64Array(_) => {
            let array = u64_array_at(s, p, count);
            match array.result {
                Ok(values) => done(LayerValues::Float64Array(values), array.end),
                Err(e) => failed(e, array.end),
            }
        },
        LayerValues::Unknown => done(LayerValues::Unknown, p),
    }
}

/// A layer of a section with `item_count` items: its name, one byte for the
/// number of components, one byte of type tag, and its values.
pub open spec fn layer_at(s: Seq<u8>, p: int, item_count: u32) -> Outcome<Layer> {
    let name = name_at(s, p);
    match name.result {
        Err(e) => failed(e, name.end),
        Ok(text) => {
            let components = u8_at(s, name.end);
            match components.result {
                Err(e) => failed(e, components.end),
                Ok(c) => {
                    let tag = u8_at(s, components.end);
                    match tag.result {
                        Err(e) => failed(e, tag.end),
                        Ok(t) => {
                            let values = layer_values_at(
                                s,
                                tag.end,
                                t,
                                element_count(item_count, c),
                            );
                            match values.result {
                                Err(e) => failed(e, values.end),
                                Ok(v) => done(
                                    Layer { name: text, components: c, values: v },
                                    values.end,
                                ),
                            }
                        },
                    }
                },
            }
        },
    }
}

/// `count` layers of a section with `item_count` items, one behind the other.
/// The first layer that fails fails the list.
pub open spec fn layer_list_at(s: Seq<u8>, p: int, count: nat, item_count: u32) -> Outcome<
    Seq<Layer>,
>
    decreases count,
{
    if count == 0 {
        done(Seq::empty(), p)
    } else {
        let first = layer_at(s, p, item_count);
        match first.result {
            Err(e) => failed(e, first.end),
            Ok(layer) => prepend(
                seq![layer],
                layer_list_at(s, first.end, (count - 1) as nat, item_count),
            ),
        }
    }
}

/// The layers of a section with `item_count` items: their number as an
/// unsigned 32-bit integer, then the layers.
pub open spec fn layer_stack_at(s: Seq<u8>, p: int, item_count: u32) -> Outcome<LayerStack> {
    let count = u32_at(s, p);
    match count.result {
        Err(e) => failed(e, count.end),
        Ok(n) => {
            let layers = layer_list_at(s, count.end, n as nat, item_count);
            match layers.result {
                Err(e) => failed(e, layers.end),
                Ok(l) => done(LayerStack { layer_count: n, layers: l }, layers.end),
            }
        },
    }
}

/// One section of a geometry node: the number of its items as an unsigned
/// 32-bit integer, then a stack of layers over those items.
pub open spec fn section_at(s: Seq<u8>, p: int) -> Outcome<(u32, LayerStack)> {
    let count = u32_at(s, p);
    match count.result {
        Err(e) => failed(e, count.end),
        Ok(n) => {
            let stack = layer_stack_at(s, count.end, n);
            match stack.result {
                Err(e) => failed(e, stack.end),
                Ok(layers) => done((n, layers), stack.end),
            }
        },
    }
}

/// A geometry node without items or layers.
pub open spec fn empty_geometry() -> GeometryNode {
    let none = LayerStack { layer_count: 0, layers: Seq::empty() };
    GeometryNode {
        vertex_count: 0,
        vertex_stack: none,
        edge_corner_count: 0,
        corner_stack: none,
        edge_stack: none,
        face_count: 0,
        face_stack: none,
    }
}

/// The payload of a geometry node: the vertex section; the corner section,
/// whose number of items also counts for the stack of edge layers that
/// follows it; and the face section.
pub open spec fn geometry_at(s: Seq<u8>, p: int) -> Outcome<GeometryNode> {
    let vertices = section_at(s, p);
    match vertices.result {
        Err(e) => failed(e, vertices.end),
        Ok(vertex) => {
            let corners = section_at(s, vertices.end);
            match corners.result {
                Err(e) => failed(e, corners.end),
                Ok(corner) => {
                    let edges = layer_stack_at(s, corners.end, corner.0);
                    match edges.result {
                        Err(e) => failed(e, edges.end),
                        Ok(edge_stack) => {
                            let faces = section_at(s, edges.end);
                            match faces.result {
                                Err(e) => failed(e, faces.end),
                                Ok(face) => done(
                                    GeometryNode {
                                        vertex_count: vertex.0,
                                        vertex_stack: vertex.1,
                                        edge_corner_count: corner.0,
                                        corner_stack: corner.1,
                                        edge_stack,
                                        face_count: face.0,
                                        face_stack: face.1,
                                    },
                                    faces.end,
                                ),
                            }
                        },
                    }
                },
            }
        },
    }
}

/// The kind that a node type tag stands for before its payload is read.
pub open spec fn node_tag_kind(tag: u8) -> NodeKind {
    if tag == 0 {
        NodeKind::MetaOnly
    } else if tag == 1 {
        NodeKind::Geometry(empty_geometry())
    } else if tag == 2 {
        NodeKind::Image
    } else {
        NodeKind::Unknown
    }
}

/// What follows the metadata of a node with type tag `tag`: the payload of a
/// geometry node, and nothing for a meta-only or an image node. A node of an
/// undefined type is refused, since nothing says how long its payload is.
pub open spec fn node_payload_at(s: Seq<u8>, p: int, tag: u8) -> Outcome<NodeKind> {
    match node_tag_kind(tag) {
        NodeKind::Geometry(_) => {
            let geometry = geometry_at(s, p);
            match geometry.result {
                Ok(g) => done(NodeKind::Geometry(g), geometry.end),
                Err(e) => failed(e, geometry.end),
            }
        },
        NodeKind::Unknown => failed(HXAError::UnknownNodeType, p),
        kind => done(kind, p),
    }
}

/// A node: one byte of type tag, the number of its metadata entries as an
/// unsigned 32-bit integer, the entries, and the payload of its type.
pub open spec fn node_at(s: Seq<u8>, p: int) -> Outcome<Node> {
    let tag = u8_at(s, p);
    match tag.result {
        Err(e) => failed(e, tag.end),
        Ok(t) => {
            let count = u32_at(s, tag.end);
            match count.result {
                Err(e) => failed(e, count.end),
                Ok(n) => {
                    let metadata = meta_list_at(s, count.end, n as nat, MAX_META_DEPTH as nat);
                    match metadata.result {
                        Err(e) => failed(e, metadata.end),
                        Ok(entries) => {
                            let payload = node_payload_at(s, metadata.end, t);
                            match payload.result {
                                Err(e) => failed(e, payload.end),
                                Ok(kind) => done(
                                    Node { kind, metadata_count: n, metadata: entries },
                                    payload.end,
                                ),
                            }
                        },
                    }
                },
            }
        },
    }
}

/// `count` nodes, one behind the other. The first node that fails fails the
/// list.
pub open spec fn node_list_at(s: Seq<u8>, p: int, count: nat) -> Outcome<Seq<Node>>
    decreases count,
{
    if count == 0 {
        done(Seq::empty(), p)
    } else {
        let first = node_at(s, p);
        match first.result {
            Err(e) => failed(e, first.end),
            Ok(node) => prepend(seq![node], node_list_at(s, first.end, (count - 1) as nat)),
        }
    }
}

/// A whole file: the identifier, one byte of version, the number of nodes as
/// an unsigned 32-bit integer, and the nodes. The identifier is checked as
/// soon as it is read; the version is taken as it stands.
pub open spec fn file_at(s: Seq<u8>, p: int) -> Outcome<Document> {
    let magic = u32_at(s, p);
    match magic.result {
        Err(e) => failed(e, magic.end),
        Ok(m) => if m != MAGIC_NUMBER {
            failed(HXAError::BadMagic, magic.end)
        } else {
            let version = u8_at(s, magic.end);
            match version.result {
                Err(e) => failed(e, version.end),
                Ok(v) => {
                    let count = u32_at(s, version.end);
                    match count.result {
                        Err(e) => failed(e, count.end),
                        Ok(n) => {
                            let nodes = node_list_at(s, count.end, n as nat);
                            match nodes.result {
                                Err(e) => failed(e, nodes.end),
                                Ok(l) => done(
                                    Document { version: v, node_count: n, nodes: l },
                                    nodes.end,
                                ),
                            }
                        },
                    }
                },
            }
        },
    }
}

/// The document that a stream holds, or the reason for which it holds none.
/// Bytes behind the last node are not looked at.
pub open spec fn document_of(s: Seq<u8>) -> Result<Document, HXAError> {
    file_at(s, 0).result
}

} // verus!
