use vstd::prelude::*;
use crate::cursor::{ByteCursor, Outcome, done, failed};
use crate::enums::HXANodeType;
use crate::error::HXAError;
use crate::laws::{lemma_geometry_well_formed, lemma_node_well_formed};
use crate::layer::HXALayerStack;
use crate::meta::{HXAMeta, meta_list_model};
use crate::model::{GeometryNode, Node, NodeKind};
use crate::wire::{MAX_META_DEPTH, empty_geometry, geometry_at, node_at};

verus! {

/// A node of a file: its kind, with the payload of that kind, and its
/// metadata.
#[derive(Debug)]
pub struct HXANode {
    pub node_type: HXANodeType,
    /// The number of metadata entries that the stream declares.
    pub metadata_count: u32,
    pub meta_data: Vec<HXAMeta>,
}

impl View for HXANode {
    type V = Node;

    open spec fn view(&self) -> Node {
        Node {
            kind: self.node_type@,
            metadata_count: self.metadata_count,
            metadata: meta_list_model(self.meta_data@),
        }
    }
}

/// The outcome that a decode of one node reports with `r`, having left the
/// cursor at `end`.
pub open spec fn node_outcome(r: Result<HXANode, HXAError>, end: int) -> Outcome<Node> {
    match r {
        Ok(n) => done(n@, end),
        Err(e) => failed(e, end),
    }
}

impl HXANode {
    /// A node that stands for nothing yet.
    pub fn new() -> (node: HXANode)
        ensures
            node@ == (Node { kind: NodeKind::Unknown, metadata_count: 0, metadata: Seq::empty() }),
    {
        let meta_data: Vec<HXAMeta> = Vec::new();
        assert(meta_list_model(meta_data@) =~= Seq::empty());
        HXANode { node_type: HXANodeType::Unknown, metadata_count: 0, meta_data }
    }

    /// Decodes the node at the cursor.
    pub fn decode(input: &mut ByteCursor) -> (r: Result<HXANode, HXAError>)
        ensures
            final(input).bytes() == old(input).bytes(),
            node_at(old(input).bytes(), old(input).position()) == node_outcome(
                r,
                final(input).position(),
            ),
    {
        let tag: u8 = input.read_u8()?;
        let metadata_count: u32 = input.read_u32()?;
        let meta_data: Vec<HXAMeta> = HXAMeta::decode_list(input, metadata_count, MAX_META_DEPTH)?;
        let node_type: HXANodeType = match HXANodeType::from(tag) {
            HXANodeType::Geometry(_) => HXANodeType::Geometry(HXAGeometryNode::decode(input)?),
            HXANodeType::Unknown => {
                return Err(HXAError::UnknownNodeType);
            },
            kind => kind,
        };
        Ok(HXANode { node_type, metadata_count, meta_data })
    }

    /// Decodes the node at the cursor into `self`. On failure `self` is left as
    /// it was.
    pub fn parse(&mut self, input: &mut ByteCursor) -> (r: Result<(), HXAError>)
        ensures
            final(input).bytes() == old(input).bytes(),
            match r {
                Ok(_) => node_at(old(input).bytes(), old(input).position()) == done(
                    final(self)@,
                    final(input).position(),
                ) && final(self)@.well_formed(),
                Err(e) => node_at(old(input).bytes(), old(input).position()) == failed::<Node>(
                    e,
                    final(input).position(),
                ) && *final(self) == *old(self),
            },
    {
        match HXANode::decode(input) {
            Ok(node) => {
                proof {
                    lemma_node_well_formed(old(input).bytes(), old(input).position());
                }
                *self = node;
                Ok(())
            },
            Err(e) => Err(e),
        }
    }
}

/// The payload of a geometry node: the numbers of its vertices, of its edge
/// corners and of its faces, and the layers over each.
#[derive(Debug)]
pub struct HXAGeometryNode {
    /// The number of vertices.
    pub vertex_count: u32,
    /// The layers over the vertices. By convention the first holds the
    /// positions.
    pub vertex_stack: HXALayerStack,
    /// The number of corners.
    pub edge_corner_count: u32,
    /// The layers over the corners. By convention the first holds the
    /// references to vertices.
    pub corner_stack: HXALayerStack,
    /// The layers over the edges.
    pub edge_stack: HXALayerStack,
    /// The number of polygons.
    pub face_count: u32,
    /// The layers over the polygons.
    pub face_stack: HXALayerStack,
}

impl View for HXAGeometryNode {
    type V = GeometryNode;

    open spec fn view(&self) -> GeometryNode {
        GeometryNode {
            vertex_count: self.vertex_count,
            vertex_stack: self.vertex_stack@,
            edge_corner_count: self.edge_corner_count,
            corner_stack: self.corner_stack@,
            edge_stack: self.edge_stack@,
            face_count: self.face_count,
            face_stack: self.face_stack@,
        }
    }
}

/// The outcome that a decode of a geometry payload reports with `r`, having
/// left the cursor at `end`.
pub open spec fn geometry_outcome(r: Result<HXAGeometryNode, HXAError>, end: int) -> Outcome<
    GeometryNode,
> {
    match r {
        Ok(g) => done(g@, end),
        Err(e) => failed(e, end),
    }
}

impl HXAGeometryNode {
    /// A geometry node without items or layers.
    pub fn new() -> (node: HXAGeometryNode)
        ensures
            node@ == empty_geometry(),
    {
        HXAGeometryNode {
            vertex_count: 0,
            vertex_stack: HXALayerStack::new(),
            edge_corner_count: 0,
            corner_stack: HXALayerStack::new(),
            edge_stack: HXALayerStack::new(),
            face_count: 0,
            face_stack: HXALayerStack::new(),
        }
    }

    /// Decodes the geometry payload at the cursor.
    pub fn decode(input: &mut ByteCursor) -> (r: Result<HXAGeometryNode, HXAError>)
        ensures
            final(input).bytes() == old(input).bytes(),
            geometry_at(old(input).bytes(), old(input).position()) == geometry_outcome(
                r,
                final(input).position(),
            ),
    {
        let vertex_count: u32 = input.read_u32()?;
        let vertex_stack: HXALayerStack = HXALayerStack::decode(input, vertex_count)?;
        let edge_corner_count: u32 = input.read_u32()?;
        let corner_stack: HXALayerStack = HXALayerStack::decode(input, edge_corner_count)?;
        let edge_stack: HXALayerStack = HXALayerStack::decode(input, edge_corner_count)?;
        let face_count: u32 = input.read_u32()?;
        let face_stack: HXALayerStack = HXALayerStack::decode(input, face_count)?;
        Ok(
            HXAGeometryNode {
                vertex_count,
                vertex_stack,
                edge_corner_count,
                corner_stack,
                edge_stack,
                face_count,
                face_stack,
            },
        )
    }

    /// Decodes the geometry payload at the cursor into `self`. On failure
    /// `self` is left as it was.
    pub fn parse(&mut self, input: &mut ByteCursor) -> (r: Result<(), HXAError>)
        ensures
            final(input).bytes() == old(input).bytes(),
            match r {
                Ok(_) => geometry_at(old(input).bytes(), old(input).position()) == done(
                    final(self)@,
                    final(input).position(),
                ) && final(self)@.well_formed(),
                Err(e) => geometry_at(old(input).bytes(), old(input).position()) == failed::<
                    GeometryNode,
                >(e, final(input).position()) && *final(self) == *old(self),
            },
    {
        match HXAGeometryNode::decode(input) {
            Ok(node) => {
                proof {
                    lemma_geometry_well_formed(old(input).bytes(), old(input).position());
                }
                *self = node;
                Ok(())
            },
            Err(e) => Err(e),
        }
    }
}

} // verus!
