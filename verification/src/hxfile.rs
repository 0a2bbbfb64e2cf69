use vstd::prelude::*;
use crate::cursor::{ByteCursor, Outcome, done, failed, u32_at, u8_at};
use crate::enums::HXANodeType;
use crate::error::HXAError;
use crate::laws::{lemma_document_well_formed, lemma_file_well_formed};
use crate::meta::HXAMeta;
use crate::model::{Document, Node};
use crate::node::{HXAGeometryNode, HXANode};
use crate::wire::{
    MAGIC_NUMBER, document_of, file_at, lemma_prepend_nothing, lemma_prepend_push, node_at,
    node_list_at, prepend,
};

verus! {

/// A decoded file: its version and its nodes, in stream order.
#[derive(Debug)]
pub struct HXAFile {
    /// The version that the stream declares. It is kept as it stands.
    pub version: u8,
    /// The number of nodes that the stream declares.
    pub node_count: u32,
    pub node_array: Vec<HXANode>,
}

/// What a list of nodes holds, node by node.
pub open spec fn node_list_model(l: Seq<HXANode>) -> Seq<Node> {
    Seq::new(l.len(), |i: int| l[i]@)
}

impl View for HXAFile {
    type V = Document;

    open spec fn view(&self) -> Document {
        Document {
            version: self.version,
            node_count: self.node_count,
            nodes: node_list_model(self.node_array@),
        }
    }
}

/// The outcome that a decode of a file reports with `r`, having left the
/// cursor at `end`.
pub open spec fn file_outcome(r: Result<HXAFile, HXAError>, end: int) -> Outcome<Document> {
    match r {
        Ok(f) => done(f@, end),
        Err(e) => failed(e, end),
    }
}

/// The document that a decode reports with `r`, or its reason for reporting
/// none.
pub open spec fn document_result(r: Result<HXAFile, HXAError>) -> Result<Document, HXAError> {
    match r {
        Ok(f) => Ok(f@),
        Err(e) => Err(e),
    }
}

/// The index of the first geometry node, or the number of nodes if none is a
/// geometry node.
pub open spec fn first_geometry(nodes: Seq<HXANode>) -> int
    decreases nodes.len(),
{
    if nodes.len() == 0 {
        0
    } else if nodes[0].node_type is Geometry {
        0
    } else {
        1 + first_geometry(nodes.subrange(1, nodes.len() as int))
    }
}

/// `first_geometry` is the least index of a geometry node; it is the number
/// of nodes exactly when no node is a geometry node.
pub proof fn lemma_first_geometry(nodes: Seq<HXANode>)
    ensures
        0 <= first_geometry(nodes) <= nodes.len(),
        first_geometry(nodes) < nodes.len() ==> nodes[first_geometry(nodes)].node_type
            is Geometry,
        forall|j: int| 0 <= j < first_geometry(nodes) ==> nodes[j].node_type !is Geometry,
    decreases nodes.len(),
{
    if nodes.len() != 0 && nodes[0].node_type !is Geometry {
        let rest = nodes.subrange(1, nodes.len() as int);
        lemma_first_geometry(rest);
        assert forall|j: int| 0 <= j < first_geometry(nodes) implies nodes[j].node_type
            !is Geometry by {
            if j > 0 {
                assert(rest[j - 1] == nodes[j]);
            }
        }
    }
}

/// Decoding is a function of the bytes alone: two decodes of the same bytes
/// report the same error, or documents that are equal in every part.
pub proof fn lemma_decode_deterministic(
    bytes: Seq<u8>,
    first: Result<HXAFile, HXAError>,
    second: Result<HXAFile, HXAError>,
)
    requires
        document_result(first) == document_of(bytes),
        document_result(second) == document_of(bytes),
    ensures
        document_result(first) == document_result(second),
        first is Ok <==> second is Ok,
        first is Ok ==> first->Ok_0@ == second->Ok_0@,
        first is Err ==> first->Err_0 == second->Err_0,
{
}

impl HXAFile {
    /// A file without nodes.
    pub fn new() -> (file: HXAFile)
        ensures
            file@ == (Document { version: 0, node_count: 0, nodes: Seq::empty() }),
    {
        let node_array: Vec<HXANode> = Vec::new();
        assert(node_list_model(node_array@) =~= Seq::empty());
        HXAFile { version: 0, node_count: 0, node_array }
    }

    /// Decodes the file at the cursor.
    pub fn decode(input: &mut ByteCursor) -> (r: Result<HXAFile, HXAError>)
        ensures
            final(input).bytes() == old(input).bytes(),
            file_at(old(input).bytes(), old(input).position()) == file_outcome(
                r,
                final(input).position(),
            ),
    {
        let magic_number: u32 = input.read_u32()?;
        if magic_number != MAGIC_NUMBER {
            return Err(HXAError::BadMagic);
        }
        let ghost after_magic = input.position();
        let version: u8 = input.read_u8()?;
        let node_count: u32 = input.read_u32()?;
        let ghost s = input.bytes();
        let ghost start = input.position();
        let mut node_array: Vec<HXANode> = Vec::new();
        let mut i: u32 = 0;
        assert(node_list_model(node_array@) =~= Seq::empty());
        assert(Seq::<Node>::empty() + Seq::<Node>::empty() =~= Seq::<Node>::empty());
        while i < node_count
            invariant
                i <= node_count,
                s == old(input).bytes(),
                input.bytes() == s,
                u32_at(s, old(input).position()) == done(MAGIC_NUMBER, after_magic),
                u8_at(s, after_magic) == done(version, after_magic + 1),
                u32_at(s, after_magic + 1) == done(node_count, start),
                node_list_at(s, start, node_count as nat) == prepend(
                    node_list_model(node_array@),
                    node_list_at(s, input.position(), (node_count - i) as nat),
                ),
            decreases node_count - i,
        {
            let ghost rest = node_list_at(
                s,
                node_at(s, input.position()).end,
                (node_count - i - 1) as nat,
            );
            let ghost before = node_array@;
            let node: HXANode = HXANode::decode(input)?;
            proof {
                lemma_prepend_push(node_list_model(before), node@, rest);
                assert(node_list_model(before.push(node)) =~= node_list_model(before).push(node@));
            }
            node_array.push(node);
            i = i + 1;
        }
        proof {
            lemma_prepend_nothing(node_list_model(node_array@), input.position());
        }
        Ok(HXAFile { version, node_count, node_array })
    }

    /// Decodes the file at the cursor into `self`. On failure `self` is left as
    /// it was.
    pub fn read_header(&mut self, input: &mut ByteCursor) -> (r: Result<(), HXAError>)
        ensures
            final(input).bytes() == old(input).bytes(),
            match r {
                Ok(_) => file_at(old(input).bytes(), old(input).position()) == done(
                    final(self)@,
                    final(input).position(),
                ) && final(self)@.well_formed(),
                Err(e) => file_at(old(input).bytes(), old(input).position()) == failed::<
                    Document,
                >(e, final(input).position()) && *final(self) == *old(self),
            },
    {
        match HXAFile::decode(input) {
            Ok(file) => {
                proof {
                    lemma_file_well_formed(old(input).bytes(), old(input).position());
                }
                *self = file;
                Ok(())
            },
            Err(e) => Err(e),
        }
    }

    /// Decodes the file that `source` holds, all of it or nothing. A decoded
    /// file holds as many items as the stream declares in every part.
    pub fn open(source: Vec<u8>) -> (r: Result<HXAFile, HXAError>)
        ensures
            document_result(r) == document_of(source@),
            r matches Ok(file) ==> file@.well_formed(),
    {
        let mut input: ByteCursor = ByteCursor::new(source);
        let r = HXAFile::decode(&mut input);
        proof {
            if r is Ok {
                lemma_document_well_formed(source@);
            }
        }
        r
    }

    /// The first geometry node of the file, in stream order, with the
    /// metadata of its node.
    pub fn get_first_geometry(&self) -> (r: Option<(&HXAGeometryNode, &Vec<HXAMeta>)>)
        ensures
            first_geometry(self.node_array@) < self.node_array@.len() ==> r == Some(
                (
                    &self.node_array@[first_geometry(self.node_array@)].node_type->Geometry_0,
                    &self.node_array@[first_geometry(self.node_array@)].meta_data,
                ),
            ),
            first_geometry(self.node_array@) >= self.node_array@.len() ==> r is None,
    {
        let mut i: usize = 0;
        proof {
            lemma_first_geometry(self.node_array@);
        }
        while i < self.node_array.len()
            invariant
                i <= self.node_array@.len(),
                i <= first_geometry(self.node_array@) <= self.node_array@.len(),
                first_geometry(self.node_array@) < self.node_array@.len()
                    ==> self.node_array@[first_geometry(self.node_array@)].node_type
                    is Geometry,
                forall|j: int|
                    0 <= j < first_geometry(self.node_array@)
                        ==> self.node_array@[j].node_type !is Geometry,
            decreases self.node_array@.len() - i,
        {
            let node: &HXANode = &self.node_array[i];
            match &node.node_type {
                HXANodeType::Geometry(gnode) => {
                    return Some((gnode, &node.meta_data));
                },
                _ => {},
            }
            i = i + 1;
        }
        None
    }
}

} // verus!
