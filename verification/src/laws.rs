use vstd::prelude::*;
use crate::cursor::{
    Outcome, bytes_at, i32_array_at, i64_array_at, u32_array_at, u32_at, u64_array_at, u8_at,
    utf8_at,
};
use crate::error::HXAError;
use crate::model::Document;
use crate::wire::{
    MAX_META_DEPTH, document_of, file_at, geometry_at, layer_at, layer_list_at, layer_stack_at, layer_values_at,
    meta_at, meta_list_at, meta_payload_at, name_at, node_at, node_list_at, node_payload_at,
    section_at,
};

verus! {

/// How reading an item from a stream cut off at `k` relates to reading it from
/// the whole stream, where that gave `full`: if the item ends at or before
/// `k`, the cut stream gives the same item and leaves the cursor at the same
/// place; if not, the cut stream is too short and nothing else.
pub open spec fn cut_agrees<T>(full: Outcome<T>, cut: Outcome<T>, k: int) -> bool {
    if full.end <= k {
        cut == full
    } else {
        cut.result == Err::<T, HXAError>(HXAError::UnexpectedEof)
    }
}

/// A byte of the whole stream is the same byte of the cut stream, if it lies
/// before the cut.
pub proof fn lemma_cut_u8(s: Seq<u8>, k: int, p: int)
    requires
        0 <= p <= k <= s.len(),
        u8_at(s, p).result is Ok,
    ensures
        cut_agrees(u8_at(s, p), u8_at(s.subrange(0, k), p), k),
        p <= u8_at(s, p).end <= s.len(),
{
}

/// An unsigned 32-bit integer of the whole stream is read from the cut stream
/// as well, if it ends before the cut.
pub proof fn lemma_cut_u32(s: Seq<u8>, k: int, p: int)
    requires
        0 <= p <= k <= s.len(),
        u32_at(s, p).result is Ok,
    ensures
        cut_agrees(u32_at(s, p), u32_at(s.subrange(0, k), p), k),
        p <= u32_at(s, p).end <= s.len(),
{
}

/// A text of the whole stream is read from the cut stream as well, if it ends
/// before the cut. A text that the cut falls into is short, not invalid.
pub proof fn lemma_cut_utf8(s: Seq<u8>, k: int, p: int, n: int)
    requires
        0 <= p <= k <= s.len(),
        utf8_at(s, p, n).result is Ok,
    ensures
        cut_agrees(utf8_at(s, p, n), utf8_at(s.subrange(0, k), p, n), k),
        p <= utf8_at(s, p, n).end <= s.len(),
{
    if p + n <= k {
        assert(s.subrange(0, k).subrange(p, p + n) =~= s.subrange(p, p + n));
    }
}

/// Raw bytes of the whole stream are read from the cut stream as well, if
/// they end before the cut.
pub proof fn lemma_cut_bytes(s: Seq<u8>, k: int, p: int, n: int)
    requires
        0 <= p <= k <= s.len(),
        bytes_at(s, p, n).result is Ok,
    ensures
        cut_agrees(bytes_at(s, p, n), bytes_at(s.subrange(0, k), p, n), k),
        p <= bytes_at(s, p, n).end <= s.len(),
{
    if p + n <= k {
        assert(s.subrange(0, k).subrange(p, p + n) =~= s.subrange(p, p + n));
    }
}

/// An array of signed 32-bit integers is read from the cut stream as from
/// the whole, if it ends before the cut, and not in part if it does not.
pub proof fn lemma_cut_i32_array(s: Seq<u8>, k: int, p: int, n: int)
    requires
        0 <= p <= k <= s.len(),
        i32_array_at(s, p, n).result is Ok,
    ensures
        cut_agrees(i32_array_at(s, p, n), i32_array_at(s.subrange(0, k), p, n), k),
        p <= i32_array_at(s, p, n).end <= s.len(),
{
    if p + 4 * n <= k {
        assert(i32_array_at(s.subrange(0, k), p, n).result->Ok_0 =~= i32_array_at(
            s,
            p,
            n,
        ).result->Ok_0);
    }
}

/// An array of unsigned 32-bit integers is read from the cut stream as from
/// the whole, if it ends before the cut, and not in part if it does not.
pub proof fn lemma_cut_u32_array(s: Seq<u8>, k: int, p: int, n: int)
    requires
        0 <= p <= k <= s.len(),
        u32_array_at(s, p, n).result is Ok,
    ensures
        cut_agrees(u32_array_at(s, p, n), u32_array_at(s.subrange(0, k), p, n), k),
        p <= u32_array_at(s, p, n).end <= s.len(),
{
    if p + 4 * n <= k {
        assert(u32_array_at(s.subrange(0, k), p, n).result->Ok_0 =~= u32_array_at(
            s,
            p,
            n,
        ).result->Ok_0);
    }
}

/// An array of signed 64-bit integers is read from the cut stream as from
/// the whole, if it ends before the cut, and not in part if it does not.
pub proof fn lemma_cut_i64_array(s: Seq<u8>, k: int, p: int, n: int)
    requires
        0 <= p <= k <= s.len(),
        i64_array_at(s, p, n).result is Ok,
    ensures
        cut_agrees(i64_array_at(s, p, n), i64_array_at(s.subrange(0, k), p, n), k),
        p <= i64_array_at(s, p, n).end <= s.len(),
{
    if p + 8 * n <= k {
        assert(i64_array_at(s.subrange(0, k), p, n).result->Ok_0 =~= i64_array_at(
            s,
            p,
            n,
        ).result->Ok_0);
    }
}

/// An array of unsigned 64-bit integers is read from the cut stream as from
/// the whole, if it ends before the cut, and not in part if it does not.
pub proof fn lemma_cut_u64_array(s: Seq<u8>, k: int, p: int, n: int)
    requires
        0 <= p <= k <= s.len(),
        u64_array_at(s, p, n).result is Ok,
    ensures
        cut_agrees(u64_array_at(s, p, n), u64_array_at(s.subrange(0, k), p, n), k),
        p <= u64_array_at(s, p, n).end <= s.len(),
{
    if p + 8 * n <= k {
        assert(u64_array_at(s.subrange(0, k), p, n).result->Ok_0 =~= u64_array_at(
            s,
            p,
            n,
        ).result->Ok_0);
    }
}

/// A name is read from the cut stream as from the whole, if it ends before
/// the cut.
pub proof fn lemma_cut_name(s: Seq<u8>, k: int, p: int)
    requires
        0 <= p <= k <= s.len(),
        name_at(s, p).result is Ok,
    ensures
        cut_agrees(name_at(s, p), name_at(s.subrange(0, k), p), k),
        p <= name_at(s, p).end <= s.len(),
{
    lemma_cut_u8(s, k, p);
    let length = u8_at(s, p);
    if length.end <= k {
        lemma_cut_utf8(s, k, length.end, length.result->Ok_0 as int);
    }
}

/// The payload of a metadata entry is read from the cut stream as from the
/// whole, if it ends before the cut.
pub proof fn lemma_cut_meta_payload(s: Seq<u8>, k: int, p: int, tag: u8, length: u32, depth: nat)
    requires
        0 <= p <= k <= s.len(),
        meta_payload_at(s, p, tag, length, depth).result is Ok,
    ensures
        cut_agrees(
            meta_payload_at(s, p, tag, length, depth),
            meta_payload_at(s.subrange(0, k), p, tag, length, depth),
            k,
        ),
        p <= meta_payload_at(s, p, tag, length, depth).end <= s.len(),
    decreases depth, 0nat,
{
    if tag == 0 {
        lemma_cut_i64_array(s, k, p, length as int);
    } else if tag == 1 {
        lemma_cut_u64_array(s, k, p, length as int);
    } else if tag == 3 {
        lemma_cut_utf8(s, k, p, length as int);
    } else if tag == 5 {
        lemma_cut_meta_list(s, k, p, length as nat, (depth - 1) as nat);
    }
}

/// A metadata entry is read from the cut stream as from the whole, if it ends
/// before the cut; if the cut falls into it, the cut stream is too short.
pub proof fn lemma_cut_meta(s: Seq<u8>, k: int, p: int, depth: nat)
    requires
        0 <= p <= k <= s.len(),
        meta_at(s, p, depth).result is Ok,
    ensures
        cut_agrees(meta_at(s, p, depth), meta_at(s.subrange(0, k), p, depth), k),
        p <= meta_at(s, p, depth).end <= s.len(),
    decreases depth, 1nat,
{
    let len = s.len() as int;
    let name = name_at(s, p);
    lemma_cut_name(s, k, p);
    let tag = u8_at(s, name.end);
    lemma_cut_u8(s, if name.end <= k { k } else { len }, name.end);
    let length = u32_at(s, tag.end);
    lemma_cut_u32(s, if tag.end <= k { k } else { len }, tag.end);
    lemma_cut_meta_payload(
        s,
        if length.end <= k { k } else { len },
        length.end,
        tag.result->Ok_0,
        length.result->Ok_0,
        depth,
    );
}

/// A list of metadata entries is read from the cut stream as from the whole,
/// if it ends before the cut; if the cut falls into it, the cut stream is too
/// short.
pub proof fn lemma_cut_meta_list(s: Seq<u8>, k: int, p: int, count: nat, depth: nat)
    requires
        0 <= p <= k <= s.len(),
        meta_list_at(s, p, count, depth).result is Ok,
    ensures
        cut_agrees(
            meta_list_at(s, p, count, depth),
            meta_list_at(s.subrange(0, k), p, count, depth),
            k,
        ),
        p <= meta_list_at(s, p, count, depth).end <= s.len(),
    decreases depth, count + 2,
{
    if count > 0 {
        let first = meta_at(s, p, depth);
        lemma_cut_meta(s, k, p, depth);
        lemma_cut_meta_list(
            s,
            if first.end <= k {
                k
            } else {
                s.len() as int
            },
            first.end,
            (count - 1) as nat,
            depth,
        );
    }
}

/// The values of a layer are read from the cut stream as from the whole, if
/// they end before the cut.
pub proof fn lemma_cut_layer_values(s: Seq<u8>, k: int, p: int, tag: u8, count: int)
    requires
        0 <= p <= k <= s.len(),
        layer_values_at(s, p, tag, count).result is Ok,
    ensures
        cut_agrees(
            layer_values_at(s, p, tag, count),
            layer_values_at(s.subrange(0, k), p, tag, count),
            k,
        ),
        p <= layer_values_at(s, p, tag, count).end <= s.len(),
{
    if tag == 0 {
        lemma_cut_bytes(s, k, p, count);
    } else if tag == 1 {
        lemma_cut_i32_array(s, k, p, count);
    } else if tag == 2 {
        lemma_cut_u32_array(s, k, p, count);
    } else if tag == 3 {
        lemma_cut_u64_array(s, k, p, count);
    }
}

/// A layer is read from the cut stream as from the whole, if it ends before
/// the cut; if the cut falls into it, the cut stream is too short.
pub proof fn lemma_cut_layer(s: Seq<u8>, k: int, p: int, item_count: u32)
    requires
        0 <= p <= k <= s.len(),
        layer_at(s, p, item_count).result is Ok,
    ensures
        cut_agrees(layer_at(s, p, item_count), layer_at(s.subrange(0, k), p, item_count), k),
        p <= layer_at(s, p, item_count).end <= s.len(),
{
    let len = s.len() as int;
    let name = name_at(s, p);
    lemma_cut_name(s, k, p);
    let components = u8_at(s, name.end);
    lemma_cut_u8(s, if name.end <= k { k } else { len }, name.end);
    let tag = u8_at(s, components.end);
    lemma_cut_u8(s, if components.end <= k { k } else { len }, components.end);
    lemma_cut_layer_values(
        s,
        if tag.end <= k { k } else { len },
        tag.end,
        tag.result->Ok_0,
        item_count * components.result->Ok_0,
    );
}

/// A list of layers is read from the cut stream as from the whole, if it ends
/// before the cut; if the cut falls into it, the cut stream is too short.
pub proof fn lemma_cut_layer_list(s: Seq<u8>, k: int, p: int, count: nat, item_count: u32)
    requires
        0 <= p <= k <= s.len(),
        layer_list_at(s, p, count, item_count).result is Ok,
    ensures
        cut_agrees(
            layer_list_at(s, p, count, item_count),
            layer_list_at(s.subrange(0, k), p, count, item_count),
            k,
        ),
        p <= layer_list_at(s, p, count, item_count).end <= s.len(),
    decreases count,
{
    if count > 0 {
        let first = layer_at(s, p, item_count);
        lemma_cut_layer(s, k, p, item_count);
        lemma_cut_layer_list(
            s,
            if first.end <= k {
                k
            } else {
                s.len() as int
            },
            first.end,
            (count - 1) as nat,
            item_count,
        );
    }
}

/// A stack of layers is read from the cut stream as from the whole, if it
/// ends before the cut; if the cut falls into it, the cut stream is too short.
pub proof fn lemma_cut_layer_stack(s: Seq<u8>, k: int, p: int, item_count: u32)
    requires
        0 <= p <= k <= s.len(),
        layer_stack_at(s, p, item_count).result is Ok,
    ensures
        cut_agrees(
            layer_stack_at(s, p, item_count),
            layer_stack_at(s.subrange(0, k), p, item_count),
            k,
        ),
        p <= layer_stack_at(s, p, item_count).end <= s.len(),
{
    let count = u32_at(s, p);
    lemma_cut_u32(s, k, p);
    lemma_cut_layer_list(
        s,
        if count.end <= k {
            k
        } else {
            s.len() as int
        },
        count.end,
        count.result->Ok_0 as nat,
        item_count,
    );
}

/// A section of a geometry node is read from the cut stream as from the
/// whole, if it ends before the cut.
pub proof fn lemma_cut_section(s: Seq<u8>, k: int, p: int)
    requires
        0 <= p <= k <= s.len(),
        section_at(s, p).result is Ok,
    ensures
        cut_agrees(section_at(s, p), section_at(s.subrange(0, k), p), k),
        p <= section_at(s, p).end <= s.len(),
{
    let count = u32_at(s, p);
    lemma_cut_u32(s, k, p);
    lemma_cut_layer_stack(
        s,
        if count.end <= k {
            k
        } else {
            s.len() as int
        },
        count.end,
        count.result->Ok_0,
    );
}

/// The payload of a geometry node is read from the cut stream as from the
/// whole, if it ends before the cut; if the cut falls into it, the cut stream
/// is too short.
#[verifier::rlimit(50)]
pub proof fn lemma_cut_geometry(s: Seq<u8>, k: int, p: int)
    requires
        0 <= p <= k <= s.len(),
        geometry_at(s, p).result is Ok,
    ensures
        cut_agrees(geometry_at(s, p), geometry_at(s.subrange(0, k), p), k),
        p <= geometry_at(s, p).end <= s.len(),
{
    let len = s.len() as int;
    let vertices = section_at(s, p);
    lemma_cut_section(s, k, p);
    let corners = section_at(s, vertices.end);
    lemma_cut_section(s, if vertices.end <= k { k } else { len }, vertices.end);
    let edges = layer_stack_at(s, corners.end, corners.result->Ok_0.0);
    lemma_cut_layer_stack(
        s,
        if corners.end <= k { k } else { len },
        corners.end,
        corners.result->Ok_0.0,
    );
    lemma_cut_section(s, if edges.end <= k { k } else { len }, edges.end);
}

/// What follows the metadata of a node is read from the cut stream as from
/// the whole, if it ends before the cut.
pub proof fn lemma_cut_node_payload(s: Seq<u8>, k: int, p: int, tag: u8)
    requires
        0 <= p <= k <= s.len(),
        node_payload_at(s, p, tag).result is Ok,
    ensures
        cut_agrees(node_payload_at(s, p, tag), node_payload_at(s.subrange(0, k), p, tag), k),
        p <= node_payload_at(s, p, tag).end <= s.len(),
{
    if tag == 1 {
        lemma_cut_geometry(s, k, p);
    }
}

/// A node is read from the cut stream as from the whole, if it ends before the
/// cut; if the cut falls into it, the cut stream is too short.
#[verifier::rlimit(50)]
pub proof fn lemma_cut_node(s: Seq<u8>, k: int, p: int)
    requires
        0 <= p <= k <= s.len(),
        node_at(s, p).result is Ok,
    ensures
        cut_agrees(node_at(s, p), node_at(s.subrange(0, k), p), k),
        p <= node_at(s, p).end <= s.len(),
{
    let len = s.len() as int;
    let tag = u8_at(s, p);
    lemma_cut_u8(s, k, p);
    let count = u32_at(s, tag.end);
    lemma_cut_u32(s, if tag.end <= k { k } else { len }, tag.end);
    let metadata = meta_list_at(
        s,
        count.end,
        count.result->Ok_0 as nat,
        MAX_META_DEPTH as nat,
    );
    lemma_cut_meta_list(
        s,
        if count.end <= k { k } else { len },
        count.end,
        count.result->Ok_0 as nat,
        MAX_META_DEPTH as nat,
    );
    lemma_cut_node_payload(
        s,
        if metadata.end <= k { k } else { len },
        metadata.end,
        tag.result->Ok_0,
    );
}

/// A list of nodes is read from the cut stream as from the whole, if it ends
/// before the cut; if the cut falls into it, the cut stream is too short.
pub proof fn lemma_cut_node_list(s: Seq<u8>, k: int, p: int, count: nat)
    requires
        0 <= p <= k <= s.len(),
        node_list_at(s, p, count).result is Ok,
    ensures
        cut_agrees(node_list_at(s, p, count), node_list_at(s.subrange(0, k), p, count), k),
        p <= node_list_at(s, p, count).end <= s.len(),
    decreases count,
{
    if count > 0 {
        let first = node_at(s, p);
        lemma_cut_node(s, k, p);
        lemma_cut_node_list(
            s,
            if first.end <= k {
                k
            } else {
                s.len() as int
            },
            first.end,
            (count - 1) as nat,
        );
    }
}

/// A file is read from the cut stream as from the whole, if it ends before the
/// cut; if the cut falls into it, the cut stream is too short. A file that is
/// read ends inside the stream.
#[verifier::rlimit(50)]
pub proof fn lemma_cut_file(s: Seq<u8>, k: int, p: int)
    requires
        0 <= p <= k <= s.len(),
        file_at(s, p).result is Ok,
    ensures
        cut_agrees(file_at(s, p), file_at(s.subrange(0, k), p), k),
        p <= file_at(s, p).end <= s.len(),
{
    let len = s.len() as int;
    let magic = u32_at(s, p);
    let version = u8_at(s, magic.end);
    let count = u32_at(s, version.end);
    lemma_cut_u32(s, k, p);
    lemma_cut_u8(s, if magic.end <= k { k } else { len }, magic.end);
    lemma_cut_u32(s, if version.end <= k { k } else { len }, version.end);
    lemma_cut_node_list(
        s,
        if count.end <= k { k } else { len },
        count.end,
        count.result->Ok_0 as nat,
    );
}

/// A stream that holds a document holds it in its first bytes, and cut off
/// anywhere inside them it is too short: decoding it fails with
/// `UnexpectedEof`, never with another error and never with a document.
pub proof fn lemma_truncated_stream(s: Seq<u8>, k: int)
    requires
        document_of(s) is Ok,
        0 <= k < file_at(s, 0).end,
    ensures
        file_at(s, 0).end <= s.len(),
        document_of(s.subrange(0, k)) == Err::<Document, HXAError>(
            HXAError::UnexpectedEof,
        ),
{
    lemma_cut_file(s, s.len() as int, 0);
    lemma_cut_file(s, k, 0);
}

/// A decoded metadata entry holds as much as it declares, and so does every
/// entry nested in it, however deep.
pub proof fn lemma_meta_lengths_agree(s: Seq<u8>, p: int, depth: nat)
    requires
        meta_at(s, p, depth).result is Ok,
    ensures
        meta_at(s, p, depth).result->Ok_0.lengths_agree(),
    decreases depth, 1nat,
{
    let name = name_at(s, p);
    let tag = u8_at(s, name.end);
    let length = u32_at(s, tag.end);
    let t = tag.result->Ok_0;
    let n = length.result->Ok_0;
    if t == 3 {
        vstd::utf8::decode_utf8_encode_utf8(s.subrange(length.end, length.end + n));
    } else if t == 5 {
        lemma_meta_list_lengths_agree(s, length.end, n as nat, (depth - 1) as nat);
    }
}

/// A decoded list of metadata entries has as many entries as were asked for,
/// each of which holds as much as it declares.
pub proof fn lemma_meta_list_lengths_agree(s: Seq<u8>, p: int, count: nat, depth: nat)
    requires
        meta_list_at(s, p, count, depth).result is Ok,
    ensures
        meta_list_at(s, p, count, depth).result->Ok_0.len() == count,
        forall|i: int|
            0 <= i < count ==> (#[trigger] meta_list_at(
                s,
                p,
                count,
                depth,
            ).result->Ok_0[i]).lengths_agree(),
    decreases depth, count + 2,
{
    if count > 0 {
        let first = meta_at(s, p, depth);
        lemma_meta_lengths_agree(s, p, depth);
        lemma_meta_list_lengths_agree(s, first.end, (count - 1) as nat, depth);
    }
}

/// A decoded layer holds `components` values for each item of its section,
/// whatever the type of the values; a layer of an undefined type holds none.
pub proof fn lemma_layer_sized(s: Seq<u8>, p: int, item_count: u32)
    requires
        layer_at(s, p, item_count).result is Ok,
    ensures
        layer_at(s, p, item_count).result->Ok_0.sized_for(item_count),
{
}

/// A decoded list of layers has as many layers as were asked for, each sized
/// for the items of the section.
pub proof fn lemma_layer_list_sized(s: Seq<u8>, p: int, count: nat, item_count: u32)
    requires
        layer_list_at(s, p, count, item_count).result is Ok,
    ensures
        layer_list_at(s, p, count, item_count).result->Ok_0.len() == count,
        forall|i: int|
            0 <= i < count ==> (#[trigger] layer_list_at(
                s,
                p,
                count,
                item_count,
            ).result->Ok_0[i]).sized_for(item_count),
    decreases count,
{
    if count > 0 {
        let first = layer_at(s, p, item_count);
        lemma_layer_sized(s, p, item_count);
        lemma_layer_list_sized(s, first.end, (count - 1) as nat, item_count);
    }
}

/// A decoded stack holds as many layers as it declares, each sized for the
/// items of the section.
pub proof fn lemma_layer_stack_sized(s: Seq<u8>, p: int, item_count: u32)
    requires
        layer_stack_at(s, p, item_count).result is Ok,
    ensures
        layer_stack_at(s, p, item_count).result->Ok_0.sized_for(item_count),
{
    let count = u32_at(s, p);
    lemma_layer_list_sized(s, count.end, count.result->Ok_0 as nat, item_count);
}

/// Every stack of a decoded geometry node is sized for the items of its
/// section.
pub proof fn lemma_geometry_well_formed(s: Seq<u8>, p: int)
    requires
        geometry_at(s, p).result is Ok,
    ensures
        geometry_at(s, p).result->Ok_0.well_formed(),
{
    let vertices = section_at(s, p);
    let corners = section_at(s, vertices.end);
    let edges = layer_stack_at(s, corners.end, corners.result->Ok_0.0);
    lemma_layer_stack_sized(s, u32_at(s, p).end, vertices.result->Ok_0.0);
    lemma_layer_stack_sized(s, u32_at(s, vertices.end).end, corners.result->Ok_0.0);
    lemma_layer_stack_sized(s, corners.end, corners.result->Ok_0.0);
    lemma_layer_stack_sized(s, u32_at(s, edges.end).end, section_at(s, edges.end).result->Ok_0.0);
}

/// A decoded node is well formed.
pub proof fn lemma_node_well_formed(s: Seq<u8>, p: int)
    requires
        node_at(s, p).result is Ok,
    ensures
        node_at(s, p).result->Ok_0.well_formed(),
{
    let tag = u8_at(s, p);
    let count = u32_at(s, tag.end);
    let metadata = meta_list_at(s, count.end, count.result->Ok_0 as nat, MAX_META_DEPTH as nat);
    lemma_meta_list_lengths_agree(
        s,
        count.end,
        count.result->Ok_0 as nat,
        MAX_META_DEPTH as nat,
    );
    if tag.result->Ok_0 == 1 {
        lemma_geometry_well_formed(s, metadata.end);
    }
}

/// A decoded list of nodes has as many nodes as were asked for, each well
/// formed.
pub proof fn lemma_node_list_well_formed(s: Seq<u8>, p: int, count: nat)
    requires
        node_list_at(s, p, count).result is Ok,
    ensures
        node_list_at(s, p, count).result->Ok_0.len() == count,
        forall|i: int|
            0 <= i < count ==> (#[trigger] node_list_at(s, p, count).result->Ok_0[i]).well_formed(),
    decreases count,
{
    if count > 0 {
        let first = node_at(s, p);
        lemma_node_well_formed(s, p);
        lemma_node_list_well_formed(s, first.end, (count - 1) as nat);
    }
}

/// A decoded file is well formed.
pub proof fn lemma_file_well_formed(s: Seq<u8>, p: int)
    requires
        file_at(s, p).result is Ok,
    ensures
        file_at(s, p).result->Ok_0.well_formed(),
{
    let magic = u32_at(s, p);
    let version = u8_at(s, magic.end);
    let count = u32_at(s, version.end);
    lemma_node_list_well_formed(s, count.end, count.result->Ok_0 as nat);
}

/// Every document that a stream holds is well formed: each count that the
/// stream declares is the number of items that were decoded for it, down to
/// the values of every layer and the entries of every nested metadata entry.
pub proof fn lemma_document_well_formed(s: Seq<u8>)
    requires
        document_of(s) is Ok,
    ensures
        document_of(s)->Ok_0.well_formed(),
{
    lemma_file_well_formed(s, 0);
}

} // verus!
