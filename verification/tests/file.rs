use hxa::conventions::{hard, soft};
use hxa::enums::{HXAMetaDataType, HXANodeType};
use hxa::wire::{MAGIC_NUMBER, MAX_META_DEPTH};
use hxa::{ByteCursor, HXAError, HXAFile, HXAGeometryNode, HXANode};

fn meta_header(name: &str, tag: u8, length: u32) -> Vec<u8> {
    let mut out = vec![name.len() as u8];
    out.extend_from_slice(name.as_bytes());
    out.push(tag);
    out.extend_from_slice(&length.to_le_bytes());
    out
}

fn int_entry(name: &str, values: &[i64]) -> Vec<u8> {
    let mut out = meta_header(name, 0, values.len() as u32);
    for v in values {
        out.extend_from_slice(&v.to_le_bytes());
    }
    out
}

fn text_entry(name: &str, text: &str) -> Vec<u8> {
    let mut out = meta_header(name, 3, text.len() as u32);
    out.extend_from_slice(text.as_bytes());
    out
}

fn meta_entry(name: &str, children: &[Vec<u8>]) -> Vec<u8> {
    let mut out = meta_header(name, 5, children.len() as u32);
    for c in children {
        out.extend_from_slice(c);
    }
    out
}

fn float_layer(name: &str, components: u8, values: &[f32]) -> Vec<u8> {
    let mut out = vec![name.len() as u8];
    out.extend_from_slice(name.as_bytes());
    out.push(components);
    out.push(2);
    for v in values {
        out.extend_from_slice(&v.to_le_bytes());
    }
    out
}

fn int_layer(name: &str, components: u8, values: &[i32]) -> Vec<u8> {
    let mut out = vec![name.len() as u8];
    out.extend_from_slice(name.as_bytes());
    out.push(components);
    out.push(1);
    for v in values {
        out.extend_from_slice(&v.to_le_bytes());
    }
    out
}

fn section(items: u32, layers: &[Vec<u8>]) -> Vec<u8> {
    let mut out = items.to_le_bytes().to_vec();
    out.extend_from_slice(&stack(layers));
    out
}

fn stack(layers: &[Vec<u8>]) -> Vec<u8> {
    let mut out = (layers.len() as u32).to_le_bytes().to_vec();
    for l in layers {
        out.extend_from_slice(l);
    }
    out
}

fn node(tag: u8, metadata: &[Vec<u8>], payload: &[u8]) -> Vec<u8> {
    let mut out = vec![tag];
    out.extend_from_slice(&(metadata.len() as u32).to_le_bytes());
    for m in metadata {
        out.extend_from_slice(m);
    }
    out.extend_from_slice(payload);
    out
}

fn file(version: u8, nodes: &[Vec<u8>]) -> Vec<u8> {
    let mut out = vec![b'H', b'x', b'A', 0, version];
    out.extend_from_slice(&(nodes.len() as u32).to_le_bytes());
    for n in nodes {
        out.extend_from_slice(n);
    }
    out
}

fn triangle() -> Vec<u8> {
    let positions = [0.0f32, 0.0, 0.0, 1.0, 0.0, 0.0, 0.0, 1.0, 0.5];
    let mut payload = section(
        3,
        &[float_layer("vertex", 3, &positions), float_layer("normal", 3, &[0.25; 9])],
    );
    payload.extend_from_slice(&section(3, &[int_layer("reference", 1, &[0, 1, -3])]));
    payload.extend_from_slice(&stack(&[]));
    payload.extend_from_slice(&section(1, &[]));
    payload
}

fn sample() -> Vec<u8> {
    file(
        3,
        &[
            node(0, &[text_entry("author", "nobody")], &[]),
            node(2, &[], &[]),
            node(
                1,
                &[
                    int_entry("frames", &[24]),
                    meta_entry("tree", &[meta_entry("branch", &[text_entry("leaf", "green")])]),
                ],
                &triangle(),
            ),
            node(1, &[], &{
                let mut p = section(0, &[]);
                p.extend_from_slice(&section(0, &[]));
                p.extend_from_slice(&stack(&[]));
                p.extend_from_slice(&section(0, &[]));
                p
            }),
        ],
    )
}

#[test]
fn magic_number_is_the_identifier() {
    assert_eq!(MAGIC_NUMBER.to_le_bytes(), [b'H', b'x', b'A', 0]);
    assert_eq!(MAX_META_DEPTH, 64);
}

#[test]
fn conventions_name_the_common_layers() {
    assert_eq!(hard::BASE_VERTEX_LAYER_NAME, "vertex");
    assert_eq!(hard::VERTEX_LAYER_ID, 0);
    assert_eq!(hard::VERTEX_LAYER_COMPONENTS, 3);
    assert_eq!(hard::CORNER_LAYER_NAME, "reference");
    assert_eq!(hard::CORNER_LAYER_ID, 0);
    assert_eq!(hard::CORNER_LAYER_COMPONENTS, 1);
    assert_eq!(hard::NEIGHBOUR_LAYER_NAME, "neighbour");
    assert_eq!(soft::LAYER_SEQUENCE0, "sequence");
    assert_eq!(soft::LAYER_NAME_UV0, "uv");
    assert_eq!(soft::LAYER_NORMALS, "normal");
    assert_eq!(soft::LAYER_TANGENT, "tangent");
    assert_eq!(soft::LAYER_CREASES, "creases");
    assert_eq!(soft::LAYER_SELECTION, "selection");
    assert_eq!(soft::LAYER_SKIN_WEIGHT, "skining_weight");
    assert_eq!(soft::LAYER_SKIN_REFERENCE, "skining_reference");
    assert_eq!(soft::LAYER_BLENDSHAPE, "blendshape");
    assert_eq!(soft::LAYER_ADD_BLENDSHAPE, "addblendshape");
    assert_eq!(soft::LAYER_MATERIAL_ID, "material");
}

#[test]
fn new_values_are_empty() {
    let f = HXAFile::new();
    assert_eq!((f.version, f.node_count, f.node_array.len()), (0, 0, 0));
    assert!(f.get_first_geometry().is_none());
    let n = HXANode::new();
    assert!(matches!(n.node_type, HXANodeType::Unknown));
    assert_eq!((n.metadata_count, n.meta_data.len()), (0, 0));
    let g = HXAGeometryNode::new();
    assert_eq!((g.vertex_count, g.edge_corner_count, g.face_count), (0, 0, 0));
    assert!(g.vertex_stack.layers.is_empty() && g.corner_stack.layers.is_empty());
    assert!(g.edge_stack.layers.is_empty() && g.face_stack.layers.is_empty());
}

#[test]
fn node_tags_name_their_kinds() {
    assert!(matches!(HXANodeType::from(0), HXANodeType::MetaOnly));
    assert!(matches!(HXANodeType::from(1), HXANodeType::Geometry(g) if g.vertex_count == 0));
    assert!(matches!(HXANodeType::from(2), HXANodeType::Image));
    assert!(matches!(HXANodeType::from(3), HXANodeType::Unknown));
    assert!(matches!(HXANodeType::from(255), HXANodeType::Unknown));
}

#[test]
fn file_with_one_meta_only_node() {
    let decoded = HXAFile::open(file(1, &[node(0, &[], &[])])).unwrap();
    assert_eq!(decoded.version, 1);
    assert_eq!(decoded.node_count, 1);
    assert_eq!(decoded.node_array.len(), 1);
    assert!(matches!(decoded.node_array[0].node_type, HXANodeType::MetaOnly));
    assert_eq!(decoded.node_array[0].metadata_count, 0);
    assert!(decoded.node_array[0].meta_data.is_empty());
}

#[test]
fn geometry_node_with_one_vertex_layer() {
    let values = [0.0f32, 1.0, 2.0, 3.0, 4.0, 5.0, 6.0, 7.0, 8.5];
    let mut payload = section(3, &[float_layer("vertex", 3, &values)]);
    payload.extend_from_slice(&section(0, &[]));
    payload.extend_from_slice(&stack(&[]));
    payload.extend_from_slice(&section(0, &[]));
    let decoded = HXAFile::open(file(1, &[node(1, &[], &payload)])).unwrap();
    let (geometry, metadata) = decoded.get_first_geometry().unwrap();
    assert!(metadata.is_empty());
    assert_eq!(geometry.vertex_count, 3);
    let layer = geometry.vertex_stack.find(hard::BASE_VERTEX_LAYER_NAME).unwrap();
    assert_eq!(layer.components, 3);
    let bits = layer.as_vec_f32().unwrap();
    assert_eq!(bits.len(), 9);
    let decoded_values: Vec<f32> = bits.iter().map(|b| f32::from_bits(*b)).collect();
    assert_eq!(decoded_values, values.to_vec());
}

#[test]
fn node_with_nested_metadata() {
    let tree = meta_entry("pair", &[int_entry("a", &[1]), int_entry("b", &[2])]);
    let decoded = HXAFile::open(file(1, &[node(0, &[tree], &[])])).unwrap();
    let entry = &decoded.node_array[0].meta_data[0];
    assert_eq!(entry.data_length, 2);
    match &entry.meta_type {
        HXAMetaDataType::META { meta_array } => {
            assert_eq!(meta_array.len(), 2);
            for (child, expected) in meta_array.iter().zip([1i64, 2]) {
                assert_eq!(child.data_length, 1);
                match &child.meta_type {
                    HXAMetaDataType::INT64 { int_array } => assert_eq!(int_array, &vec![expected]),
                    other => panic!("unexpected {:?}", other),
                }
            }
        }
        other => panic!("unexpected {:?}", other),
    }
}

#[test]
fn unknown_node_type_is_refused() {
    let r = HXAFile::open(file(1, &[node(5, &[], &[])]));
    assert_eq!(r.err(), Some(HXAError::UnknownNodeType));
    // Nodes that decoded before it are not handed out either.
    let r = HXAFile::open(file(1, &[node(0, &[], &[]), node(5, &[], &[])]));
    assert_eq!(r.err(), Some(HXAError::UnknownNodeType));
    for tag in [3u8, 4, 100, 255] {
        let r = HXAFile::open(file(1, &[node(tag, &[int_entry("m", &[1])], &[])]));
        assert_eq!(r.err(), Some(HXAError::UnknownNodeType));
    }
}

#[test]
fn unknown_node_type_is_reported_behind_its_metadata() {
    let mut cursor = ByteCursor::new(node(9, &[int_entry("m", &[1])], &[1, 2, 3]));
    let mut decoded = HXANode::new();
    assert_eq!(decoded.parse(&mut cursor), Err(HXAError::UnknownNodeType));
    assert_eq!(cursor.remaining(), 3);
    assert!(matches!(decoded.node_type, HXANodeType::Unknown));
    // A stream that ends inside the metadata of such a node is short first.
    let mut cursor = ByteCursor::new(vec![9, 1, 0, 0, 0]);
    assert_eq!(decoded.parse(&mut cursor), Err(HXAError::UnexpectedEof));
}

#[test]
fn bad_magic_is_refused() {
    let mut bytes = file(1, &[node(0, &[], &[])]);
    bytes[2] = b'B';
    assert_eq!(HXAFile::open(bytes).err(), Some(HXAError::BadMagic));
    assert_eq!(HXAFile::open(vec![0, 0, 0, 0]).err(), Some(HXAError::BadMagic));
    assert_eq!(HXAFile::open(vec![b'H', b'x', b'A', 1, 1, 0, 0, 0, 0]).err(), Some(HXAError::BadMagic));
    assert_eq!(HXAFile::open(vec![b'H', b'x', b'A']).err(), Some(HXAError::UnexpectedEof));
    assert_eq!(HXAFile::open(Vec::new()).err(), Some(HXAError::UnexpectedEof));
}

#[test]
fn version_is_kept_as_it_stands() {
    for version in [0u8, 1, 3, 200, 255] {
        let decoded = HXAFile::open(file(version, &[])).unwrap();
        assert_eq!(decoded.version, version);
        assert_eq!(decoded.node_count, 0);
        assert!(decoded.node_array.is_empty());
    }
}

#[test]
fn whole_file() {
    let decoded = HXAFile::open(sample()).unwrap();
    assert_eq!(decoded.version, 3);
    assert_eq!(decoded.node_count, 4);
    assert_eq!(decoded.node_array.len(), 4);
    assert!(matches!(decoded.node_array[0].node_type, HXANodeType::MetaOnly));
    assert!(matches!(decoded.node_array[1].node_type, HXANodeType::Image));
    assert!(matches!(decoded.node_array[2].node_type, HXANodeType::Geometry(_)));
    assert!(matches!(decoded.node_array[3].node_type, HXANodeType::Geometry(_)));
    assert_eq!(decoded.node_array[0].meta_data[0].name, "author");

    let (geometry, metadata) = decoded.get_first_geometry().unwrap();
    assert!(std::ptr::eq(metadata, &decoded.node_array[2].meta_data));
    assert_eq!(metadata.len(), 2);
    assert_eq!(metadata[0].name, "frames");
    assert_eq!(geometry.vertex_count, 3);
    assert_eq!(geometry.edge_corner_count, 3);
    assert_eq!(geometry.face_count, 1);
    assert_eq!(geometry.vertex_stack.layer_count, 2);
    assert_eq!(geometry.corner_stack.layer_count, 1);
    assert_eq!(geometry.edge_stack.layer_count, 0);
    assert_eq!(geometry.face_stack.layer_count, 0);
    let normals = geometry.vertex_stack.find(soft::LAYER_NORMALS).unwrap();
    assert_eq!(normals.as_vec_f32().unwrap(), &vec![0.25f32.to_bits(); 9]);
    let corners = geometry.corner_stack.find(hard::CORNER_LAYER_NAME).unwrap();
    assert_eq!(corners.as_vec_i32().unwrap(), &vec![0, 1, -3]);
    let positions = geometry.vertex_stack.find("vertex").unwrap().as_tri_tup_vec_f32();
    assert_eq!(positions.len(), 3);
    assert_eq!(f32::from_bits(positions[2].2), 0.5);
}

#[test]
fn first_geometry_is_none_without_geometry_nodes() {
    let decoded = HXAFile::open(file(1, &[node(0, &[], &[]), node(2, &[], &[])])).unwrap();
    assert!(decoded.get_first_geometry().is_none());
}

#[test]
fn edge_stack_counts_by_the_corners() {
    let mut payload = section(1, &[]);
    payload.extend_from_slice(&section(2, &[int_layer("reference", 1, &[0, -1])]));
    payload.extend_from_slice(&stack(&[int_layer("crease", 2, &[1, 2, 3, 4])]));
    payload.extend_from_slice(&section(5, &[int_layer("material", 1, &[0, 1, 2, 3, 4])]));
    let mut cursor = ByteCursor::new(payload);
    let mut geometry = HXAGeometryNode::new();
    geometry.parse(&mut cursor).unwrap();
    assert_eq!(cursor.remaining(), 0);
    assert_eq!(geometry.edge_stack.layers[0].as_vec_i32().unwrap(), &vec![1, 2, 3, 4]);
    assert_eq!(geometry.face_stack.layers[0].as_vec_i32().unwrap().len(), 5);
}

#[test]
fn decoding_twice_gives_equal_documents() {
    let first = HXAFile::open(sample()).unwrap();
    let second = HXAFile::open(sample()).unwrap();
    assert_eq!(format!("{:?}", first), format!("{:?}", second));
    let bad = file(1, &[node(7, &[], &[])]);
    assert_eq!(HXAFile::open(bad.clone()).err(), HXAFile::open(bad).err());
}

#[test]
fn truncation_anywhere_is_an_unexpected_eof() {
    let full = sample();
    for cut in 0..full.len() {
        let r = HXAFile::open(full[..cut].to_vec());
        assert_eq!(r.err(), Some(HXAError::UnexpectedEof), "cut at {}", cut);
    }
}

#[test]
fn bytes_behind_the_last_node_are_not_read() {
    let mut bytes = sample();
    let len = bytes.len();
    bytes.extend_from_slice(&[0xff; 7]);
    let mut cursor = ByteCursor::new(bytes);
    let mut decoded = HXAFile::new();
    decoded.read_header(&mut cursor).unwrap();
    assert_eq!(cursor.offset(), len);
    assert_eq!(decoded.node_count, 4);
}

#[test]
fn failed_read_leaves_the_file_as_it_was() {
    let mut decoded = HXAFile::open(file(9, &[node(0, &[], &[])])).unwrap();
    let mut cursor = ByteCursor::new(file(1, &[node(0, &[], &[]), node(5, &[], &[])]));
    assert_eq!(decoded.read_header(&mut cursor), Err(HXAError::UnknownNodeType));
    assert_eq!(decoded.version, 9);
    assert_eq!(decoded.node_array.len(), 1);
}

#[test]
fn errors_inside_a_file_are_passed_on() {
    let mut bad_text = meta_header("t", 3, 1);
    bad_text.push(0x80);
    let r = HXAFile::open(file(1, &[node(0, &[bad_text], &[])]));
    assert_eq!(r.err(), Some(HXAError::InvalidUtf8));

    let mut deep = int_entry("leaf", &[1]);
    for _ in 0..=MAX_META_DEPTH {
        deep = meta_entry("m", &[deep]);
    }
    let r = HXAFile::open(file(1, &[node(0, &[deep], &[])]));
    assert_eq!(r.err(), Some(HXAError::RecursionLimitExceeded));
}
