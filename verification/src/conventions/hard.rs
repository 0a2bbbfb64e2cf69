use vstd::prelude::*;

verus! {

/// The name of the first vertex layer. In spite of its name it holds only the
/// positions of the vertices; normals and the like have layers of their own,
/// named by the soft conventions.
pub const BASE_VERTEX_LAYER_NAME: &'static str = "vertex";

pub const VERTEX_LAYER_ID: u32 = 0;

pub const VERTEX_LAYER_COMPONENTS: u32 = 3;

/// The name of the first corner layer, which holds for each corner the vertex
/// that it refers to.
pub const CORNER_LAYER_NAME: &'static str = "reference";

pub const CORNER_LAYER_ID: u32 = 0;

pub const CORNER_LAYER_COMPONENTS: u32 = 1;

pub const NEIGHBOUR_LAYER_NAME: &'static str = "neighbour";

} // verus!
