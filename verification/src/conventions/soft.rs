use vstd::prelude::*;

verus! {

pub const LAYER_SEQUENCE0: &'static str = "sequence";

pub const LAYER_NAME_UV0: &'static str = "uv";

pub const LAYER_NORMALS: &'static str = "normal";

pub const LAYER_TANGENT: &'static str = "tangent";

pub const LAYER_CREASES: &'static str = "creases";

pub const LAYER_SELECTION: &'static str = "selection";

pub const LAYER_SKIN_WEIGHT: &'static str = "skining_weight";

pub const LAYER_SKIN_REFERENCE: &'static str = "skining_reference";

pub const LAYER_BLENDSHAPE: &'static str = "blendshape";

pub const LAYER_ADD_BLENDSHAPE: &'static str = "addblendshape";

pub const LAYER_MATERIAL_ID: &'static str = "material";

} // verus!
