use vstd::prelude::*;
use crate::cursor::{ByteCursor, Outcome, done, failed, u32_at};
use crate::enums::HXALayerDataType;
use crate::error::HXAError;
use crate::laws::lemma_layer_stack_sized;
use crate::model::{Layer, LayerStack, LayerValues};
use crate::wire::{
    layer_at, layer_list_at, layer_stack_at, lemma_prepend_nothing, lemma_prepend_push, prepend,
};

verus! {

/// A named array of values that belongs to the vertices, corners, edges or
/// faces of a geometry node.
#[derive(Debug)]
pub struct HXALayer {
    /// The name of the layer. Common uses have names set by convention.
    pub name: String,
    /// The number of values for each item: 2 for uv, 3 for xyz or rgb, 4 for
    /// rgba.
    pub components: u8,
    /// The values, by their type.
    pub layer_type: HXALayerDataType,
}

impl View for HXALayer {
    type V = Layer;

    open spec fn view(&self) -> Layer {
        Layer { name: self.name@, components: self.components, values: self.layer_type@ }
    }
}

/// What a list of layers holds, layer by layer.
pub open spec fn layer_list_model(l: Seq<HXALayer>) -> Seq<Layer> {
    Seq::new(l.len(), |i: int| l[i]@)
}

/// The outcome that a decode of one layer reports with `r`, having left the
/// cursor at `end`.
pub open spec fn layer_outcome(r: Result<HXALayer, HXAError>, end: int) -> Outcome<Layer> {
    match r {
        Ok(l) => done(l@, end),
        Err(e) => failed(e, end),
    }
}

/// The values of `v` three at a time: item `i` holds the values at `3 * i`,
/// `3 * i + 1` and `3 * i + 2`. Values behind the last full three are left out.
pub open spec fn triples(v: Seq<u32>) -> Seq<(u32, u32, u32)> {
    Seq::new((v.len() / 3) as nat, |i: int| (v[3 * i], v[3 * i + 1], v[3 * i + 2]))
}

/// The index of the first layer named `name`, or the number of layers if none
/// has that name.
pub open spec fn first_named(layers: Seq<HXALayer>, name: Seq<char>) -> int
    decreases layers.len(),
{
    if layers.len() == 0 {
        0
    } else if layers[0].name@ == name {
        0
    } else {
        1 + first_named(layers.subrange(1, layers.len() as int), name)
    }
}

/// `first_named` is the least index of a layer with the name, whatever the
/// layers hold and however many of them share the name; it is the number of
/// layers exactly when no layer has the name.
pub proof fn lemma_first_named(layers: Seq<HXALayer>, name: Seq<char>)
    ensures
        0 <= first_named(layers, name) <= layers.len(),
        first_named(layers, name) < layers.len() ==> layers[first_named(layers, name)].name@
            == name,
        forall|j: int| 0 <= j < first_named(layers, name) ==> layers[j].name@ != name,
    decreases layers.len(),
{
    if layers.len() != 0 && layers[0].name@ != name {
        let rest = layers.subrange(1, layers.len() as int);
        lemma_first_named(rest, name);
        assert forall|j: int| 0 <= j < first_named(layers, name) implies layers[j].name@
            != name by {
            if j > 0 {
                assert(rest[j - 1] == layers[j]);
            }
        }
    }
}

impl HXALayer {
    /// A layer that stands for nothing yet.
    pub fn new() -> (l: HXALayer)
        ensures
            l@ == (Layer { name: "NO NAME"@, components: 0, values: LayerValues::Unknown }),
    {
        HXALayer {
            name: "NO NAME".to_owned(),
            components: 0,
            layer_type: HXALayerDataType::Unknown,
        }
    }

    /// Decodes the layer at the cursor, for a section with `num_items` items.
    pub fn decode(input: &mut ByteCursor, num_items: u32) -> (r: Result<HXALayer, HXAError>)
        ensures
            final(input).bytes() == old(input).bytes(),
            layer_at(old(input).bytes(), old(input).position(), num_items) == layer_outcome(
                r,
                final(input).position(),
            ),
            r matches Ok(l) ==> l@.sized_for(num_items),
    {
        let name_length: u8 = input.read_u8()?;
        let name: String = input.read_utf8(name_length as usize)?;
        let components: u8 = input.read_u8()?;
        let tag: u8 = input.read_u8()?;
        assert(num_items * components <= 0xffff_ffff * 0xff) by (nonlinear_arith)
            requires
                0 <= num_items <= 0xffff_ffff,
                0 <= components <= 0xff,
        ;
        let count: u64 = (num_items as u64) * (components as u64);
        let layer_type: HXALayerDataType = match HXALayerDataType::from(tag) {
            HXALayerDataType::UINT8(_) => HXALayerDataType::UINT8(input.read_u8_array(count)?),
            HXALayerDataType::INT32(_) => HXALayerDataType::INT32(input.read_i32_array(count)?),
            HXALayerDataType::FLOAT(_) => HXALayerDataType::FLOAT(input.read_u32_array(count)?),
            HXALayerDataType::DOUBLE(_) => HXALayerDataType::DOUBLE(input.read_u64_array(count)?),
            HXALayerDataType::Unknown => HXALayerDataType::Unknown,
        };
        Ok(HXALayer { name, components, layer_type })
    }

    /// Decodes the layer at the cursor into `self`, for a section with
    /// `num_items` items. On failure `self` is left as it was.
    pub fn parse(&mut self, input: &mut ByteCursor, num_items: &u32) -> (r: Result<(), HXAError>)
        ensures
            final(input).bytes() == old(input).bytes(),
            match r {
                Ok(_) => layer_at(old(input).bytes(), old(input).position(), *num_items) == done(
                    final(self)@,
                    final(input).position(),
                ) && final(self)@.sized_for(*num_items),
                Err(e) => layer_at(old(input).bytes(), old(input).position(), *num_items)
                    == failed::<Layer>(e, final(input).position()) && *final(self) == *old(self),
            },
    {
        match HXALayer::decode(input, *num_items) {
            Ok(layer) => {
                *self = layer;
                Ok(())
            },
            Err(e) => Err(e),
        }
    }

    /// The values, if they are signed 32-bit integers.
    pub fn try_as_vec_i32(&self) -> (r: Option<&Vec<i32>>)
        ensures
            match self.layer_type {
                HXALayerDataType::INT32(v) => r == Some(&v),
                _ => r is None,
            },
    {
        match &self.layer_type {
            HXALayerDataType::INT32(int_array) => Some(int_array),
            _ => None,
        }
    }

    /// The values of a layer of signed 32-bit integers.
    pub fn as_vec_i32(&self) -> (r: Result<&Vec<i32>, HXAError>)
        ensures
            match self.layer_type {
                HXALayerDataType::INT32(v) => r == Ok::<&Vec<i32>, HXAError>(&v),
                _ => r == Err::<&Vec<i32>, HXAError>(HXAError::TypeMismatch),
            },
    {
        match self.try_as_vec_i32() {
            Some(v) => Ok(v),
            None => Err(HXAError::TypeMismatch),
        }
    }

    /// The values, if they are single-precision numbers: their IEEE-754 bit
    /// patterns.
    pub fn try_as_vec_f32(&self) -> (r: Option<&Vec<u32>>)
        ensures
            match self.layer_type {
                HXALayerDataType::FLOAT(v) => r == Some(&v),
                _ => r is None,
            },
    {
        match &self.layer_type {
            HXALayerDataType::FLOAT(float_array) => Some(float_array),
            _ => None,
        }
    }

    /// The values of a layer of single-precision numbers: their IEEE-754 bit
    /// patterns.
    pub fn as_vec_f32(&self) -> (r: Result<&Vec<u32>, HXAError>)
        ensures
            match self.layer_type {
                HXALayerDataType::FLOAT(v) => r == Ok::<&Vec<u32>, HXAError>(&v),
                _ => r == Err::<&Vec<u32>, HXAError>(HXAError::TypeMismatch),
            },
    {
        match self.try_as_vec_f32() {
            Some(v) => Ok(v),
            None => Err(HXAError::TypeMismatch),
        }
    }

    /// The values of a layer of single-precision numbers with three
    /// components, one tuple for each item.
    pub fn as_tri_tup_vec_f32(&self) -> (out: Vec<(u32, u32, u32)>)
        requires
            self.layer_type is FLOAT,
            self.components == 3,
        ensures
            out@ == triples(self.layer_type->FLOAT_0@),
    {
        let mut out: Vec<(u32, u32, u32)> = Vec::new();
        match &self.layer_type {
            HXALayerDataType::FLOAT(values) => {
                let total: usize = values.len();
                let num_tris: usize = total / 3;
                let mut i: usize = 0;
                while i < num_tris
                    invariant
                        i <= num_tris,
                        total == values@.len(),
                        num_tris == total / 3,
                        out@ == Seq::new(
                            i as nat,
                            |k: int| (values@[3 * k], values@[3 * k + 1], values@[3 * k + 2]),
                        ),
                    decreases num_tris - i,
                {
                    let idx: usize = i * 3;
                    out.push((values[idx], values[idx + 1], values[idx + 2]));
                    i = i + 1;
                    assert(out@ =~= Seq::new(
                        i as nat,
                        |k: int| (values@[3 * k], values@[3 * k + 1], values@[3 * k + 2]),
                    ));
                }
            },
            _ => {},
        }
        out
    }

    /// The values, if they are double-precision numbers: their IEEE-754 bit
    /// patterns.
    pub fn try_as_vec_f64(&self) -> (r: Option<&Vec<u64>>)
        ensures
            match self.layer_type {
                HXALayerDataType::DOUBLE(v) => r == Some(&v),
                _ => r is None,
            },
    {
        match &self.layer_type {
            HXALayerDataType::DOUBLE(double_array) => Some(double_array),
            _ => None,
        }
    }

    /// The values of a layer of double-precision numbers: their IEEE-754 bit
    /// patterns.
    pub fn as_vec_f64(&self) -> (r: Result<&Vec<u64>, HXAError>)
        ensures
            match self.layer_type {
                HXALayerDataType::DOUBLE(v) => r == Ok::<&Vec<u64>, HXAError>(&v),
                _ => r == Err::<&Vec<u64>, HXAError>(HXAError::TypeMismatch),
            },
    {
        match self.try_as_vec_f64() {
            Some(v) => Ok(v),
            None => Err(HXAError::TypeMismatch),
        }
    }

    /// The values, if they are unsigned bytes.
    pub fn try_as_vec_u8(&self) -> (r: Option<&Vec<u8>>)
        ensures
            match self.layer_type {
                HXALayerDataType::UINT8(v) => r == Some(&v),
                _ => r is None,
            },
    {
        match &self.layer_type {
            HXALayerDataType::UINT8(uint_array) => Some(uint_array),
            _ => None,
        }
    }

    /// The values of a layer of unsigned bytes.
    pub fn as_vec_u8(&self) -> (r: Result<&Vec<u8>, HXAError>)
        ensures
            match self.layer_type {
                HXALayerDataType::UINT8(v) => r == Ok::<&Vec<u8>, HXAError>(&v),
                _ => r == Err::<&Vec<u8>, HXAError>(HXAError::TypeMismatch),
            },
    {
        match self.try_as_vec_u8() {
            Some(v) => Ok(v),
            None => Err(HXAError::TypeMismatch),
        }
    }
}

/// The layers of one section of a geometry node, in stream order.
#[derive(Debug)]
pub struct HXALayerStack {
    /// The number of layers that the stream declares.
    pub layer_count: u32,
    pub layers: Vec<HXALayer>,
}

impl View for HXALayerStack {
    type V = LayerStack;

    open spec fn view(&self) -> LayerStack {
        LayerStack { layer_count: self.layer_count, layers: layer_list_model(self.layers@) }
    }
}

/// The outcome that a decode of a stack reports with `r`, having left the
/// cursor at `end`.
pub open spec fn layer_stack_outcome(r: Result<HXALayerStack, HXAError>, end: int) -> Outcome<
    LayerStack,
> {
    match r {
        Ok(l) => done(l@, end),
        Err(e) => failed(e, end),
    }
}

impl HXALayerStack {
    /// A stack without layers.
    pub fn new() -> (stack: HXALayerStack)
        ensures
            stack@ == (LayerStack { layer_count: 0, layers: Seq::empty() }),
    {
        let layers: Vec<HXALayer> = Vec::new();
        assert(layer_list_model(layers@) =~= Seq::empty());
        HXALayerStack { layer_count: 0, layers }
    }

    /// Decodes the stack at the cursor, for a section with `num_items` items.
    pub fn decode(input: &mut ByteCursor, num_items: u32) -> (r: Result<HXALayerStack, HXAError>)
        ensures
            final(input).bytes() == old(input).bytes(),
            layer_stack_at(old(input).bytes(), old(input).position(), num_items)
                == layer_stack_outcome(r, final(input).position()),
    {
        let layer_count: u32 = input.read_u32()?;
        let ghost s = input.bytes();
        let ghost start = input.position();
        let mut layers: Vec<HXALayer> = Vec::new();
        let mut i: u32 = 0;
        assert(layer_list_model(layers@) =~= Seq::empty());
        assert(Seq::<Layer>::empty() + Seq::<Layer>::empty() =~= Seq::<Layer>::empty());
        while i < layer_count
            invariant
                i <= layer_count,
                s == old(input).bytes(),
                input.bytes() == s,
                u32_at(s, old(input).position()) == done(layer_count, start),
                layer_list_at(s, start, layer_count as nat, num_items) == prepend(
                    layer_list_model(layers@),
                    layer_list_at(s, input.position(), (layer_count - i) as nat, num_items),
                ),
            decreases layer_count - i,
        {
            let ghost rest = layer_list_at(
                s,
                layer_at(s, input.position(), num_items).end,
                (layer_count - i - 1) as nat,
                num_items,
            );
            let ghost before = layers@;
            let layer: HXALayer = HXALayer::decode(input, num_items)?;
            proof {
                lemma_prepend_push(layer_list_model(before), layer@, rest);
                assert(layer_list_model(before.push(layer)) =~= layer_list_model(before).push(
                    layer@,
                ));
            }
            layers.push(layer);
            i = i + 1;
        }
        proof {
            lemma_prepend_nothing(layer_list_model(layers@), input.position());
        }
        Ok(HXALayerStack { layer_count, layers })
    }

    /// Decodes the stack at the cursor into `self`, for a section with
    /// `num_items` items. On failure `self` is left as it was.
    pub fn parse(&mut self, input: &mut ByteCursor, num_items: &u32) -> (r: Result<(), HXAError>)
        ensures
            final(input).bytes() == old(input).bytes(),
            match r {
                Ok(_) => layer_stack_at(old(input).bytes(), old(input).position(), *num_items)
                    == done(final(self)@, final(input).position()) && final(self)@.sized_for(
                    *num_items,
                ),
                Err(e) => layer_stack_at(old(input).bytes(), old(input).position(), *num_items)
                    == failed::<LayerStack>(e, final(input).position()) && *final(self) == *old(
                    self,
                ),
            },
    {
        match HXALayerStack::decode(input, *num_items) {
            Ok(stack) => {
                proof {
                    lemma_layer_stack_sized(
                        old(input).bytes(),
                        old(input).position(),
                        *num_items,
                    );
                }
                *self = stack;
                Ok(())
            },
            Err(e) => Err(e),
        }
    }

    /// The first layer with the name `layer_name`, in stream order. Layers
    /// behind it that share the name are not reached by name.
    pub fn find(&self, layer_name: &str) -> (r: Option<&HXALayer>)
        ensures
            first_named(self.layers@, layer_name@) < self.layers@.len() ==> r == Some(
                &self.layers@[first_named(self.layers@, layer_name@)],
            ),
            first_named(self.layers@, layer_name@) >= self.layers@.len() ==> r is None,
    {
        let search_string: String = layer_name.to_owned();
        let mut i: usize = 0;
        proof {
            lemma_first_named(self.layers@, layer_name@);
        }
        while i < self.layers.len()
            invariant
                i <= self.layers@.len(),
                search_string@ == layer_name@,
                i <= first_named(self.layers@, layer_name@) <= self.layers@.len(),
                first_named(self.layers@, layer_name@) < self.layers@.len()
                    ==> self.layers@[first_named(self.layers@, layer_name@)].name@
                    == layer_name@,
                forall|j: int|
                    0 <= j < first_named(self.layers@, layer_name@) ==> self.layers@[j].name@
                        != layer_name@,
            decreases self.layers@.len() - i,
        {
            if self.layers[i].name == search_string {
                return Some(&self.layers[i]);
            }
            i = i + 1;
        }
        None
    }
}

} // verus!
