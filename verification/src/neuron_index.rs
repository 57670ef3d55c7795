//! The position of a neuron in a model: its layer and its index within the
//! layer, and the flat numbering of all neurons of a model layer by layer.

use vstd::arithmetic::div_mod::lemma_fundamental_div_mod_converse;
use vstd::prelude::*;

use crate::text::{
    chars_of, decimal, find_single, occurs_once, parse_u32_range, parse_u32_spec, push_decimal,
    single_position, substring,
};

verus! {

/// A neuron of a model: the layer it is in and its index within that layer.
#[derive(Clone, Copy, Debug, PartialEq, Eq, Structural, PartialOrd, Ord, Hash)]
pub struct NeuronIndex {
    pub layer: u32,
    pub neuron: u32,
}

/// Why a text is not a neuron index of the form `layer_neuron`.
#[derive(Clone, Debug, PartialEq, Eq)]
pub enum NeuronIndexParseError {
    /// The text does not hold exactly one `_`.
    NotLayerUnderscoreNeuron,
    /// The part before the `_` is not a `u32`; it is given.
    InvalidLayer(String),
    /// The part after the `_` is not a `u32`; it is given.
    InvalidNeuron(String),
}

/// The neurons of one layer, in order.
pub open spec fn layer_row(layer: u32, layer_size: u32) -> Seq<NeuronIndex> {
    Seq::new(layer_size as nat, |n: int| NeuronIndex { layer, neuron: n as u32 })
}

/// All neurons of a model with `num_layers` layers of `layer_size` neurons,
/// layer by layer and, within a layer, by neuron index.
pub open spec fn neuron_grid(num_layers: nat, layer_size: u32) -> Seq<NeuronIndex>
    decreases num_layers,
{
    if num_layers == 0 {
        Seq::empty()
    } else {
        neuron_grid((num_layers - 1) as nat, layer_size) + layer_row(
            (num_layers - 1) as u32,
            layer_size,
        )
    }
}

/// The neuron with flat index `flat` in a model whose layers hold
/// `layer_size` neurons.
pub open spec fn neuron_at_flat(layer_size: nat, flat: nat) -> NeuronIndex {
    NeuronIndex { layer: (flat / layer_size) as u32, neuron: (flat % layer_size) as u32 }
}

/// The flat index of a neuron: all neurons of the layers before it come first.
pub open spec fn flat_index_spec(index: NeuronIndex, layer_size: nat) -> int {
    index.layer * layer_size + index.neuron
}

/// What parsing `s` as `layer_neuron` gives.
pub open spec fn parse_neuron_index_spec(s: Seq<char>) -> Result<NeuronIndex, NeuronIndexParseError> {
    if !occurs_once(s, '_') {
        Err(NeuronIndexParseError::NotLayerUnderscoreNeuron)
    } else {
        let p = single_position(s, '_');
        let layer_text = s.subrange(0, p);
        let neuron_text = s.subrange(p + 1, s.len() as int);
        match parse_u32_spec(layer_text) {
            None => Err(NeuronIndexParseError::InvalidLayer(arbitrary())),
            Some(layer) => match parse_u32_spec(neuron_text) {
                None => Err(NeuronIndexParseError::InvalidNeuron(arbitrary())),
                Some(neuron) => Ok(NeuronIndex { layer, neuron }),
            },
        }
    }
}

/// The parse errors agree in kind and in the text that they give.
pub open spec fn parse_result_matches(
    r: Result<NeuronIndex, NeuronIndexParseError>,
    s: Seq<char>,
) -> bool {
    let expected = parse_neuron_index_spec(s);
    match r {
        Ok(index) => expected == Ok::<NeuronIndex, NeuronIndexParseError>(index),
        Err(NeuronIndexParseError::NotLayerUnderscoreNeuron) => expected
            is Err && expected->Err_0 is NotLayerUnderscoreNeuron,
        Err(NeuronIndexParseError::InvalidLayer(text)) => expected is Err
            && expected->Err_0 is InvalidLayer && text@ == s.subrange(0, single_position(s, '_')),
        Err(NeuronIndexParseError::InvalidNeuron(text)) => expected is Err
            && expected->Err_0 is InvalidNeuron && text@ == s.subrange(
            single_position(s, '_') + 1,
            s.len() as int,
        ),
    }
}

/// The neuron grid has a neuron for every layer and position, at its flat index.
pub proof fn lemma_neuron_grid(num_layers: nat, layer_size: u32)
    ensures
        neuron_grid(num_layers, layer_size).len() == num_layers * layer_size,
        layer_size > 0 ==> forall|k: int|
            0 <= k < num_layers * layer_size ==> #[trigger] neuron_grid(num_layers, layer_size)[k]
                == neuron_at_flat(layer_size as nat, k as nat),
    decreases num_layers,
{
    if num_layers == 0 {
        assert(num_layers * layer_size == 0) by (nonlinear_arith)
            requires
                num_layers == 0,
        ;
    } else {
        let l = (num_layers - 1) as nat;
        lemma_neuron_grid(l, layer_size);
        assert(neuron_grid(num_layers, layer_size) == neuron_grid(l, layer_size) + layer_row(
            l as u32,
            layer_size,
        ));
        assert(num_layers * layer_size == l * layer_size + layer_size) by (nonlinear_arith)
            requires
                num_layers == l + 1,
        ;
        if layer_size > 0 {
            assert forall|k: int| 0 <= k < num_layers * layer_size implies #[trigger] neuron_grid(
                num_layers,
                layer_size,
            )[k] == neuron_at_flat(layer_size as nat, k as nat) by {
                if k >= l * layer_size {
                    let n = k - l * layer_size;
                    lemma_fundamental_div_mod_converse(k, layer_size as int, l as int, n);
                    assert(neuron_grid(num_layers, layer_size)[k] == layer_row(
                        l as u32,
                        layer_size,
                    )[n]);
                } else {
                    assert(neuron_grid(num_layers, layer_size)[k] == neuron_grid(
                        l,
                        layer_size,
                    )[k]);
                }
            }
        }
    }
}

impl NeuronIndex {
    /// The neuron with the given flat index; the index is first cut to 32 bits.
    pub fn from_flat_index(layer_size: u32, flat_index: usize) -> (r: Self)
        requires
            layer_size > 0,
        ensures
            r.layer == (flat_index as u32) / layer_size,
            r.neuron == (flat_index as u32) % layer_size,
    {
        let layer_index = flat_index as u32 / layer_size;
        let neuron_index = flat_index as u32 % layer_size;
        NeuronIndex { layer: layer_index, neuron: neuron_index }
    }

    /// The flat index of this neuron in a model whose layers hold `layer_size`
    /// neurons.
    pub fn flat_index(&self, layer_size: u32) -> (r: usize)
        requires
            flat_index_spec(*self, layer_size as nat) <= u32::MAX,
        ensures
            r == flat_index_spec(*self, layer_size as nat),
    {
        proof {
            vstd::arithmetic::mul::lemma_mul_nonnegative(self.layer as int, layer_size as int);
        }
        (self.layer * layer_size + self.neuron) as usize
    }

    /// All neurons of a model with `num_layers` layers of `layer_size` neurons,
    /// layer by layer.
    pub fn iter(num_layers: u32, layer_size: u32) -> (r: Vec<Self>)
        ensures
            r@ == neuron_grid(num_layers as nat, layer_size),
    {
        let mut r: Vec<Self> = Vec::new();
        let mut layer: u32 = 0;
        while layer < num_layers
            invariant
                layer <= num_layers,
                r@ == neuron_grid(layer as nat, layer_size),
            decreases num_layers - layer,
        {
            let ghost before = r@;
            let mut neuron: u32 = 0;
            while neuron < layer_size
                invariant
                    layer < num_layers,
                    neuron <= layer_size,
                    r@ == before + layer_row(layer, layer_size).take(neuron as int),
                decreases layer_size - neuron,
            {
                r.push(NeuronIndex { layer, neuron });
                assert(layer_row(layer, layer_size).take(neuron + 1) =~= layer_row(
                    layer,
                    layer_size,
                ).take(neuron as int).push(NeuronIndex { layer, neuron }));
                neuron = neuron + 1;
            }
            assert(layer_row(layer, layer_size).take(layer_size as int) =~= layer_row(
                layer,
                layer_size,
            ));
            assert(neuron_grid((layer + 1) as nat, layer_size) == neuron_grid(
                layer as nat,
                layer_size,
            ) + layer_row(layer, layer_size));
            layer = layer + 1;
        }
        r
    }

    /// Parses a neuron index written `layer_neuron`, such as `3_1024`.
    pub fn parse(s: &str) -> (r: Result<Self, NeuronIndexParseError>)
        ensures
            parse_result_matches(r, s@),
    {
        let chars = chars_of(s);
        let p = match find_single(&chars, '_') {
            Some(p) => p,
            None => return Err(NeuronIndexParseError::NotLayerUnderscoreNeuron),
        };
        let len = chars.len();
        let layer = match parse_u32_range(&chars, 0, p) {
            Some(layer) => layer,
            None => return Err(NeuronIndexParseError::InvalidLayer(substring(s, 0, p))),
        };
        let neuron = match parse_u32_range(&chars, p + 1, len) {
            Some(neuron) => neuron,
            None => return Err(NeuronIndexParseError::InvalidNeuron(substring(s, p + 1, len))),
        };
        Ok(NeuronIndex { layer, neuron })
    }

    /// The neuron's name, `l{layer}n{neuron}`, such as `l3n1024`.
    pub fn to_string(&self) -> (r: String)
        ensures
            r@ == seq!['l'] + decimal(self.layer as nat) + seq!['n'] + decimal(
                self.neuron as nat,
            ),
    {
        let mut r = String::new();
        proof {
            reveal_strlit("l");
            reveal_strlit("n");
        }
        r.append("l");
        push_decimal(&mut r, self.layer as u64);
        r.append("n");
        push_decimal(&mut r, self.neuron as u64);
        r
    }
}

impl core::str::FromStr for NeuronIndex {
    type Err = NeuronIndexParseError;

    fn from_str(s: &str) -> (r: Result<Self, NeuronIndexParseError>)
        ensures
            parse_result_matches(r, s@),
    {
        NeuronIndex::parse(s)
    }
}

/// Flat numbering undoes itself: the neuron at a neuron's flat index is that
/// neuron.
pub proof fn law_flat_index_roundtrip(index: NeuronIndex, layer_size: u32)
    requires
        index.neuron < layer_size,
        flat_index_spec(index, layer_size as nat) <= u32::MAX,
    ensures
        neuron_at_flat(layer_size as nat, flat_index_spec(index, layer_size as nat) as nat)
            == index,
{
    lemma_fundamental_div_mod_converse(
        flat_index_spec(index, layer_size as nat),
        layer_size as int,
        index.layer as int,
        index.neuron as int,
    );
}

/// The flat index of the neuron at a flat index is that flat index.
pub proof fn law_flat_position_roundtrip(layer_size: u32, flat: nat)
    requires
        layer_size > 0,
        flat <= u32::MAX,
    ensures
        flat_index_spec(neuron_at_flat(layer_size as nat, flat), layer_size as nat) == flat,
        neuron_at_flat(layer_size as nat, flat).neuron < layer_size,
{
    let q = flat as int / layer_size as int;
    let r = flat as int % layer_size as int;
    vstd::arithmetic::div_mod::lemma_fundamental_div_mod(flat as int, layer_size as int);
    assert(0 <= r < layer_size);
    vstd::arithmetic::div_mod::lemma_div_pos_is_pos(flat as int, layer_size as int);
    assert(q <= flat) by (nonlinear_arith)
        requires
            q >= 0,
            flat == layer_size * q + r,
            0 <= r,
            layer_size >= 1,
            flat >= 0,
    ;
    assert(q * layer_size == layer_size * q) by (nonlinear_arith);
}

/// Enumerating the neurons of a model lists them by flat index.
pub proof fn law_iter_in_flat_order(num_layers: u32, layer_size: u32, k: int)
    requires
        layer_size > 0,
        0 <= k < num_layers * layer_size,
    ensures
        neuron_grid(num_layers as nat, layer_size).len() == num_layers * layer_size,
        neuron_grid(num_layers as nat, layer_size)[k] == neuron_at_flat(layer_size as nat, k as nat),
{
    lemma_neuron_grid(num_layers as nat, layer_size);
}

/// A neuron index written as `layer_neuron` parses back to that neuron.
pub proof fn law_parse_written_index(index: NeuronIndex)
    ensures
        parse_neuron_index_spec(decimal(index.layer as nat) + seq!['_'] + decimal(
            index.neuron as nat,
        )) == Ok::<NeuronIndex, NeuronIndexParseError>(index),
{
    let a = decimal(index.layer as nat);
    let b = decimal(index.neuron as nat);
    let s = a + seq!['_'] + b;
    crate::text::lemma_decimal_digits(index.layer as nat);
    crate::text::lemma_decimal_digits(index.neuron as nat);
    let p = a.len() as int;
    assert(crate::text::single_occurrence_at(s, '_', p)) by {
        assert forall|j: int| 0 <= j < s.len() && j != p implies s[j] != '_' by {
            if j < p {
                assert(s[j] == a[j]);
                assert(crate::text::is_digit(a[j]));
            } else {
                assert(s[j] == b[j - p - 1]);
                assert(crate::text::is_digit(b[j - p - 1]));
            }
        }
    }
    assert(occurs_once(s, '_'));
    let q = single_position(s, '_');
    assert(q == p) by {
        assert(crate::text::single_occurrence_at(s, '_', q));
    }
    assert(s.subrange(0, p) =~= a);
    assert(s.subrange(p + 1, s.len() as int) =~= b);
    crate::text::lemma_parse_decimal(index.layer as nat, u32::MAX as nat);
    crate::text::lemma_parse_decimal(index.neuron as nat, u32::MAX as nat);
}

} // verus!
