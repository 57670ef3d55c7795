//! What a piece of neuron data belongs to: the whole model, one layer, or one
//! neuron.

use vstd::prelude::*;

use crate::metadata::Metadata;
use crate::neuron_index::NeuronIndex;
use crate::text::{decimal, push_decimal};

verus! {

/// The part of a model that a piece of data describes.
#[derive(Clone, Copy, Debug, PartialEq, Eq, Structural, Hash)]
pub enum Index {
    Model,
    Layer(u32),
    Neuron(u32, u32),
}

/// Why an index does not lie within a model.
#[derive(Debug, PartialEq, Eq)]
pub enum IndexError {
    /// The layer index is not below the model's number of layers.
    LayerOutOfRange { layer_index: u32, model_name: String, num_layers: u32 },
    /// The neuron index is not below the model's layer size.
    NeuronOutOfRange { neuron_index: u32, model_name: String, layer_size: u32 },
}

/// The kind of error that `valid_in_model` gives, with its numbers.
pub enum IndexErrorKind {
    LayerOutOfRange { layer_index: u32, num_layers: u32 },
    NeuronOutOfRange { neuron_index: u32, layer_size: u32 },
}

/// The outcome of checking `index` against a model with `num_layers` layers
/// of `layer_size` neurons: `None` where the index lies within the model.
pub open spec fn index_check(index: Index, num_layers: u32, layer_size: u32) -> Option<
    IndexErrorKind,
> {
    match index {
        Index::Model => None,
        Index::Layer(l) => if l >= num_layers {
            Some(IndexErrorKind::LayerOutOfRange { layer_index: l, num_layers })
        } else {
            None
        },
        Index::Neuron(l, n) => if l >= num_layers {
            Some(IndexErrorKind::LayerOutOfRange { layer_index: l, num_layers })
        } else if n >= layer_size {
            Some(IndexErrorKind::NeuronOutOfRange { neuron_index: n, layer_size })
        } else {
            None
        },
    }
}

/// The error agrees with the expected kind and names the model.
pub open spec fn error_matches(e: IndexError, kind: IndexErrorKind, model_name: Seq<char>) -> bool {
    match (e, kind) {
        (
            IndexError::LayerOutOfRange { layer_index, model_name: name, num_layers },
            IndexErrorKind::LayerOutOfRange { layer_index: l, num_layers: nl },
        ) => layer_index == l && num_layers == nl && name@ == model_name,
        (
            IndexError::NeuronOutOfRange { neuron_index, model_name: name, layer_size },
            IndexErrorKind::NeuronOutOfRange { neuron_index: n, layer_size: ls },
        ) => neuron_index == n && layer_size == ls && name@ == model_name,
        _ => false,
    }
}

/// How an index is named in messages.
pub open spec fn index_description(index: Index) -> Seq<char> {
    match index {
        Index::Model => seq!['m', 'o', 'd', 'e', 'l'],
        Index::Layer(l) => seq!['l', 'a', 'y', 'e', 'r', ' '] + decimal(l as nat),
        Index::Neuron(l, n) => seq!['n', 'e', 'u', 'r', 'o', 'n', ' ', 'l'] + decimal(l as nat)
            + seq!['n'] + decimal(n as nat),
    }
}

/// An index lies within a model exactly when its layer is below the
/// model's number of layers and its neuron below the layer size; a layer the
/// model does not have is the error, whether the index is a layer or a
/// neuron in it, and otherwise a neuron beyond the layer size is.
pub proof fn law_valid_indices_lie_within_model(index: Index, num_layers: u32, layer_size: u32)
    ensures
        index_check(index, num_layers, layer_size) is None <==> match index {
            Index::Model => true,
            Index::Layer(l) => l < num_layers,
            Index::Neuron(l, n) => l < num_layers && n < layer_size,
        },
        match index {
            Index::Layer(l) => l >= num_layers ==> index_check(index, num_layers, layer_size)
                == Some(IndexErrorKind::LayerOutOfRange { layer_index: l, num_layers }),
            Index::Neuron(l, n) => {
                &&& l >= num_layers ==> index_check(index, num_layers, layer_size) == Some(
                    IndexErrorKind::LayerOutOfRange { layer_index: l, num_layers },
                )
                &&& l < num_layers && n >= layer_size ==> index_check(index, num_layers, layer_size)
                    == Some(IndexErrorKind::NeuronOutOfRange { neuron_index: n, layer_size })
            },
            Index::Model => true,
        },
{
}

impl Index {
    pub fn model() -> (r: Self)
        ensures
            r == Index::Model,
    {
        Self::Model
    }

    pub fn layer(layer_index: u32) -> (r: Self)
        ensures
            r == Index::Layer(layer_index),
    {
        Self::Layer(layer_index)
    }

    pub fn neuron(layer_index: u32, neuron_index: u32) -> (r: Self)
        ensures
            r == Index::Neuron(layer_index, neuron_index),
    {
        Self::Neuron(layer_index, neuron_index)
    }

    /// The neuron with the given flat index, as an index.
    pub fn from_flat_neuron_index(layer_size: u32, flat_index: usize) -> (r: Self)
        requires
            layer_size > 0,
        ensures
            r == Index::Neuron(
                (flat_index as u32) / layer_size,
                (flat_index as u32) % layer_size,
            ),
    {
        let index = NeuronIndex::from_flat_index(layer_size, flat_index);
        Self::Neuron(index.layer, index.neuron)
    }

    /// Checks that the index lies within the model that `metadata` describes:
    /// its layer is below the number of layers and its neuron below the layer
    /// size.
    pub fn valid_in_model(self, metadata: &Metadata) -> (r: Result<(), IndexError>)
        ensures
            r is Ok <==> index_check(self, metadata.num_layers, metadata.layer_size) is None,
            r matches Err(e) ==> error_matches(
                e,
                index_check(self, metadata.num_layers, metadata.layer_size).unwrap(),
                metadata.name@,
            ),
            r is Ok <==> match self {
                Index::Model => true,
                Index::Layer(l) => l < metadata.num_layers,
                Index::Neuron(l, n) => l < metadata.num_layers && n < metadata.layer_size,
            },
    {
        proof {
            law_valid_indices_lie_within_model(self, metadata.num_layers, metadata.layer_size);
        }
        let num_layers = metadata.num_layers;
        let layer_size = metadata.layer_size;
        match self {
            Self::Model => Ok(()),
            Self::Layer(layer_index) => {
                if layer_index >= num_layers {
                    Err(
                        IndexError::LayerOutOfRange {
                            layer_index,
                            model_name: metadata.name.clone(),
                            num_layers,
                        },
                    )
                } else {
                    Ok(())
                }
            },
            Self::Neuron(layer_index, neuron_index) => {
                if layer_index >= num_layers {
                    Err(
                        IndexError::LayerOutOfRange {
                            layer_index,
                            model_name: metadata.name.clone(),
                            num_layers,
                        },
                    )
                } else if neuron_index >= layer_size {
                    Err(
                        IndexError::NeuronOutOfRange {
                            neuron_index,
                            model_name: metadata.name.clone(),
                            layer_size,
                        },
                    )
                } else {
                    Ok(())
                }
            },
        }
    }

    /// How the index is named in messages: `model`, `layer 3` or
    /// `neuron l3n7`.
    pub fn error_string(self) -> (r: String)
        ensures
            r@ == index_description(self),
    {
        match self {
            Self::Model => {
                proof {
                    reveal_strlit("model");
                }
                "model".to_owned()
            },
            Self::Layer(layer_index) => {
                proof {
                    reveal_strlit("layer ");
                }
                let mut r = "layer ".to_owned();
                push_decimal(&mut r, layer_index as u64);
                r
            },
            Self::Neuron(layer_index, neuron_index) => {
                proof {
                    reveal_strlit("neuron l");
                    reveal_strlit("n");
                }
                let mut r = "neuron l".to_owned();
                push_decimal(&mut r, layer_index as u64);
                r.append("n");
                push_decimal(&mut r, neuron_index as u64);
                r
            },
        }
    }
}

impl IndexError {
    /// The message that describes the error.
    pub fn message(&self) -> (r: String)
        ensures
            r@ == match self {
                IndexError::LayerOutOfRange { layer_index, model_name, num_layers } => seq![
                    'L',
                    'a',
                    'y',
                    'e',
                    'r',
                    ' ',
                    'i',
                    'n',
                    'd',
                    'e',
                    'x',
                    ' ',
                    'i',
                    's',
                    ' ',
                ] + decimal(*layer_index as nat) + " but model '"@ + model_name@ + "' only has "@
                    + decimal(*num_layers as nat) + " layers."@,
                IndexError::NeuronOutOfRange { neuron_index, model_name, layer_size } => "Neuron index is "@
                    + decimal(*neuron_index as nat) + " but model '"@ + model_name@
                    + "' only has "@ + decimal(*layer_size as nat) + " neurons per layer."@,
            },
    {
        match self {
            IndexError::LayerOutOfRange { layer_index, model_name, num_layers } => {
                proof {
                    reveal_strlit("Layer index is ");
                }
                let mut r = "Layer index is ".to_owned();
                push_decimal(&mut r, *layer_index as u64);
                r.append(" but model '");
                r.append(model_name.as_str());
                r.append("' only has ");
                push_decimal(&mut r, *num_layers as u64);
                r.append(" layers.");
                r
            },
            IndexError::NeuronOutOfRange { neuron_index, model_name, layer_size } => {
                let mut r = "Neuron index is ".to_owned();
                push_decimal(&mut r, *neuron_index as u64);
                r.append(" but model '");
                r.append(model_name.as_str());
                r.append("' only has ");
                push_decimal(&mut r, *layer_size as u64);
                r.append(" neurons per layer.");
                r
            },
        }
    }
}

impl From<NeuronIndex> for Index {
    fn from(value: NeuronIndex) -> (r: Self) {
        Index::Neuron(value.layer, value.neuron)
    }
}

impl vstd::std_specs::convert::FromSpecImpl<NeuronIndex> for Index {
    open spec fn obeys_from_spec() -> bool {
        true
    }

    open spec fn from_spec(v: NeuronIndex) -> Self {
        Index::Neuron(v.layer, v.neuron)
    }
}

} // verus!
