//! The records of the neuron viewer: the tokens of an activation record, and
//! the neuron a record belongs to. The activations are half-precision floats
//! and stay with the caller.

use vstd::prelude::*;

verus! {

/// A token of a neuron viewer activation record, by its id.
#[derive(Clone, Debug)]
pub struct Token {
    pub token_id: String,
}

/// The neuron a neuron viewer record belongs to.
#[derive(Clone, Copy, Debug, PartialEq, Eq, Structural)]
pub struct NeuronId {
    pub layer_index: u32,
    pub neuron_index: u32,
}

impl NeuronId {
    /// The neuron of the given layer and neuron numbers, each cut to its
    /// low 32 bits.
    pub fn from_indices(layer_index: u64, neuron_index: u64) -> (r: Self)
        ensures
            r.layer_index == layer_index as u32,
            r.neuron_index == neuron_index as u32,
    {
        NeuronId {
            layer_index: #[verifier::truncate] (layer_index as u32),
            neuron_index: #[verifier::truncate] (neuron_index as u32),
        }
    }
}

} // verus!
