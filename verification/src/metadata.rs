//! What describes a model: its name, its shape and how it was trained.

use vstd::prelude::*;

use crate::index::Index;
use crate::neuron_index::{neuron_grid, NeuronIndex};

verus! {

/// The description of a model.
#[derive(Clone, Debug)]
pub struct Metadata {
    pub name: String,
    pub num_layers: u32,
    pub layer_size: u32,
    pub activation_function: String,
    pub num_total_neurons: u32,
    pub num_total_parameters: u32,
    pub dataset: String,
}

/// The index of a layer.
pub open spec fn layer_index_of(l: int) -> Index {
    Index::Layer(l as u32)
}

/// The index of a neuron.
pub open spec fn neuron_index_of(n: NeuronIndex) -> Index {
    Index::Neuron(n.layer, n.neuron)
}

/// Every index of a model: the model, then each layer, then each neuron in
/// flat order.
pub open spec fn model_indices(num_layers: u32, layer_size: u32) -> Seq<Index> {
    seq![Index::Model] + Seq::new(num_layers as nat, |l: int| layer_index_of(l)) + neuron_grid(
        num_layers as nat,
        layer_size,
    ).map_values(|n: NeuronIndex| neuron_index_of(n))
}

/// A model's metadata together with the names of the services available for
/// it.
#[derive(Clone, Debug)]
pub struct MetadataObject {
    pub metadata: Metadata,
    pub available_services: Vec<String>,
}

impl MetadataObject {
    /// The metadata object of a model with the given available services.
    pub fn new(metadata: Metadata, available_services: Vec<String>) -> (r: Self)
        ensures
            r.metadata == metadata,
            r.available_services@ == available_services@,
    {
        MetadataObject { metadata, available_services }
    }
}

impl Metadata {
    /// The metadata of a stored model: its number of neurons is the product
    /// of its number of layers and its layer size.
    pub fn from_stored(
        name: String,
        num_layers: u32,
        layer_size: u32,
        activation_function: String,
        num_total_parameters: u32,
        dataset: String,
    ) -> (r: Self)
        requires
            num_layers * layer_size <= u32::MAX,
        ensures
            r.name@ == name@,
            r.num_layers == num_layers,
            r.layer_size == layer_size,
            r.activation_function@ == activation_function@,
            r.num_total_neurons == num_layers * layer_size,
            r.num_total_parameters == num_total_parameters,
            r.dataset@ == dataset@,
    {
        Metadata {
            name,
            num_layers,
            layer_size,
            activation_function,
            num_total_neurons: num_layers * layer_size,
            num_total_parameters,
            dataset,
        }
    }

    /// All neurons of the model, layer by layer.
    pub fn neuron_indices(&self) -> (r: Vec<NeuronIndex>)
        ensures
            r@ == neuron_grid(self.num_layers as nat, self.layer_size),
    {
        NeuronIndex::iter(self.num_layers, self.layer_size)
    }

    /// Every index of the model: the model itself, each layer, then each
    /// neuron.
    pub fn indices(&self) -> (r: Vec<Index>)
        ensures
            r@ == model_indices(self.num_layers, self.layer_size),
    {
        let mut r: Vec<Index> = Vec::new();
        r.push(Index::Model);
        let mut layer: u32 = 0;
        while layer < self.num_layers
            invariant
                layer <= self.num_layers,
                r@ == seq![Index::Model] + Seq::new(layer as nat, |l: int| layer_index_of(l)),
            decreases self.num_layers - layer,
        {
            r.push(Index::Layer(layer));
            assert(Seq::new((layer + 1) as nat, |l: int| layer_index_of(l)) =~= Seq::new(
                layer as nat,
                |l: int| layer_index_of(l),
            ).push(Index::Layer(layer)));
            layer = layer + 1;
        }
        let neurons = self.neuron_indices();
        let ghost prefix = r@;
        let mut i: usize = 0;
        while i < neurons.len()
            invariant
                i <= neurons@.len(),
                neurons@ == neuron_grid(self.num_layers as nat, self.layer_size),
                prefix == seq![Index::Model] + Seq::new(
                    self.num_layers as nat,
                    |l: int| layer_index_of(l),
                ),
                r@ == prefix + neurons@.take(i as int).map_values(
                    |n: NeuronIndex| neuron_index_of(n),
                ),
            decreases neurons.len() - i,
        {
            let n = neurons[i];
            r.push(Index::from(n));
            assert(neurons@.take(i + 1) =~= neurons@.take(i as int).push(n));
            assert(neurons@.take(i + 1).map_values(|n: NeuronIndex| neuron_index_of(n))
                =~= neurons@.take(i as int).map_values(|n: NeuronIndex| neuron_index_of(n)).push(
                neuron_index_of(n),
            ));
            i = i + 1;
        }
        assert(neurons@.take(i as int) =~= neurons@);
        r
    }
}

} // verus!
