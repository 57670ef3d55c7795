use deepdecipher::index::{Index, IndexError};
use deepdecipher::metadata::Metadata;
use deepdecipher::neuron_index::{NeuronIndex, NeuronIndexParseError};

fn model(num_layers: u32, layer_size: u32) -> Metadata {
    Metadata {
        name: String::from("test"),
        num_layers,
        layer_size,
        activation_function: String::from("test_act"),
        num_total_neurons: num_layers * layer_size,
        num_total_parameters: 500,
        dataset: String::from("test_dataset"),
    }
}

#[test]
fn flat_index_splits_into_layer_and_neuron() {
    let index = NeuronIndex::from_flat_index(3072, 7000);
    assert_eq!(index, NeuronIndex { layer: 2, neuron: 856 });
    assert_eq!(index.flat_index(3072), 7000);
}

#[test]
fn flat_index_roundtrip_on_every_neuron() {
    for index in NeuronIndex::iter(4, 10) {
        let flat = index.flat_index(10);
        assert_eq!(NeuronIndex::from_flat_index(10, flat), index);
    }
}

#[test]
fn iter_goes_layer_by_layer() {
    let all = NeuronIndex::iter(2, 3);
    let expected: Vec<NeuronIndex> = vec![
        NeuronIndex { layer: 0, neuron: 0 },
        NeuronIndex { layer: 0, neuron: 1 },
        NeuronIndex { layer: 0, neuron: 2 },
        NeuronIndex { layer: 1, neuron: 0 },
        NeuronIndex { layer: 1, neuron: 1 },
        NeuronIndex { layer: 1, neuron: 2 },
    ];
    assert_eq!(all, expected);
    assert!(NeuronIndex::iter(0, 5).is_empty());
    assert!(NeuronIndex::iter(5, 0).is_empty());
}

#[test]
fn neuron_index_is_written_layer_underscore_neuron() {
    let index = NeuronIndex { layer: 3, neuron: 1024 };
    assert_eq!(index.to_string(), "l3n1024");
    assert_eq!(NeuronIndex::parse("3_1024"), Ok(index));
    assert_eq!("3_1024".parse::<NeuronIndex>(), Ok(index));
}

#[test]
fn written_neuron_index_reads_back() {
    for index in [
        NeuronIndex { layer: 0, neuron: 0 },
        NeuronIndex { layer: 47, neuron: 6399 },
        NeuronIndex { layer: u32::MAX, neuron: u32::MAX },
    ] {
        let written = format!("{}_{}", index.layer, index.neuron);
        assert_eq!(NeuronIndex::parse(&written), Ok(index));
    }
}

#[test]
fn neuron_index_parse_errors() {
    assert_eq!(NeuronIndex::parse("3-1024"), Err(NeuronIndexParseError::NotLayerUnderscoreNeuron));
    assert_eq!(NeuronIndex::parse("1_2_3"), Err(NeuronIndexParseError::NotLayerUnderscoreNeuron));
    assert_eq!(NeuronIndex::parse("a_1"), Err(NeuronIndexParseError::InvalidLayer(String::from("a"))));
    assert_eq!(NeuronIndex::parse("1_b"), Err(NeuronIndexParseError::InvalidNeuron(String::from("b"))));
    assert_eq!(NeuronIndex::parse("_1"), Err(NeuronIndexParseError::InvalidLayer(String::new())));
    assert_eq!(
        NeuronIndex::parse("4294967296_0"),
        Err(NeuronIndexParseError::InvalidLayer(String::from("4294967296")))
    );
    assert_eq!(NeuronIndex::parse("+1_+2"), Ok(NeuronIndex { layer: 1, neuron: 2 }));
}

#[test]
fn index_constructors() {
    assert_eq!(Index::model(), Index::Model);
    assert_eq!(Index::layer(3), Index::Layer(3));
    assert_eq!(Index::neuron(3, 4), Index::Neuron(3, 4));
    assert_eq!(Index::from(NeuronIndex { layer: 1, neuron: 2 }), Index::Neuron(1, 2));
    assert_eq!(Index::from_flat_neuron_index(10, 23), Index::Neuron(2, 3));
}

#[test]
fn index_error_strings() {
    assert_eq!(Index::Model.error_string(), "model");
    assert_eq!(Index::Layer(3).error_string(), "layer 3");
    assert_eq!(Index::Neuron(3, 7).error_string(), "neuron l3n7");
}

#[test]
fn index_validity_in_model() {
    let metadata = model(4, 10);
    assert_eq!(Index::Model.valid_in_model(&metadata), Ok(()));
    assert_eq!(Index::Layer(3).valid_in_model(&metadata), Ok(()));
    assert_eq!(Index::Neuron(3, 9).valid_in_model(&metadata), Ok(()));
    let layer_error = Index::Layer(4).valid_in_model(&metadata).unwrap_err();
    assert_eq!(
        layer_error,
        IndexError::LayerOutOfRange { layer_index: 4, model_name: String::from("test"), num_layers: 4 }
    );
    assert_eq!(layer_error.message(), "Layer index is 4 but model 'test' only has 4 layers.");
    let neuron_layer_error = Index::Neuron(5, 20).valid_in_model(&metadata).unwrap_err();
    assert_eq!(
        neuron_layer_error,
        IndexError::LayerOutOfRange { layer_index: 5, model_name: String::from("test"), num_layers: 4 }
    );
    let neuron_error = Index::Neuron(1, 10).valid_in_model(&metadata).unwrap_err();
    assert_eq!(
        neuron_error,
        IndexError::NeuronOutOfRange { neuron_index: 10, model_name: String::from("test"), layer_size: 10 }
    );
    assert_eq!(
        neuron_error.message(),
        "Neuron index is 10 but model 'test' only has 10 neurons per layer."
    );
}

#[test]
fn metadata_indices_list_model_layers_neurons() {
    let metadata = model(2, 2);
    assert_eq!(
        metadata.indices(),
        vec![
            Index::Model,
            Index::Layer(0),
            Index::Layer(1),
            Index::Neuron(0, 0),
            Index::Neuron(0, 1),
            Index::Neuron(1, 0),
            Index::Neuron(1, 1),
        ]
    );
    assert_eq!(metadata.neuron_indices(), NeuronIndex::iter(2, 2));
}

#[test]
fn stored_metadata_counts_its_neurons() {
    let metadata = Metadata::from_stored(
        String::from("solu-1l"),
        1,
        2048,
        String::from("solu"),
        3_000_000,
        String::from("pile"),
    );
    assert_eq!(metadata.num_total_neurons, 2048);
    assert_eq!(metadata.num_layers, 1);
    assert_eq!(metadata.layer_size, 2048);
    assert_eq!(metadata.name, "solu-1l");
}
