use deepdecipher::binary::{compress_serialized, decompress_serialized, BinaryError, Graph as TextGraph};
use deepdecipher::data_type::DataTypeDiscriminants;
use deepdecipher::index::Index;
use deepdecipher::metadata::Metadata;
use deepdecipher::neuron_index::{NeuronIndex, NeuronIndexParseError};
use deepdecipher::neuron_store::{count_common, similarity_counts, NeuronStore, NeuronStoreRaw};
use deepdecipher::neuroscope::{
    importance_key, rank_by_importance, NeuroscopeLayerPage, NeuroscopeModelPage, RankedNeuron,
};
use deepdecipher::payload::{Payload, PayloadError, Service, ServiceProvider};
use deepdecipher::token_search::TokenSearchType;
use deepdecipher::validation::{
    missing_items, missing_layer_items, missing_model_items, missing_neuron_items, validate_data,
    DataValidationError, ValidationError,
};

fn test_model() -> Metadata {
    Metadata {
        name: String::from("test"),
        num_layers: 4,
        layer_size: 10,
        activation_function: String::from("test_act"),
        num_total_neurons: 4 * 10,
        num_total_parameters: 500,
        dataset: String::from("test_dataset"),
    }
}

fn neuron(layer: u32, neuron: u32) -> NeuronIndex {
    NeuronIndex { layer, neuron }
}

#[test]
fn missing_items_test() {
    let metadata = test_model();
    let indices = metadata.indices();
    let with_data: Vec<bool> = (0..indices.len()).map(|i| (i * 7 + 3) % 5 < 2).collect();
    let mut model_rows = 0u32;
    let mut layers: Vec<usize> = Vec::new();
    let mut neurons: Vec<NeuronIndex> = Vec::new();
    for (index, &has) in indices.iter().zip(with_data.iter()) {
        if has {
            match *index {
                Index::Model => model_rows += 1,
                Index::Layer(l) => layers.push(l as usize),
                Index::Neuron(l, n) => neurons.push(neuron(l, n)),
            }
        }
    }
    let missing = missing_items(&metadata, model_rows, &layers, &neurons).unwrap();
    let exists: Vec<bool> = indices.iter().map(|index| !missing.contains(index)).collect();
    assert_eq!(with_data, exists);
}

#[test]
fn missing_items_in_order() {
    let metadata = test_model();
    assert_eq!(missing_model_items(0), Ok(vec![Index::Model]));
    assert_eq!(missing_model_items(1), Ok(vec![]));
    assert_eq!(missing_model_items(2), Err(ValidationError::MultipleModelData(2)));
    assert_eq!(missing_layer_items(4, &[0, 2]), vec![Index::Layer(1), Index::Layer(3)]);
    let all_but_two: Vec<NeuronIndex> =
        NeuronIndex::iter(4, 10).into_iter().filter(|n| *n != neuron(1, 3) && *n != neuron(3, 9)).collect();
    assert_eq!(
        missing_neuron_items(&metadata, &all_but_two),
        vec![Index::Neuron(1, 3), Index::Neuron(3, 9)]
    );
    assert_eq!(
        missing_items(&metadata, 3, &[], &[]),
        Err(ValidationError::MultipleModelData(3))
    );
}

#[test]
fn data_validation_by_kind() {
    let metadata = test_model();
    let all_neurons = NeuronIndex::iter(4, 10);
    assert_eq!(validate_data(DataTypeDiscriminants::Neuron2Graph, &metadata, 0, &[], &all_neurons), Ok(Ok(())));
    assert_eq!(
        validate_data(DataTypeDiscriminants::NeuronStore, &metadata, 0, &[], &all_neurons),
        Ok(Err(DataValidationError::MissingItems { missing_items: vec![Index::Model] }))
    );
    let neuroscope = validate_data(DataTypeDiscriminants::Neuroscope, &metadata, 1, &[0, 1, 2], &all_neurons);
    assert_eq!(
        neuroscope,
        Ok(Err(DataValidationError::MissingItems { missing_items: vec![Index::Layer(3)] }))
    );
    assert_eq!(validate_data(DataTypeDiscriminants::Json, &metadata, 5, &[], &[]), Ok(Ok(())));
    assert_eq!(
        validate_data(DataTypeDiscriminants::NeuronStore, &metadata, 2, &[], &all_neurons),
        Err(ValidationError::MultipleModelData(2))
    );
}

#[test]
fn compression_roundtrip() {
    let data: Vec<u8> = (0..1000u32).map(|i| (i % 7) as u8).collect();
    let compressed = compress_serialized(&data).unwrap();
    assert_ne!(compressed, data);
    assert_eq!(decompress_serialized(&compressed), Ok(data));
    assert_eq!(decompress_serialized(&[0xff, 0xff, 0xff]), Err(BinaryError::Decompress));
}

#[test]
fn text_graph_roundtrip() {
    let graph = TextGraph { graph: String::from("digraph { 0 -> 1 } ü") };
    let bytes = graph.to_binary().unwrap();
    assert_eq!(TextGraph::from_binary(&bytes).unwrap().graph, graph.graph);
    let not_text = compress_serialized(&[0xc3, 0x28]).unwrap();
    assert_eq!(TextGraph::from_binary(&not_text).unwrap_err(), BinaryError::NotUtf8);
}

#[test]
fn payload_services() {
    let mut payload = Payload::initialize();
    assert_eq!(payload.services().len(), 1);
    assert_eq!(payload.metadata_service().name(), "metadata");
    assert_eq!(payload.metadata_service().provider(), ServiceProvider::Metadata);
    assert_eq!(
        payload.add_service(Service::new(String::from("metadata"), ServiceProvider::Neuroscope)),
        Err(PayloadError::MetadataServiceExists)
    );
    assert_eq!(payload.add_service(Service::new(String::from("graphs"), ServiceProvider::Neuron2Graph)), Ok(()));
    assert_eq!(
        payload.add_service(Service::new(String::from("graphs"), ServiceProvider::Neuroscope)),
        Err(PayloadError::ServiceExists(String::from("graphs")))
    );
    let found = payload.service("graphs").unwrap();
    assert_eq!(found.provider(), ServiceProvider::Neuron2Graph);
    assert!(payload.service("neuroscope").is_none());
    assert_eq!(payload.services().len(), 2);
}

#[test]
fn default_payload_services() {
    let payload = Payload::default();
    let mut names: Vec<&str> = payload.services().iter().map(|s| s.name()).collect();
    names.sort();
    assert_eq!(names, vec!["metadata", "neuron2graph", "neuron2graph-search", "neuroscope"]);
    assert_eq!(payload.service("neuron2graph-search").unwrap().provider(), ServiceProvider::Neuron2GraphSearch);
}

fn ranked(values: &[(u32, u32, f32)]) -> Vec<RankedNeuron> {
    values.iter().map(|&(l, n, v)| (neuron(l, n), v.to_bits())).collect()
}

#[test]
fn importance_keys_order_like_total_cmp() {
    let values = [f32::NEG_INFINITY, -2.5, -0.0, 0.0, 1e-30, 3.0, f32::INFINITY, f32::NAN];
    for a in values {
        for b in values {
            assert_eq!(importance_key(a.to_bits()).cmp(&importance_key(b.to_bits())), a.total_cmp(&b));
        }
    }
}

#[test]
fn pages_rank_neurons_least_important_first() {
    let layer = NeuroscopeLayerPage::new(ranked(&[(0, 0, 3.0), (0, 1, -1.0), (0, 2, 0.5)]));
    assert_eq!(layer.num_neurons(), 3);
    assert_eq!(layer.important_neurons().to_vec(), ranked(&[(0, 1, -1.0), (0, 2, 0.5), (0, 0, 3.0)]));
    let other = NeuroscopeLayerPage::new(ranked(&[(1, 0, 0.0), (1, 1, 10.0)]));
    let model = NeuroscopeModelPage::from_layer_pages(&vec![layer, other]);
    assert_eq!(
        model.important_neurons().to_vec(),
        ranked(&[(0, 1, -1.0), (1, 0, 0.0), (0, 2, 0.5), (0, 0, 3.0), (1, 1, 10.0)])
    );
    let direct = NeuroscopeModelPage::new(ranked(&[(2, 2, 2.0), (2, 1, 1.0)]));
    assert_eq!(direct.important_neurons().to_vec(), ranked(&[(2, 1, 1.0), (2, 2, 2.0)]));
    assert_eq!(rank_by_importance(vec![]), vec![]);
}

fn raw_store() -> NeuronStoreRaw {
    NeuronStoreRaw::new(
        vec![
            (String::from("the"), vec![String::from("0_1"), String::from("1_0")]),
            (String::from("cat"), vec![String::from("0_1")]),
        ],
        vec![(String::from("dog"), vec![String::from("1_1"), String::from("0_1")])],
    )
    .unwrap()
}

#[test]
fn neuron_store_reads_raw_entries() {
    let store = NeuronStore::from_raw(raw_store(), 2, 2).unwrap();
    let the = store.get(TokenSearchType::Activating, "the").unwrap();
    assert_eq!(the.len(), 2);
    assert!(the.contains(&neuron(0, 1)) && the.contains(&neuron(1, 0)));
    assert!(store.get(TokenSearchType::Important, "the").is_none());
    assert_eq!(store.get(TokenSearchType::Important, "dog").unwrap().len(), 2);
    let lists = store.neuron_token_lists(TokenSearchType::Activating).unwrap();
    assert_eq!(lists, vec![vec![], vec![0, 1], vec![0], vec![]]);
}

#[test]
fn neuron_store_rejects_bad_entries() {
    assert!(NeuronStoreRaw::new(
        vec![(String::from("a"), vec![]), (String::from("a"), vec![])],
        vec![]
    )
    .is_none());
    let bad = NeuronStoreRaw::new(vec![(String::from("a"), vec![String::from("x_1")])], vec![]).unwrap();
    assert_eq!(
        NeuronStore::from_raw(bad, 2, 2).unwrap_err(),
        NeuronIndexParseError::InvalidLayer(String::from("x"))
    );
}

#[test]
fn common_tokens_of_sorted_lists() {
    assert_eq!(count_common(&[1, 3, 5, 7], &[2, 3, 4, 7, 9]), 2);
    assert_eq!(count_common(&[], &[1]), 0);
    let activating = vec![vec![0, 1, 2], vec![1, 2, 3], vec![]];
    let important = vec![vec![5], vec![5, 6], vec![6]];
    assert_eq!(similarity_counts(&activating, &important, 0, 1), (3, 3 + 2));
    assert_eq!(similarity_counts(&activating, &important, 0, 2), (0, 0 + 1));
}
