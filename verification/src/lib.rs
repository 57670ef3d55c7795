//! Neuron interpretability data: indices into transformer models, the model
//! metadata that bounds them, the services and data types that a database of
//! neuron pages is organised by, and the binary and textual formats of those
//! pages.

pub mod text;
pub mod neuron_index;
pub mod index;
pub mod metadata;
pub mod data_type;
pub mod token_search;
pub mod cli;
pub mod payload;
pub mod urls;
pub mod logging;
pub mod token_dictionary;
pub mod validation;
pub mod binary;
pub mod neuroscope;
pub mod neuron2graph;
pub mod dot_file;
pub mod neuron_store;
pub mod pattern;
pub mod neuron_page;
pub mod model_table;
pub mod fetching;
pub mod neuron_viewer;
pub mod activations;
