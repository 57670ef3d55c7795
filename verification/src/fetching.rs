//! The decisions of fetching a model's pages from the web: which models the
//! neuron explainer pages exist for and what shape those models have, and
//! how often a failed page is fetched again.

use vstd::prelude::*;

use crate::metadata::Metadata;

verus! {

/// How often a page whose fetch failed is fetched again.
pub const RETRY_LIMIT: u32 = 5;

/// What to do after a fetch failed.
#[derive(Debug, Clone, Copy, PartialEq, Eq, Structural)]
pub enum RetryDecision {
    /// Fetch again; this is the number of retries made after it.
    Retry(u32),
    /// Stop and report the failure.
    GiveUp,
}

/// After a failed fetch that followed `retries` retries: give up once the
/// limit of retries is reached, else retry once more.
pub fn after_failure(retries: u32) -> (r: RetryDecision)
    requires
        retries <= RETRY_LIMIT,
    ensures
        retries == RETRY_LIMIT ==> r == RetryDecision::GiveUp,
        retries < RETRY_LIMIT ==> r == RetryDecision::Retry((retries + 1) as u32),
{
    if retries == RETRY_LIMIT {
        RetryDecision::GiveUp
    } else {
        RetryDecision::Retry(retries + 1)
    }
}

/// The models that the neuron explainer has pages for.
#[derive(Debug, Clone, Copy, PartialEq, Eq, Structural)]
pub enum ExplainerModel {
    /// GPT-2 small: 12 layers of 3072 neurons.
    Small,
    /// GPT-2 XL: 48 layers of 6400 neurons.
    Xl,
}

/// The number of layers of an explainer model.
pub open spec fn explainer_num_layers(model: ExplainerModel) -> u32 {
    match model {
        ExplainerModel::Small => 12,
        ExplainerModel::Xl => 48,
    }
}

/// The number of neurons per layer of an explainer model.
pub open spec fn explainer_layer_size(model: ExplainerModel) -> u32 {
    match model {
        ExplainerModel::Small => 3072,
        ExplainerModel::Xl => 6400,
    }
}

/// Why a model cannot take the neuron explainer pages of a GPT-2 model.
#[derive(Debug, Clone, Copy, PartialEq, Eq, Structural)]
pub enum ShapeError {
    /// The model has this number of layers, not that of the GPT-2 model.
    WrongNumLayers(u32),
    /// The model has this layer size, not that of the GPT-2 model.
    WrongLayerSize(u32),
}

impl ExplainerModel {
    /// The number of layers of the model.
    pub fn num_layers(&self) -> (r: u32)
        ensures
            r == explainer_num_layers(*self),
    {
        match self {
            ExplainerModel::Small => 12,
            ExplainerModel::Xl => 48,
        }
    }

    /// The number of neurons per layer of the model.
    pub fn layer_size(&self) -> (r: u32)
        ensures
            r == explainer_layer_size(*self),
    {
        match self {
            ExplainerModel::Small => 3072,
            ExplainerModel::Xl => 6400,
        }
    }

    /// Checks that a model of the given metadata has the shape of this
    /// GPT-2 model: first its number of layers, then its layer size.
    pub fn check_shape(&self, metadata: &Metadata) -> (r: Result<(), ShapeError>)
        ensures
            metadata.num_layers != explainer_num_layers(*self) ==> r == Err::<(), ShapeError>(
                ShapeError::WrongNumLayers(metadata.num_layers),
            ),
            metadata.num_layers == explainer_num_layers(*self) && metadata.layer_size
                != explainer_layer_size(*self) ==> r == Err::<(), ShapeError>(
                ShapeError::WrongLayerSize(metadata.layer_size),
            ),
            metadata.num_layers == explainer_num_layers(*self) && metadata.layer_size
                == explainer_layer_size(*self) ==> r == Ok::<(), ShapeError>(()),
    {
        if metadata.num_layers != self.num_layers() {
            Err(ShapeError::WrongNumLayers(metadata.num_layers))
        } else if metadata.layer_size != self.layer_size() {
            Err(ShapeError::WrongLayerSize(metadata.layer_size))
        } else {
            Ok(())
        }
    }
}

} // verus!
