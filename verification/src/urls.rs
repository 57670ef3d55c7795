//! Where a neuron's pages are found: on the web and on disk.

use vstd::prelude::*;

use crate::neuron_index::NeuronIndex;
use crate::text::{decimal, path_join, push_decimal, push_path_component, str_equals};

verus! {

/// Why no neuron explainer page can be fetched for a model.
#[derive(Debug, Clone, PartialEq, Eq)]
pub enum ModelUrlError {
    /// Only `gpt2-small` and `gpt2-xl` have neuron explainer pages; the model
    /// name given is kept.
    UnsupportedModel(String),
}

/// `{base}{layer}/{neuron}{suffix}`.
pub open spec fn neuron_address(base: Seq<char>, index: NeuronIndex, suffix: Seq<char>) -> Seq<
    char,
> {
    base + decimal(index.layer as nat) + seq!['/'] + decimal(index.neuron as nat) + suffix
}

/// The address of a GPT-2 small neuron's explanation.
pub open spec fn small_url_spec(index: NeuronIndex) -> Seq<char> {
    neuron_address(
        "https://openaipublic.blob.core.windows.net/neuron-explainer/gpt2_small_data/explanations/"@,
        index,
        ".jsonl"@,
    )
}

/// The address of a GPT-2 XL neuron's explanation.
pub open spec fn xl_url_spec(index: NeuronIndex) -> Seq<char> {
    neuron_address(
        "https://openaipublic.blob.core.windows.net/neuron-explainer/data/explanations/"@,
        index,
        ".jsonl"@,
    )
}

/// Appends `{layer}/{neuron}` to `out`.
fn push_layer_slash_neuron(out: &mut String, index: NeuronIndex)
    ensures
        final(out)@ == old(out)@ + decimal(index.layer as nat) + seq!['/'] + decimal(
            index.neuron as nat,
        ),
{
    proof {
        reveal_strlit("/");
    }
    push_decimal(out, index.layer as u64);
    out.append("/");
    push_decimal(out, index.neuron as u64);
}

/// The address of a GPT-2 small neuron's explanation.
pub fn small_url(index: NeuronIndex) -> (r: String)
    ensures
        r@ == small_url_spec(index),
{
    let mut r =
        "https://openaipublic.blob.core.windows.net/neuron-explainer/gpt2_small_data/explanations/".to_owned();
    push_layer_slash_neuron(&mut r, index);
    r.append(".jsonl");
    r
}

/// The address of a GPT-2 XL neuron's explanation.
pub fn xl_url(index: NeuronIndex) -> (r: String)
    ensures
        r@ == xl_url_spec(index),
{
    let mut r =
        "https://openaipublic.blob.core.windows.net/neuron-explainer/data/explanations/".to_owned();
    push_layer_slash_neuron(&mut r, index);
    r.append(".jsonl");
    r
}

/// The address of a neuron's explanation for the models that have them:
/// `gpt2-small` and `gpt2-xl`.
pub fn model_url(model_name: &str, index: NeuronIndex) -> (r: Result<String, ModelUrlError>)
    ensures
        model_name@ == "gpt2-small"@ ==> (r matches Ok(u) && u@ == small_url_spec(index)),
        model_name@ == "gpt2-xl"@ ==> (r matches Ok(u) && u@ == xl_url_spec(index)),
        model_name@ != "gpt2-small"@ && model_name@ != "gpt2-xl"@ ==> (r matches Err(
            ModelUrlError::UnsupportedModel(name),
        ) && name@ == model_name@),
{
    proof {
        reveal_strlit("gpt2-small");
        reveal_strlit("gpt2-xl");
    }
    assert("gpt2-small"@.len() == 10 && "gpt2-xl"@.len() == 7);
    if str_equals(model_name, "gpt2-small") {
        Ok(small_url(index))
    } else if str_equals(model_name, "gpt2-xl") {
        Ok(xl_url(index))
    } else {
        Err(ModelUrlError::UnsupportedModel(model_name.to_owned()))
    }
}

/// The address of a neuron's page on neuroscope.io.
pub fn neuron_page_url(model: &str, neuron_index: NeuronIndex) -> (r: String)
    ensures
        r@ == neuron_address("https://neuroscope.io/"@ + model@ + seq!['/'], neuron_index, ".html"@),
{
    proof {
        reveal_strlit("/");
    }
    let mut r = "https://neuroscope.io/".to_owned();
    r.append(model);
    r.append("/");
    push_layer_slash_neuron(&mut r, neuron_index);
    r.append(".html");
    r
}

/// Where a neuron's graph lies below `root`: `root/{layer}_{neuron}/graph`.
pub fn neuron_path(root: &str, neuron_index: NeuronIndex) -> (r: String)
    ensures
        r@ == path_join(
            path_join(
                root@,
                decimal(neuron_index.layer as nat) + seq!['_'] + decimal(
                    neuron_index.neuron as nat,
                ),
            ),
            "graph"@,
        ),
{
    proof {
        reveal_strlit("_");
    }
    let mut name = String::new();
    push_decimal(&mut name, neuron_index.layer as u64);
    name.append("_");
    push_decimal(&mut name, neuron_index.neuron as u64);
    let mut r = root.to_owned();
    push_path_component(&mut r, name.as_str());
    push_path_component(&mut r, "graph");
    r
}

} // verus!
