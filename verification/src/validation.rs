//! Which indices of a model a data type has no data for yet, computed from
//! what the database holds.

use vstd::prelude::*;

use crate::data_type::DataTypeDiscriminants;
use crate::index::Index;
use crate::metadata::{layer_index_of, model_indices, neuron_index_of, Metadata};
use crate::neuron_index::{
    flat_index_spec, law_flat_index_roundtrip, law_flat_position_roundtrip, lemma_neuron_grid,
    neuron_at_flat, neuron_grid, NeuronIndex,
};

verus! {

/// Why the missing items of a model could not be computed.
#[derive(Debug, Clone, Copy, PartialEq, Eq, Structural)]
pub enum ValidationError {
    /// The model holds more than one piece of model data of the data type;
    /// their number is given.
    MultipleModelData(u32),
}

/// The layers below `n` that hold no data, as indices, in order.
pub open spec fn missing_layers_upto(n: nat, existing: Seq<usize>) -> Seq<Index>
    decreases n,
{
    if n == 0 {
        Seq::empty()
    } else {
        missing_layers_upto((n - 1) as nat, existing) + if existing.contains((n - 1) as usize) {
            Seq::empty()
        } else {
            seq![Index::Layer((n - 1) as u32)]
        }
    }
}

/// The flat indices that the existing neurons take.
pub open spec fn existing_flats(existing: Seq<NeuronIndex>, layer_size: u32) -> Seq<int> {
    existing.map_values(|e: NeuronIndex| flat_index_spec(e, layer_size as nat))
}

/// The neurons whose flat index is below `n` and holds no data, as indices,
/// in flat order.
pub open spec fn missing_neurons_upto(n: nat, layer_size: u32, existing: Seq<int>) -> Seq<Index>
    decreases n,
{
    if n == 0 {
        Seq::empty()
    } else {
        missing_neurons_upto((n - 1) as nat, layer_size, existing) + if existing.contains(
            n - 1,
        ) {
            Seq::empty()
        } else {
            seq![
                Index::Neuron(
                    ((n - 1) as u32) / layer_size,
                    ((n - 1) as u32) % layer_size,
                ),
            ]
        }
    }
}

/// What `missing_model_items` gives for the number of model data rows.
pub open spec fn missing_model_spec(num_rows: u32) -> Result<Seq<Index>, ValidationError> {
    if num_rows == 0 {
        Ok(seq![Index::Model])
    } else if num_rows == 1 {
        Ok(Seq::empty())
    } else {
        Err(ValidationError::MultipleModelData(num_rows))
    }
}

/// Every existing neuron lies within the model's flat numbering, and, where
/// the layers are empty, every flat index is taken.
pub open spec fn neuron_rows_fit(metadata: Metadata, existing: Seq<NeuronIndex>) -> bool {
    &&& forall|i: int|
        0 <= i < existing.len() ==> 0 <= #[trigger] flat_index_spec(
            existing[i],
            metadata.layer_size as nat,
        ) < metadata.num_total_neurons
    &&& metadata.layer_size == 0 ==> forall|f: int|
        0 <= f < metadata.num_total_neurons ==> existing_flats(
            existing,
            metadata.layer_size,
        ).contains(f)
}

/// Whether the model data item is missing, given the number of model data
/// rows: none is missing where there is one, and more than one is an error.
pub fn missing_model_items(num_rows: u32) -> (r: Result<Vec<Index>, ValidationError>)
    ensures
        match (r, missing_model_spec(num_rows)) {
            (Ok(v), Ok(s)) => v@ == s,
            (Err(e), Err(f)) => e == f,
            _ => false,
        },
{
    if num_rows == 0 {
        let mut v = Vec::new();
        v.push(Index::Model);
        assert(v@ =~= seq![Index::Model]);
        Ok(v)
    } else if num_rows == 1 {
        Ok(Vec::new())
    } else {
        Err(ValidationError::MultipleModelData(num_rows))
    }
}

/// The layers of a model with `num_layers` layers that hold no data, given
/// the layer indices that hold data.
pub fn missing_layer_items(num_layers: u32, existing: &[usize]) -> (r: Vec<Index>)
    requires
        forall|i: int| 0 <= i < existing@.len() ==> #[trigger] existing@[i] < num_layers,
    ensures
        r@ == missing_layers_upto(num_layers as nat, existing@),
{
    let n = num_layers as usize;
    let mut exists: Vec<bool> = Vec::new();
    let mut k: usize = 0;
    while k < n
        invariant
            n == num_layers,
            k <= n,
            exists@.len() == k,
            forall|j: int| 0 <= j < k ==> !#[trigger] exists@[j],
        decreases n - k,
    {
        exists.push(false);
        k = k + 1;
    }
    let mut i: usize = 0;
    while i < existing.len()
        invariant
            n == num_layers,
            i <= existing@.len(),
            exists@.len() == n,
            forall|j: int| 0 <= j < existing@.len() ==> #[trigger] existing@[j] < num_layers,
            forall|l: int|
                0 <= l < n ==> #[trigger] exists@[l] == existing@.take(i as int).contains(
                    l as usize,
                ),
        decreases existing.len() - i,
    {
        let l = existing[i];
        let ghost before = exists@;
        exists.set(l, true);
        let ghost t0 = existing@.take(i as int);
        let ghost t1 = existing@.take(i + 1);
        assert(t1 =~= t0.push(l));
        assert forall|m: int| 0 <= m < n implies #[trigger] exists@[m] == t1.contains(
            m as usize,
        ) by {
            if m == l {
                assert(t1[i as int] == l);
            } else {
                assert(exists@[m] == before[m]);
                if t1.contains(m as usize) {
                    let w = choose|w: int| 0 <= w < t1.len() && t1[w] == m as usize;
                    assert(t0[w] == m as usize);
                }
                if t0.contains(m as usize) {
                    let w = choose|w: int| 0 <= w < t0.len() && t0[w] == m as usize;
                    assert(t1[w] == m as usize);
                }
            }
        }
        i = i + 1;
    }
    assert(existing@.take(i as int) =~= existing@);
    let mut r: Vec<Index> = Vec::new();
    let mut l: usize = 0;
    while l < n
        invariant
            n == num_layers,
            l <= n,
            exists@.len() == n,
            forall|m: int| 0 <= m < n ==> #[trigger] exists@[m] == existing@.contains(m as usize),
            r@ == missing_layers_upto(l as nat, existing@),
        decreases n - l,
    {
        if !exists[l] {
            r.push(Index::Layer(l as u32));
        }
        assert(exists@[l as int] == existing@.contains(l as usize));
        l = l + 1;
        assert(r@ =~= missing_layers_upto(l as nat, existing@));
    }
    r
}

/// The neurons of the model that hold no data, given the neurons that do,
/// in flat order.
pub fn missing_neuron_items(metadata: &Metadata, existing: &[NeuronIndex]) -> (r: Vec<Index>)
    requires
        neuron_rows_fit(*metadata, existing@),
    ensures
        r@ == missing_neurons_upto(
            metadata.num_total_neurons as nat,
            metadata.layer_size,
            existing_flats(existing@, metadata.layer_size),
        ),
{
    let layer_size = metadata.layer_size;
    let n = metadata.num_total_neurons as usize;
    let ghost flats = existing_flats(existing@, layer_size);
    let mut exists: Vec<bool> = Vec::new();
    let mut k: usize = 0;
    while k < n
        invariant
            n == metadata.num_total_neurons,
            k <= n,
            exists@.len() == k,
            forall|j: int| 0 <= j < k ==> !#[trigger] exists@[j],
        decreases n - k,
    {
        exists.push(false);
        k = k + 1;
    }
    let mut i: usize = 0;
    while i < existing.len()
        invariant
            n == metadata.num_total_neurons,
            layer_size == metadata.layer_size,
            flats == existing_flats(existing@, layer_size),
            neuron_rows_fit(*metadata, existing@),
            i <= existing@.len(),
            exists@.len() == n,
            forall|f: int|
                0 <= f < n ==> #[trigger] exists@[f] == flats.take(i as int).contains(f),
        decreases existing.len() - i,
    {
        let e = existing[i];
        assert(flat_index_spec(existing@[i as int], layer_size as nat) < n);
        let f = e.flat_index(layer_size);
        assert(flats[i as int] == f);
        let ghost before = exists@;
        exists.set(f, true);
        let ghost t0 = flats.take(i as int);
        let ghost t1 = flats.take(i + 1);
        assert(t1 =~= t0.push(f as int));
        assert forall|m: int| 0 <= m < n implies #[trigger] exists@[m] == t1.contains(m) by {
            if m == f {
                assert(t1[i as int] == f);
            } else {
                assert(exists@[m] == before[m]);
                if t1.contains(m) {
                    let w = choose|w: int| 0 <= w < t1.len() && t1[w] == m;
                    assert(t0[w] == m);
                }
                if t0.contains(m) {
                    let w = choose|w: int| 0 <= w < t0.len() && t0[w] == m;
                    assert(t1[w] == m);
                }
            }
        }
        i = i + 1;
    }
    assert(flats.take(i as int) =~= flats);
    let mut r: Vec<Index> = Vec::new();
    let mut f: usize = 0;
    while f < n
        invariant
            n == metadata.num_total_neurons,
            layer_size == metadata.layer_size,
            flats == existing_flats(existing@, layer_size),
            neuron_rows_fit(*metadata, existing@),
            f <= n,
            exists@.len() == n,
            forall|m: int| 0 <= m < n ==> #[trigger] exists@[m] == flats.contains(m),
            r@ == missing_neurons_upto(f as nat, layer_size, flats),
        decreases n - f,
    {
        assert(exists@[f as int] == flats.contains(f as int));
        if !exists[f] {
            r.push(Index::from_flat_neuron_index(layer_size, f));
        }
        f = f + 1;
        assert(r@ =~= missing_neurons_upto(f as nat, layer_size, flats));
    }
    r
}

/// All missing items of a model: the model data item, then the layers, then
/// the neurons.
pub fn missing_items(
    metadata: &Metadata,
    num_model_rows: u32,
    existing_layers: &[usize],
    existing_neurons: &[NeuronIndex],
) -> (r: Result<Vec<Index>, ValidationError>)
    requires
        forall|i: int|
            0 <= i < existing_layers@.len() ==> #[trigger] existing_layers@[i]
                < metadata.num_layers,
        neuron_rows_fit(*metadata, existing_neurons@),
    ensures
        match (r, missing_model_spec(num_model_rows)) {
            (Ok(v), Ok(s)) => v@ == s + missing_layers_upto(
                metadata.num_layers as nat,
                existing_layers@,
            ) + missing_neurons_upto(
                metadata.num_total_neurons as nat,
                metadata.layer_size,
                existing_flats(existing_neurons@, metadata.layer_size),
            ),
            (Err(e), Err(f)) => e == f,
            _ => false,
        },
{
    let mut r = match missing_model_items(num_model_rows) {
        Ok(r) => r,
        Err(e) => return Err(e),
    };
    let mut layers = missing_layer_items(metadata.num_layers, existing_layers);
    let mut neurons = missing_neuron_items(metadata, existing_neurons);
    r.append(&mut layers);
    r.append(&mut neurons);
    Ok(r)
}

/// Why a data object does not cover its model.
#[derive(Debug, Clone, PartialEq, Eq)]
pub enum DataValidationError {
    /// These items hold no data.
    MissingItems { missing_items: Vec<Index> },
}

/// The missing items that a data object of kind `kind` must not have: all of
/// them for neuroscope pages; the model and the neurons for a neuron store;
/// the neurons for neuron explainer pages and neuron graphs; none for JSON
/// data, whose contents are not known.
pub open spec fn required_missing(
    kind: DataTypeDiscriminants,
    metadata: Metadata,
    num_model_rows: u32,
    existing_layers: Seq<usize>,
    existing_neurons: Seq<NeuronIndex>,
) -> Result<Seq<Index>, ValidationError> {
    let neurons = missing_neurons_upto(
        metadata.num_total_neurons as nat,
        metadata.layer_size,
        existing_flats(existing_neurons, metadata.layer_size),
    );
    match kind {
        DataTypeDiscriminants::Neuroscope => match missing_model_spec(num_model_rows) {
            Ok(m) => Ok(m + missing_layers_upto(metadata.num_layers as nat, existing_layers) + neurons),
            Err(e) => Err(e),
        },
        DataTypeDiscriminants::NeuronStore => match missing_model_spec(num_model_rows) {
            Ok(m) => Ok(m + neurons),
            Err(e) => Err(e),
        },
        DataTypeDiscriminants::NeuronExplainer => Ok(neurons),
        DataTypeDiscriminants::Neuron2Graph => Ok(neurons),
        DataTypeDiscriminants::Json => Ok(Seq::empty()),
    }
}

/// Checks that a data object of kind `kind` covers its model: it fails with
/// the items that must hold data and do not.
pub fn validate_data(
    kind: DataTypeDiscriminants,
    metadata: &Metadata,
    num_model_rows: u32,
    existing_layers: &[usize],
    existing_neurons: &[NeuronIndex],
) -> (r: Result<Result<(), DataValidationError>, ValidationError>)
    requires
        forall|i: int|
            0 <= i < existing_layers@.len() ==> #[trigger] existing_layers@[i]
                < metadata.num_layers,
        neuron_rows_fit(*metadata, existing_neurons@),
    ensures
        match (r, required_missing(kind, *metadata, num_model_rows, existing_layers@, existing_neurons@)) {
            (Ok(Ok(())), Ok(s)) => s.len() == 0,
            (Ok(Err(DataValidationError::MissingItems { missing_items })), Ok(s)) => s.len() > 0
                && missing_items@ == s,
            (Err(e), Err(f)) => e == f,
            _ => false,
        },
        (kind == DataTypeDiscriminants::NeuronExplainer || kind
            == DataTypeDiscriminants::Neuron2Graph) && metadata.num_total_neurons
            == metadata.num_layers * metadata.layer_size && (forall|i: int|
            0 <= i < existing_neurons@.len() ==> (#[trigger] existing_neurons@[i]).layer
                < metadata.num_layers && existing_neurons@[i].neuron < metadata.layer_size) ==> {
            &&& r is Ok
            &&& (r == Ok::<Result<(), DataValidationError>, ValidationError>(Ok(())) <==> forall|
                k: int,
            |
                0 <= k < metadata.num_layers * metadata.layer_size ==> existing_neurons@.contains(
                    #[trigger] neuron_grid(metadata.num_layers as nat, metadata.layer_size)[k],
                ))
            &&& (r matches Ok(Err(DataValidationError::MissingItems { missing_items })) ==> missing_items@
                == absent_items(
                neuron_grid(metadata.num_layers as nat, metadata.layer_size).map_values(
                    |n: NeuronIndex| neuron_index_of(n),
                ),
                num_model_rows,
                existing_layers@,
                existing_neurons@,
            ))
        },
{
    proof {
        if (kind == DataTypeDiscriminants::NeuronExplainer || kind
            == DataTypeDiscriminants::Neuron2Graph) && metadata.num_total_neurons
            == metadata.num_layers * metadata.layer_size && (forall|i: int|
            0 <= i < existing_neurons@.len() ==> (#[trigger] existing_neurons@[i]).layer
                < metadata.num_layers && existing_neurons@[i].neuron < metadata.layer_size) {
            law_neuron_data_objects_need_every_neuron(
                kind,
                *metadata,
                num_model_rows,
                existing_layers@,
                existing_neurons@,
            );
        }
    }
    let missing: Vec<Index> = match kind {
        DataTypeDiscriminants::Neuroscope => match missing_items(
            metadata,
            num_model_rows,
            existing_layers,
            existing_neurons,
        ) {
            Ok(v) => v,
            Err(e) => {
                return Err(e);
            },
        },
        DataTypeDiscriminants::NeuronStore => {
            let mut v = match missing_model_items(num_model_rows) {
                Ok(v) => v,
                Err(e) => {
                    return Err(e);
                },
            };
            let mut neurons = missing_neuron_items(metadata, existing_neurons);
            v.append(&mut neurons);
            v
        },
        DataTypeDiscriminants::NeuronExplainer => missing_neuron_items(metadata, existing_neurons),
        DataTypeDiscriminants::Neuron2Graph => missing_neuron_items(metadata, existing_neurons),
        DataTypeDiscriminants::Json => Vec::new(),
    };
    if missing.len() == 0 {
        Ok(Ok(()))
    } else {
        Ok(Err(DataValidationError::MissingItems { missing_items: missing }))
    }
}

/// Whether the database holds data for `index`, given the number of model
/// data rows and the layers and neurons that hold data.
pub open spec fn item_present(
    index: Index,
    model_rows: u32,
    layers: Seq<usize>,
    neurons: Seq<NeuronIndex>,
) -> bool {
    match index {
        Index::Model => model_rows == 1,
        Index::Layer(l) => layers.contains(l as usize),
        Index::Neuron(l, n) => neurons.contains(NeuronIndex { layer: l, neuron: n }),
    }
}

/// The indices of `s` that hold no data, in order.
pub open spec fn absent_items(
    s: Seq<Index>,
    model_rows: u32,
    layers: Seq<usize>,
    neurons: Seq<NeuronIndex>,
) -> Seq<Index>
    decreases s.len(),
{
    if s.len() == 0 {
        Seq::empty()
    } else {
        absent_items(s.drop_last(), model_rows, layers, neurons) + if item_present(
            s.last(),
            model_rows,
            layers,
            neurons,
        ) {
            Seq::empty()
        } else {
            seq![s.last()]
        }
    }
}

proof fn lemma_absent_items_concat(
    a: Seq<Index>,
    b: Seq<Index>,
    model_rows: u32,
    layers: Seq<usize>,
    neurons: Seq<NeuronIndex>,
)
    ensures
        absent_items(a + b, model_rows, layers, neurons) == absent_items(
            a,
            model_rows,
            layers,
            neurons,
        ) + absent_items(b, model_rows, layers, neurons),
    decreases b.len(),
{
    if b.len() == 0 {
        assert(a + b =~= a);
        assert(absent_items(a, model_rows, layers, neurons) + absent_items(
            b,
            model_rows,
            layers,
            neurons,
        ) =~= absent_items(a, model_rows, layers, neurons));
    } else {
        lemma_absent_items_concat(a, b.drop_last(), model_rows, layers, neurons);
        assert((a + b).drop_last() =~= a + b.drop_last());
        assert((a + b).last() == b.last());
        let x = absent_items(a, model_rows, layers, neurons);
        let y = absent_items(b.drop_last(), model_rows, layers, neurons);
        let z = if item_present(b.last(), model_rows, layers, neurons) {
            Seq::<Index>::empty()
        } else {
            seq![b.last()]
        };
        assert(x + y + z =~= x + (y + z));
    }
}

proof fn lemma_absent_layers(
    n: nat,
    model_rows: u32,
    layers: Seq<usize>,
    neurons: Seq<NeuronIndex>,
)
    requires
        n <= u32::MAX,
    ensures
        absent_items(Seq::new(n, |l: int| layer_index_of(l)), model_rows, layers, neurons)
            == missing_layers_upto(n, layers),
    decreases n,
{
    if n > 0 {
        lemma_absent_layers((n - 1) as nat, model_rows, layers, neurons);
        let s = Seq::new(n, |l: int| layer_index_of(l));
        assert(s.drop_last() =~= Seq::new((n - 1) as nat, |l: int| layer_index_of(l)));
        assert(s.last() == Index::Layer((n - 1) as u32));
        assert(((n - 1) as u32) as usize == (n - 1) as usize);
    }
}

/// Within a model, a neuron holds data exactly where its flat index does.
proof fn lemma_present_by_flat(
    layer_size: u32,
    num_total_neurons: u32,
    neurons: Seq<NeuronIndex>,
    f: nat,
)
    requires
        layer_size > 0,
        f < num_total_neurons,
        forall|i: int|
            0 <= i < neurons.len() ==> (#[trigger] neurons[i]).neuron < layer_size
                && flat_index_spec(neurons[i], layer_size as nat) < num_total_neurons,
    ensures
        neurons.contains(neuron_at_flat(layer_size as nat, f)) <==> existing_flats(
            neurons,
            layer_size,
        ).contains(f as int),
{
    let flats = existing_flats(neurons, layer_size);
    let target = neuron_at_flat(layer_size as nat, f);
    law_flat_position_roundtrip(layer_size, f);
    if neurons.contains(target) {
        let w = choose|w: int| 0 <= w < neurons.len() && neurons[w] == target;
        assert(flats[w] == f);
    }
    if flats.contains(f as int) {
        let w = choose|w: int| 0 <= w < flats.len() && flats[w] == f;
        assert(neurons[w].neuron < layer_size);
        law_flat_index_roundtrip(neurons[w], layer_size);
        assert(neurons[w] == target);
    }
}

proof fn lemma_absent_neurons(
    num_layers: u32,
    layer_size: u32,
    f: nat,
    model_rows: u32,
    layers: Seq<usize>,
    neurons: Seq<NeuronIndex>,
)
    requires
        layer_size > 0,
        num_layers * layer_size <= u32::MAX,
        f <= num_layers * layer_size,
        forall|i: int|
            0 <= i < neurons.len() ==> (#[trigger] neurons[i]).neuron < layer_size
                && flat_index_spec(neurons[i], layer_size as nat) < num_layers * layer_size,
    ensures
        absent_items(
            neuron_grid(num_layers as nat, layer_size).map_values(
                |n: NeuronIndex| neuron_index_of(n),
            ).take(f as int),
            model_rows,
            layers,
            neurons,
        ) == missing_neurons_upto(f, layer_size, existing_flats(neurons, layer_size)),
    decreases f,
{
    let g = neuron_grid(num_layers as nat, layer_size).map_values(
        |n: NeuronIndex| neuron_index_of(n),
    );
    lemma_neuron_grid(num_layers as nat, layer_size);
    if f == 0 {
        assert(g.take(0) =~= Seq::<Index>::empty());
    } else {
        let k = (f - 1) as nat;
        lemma_absent_neurons(num_layers, layer_size, k, model_rows, layers, neurons);
        assert(g.take(f as int).drop_last() =~= g.take(k as int));
        let cell = neuron_at_flat(layer_size as nat, k);
        assert(neuron_grid(num_layers as nat, layer_size)[k as int] == cell);
        assert(g.take(f as int).last() == Index::Neuron(cell.layer, cell.neuron));
        assert((k as u32) as int == k);
        lemma_present_by_flat(layer_size, (num_layers * layer_size) as u32, neurons, k);
        assert(NeuronIndex { layer: cell.layer, neuron: cell.neuron } == cell);
    }
}

/// The missing items of a model are exactly its indices that hold no data,
/// in the order in which the model lists its indices.
pub proof fn law_missing_items_are_absent_indices(
    metadata: Metadata,
    model_rows: u32,
    layers: Seq<usize>,
    neurons: Seq<NeuronIndex>,
)
    requires
        metadata.num_total_neurons == metadata.num_layers * metadata.layer_size,
        model_rows <= 1,
        forall|i: int| 0 <= i < layers.len() ==> #[trigger] layers[i] < metadata.num_layers,
        forall|i: int|
            0 <= i < neurons.len() ==> (#[trigger] neurons[i]).layer < metadata.num_layers
                && neurons[i].neuron < metadata.layer_size,
    ensures
        missing_model_spec(model_rows) is Ok,
        missing_model_spec(model_rows)->Ok_0 + missing_layers_upto(
            metadata.num_layers as nat,
            layers,
        ) + missing_neurons_upto(
            metadata.num_total_neurons as nat,
            metadata.layer_size,
            existing_flats(neurons, metadata.layer_size),
        ) == absent_items(
            model_indices(metadata.num_layers, metadata.layer_size),
            model_rows,
            layers,
            neurons,
        ),
{
    let nl = metadata.num_layers;
    let ls = metadata.layer_size;
    let model_part = seq![Index::Model];
    let layer_part = Seq::new(nl as nat, |l: int| layer_index_of(l));
    let neuron_part = neuron_grid(nl as nat, ls).map_values(|n: NeuronIndex| neuron_index_of(n));
    lemma_absent_items_concat(model_part, layer_part, model_rows, layers, neurons);
    lemma_absent_items_concat(model_part + layer_part, neuron_part, model_rows, layers, neurons);
    assert(model_part.drop_last() =~= Seq::<Index>::empty());
    assert(model_part.last() == Index::Model);
    assert(absent_items(Seq::<Index>::empty(), model_rows, layers, neurons) =~= Seq::<
        Index,
    >::empty());
    if model_rows == 0 {
        assert(absent_items(model_part, model_rows, layers, neurons) =~= seq![Index::Model]);
    } else {
        assert(absent_items(model_part, model_rows, layers, neurons) =~= Seq::<Index>::empty());
    }
    assert(absent_items(model_part, model_rows, layers, neurons) == missing_model_spec(
        model_rows,
    )->Ok_0);
    lemma_absent_layers(nl as nat, model_rows, layers, neurons);
    lemma_neuron_grid(nl as nat, ls);
    if ls > 0 {
        assert forall|i: int| 0 <= i < neurons.len() implies (#[trigger] neurons[i]).neuron < ls
            && flat_index_spec(neurons[i], ls as nat) < nl * ls by {
            let e = neurons[i];
            assert(e.layer * ls + e.neuron < nl * ls) by (nonlinear_arith)
                requires
                    e.layer < nl,
                    e.neuron < ls,
            ;
        }
        lemma_absent_neurons(nl, ls, (nl * ls) as nat, model_rows, layers, neurons);
        assert(neuron_part.take((nl * ls) as int) =~= neuron_part);
    } else {
        assert(nl * ls == 0) by (nonlinear_arith)
            requires
                ls == 0,
        ;
        assert(neuron_part =~= Seq::<Index>::empty());
        assert(missing_neurons_upto(0, ls, existing_flats(neurons, ls)) =~= Seq::<Index>::empty());
    }
}

/// Nothing of a list is missing exactly when every index of it holds data.
proof fn lemma_absent_empty(
    s: Seq<Index>,
    model_rows: u32,
    layers: Seq<usize>,
    neurons: Seq<NeuronIndex>,
)
    ensures
        absent_items(s, model_rows, layers, neurons).len() == 0 <==> forall|k: int|
            0 <= k < s.len() ==> #[trigger] item_present(s[k], model_rows, layers, neurons),
    decreases s.len(),
{
    if s.len() > 0 {
        let init = s.drop_last();
        lemma_absent_empty(init, model_rows, layers, neurons);
        if forall|k: int|
            0 <= k < s.len() ==> #[trigger] item_present(s[k], model_rows, layers, neurons) {
            assert forall|k: int| 0 <= k < init.len() implies #[trigger] item_present(
                init[k],
                model_rows,
                layers,
                neurons,
            ) by {
                assert(init[k] == s[k]);
            }
            assert(item_present(s[s.len() - 1], model_rows, layers, neurons));
        } else {
            let k = choose|k: int|
                0 <= k < s.len() && !#[trigger] item_present(s[k], model_rows, layers, neurons);
            if k < init.len() {
                assert(init[k] == s[k]);
            }
        }
    }
}

/// Neuron explainer pages and neuron graphs must cover every neuron of their
/// model and nothing else: what is missing is exactly the model's neurons
/// that hold no data, in the model's order, and the data object is complete
/// exactly when every neuron holds data.
pub proof fn law_neuron_data_objects_need_every_neuron(
    kind: DataTypeDiscriminants,
    metadata: Metadata,
    model_rows: u32,
    layers: Seq<usize>,
    neurons: Seq<NeuronIndex>,
)
    requires
        kind == DataTypeDiscriminants::NeuronExplainer || kind == DataTypeDiscriminants::Neuron2Graph,
        metadata.num_total_neurons == metadata.num_layers * metadata.layer_size,
        forall|i: int|
            0 <= i < neurons.len() ==> (#[trigger] neurons[i]).layer < metadata.num_layers
                && neurons[i].neuron < metadata.layer_size,
    ensures
        required_missing(kind, metadata, model_rows, layers, neurons) == Ok::<
            Seq<Index>,
            ValidationError,
        >(
            absent_items(
                neuron_grid(metadata.num_layers as nat, metadata.layer_size).map_values(
                    |n: NeuronIndex| neuron_index_of(n),
                ),
                model_rows,
                layers,
                neurons,
            ),
        ),
        required_missing(kind, metadata, model_rows, layers, neurons)->Ok_0.len() == 0
            <==> forall|k: int|
            0 <= k < metadata.num_layers * metadata.layer_size ==> neurons.contains(
                #[trigger] neuron_grid(metadata.num_layers as nat, metadata.layer_size)[k],
            ),
{
    let nl = metadata.num_layers;
    let ls = metadata.layer_size;
    let grid = neuron_grid(nl as nat, ls);
    let neuron_part = grid.map_values(|n: NeuronIndex| neuron_index_of(n));
    lemma_neuron_grid(nl as nat, ls);
    if ls > 0 {
        assert forall|i: int| 0 <= i < neurons.len() implies (#[trigger] neurons[i]).neuron < ls
            && flat_index_spec(neurons[i], ls as nat) < nl * ls by {
            let e = neurons[i];
            assert(e.layer * ls + e.neuron < nl * ls) by (nonlinear_arith)
                requires
                    e.layer < nl,
                    e.neuron < ls,
            ;
        }
        lemma_absent_neurons(nl, ls, (nl * ls) as nat, model_rows, layers, neurons);
        assert(neuron_part.take((nl * ls) as int) =~= neuron_part);
    } else {
        assert(nl * ls == 0) by (nonlinear_arith)
            requires
                ls == 0,
        ;
        assert(neuron_part =~= Seq::<Index>::empty());
        assert(missing_neurons_upto(0, ls, existing_flats(neurons, ls)) =~= Seq::<Index>::empty());
    }
    lemma_absent_empty(neuron_part, model_rows, layers, neurons);
    assert(grid.len() == nl * ls);
    assert forall|k: int| 0 <= k < grid.len() implies (#[trigger] item_present(
        neuron_part[k],
        model_rows,
        layers,
        neurons,
    ) <==> neurons.contains(grid[k])) by {
        let n = grid[k];
        assert(neuron_part[k] == Index::Neuron(n.layer, n.neuron));
        assert(NeuronIndex { layer: n.layer, neuron: n.neuron } == n);
    }
    let all_present = forall|k: int|
        0 <= k < neuron_part.len() ==> #[trigger] item_present(neuron_part[k], model_rows, layers, neurons);
    let all_held = forall|k: int| 0 <= k < nl * ls ==> neurons.contains(#[trigger] grid[k]);
    if all_present {
        assert forall|k: int| 0 <= k < nl * ls implies neurons.contains(#[trigger] grid[k]) by {
            assert(item_present(neuron_part[k], model_rows, layers, neurons));
        }
    }
    if all_held {
        assert forall|k: int| 0 <= k < neuron_part.len() implies #[trigger] item_present(
            neuron_part[k],
            model_rows,
            layers,
            neurons,
        ) by {
            assert(neurons.contains(grid[k]));
        }
    }
    assert(all_present == all_held);
}

} // verus!
