//! The neuroscope overview pages of a model and of its layers: the neurons
//! ranked by importance, least important first. An importance is an `f32`;
//! it is held here as its bit pattern (`f32::to_bits`), and ranked as
//! `f32::total_cmp` ranks the numbers.

use vstd::prelude::*;
use vstd::seq_lib::group_to_multiset_ensures;

use crate::neuron_index::NeuronIndex;

verus! {

broadcast use group_to_multiset_ensures;

/// A neuron with the bit pattern of its importance.
pub type RankedNeuron = (NeuronIndex, u32);

/// The number whose unsigned order is the total order of `f32` values on
/// their bit patterns: negative numbers, whose sign bit is set, have all bits
/// flipped; the others have the sign bit set.
pub open spec fn total_order_key(bits: u32) -> u32 {
    if bits & 0x8000_0000 != 0 {
        !bits
    } else {
        bits | 0x8000_0000
    }
}

/// The neurons are ranked from least to most important.
pub open spec fn ranked(s: Seq<RankedNeuron>) -> bool {
    forall|i: int, j: int|
        0 <= i < j < s.len() ==> total_order_key(#[trigger] s[i].1) <= total_order_key(
            #[trigger] s[j].1,
        )
}

/// The key by which an importance is ranked.
pub fn importance_key(bits: u32) -> (r: u32)
    ensures
        r == total_order_key(bits),
{
    if bits & 0x8000_0000 != 0 {
        !bits
    } else {
        bits | 0x8000_0000
    }
}

/// Inserting an element into a sequence adds it to the sequence's multiset.
proof fn lemma_insert_to_multiset<A>(s: Seq<A>, i: int, x: A)
    requires
        0 <= i <= s.len(),
    ensures
        s.insert(i, x).to_multiset() == s.to_multiset().insert(x),
{
    let t = s.insert(i, x);
    assert(t.remove(i) =~= s);
    vstd::seq_lib::to_multiset_remove(t, i);
    assert(t.to_multiset().count(x) > 0) by {
        assert(t[i] == x);
        assert(t.contains(x));
    }
    assert(t.to_multiset() =~= t.to_multiset().remove(x).insert(x));
}

/// The neurons ranked from least to most important; neurons of equal
/// importance may come in any order.
pub fn rank_by_importance(neurons: Vec<RankedNeuron>) -> (r: Vec<RankedNeuron>)
    ensures
        ranked(r@),
        r@.to_multiset() == neurons@.to_multiset(),
{
    let mut out: Vec<RankedNeuron> = Vec::new();
    let mut k: usize = 0;
    while k < neurons.len()
        invariant
            k <= neurons@.len(),
            ranked(out@),
            out@.to_multiset() == neurons@.take(k as int).to_multiset(),
        decreases neurons.len() - k,
    {
        let e = neurons[k];
        let key = importance_key(e.1);
        let mut p: usize = 0;
        while p < out.len() && importance_key(out[p].1) <= key
            invariant
                p <= out@.len(),
                key == total_order_key(e.1),
                forall|i: int| 0 <= i < p ==> total_order_key(#[trigger] out@[i].1) <= key,
            decreases out.len() - p,
        {
            p = p + 1;
        }
        let ghost before = out@;
        out.insert(p, e);
        proof {
            lemma_insert_to_multiset(before, p as int, e);
            assert(neurons@.take(k + 1) =~= neurons@.take(k as int).push(e));
            assert forall|i: int, j: int| 0 <= i < j < out@.len() implies total_order_key(
                #[trigger] out@[i].1,
            ) <= total_order_key(#[trigger] out@[j].1) by {
                if j < p {
                    assert(out@[i] == before[i] && out@[j] == before[j]);
                } else if j == p {
                    assert(out@[i] == before[i]);
                } else if i == p {
                    assert(out@[j] == before[j - 1]);
                    assert(total_order_key(before[p as int].1) > key);
                } else if i < p {
                    assert(out@[i] == before[i] && out@[j] == before[j - 1]);
                } else {
                    assert(out@[i] == before[i - 1] && out@[j] == before[j - 1]);
                }
            }
        }
        k = k + 1;
    }
    assert(neurons@.take(k as int) =~= neurons@);
    out
}

/// The overview page of a model: its neurons ranked by importance.
#[derive(Clone, Debug)]
pub struct NeuroscopeModelPage {
    important_neurons: Vec<RankedNeuron>,
}

/// The overview page of a layer: its number of ranked neurons and the
/// neurons ranked by activation range.
#[derive(Clone, Debug)]
pub struct NeuroscopeLayerPage {
    num_neurons: u32,
    important_neurons: Vec<RankedNeuron>,
}

/// The neurons of the layer pages, layer after layer.
pub open spec fn layer_neurons(pages: Seq<NeuroscopeLayerPage>) -> Seq<RankedNeuron> {
    pages.map_values(|p: NeuroscopeLayerPage| p.important_neurons_spec()).flatten()
}

impl NeuroscopeModelPage {
    /// The page of the given neurons, ranked.
    pub fn new(important_neurons: Vec<RankedNeuron>) -> (r: Self)
        ensures
            ranked(r.important_neurons_spec()),
            r.important_neurons_spec().to_multiset() == important_neurons@.to_multiset(),
    {
        NeuroscopeModelPage { important_neurons: rank_by_importance(important_neurons) }
    }

    /// The page of a model whose layers have the given pages: every neuron
    /// of every layer page, ranked.
    pub fn from_layer_pages(pages: &Vec<NeuroscopeLayerPage>) -> (r: Self)
        ensures
            ranked(r.important_neurons_spec()),
            r.important_neurons_spec().to_multiset() == layer_neurons(pages@).to_multiset(),
    {
        let mut all: Vec<RankedNeuron> = Vec::new();
        let mut i: usize = 0;
        while i < pages.len()
            invariant
                i <= pages@.len(),
                all@ == layer_neurons(pages@.take(i as int)),
            decreases pages.len() - i,
        {
            let neurons = pages[i].important_neurons();
            let ghost before = all@;
            let mut j: usize = 0;
            while j < neurons.len()
                invariant
                    j <= neurons@.len(),
                    all@ == before + neurons@.take(j as int),
                decreases neurons.len() - j,
            {
                all.push(neurons[j]);
                assert(neurons@.take(j + 1) =~= neurons@.take(j as int).push(neurons@[j as int]));
                j = j + 1;
            }
            assert(neurons@.take(j as int) =~= neurons@);
            assert(pages@.take(i + 1).map_values(
                |p: NeuroscopeLayerPage| p.important_neurons_spec(),
            ) =~= pages@.take(i as int).map_values(
                |p: NeuroscopeLayerPage| p.important_neurons_spec(),
            ).push(pages@[i as int].important_neurons_spec()));
            proof {
                pages@.take(i as int).map_values(
                    |p: NeuroscopeLayerPage| p.important_neurons_spec(),
                ).lemma_flatten_push(pages@[i as int].important_neurons_spec());
            }
            i = i + 1;
        }
        assert(pages@.take(i as int) =~= pages@);
        Self::new(all)
    }

    pub closed spec fn important_neurons_spec(&self) -> Seq<RankedNeuron> {
        self.important_neurons@
    }

    /// The neurons, least important first.
    pub fn important_neurons(&self) -> (r: &[RankedNeuron])
        ensures
            r@ == self.important_neurons_spec(),
    {
        self.important_neurons.as_slice()
    }
}

impl NeuroscopeLayerPage {
    /// The page of the given neurons, ranked; its neuron count is their
    /// number, cut to 32 bits.
    pub fn new(important_neurons: Vec<RankedNeuron>) -> (r: Self)
        ensures
            ranked(r.important_neurons_spec()),
            r.important_neurons_spec().to_multiset() == important_neurons@.to_multiset(),
            r.num_neurons_spec() == #[verifier::truncate] (important_neurons@.len() as u32),
    {
        let ghost given = important_neurons@;
        let important_neurons = rank_by_importance(important_neurons);
        assert(important_neurons@.len() == important_neurons@.to_multiset().len());
        assert(given.len() == given.to_multiset().len());
        let num_neurons = #[verifier::truncate] (important_neurons.len() as u32);
        NeuroscopeLayerPage { num_neurons, important_neurons }
    }

    pub closed spec fn important_neurons_spec(&self) -> Seq<RankedNeuron> {
        self.important_neurons@
    }

    pub closed spec fn num_neurons_spec(&self) -> u32 {
        self.num_neurons
    }

    /// The number of neurons on the page.
    pub fn num_neurons(&self) -> (r: u32)
        ensures
            r == self.num_neurons_spec(),
    {
        self.num_neurons
    }

    /// The neurons, least important first.
    pub fn important_neurons(&self) -> (r: &[RankedNeuron])
        ensures
            r@ == self.important_neurons_spec(),
    {
        self.important_neurons.as_slice()
    }
}

} // verus!
