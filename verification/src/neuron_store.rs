//! The neuron store: for each token, the neurons that it activates and the
//! neurons that find it important; and the integer core of comparing
//! neurons by the tokens they share.

use vstd::prelude::*;

use crate::neuron_index::{
    flat_index_spec, parse_neuron_index_spec, parse_result_matches, NeuronIndex,
    NeuronIndexParseError,
};
use crate::token_search::TokenSearchType;
use crate::text::str_equals;
use vstd::math::min;

verus! {

/// No two entries share a token.
pub open spec fn tokens_distinct<V>(entries: Seq<(String, V)>) -> bool {
    forall|i: int, j: int| 0 <= i < j < entries.len() ==> entries[i].0@ != entries[j].0@
}

/// The store as read from its JSON form: for each token, the neurons it
/// activates and the neurons that find it important, each written
/// `layer_neuron`. No token is listed twice.
#[derive(Debug)]
pub struct NeuronStoreRaw {
    activating: Vec<(String, Vec<String>)>,
    important: Vec<(String, Vec<String>)>,
}

/// The neuron store of a model.
#[derive(Debug)]
pub struct NeuronStore {
    layer_size: u32,
    num_layers: u32,
    activating: Vec<(String, Vec<NeuronIndex>)>,
    important: Vec<(String, Vec<NeuronIndex>)>,
}

/// Every written neuron of the list reads back.
pub open spec fn all_readable(written: Seq<String>) -> bool {
    forall|k: int| 0 <= k < written.len() ==> #[trigger] parse_neuron_index_spec(written[k]@) is Ok
}

/// The neurons of an entry: each written neuron read back.
pub open spec fn entry_reads_as(written: Seq<String>, read: Seq<NeuronIndex>) -> bool {
    &&& read.no_duplicates()
    &&& forall|x: NeuronIndex|
        read.contains(x) <==> exists|k: int|
            0 <= k < written.len() && parse_neuron_index_spec(#[trigger] written[k]@) == Ok::<
                NeuronIndex,
                NeuronIndexParseError,
            >(x)
}

/// The entries are read, in order, from the written entries.
pub open spec fn entries_read_as(
    written: Seq<(String, Vec<String>)>,
    read: Seq<(String, Vec<NeuronIndex>)>,
) -> bool {
    &&& written.len() == read.len()
    &&& forall|i: int|
        0 <= i < read.len() ==> (#[trigger] read[i]).0@ == written[i].0@ && entry_reads_as(
            written[i].1@,
            read[i].1@,
        )
}

/// Some neuron of the entries is not written `layer_neuron`.
pub open spec fn some_unreadable(written: Seq<(String, Vec<String>)>) -> bool {
    exists|i: int, k: int|
        0 <= i < written.len() && 0 <= k < written[i].1@.len() && #[trigger] parse_neuron_index_spec(
            written[i].1@[k]@,
        ) is Err
}

/// The error is that of reading some neuron of the entries.
pub open spec fn error_of_some_entry(
    written: Seq<(String, Vec<String>)>,
    e: NeuronIndexParseError,
) -> bool {
    exists|i: int, k: int|
        0 <= i < written.len() && 0 <= k < written[i].1@.len() && #[trigger] parse_result_matches(
            Err(e),
            written[i].1@[k]@,
        )
}

impl NeuronStoreRaw {
    #[verifier::type_invariant]
    spec fn well_formed(self) -> bool {
        &&& tokens_distinct(self.activating@)
        &&& tokens_distinct(self.important@)
    }

    pub closed spec fn activating_spec(&self) -> Seq<(String, Vec<String>)> {
        self.activating@
    }

    pub closed spec fn important_spec(&self) -> Seq<(String, Vec<String>)> {
        self.important@
    }

    /// The raw store of the given entries, unless a token is listed twice.
    pub fn new(
        activating: Vec<(String, Vec<String>)>,
        important: Vec<(String, Vec<String>)>,
    ) -> (r: Option<Self>)
        ensures
            r matches Some(raw) ==> raw.activating_spec() == activating@
                && raw.important_spec() == important@,
            r is None <==> !(tokens_distinct(activating@) && tokens_distinct(important@)),
    {
        if has_distinct_tokens(&activating) && has_distinct_tokens(&important) {
            Some(NeuronStoreRaw { activating, important })
        } else {
            None
        }
    }
}

/// Whether no two entries share a token.
fn has_distinct_tokens<V>(entries: &Vec<(String, V)>) -> (r: bool)
    ensures
        r == tokens_distinct(entries@),
{
    let n = entries.len();
    let mut i: usize = 0;
    while i < n
        invariant
            n == entries@.len(),
            i <= n,
            forall|a: int, b: int| 0 <= a < b < n && a < i ==> entries@[a].0@ != entries@[b].0@,
        decreases n - i,
    {
        let mut j = i + 1;
        while j < n
            invariant
                n == entries@.len(),
                i < n,
                i < j <= n,
                forall|a: int, b: int|
                    0 <= a < b < n && a < i ==> entries@[a].0@ != entries@[b].0@,
                forall|b: int| i < b < j ==> entries@[i as int].0@ != entries@[b].0@,
            decreases n - j,
        {
            if str_equals(entries[i].0.as_str(), entries[j].0.as_str()) {
                return false;
            }
            j = j + 1;
        }
        i = i + 1;
    }
    true
}

/// No entry lists a neuron twice.
pub open spec fn lists_distinct(entries: Seq<(String, Vec<NeuronIndex>)>) -> bool {
    forall|i: int| 0 <= i < entries.len() ==> (#[trigger] entries[i]).1@.no_duplicates()
}

/// Whether no entry lists a neuron twice.
fn has_distinct_lists(entries: &Vec<(String, Vec<NeuronIndex>)>) -> (r: bool)
    ensures
        r == lists_distinct(entries@),
{
    let mut i: usize = 0;
    while i < entries.len()
        invariant
            i <= entries@.len(),
            forall|k: int| 0 <= k < i ==> (#[trigger] entries@[k]).1@.no_duplicates(),
        decreases entries.len() - i,
    {
        let list = &entries[i].1;
        let mut a: usize = 0;
        while a < list.len()
            invariant
                i < entries@.len(),
                list@ == entries@[i as int].1@,
                a <= list@.len(),
                forall|x: int, y: int| 0 <= x < y < list@.len() && x < a ==> list@[x] != list@[y],
            decreases list.len() - a,
        {
            let mut b = a + 1;
            while b < list.len()
                invariant
                    i < entries@.len(),
                    list@ == entries@[i as int].1@,
                    a < list@.len(),
                    a < b <= list@.len(),
                    forall|x: int, y: int| 0 <= x < y < list@.len() && x < a ==> list@[x] != list@[y],
                    forall|y: int| a < y < b ==> list@[a as int] != list@[y],
                decreases list.len() - b,
            {
                if list[a] == list[b] {
                    assert(list@[a as int] == list@[b as int]);
                    assert(!lists_distinct(entries@)) by {
                        if lists_distinct(entries@) {
                            assert(entries@[i as int].1@.no_duplicates());
                        }
                    }
                    return false;
                }
                b = b + 1;
            }
            a = a + 1;
        }
        assert(entries@[i as int].1@.no_duplicates()) by {
            assert forall|x: int, y: int|
                0 <= x < list@.len() && 0 <= y < list@.len() && x != y implies list@[x]
                != list@[y] by {
                if y < x {
                    assert(list@[y] != list@[x]);
                }
            }
        }
        i = i + 1;
    }
    true
}

/// Whether `v` holds `x`.
fn contains_index(v: &Vec<NeuronIndex>, x: NeuronIndex) -> (r: bool)
    ensures
        r == v@.contains(x),
{
    let mut i: usize = 0;
    while i < v.len()
        invariant
            i <= v@.len(),
            forall|k: int| 0 <= k < i ==> v@[k] != x,
        decreases v.len() - i,
    {
        if v[i] == x {
            return true;
        }
        i = i + 1;
    }
    false
}

/// Reads the neurons of one entry, each once.
fn read_entry(written: &Vec<String>) -> (r: Result<Vec<NeuronIndex>, NeuronIndexParseError>)
    ensures
        r matches Ok(read) ==> entry_reads_as(written@, read@) && all_readable(written@),
        r matches Err(e) ==> exists|k: int|
            0 <= k < written@.len() && #[trigger] parse_result_matches(Err(e), written@[k]@)
                && parse_neuron_index_spec(written@[k]@) is Err,
{
    let mut read: Vec<NeuronIndex> = Vec::new();
    let mut k: usize = 0;
    while k < written.len()
        invariant
            k <= written@.len(),
            read@.no_duplicates(),
            forall|m: int| 0 <= m < k ==> #[trigger] parse_neuron_index_spec(written@[m]@) is Ok,
            forall|x: NeuronIndex|
                read@.contains(x) <==> exists|m: int|
                    0 <= m < k && parse_neuron_index_spec(#[trigger] written@[m]@) == Ok::<
                        NeuronIndex,
                        NeuronIndexParseError,
                    >(x),
        decreases written.len() - k,
    {
        match NeuronIndex::parse(written[k].as_str()) {
            Ok(x) => {
                let ghost before = read@;
                if !contains_index(&read, x) {
                    read.push(x);
                }
                assert forall|y: NeuronIndex| read@.contains(y) <==> exists|m: int|
                    0 <= m < k + 1 && parse_neuron_index_spec(#[trigger] written@[m]@) == Ok::<
                        NeuronIndex,
                        NeuronIndexParseError,
                    >(y) by {
                    if y == x {
                        assert(parse_neuron_index_spec(written@[k as int]@) == Ok::<
                            NeuronIndex,
                            NeuronIndexParseError,
                        >(y));
                        if !before.contains(x) {
                            assert(read@[read@.len() - 1] == x);
                        }
                    } else {
                        if read@.contains(y) && !before.contains(y) {
                            let w = choose|w: int| 0 <= w < read@.len() && read@[w] == y;
                            assert(w < before.len());
                        }
                        if before.contains(y) {
                            let w = choose|w: int| 0 <= w < before.len() && before[w] == y;
                            assert(read@[w] == y);
                        }
                    }
                }
            },
            Err(e) => {
                assert(parse_result_matches(Err(e), written@[k as int]@));
                return Err(e);
            },
        }
        k = k + 1;
    }
    Ok(read)
}

/// Reads the neurons of every entry.
fn read_entries(written: &Vec<(String, Vec<String>)>) -> (r: Result<
    Vec<(String, Vec<NeuronIndex>)>,
    NeuronIndexParseError,
>)
    ensures
        r matches Ok(read) ==> entries_read_as(written@, read@),
        r is Err <==> some_unreadable(written@),
        r matches Err(e) ==> error_of_some_entry(written@, e),
{
    let mut read: Vec<(String, Vec<NeuronIndex>)> = Vec::new();
    let mut i: usize = 0;
    while i < written.len()
        invariant
            i <= written@.len(),
            read@.len() == i,
            forall|m: int|
                0 <= m < i ==> (#[trigger] read@[m]).0@ == written@[m].0@ && entry_reads_as(
                    written@[m].1@,
                    read@[m].1@,
                ) && all_readable(written@[m].1@),
        decreases written.len() - i,
    {
        match read_entry(&written[i].1) {
            Ok(neurons) => {
                read.push((written[i].0.clone(), neurons));
            },
            Err(e) => {
                proof {
                    let k = choose|k: int|
                        0 <= k < written@[i as int].1@.len() && #[trigger] parse_result_matches(
                            Err(e),
                            written@[i as int].1@[k]@,
                        ) && parse_neuron_index_spec(written@[i as int].1@[k]@) is Err;
                    assert(parse_neuron_index_spec(written@[i as int].1@[k]@) is Err);
                    assert(parse_result_matches(Err(e), written@[i as int].1@[k]@));
                }
                return Err(e);
            },
        }
        i = i + 1;
    }
    proof {
        if some_unreadable(written@) {
            let (a, k) = choose|a: int, k: int|
                0 <= a < written@.len() && 0 <= k < written@[a].1@.len()
                    && #[trigger] parse_neuron_index_spec(written@[a].1@[k]@) is Err;
            assert(read@[a].0@ == written@[a].0@);
            assert(all_readable(written@[a].1@));
        }
    }
    Ok(read)
}

/// Where the neurons of an entry lie within a model whose layers hold
/// `layer_size` neurons: every flat index fits in 32 bits.
pub open spec fn entries_fit(entries: Seq<(String, Vec<NeuronIndex>)>, layer_size: u32) -> bool {
    forall|i: int, k: int|
        0 <= i < entries.len() && 0 <= k < entries[i].1@.len() ==> flat_index_spec(
            #[trigger] entries[i].1@[k],
            layer_size as nat,
        ) <= u32::MAX
}

impl NeuronStore {
    #[verifier::type_invariant]
    spec fn well_formed(self) -> bool {
        &&& tokens_distinct(self.activating@)
        &&& tokens_distinct(self.important@)
        &&& lists_distinct(self.activating@)
        &&& lists_distinct(self.important@)
    }

    pub closed spec fn layer_size_spec(&self) -> u32 {
        self.layer_size
    }

    pub closed spec fn num_layers_spec(&self) -> u32 {
        self.num_layers
    }

    /// The entries of one search type.
    pub closed spec fn entries_spec(&self, search_type: TokenSearchType) -> Seq<
        (String, Vec<NeuronIndex>),
    > {
        match search_type {
            TokenSearchType::Activating => self.activating@,
            TokenSearchType::Important => self.important@,
        }
    }

    /// The store of a model with `num_layers` layers of `layer_size` neurons,
    /// read from its raw form.
    pub fn from_raw(raw: NeuronStoreRaw, num_layers: u32, layer_size: u32) -> (r: Result<
        Self,
        NeuronIndexParseError,
    >)
        ensures
            r matches Ok(store) ==> {
                &&& store.layer_size_spec() == layer_size
                &&& store.num_layers_spec() == num_layers
                &&& entries_read_as(raw.activating_spec(), store.entries_spec(TokenSearchType::Activating))
                &&& entries_read_as(raw.important_spec(), store.entries_spec(TokenSearchType::Important))
            },
            r is Err <==> some_unreadable(raw.activating_spec()) || some_unreadable(
                raw.important_spec(),
            ),
            r matches Err(e) ==> error_of_some_entry(raw.activating_spec(), e)
                || error_of_some_entry(raw.important_spec(), e),
    {
        proof {
            use_type_invariant(&raw);
        }
        let activating = read_entries(&raw.activating)?;
        let important = read_entries(&raw.important)?;
        Ok(NeuronStore { layer_size, num_layers, activating, important })
    }

    /// The store of the given entries, unless a token is listed twice or an
    /// entry lists a neuron twice.
    pub fn from_entries(
        layer_size: u32,
        num_layers: u32,
        activating: Vec<(String, Vec<NeuronIndex>)>,
        important: Vec<(String, Vec<NeuronIndex>)>,
    ) -> (r: Option<Self>)
        ensures
            r matches Some(store) ==> store.layer_size_spec() == layer_size
                && store.num_layers_spec() == num_layers && store.entries_spec(
                TokenSearchType::Activating,
            ) == activating@ && store.entries_spec(TokenSearchType::Important) == important@,
            r is None <==> !(tokens_distinct(activating@) && tokens_distinct(important@) && lists_distinct(
                activating@,
            ) && lists_distinct(important@)),
    {
        if has_distinct_tokens(&activating) && has_distinct_tokens(&important) && has_distinct_lists(
            &activating,
        ) && has_distinct_lists(&important) {
            Some(NeuronStore { layer_size, num_layers, activating, important })
        } else {
            None
        }
    }

    /// The number of neurons per layer.
    pub fn layer_size(&self) -> (r: u32)
        ensures
            r == self.layer_size_spec(),
    {
        self.layer_size
    }

    /// The number of layers.
    pub fn num_layers(&self) -> (r: u32)
        ensures
            r == self.num_layers_spec(),
    {
        self.num_layers
    }

    /// The entries of one search type: each token with its neurons.
    pub fn entries(&self, search_type: TokenSearchType) -> (r: &Vec<(String, Vec<NeuronIndex>)>)
        ensures
            r@ == self.entries_spec(search_type),
            tokens_distinct(r@),
            lists_distinct(r@),
    {
        proof {
            use_type_invariant(self);
        }
        match search_type {
            TokenSearchType::Activating => &self.activating,
            TokenSearchType::Important => &self.important,
        }
    }

    /// The neurons that `token` is found for, by the given search type.
    pub fn get(&self, search_type: TokenSearchType, token: &str) -> (r: Option<&Vec<NeuronIndex>>)
        ensures
            r matches Some(v) ==> exists|i: int|
                0 <= i < self.entries_spec(search_type).len() && #[trigger] self.entries_spec(
                    search_type,
                )[i].0@ == token@ && self.entries_spec(search_type)[i].1 == *v,
            r matches Some(v) ==> v@.no_duplicates(),
            r is None ==> forall|i: int|
                0 <= i < self.entries_spec(search_type).len() ==> #[trigger] self.entries_spec(
                    search_type,
                )[i].0@ != token@,
    {
        proof {
            use_type_invariant(self);
        }
        let entries = match search_type {
            TokenSearchType::Activating => &self.activating,
            TokenSearchType::Important => &self.important,
        };
        let mut i: usize = 0;
        while i < entries.len()
            invariant
                entries@ == self.entries_spec(search_type),
                forall|k: int| 0 <= k < entries@.len() ==> (#[trigger] entries@[k]).1@.no_duplicates(),
                i <= entries@.len(),
                forall|k: int| 0 <= k < i ==> #[trigger] entries@[k].0@ != token@,
            decreases entries.len() - i,
        {
            if str_equals(entries[i].0.as_str(), token) {
                return Some(&entries[i].1);
            }
            i = i + 1;
        }
        None
    }
}

/// What walking two token lists side by side, as the similarity of two
/// neurons is computed, counts as common: the smaller front token is
/// passed over, equal front tokens count once and are both passed over.
pub open spec fn merge_common(a: Seq<u32>, b: Seq<u32>) -> nat
    decreases a.len() + b.len(),
{
    if a.len() == 0 || b.len() == 0 {
        0
    } else if a[0] < b[0] {
        merge_common(a.drop_first(), b)
    } else if a[0] == b[0] {
        1 + merge_common(a.drop_first(), b.drop_first())
    } else {
        merge_common(a, b.drop_first())
    }
}

/// The number of tokens of `a` that `b` also holds.
pub open spec fn common_count(a: Seq<u32>, b: Seq<u32>) -> nat
    decreases a.len(),
{
    if a.len() == 0 {
        0
    } else {
        (if b.contains(a[0]) {
            1nat
        } else {
            0nat
        }) + common_count(a.drop_first(), b)
    }
}

/// The list only grows, strictly.
pub open spec fn strictly_increasing(s: Seq<u32>) -> bool {
    forall|i: int, j: int| 0 <= i < j < s.len() ==> s[i] < s[j]
}

/// The number of tokens of two lists that walking them counts as common.
pub fn count_common(a: &[u32], b: &[u32]) -> (r: u64)
    ensures
        r == merge_common(a@, b@),
{
    let mut count: u64 = 0;
    let mut i: usize = 0;
    let mut j: usize = 0;
    assert(a@.skip(0) =~= a@);
    assert(b@.skip(0) =~= b@);
    while i < a.len() && j < b.len()
        invariant
            i <= a@.len(),
            j <= b@.len(),
            count <= i,
            merge_common(a@, b@) == count + merge_common(a@.skip(i as int), b@.skip(j as int)),
        decreases a.len() + b.len() - i - j,
    {
        let x = a[i];
        let y = b[j];
        assert(a@.skip(i as int)[0] == x && b@.skip(j as int)[0] == y);
        assert(a@.skip(i as int).drop_first() =~= a@.skip(i + 1));
        assert(b@.skip(j as int).drop_first() =~= b@.skip(j + 1));
        if x < y {
            i = i + 1;
        } else if x == y {
            count = count + 1;
            i = i + 1;
            j = j + 1;
        } else {
            j = j + 1;
        }
    }
    count
}

/// Where `b`'s first token is not in `a`, dropping it does not change what
/// `a` has in common with `b`.
proof fn lemma_common_count_drop(a: Seq<u32>, b: Seq<u32>)
    requires
        b.len() > 0,
        forall|i: int| 0 <= i < a.len() ==> a[i] != b[0],
    ensures
        common_count(a, b) == common_count(a, b.drop_first()),
    decreases a.len(),
{
    if a.len() > 0 {
        lemma_common_count_drop(a.drop_first(), b);
        assert(b.contains(a[0]) == b.drop_first().contains(a[0])) by {
            if b.contains(a[0]) {
                let w = choose|w: int| 0 <= w < b.len() && b[w] == a[0];
                assert(w > 0);
                assert(b.drop_first()[w - 1] == a[0]);
            }
            if b.drop_first().contains(a[0]) {
                let w = choose|w: int| 0 <= w < b.len() - 1 && b.drop_first()[w] == a[0];
                assert(b[w + 1] == a[0]);
            }
        }
    }
}

/// For token lists that only grow, walking them side by side counts
/// exactly the tokens they share.
pub proof fn law_common_tokens_of_sorted_lists(a: Seq<u32>, b: Seq<u32>)
    requires
        strictly_increasing(a),
        strictly_increasing(b),
    ensures
        merge_common(a, b) == common_count(a, b),
    decreases a.len() + b.len(),
{
    if a.len() == 0 {
    } else if b.len() == 0 {
        lemma_common_count_empty(a, b);
    } else if a[0] < b[0] {
        law_common_tokens_of_sorted_lists(a.drop_first(), b);
        assert(!b.contains(a[0])) by {
            if b.contains(a[0]) {
                let w = choose|w: int| 0 <= w < b.len() && b[w] == a[0];
                if w > 0 {
                    assert(b[0] < b[w]);
                }
            }
        }
    } else if a[0] == b[0] {
        law_common_tokens_of_sorted_lists(a.drop_first(), b.drop_first());
        assert forall|i: int| 0 <= i < a.drop_first().len() implies a.drop_first()[i] != b[0] by {
            assert(a[0] < a[i + 1]);
        }
        lemma_common_count_drop(a.drop_first(), b);
        assert(b.contains(a[0])) by {
            assert(b[0] == a[0]);
        }
    } else {
        law_common_tokens_of_sorted_lists(a, b.drop_first());
        assert forall|i: int| 0 <= i < a.len() implies a[i] != b[0] by {
            if i > 0 {
                assert(a[0] < a[i]);
            }
        }
        lemma_common_count_drop(a, b);
    }
}

/// Nothing is in common with an empty list.
proof fn lemma_common_count_empty(a: Seq<u32>, b: Seq<u32>)
    requires
        b.len() == 0,
    ensures
        common_count(a, b) == 0,
    decreases a.len(),
{
    if a.len() > 0 {
        lemma_common_count_empty(a.drop_first(), b);
    }
}

/// How many times the entry holds a neuron with flat index `f`.
pub open spec fn flat_occurrences(neurons: Seq<NeuronIndex>, layer_size: u32, f: int) -> nat
    decreases neurons.len(),
{
    if neurons.len() == 0 {
        0
    } else {
        flat_occurrences(neurons.drop_last(), layer_size, f) + if flat_index_spec(
            neurons.last(),
            layer_size as nat,
        ) == f {
            1nat
        } else {
            0nat
        }
    }
}

/// The token numbers listed for the neuron with flat index `f`, from the
/// first `t` entries: each entry's number, once for each of its neurons
/// with that flat index.
pub open spec fn token_list_spec(
    entries: Seq<(String, Vec<NeuronIndex>)>,
    layer_size: u32,
    f: int,
    t: nat,
) -> Seq<u32>
    decreases t,
{
    if t == 0 {
        Seq::empty()
    } else {
        token_list_spec(entries, layer_size, f, (t - 1) as nat) + Seq::new(
            flat_occurrences(entries[t - 1].1@, layer_size, f),
            |_i: int| (t - 1) as u32,
        )
    }
}

/// Every neuron of the entries lies below the given flat index.
pub open spec fn entries_below(
    entries: Seq<(String, Vec<NeuronIndex>)>,
    layer_size: u32,
    num_neurons: nat,
) -> bool {
    forall|i: int, k: int|
        0 <= i < entries.len() && 0 <= k < entries[i].1@.len() ==> flat_index_spec(
            #[trigger] entries[i].1@[k],
            layer_size as nat,
        ) < num_neurons
}

/// Why the tokens of the neurons could not be listed.
#[derive(Debug, Clone, Copy, PartialEq, Eq, Structural)]
pub enum SimilarityError {
    /// A neuron's flat index is not below the number of neurons; it is given.
    IndexOutOfRange(usize),
}

impl NeuronStore {
    /// For each neuron, by flat index, the numbers of the tokens (entries, in
    /// order) that list it for the given search type.
    pub fn neuron_token_lists(&self, search_type: TokenSearchType) -> (r: Result<
        Vec<Vec<u32>>,
        SimilarityError,
    >)
        requires
            self.num_layers_spec() * self.layer_size_spec() <= usize::MAX,
            entries_fit(self.entries_spec(search_type), self.layer_size_spec()),
        ensures
            r is Ok <==> entries_below(
                self.entries_spec(search_type),
                self.layer_size_spec(),
                (self.num_layers_spec() * self.layer_size_spec()) as nat,
            ),
            r matches Ok(lists) ==> {
                &&& lists@.len() == self.num_layers_spec() * self.layer_size_spec()
                &&& forall|f: int|
                    0 <= f < lists@.len() ==> (#[trigger] lists@[f])@ == token_list_spec(
                        self.entries_spec(search_type),
                        self.layer_size_spec(),
                        f,
                        self.entries_spec(search_type).len(),
                    )
            },
    {
        let entries = match search_type {
            TokenSearchType::Activating => &self.activating,
            TokenSearchType::Important => &self.important,
        };
        let layer_size = self.layer_size;
        proof {
            vstd::arithmetic::mul::lemma_mul_nonnegative(
                self.num_layers as int,
                self.layer_size as int,
            );
        }
        let num_neurons = self.num_layers as usize * self.layer_size as usize;
        let mut lists: Vec<Vec<u32>> = Vec::new();
        let mut f: usize = 0;
        while f < num_neurons
            invariant
                f <= num_neurons,
                lists@.len() == f,
                forall|g: int| 0 <= g < f ==> (#[trigger] lists@[g])@ == Seq::<u32>::empty(),
            decreases num_neurons - f,
        {
            lists.push(Vec::new());
            f = f + 1;
        }
        let mut t: usize = 0;
        while t < entries.len()
            invariant
                entries@ == self.entries_spec(search_type),
                layer_size == self.layer_size_spec(),
                entries_fit(entries@, layer_size),
                num_neurons == self.num_layers_spec() * self.layer_size_spec(),
                t <= entries@.len(),
                lists@.len() == num_neurons,
                entries_below(entries@.take(t as int), layer_size, num_neurons as nat),
                forall|g: int|
                    0 <= g < num_neurons ==> (#[trigger] lists@[g])@ == token_list_spec(
                        entries@,
                        layer_size,
                        g,
                        t as nat,
                    ),
            decreases entries.len() - t,
        {
            let neurons = &entries[t].1;
            let mut k: usize = 0;
            while k < neurons.len()
                invariant
                    entries@ == self.entries_spec(search_type),
                    neurons@ == entries@[t as int].1@,
                    layer_size == self.layer_size_spec(),
                    entries_fit(entries@, layer_size),
                    num_neurons == self.num_layers_spec() * self.layer_size_spec(),
                    t < entries@.len(),
                    k <= neurons@.len(),
                    lists@.len() == num_neurons,
                    forall|m: int| 0 <= m < k ==> flat_index_spec(#[trigger] neurons@[m], layer_size as nat) < num_neurons,
                    forall|g: int|
                        0 <= g < num_neurons ==> (#[trigger] lists@[g])@ == token_list_spec(
                            entries@,
                            layer_size,
                            g,
                            t as nat,
                        ) + Seq::new(
                            flat_occurrences(neurons@.take(k as int), layer_size, g),
                            |_i: int| t as u32,
                        ),
                decreases neurons.len() - k,
            {
                assert(flat_index_spec(entries@[t as int].1@[k as int], layer_size as nat) <= u32::MAX);
                let index = neurons[k].flat_index(layer_size);
                assert(neurons@.take(k + 1).drop_last() =~= neurons@.take(k as int));
                assert(neurons@.take(k + 1).last() == neurons@[k as int]);
                if index >= num_neurons {
                    proof {
                        assert(!entries_below(entries@, layer_size, num_neurons as nat)) by {
                            assert(flat_index_spec(entries@[t as int].1@[k as int], layer_size as nat) >= num_neurons);
                        }
                    }
                    return Err(SimilarityError::IndexOutOfRange(index));
                }
                let ghost before = lists@;
                let mut list = Vec::new();
                std::mem::swap(&mut list, &mut lists[index]);
                list.push(#[verifier::truncate] (t as u32));
                lists.set(index, list);
                assert forall|g: int| 0 <= g < num_neurons implies (#[trigger] lists@[g])@
                    == token_list_spec(entries@, layer_size, g, t as nat) + Seq::new(
                    flat_occurrences(neurons@.take(k + 1), layer_size, g),
                    |_i: int| t as u32,
                ) by {
                    if g == index {
                        assert(lists@[g]@ =~= before[g]@.push(t as u32));
                        assert(token_list_spec(entries@, layer_size, g, t as nat) + Seq::new(
                            flat_occurrences(neurons@.take(k + 1), layer_size, g),
                            |_i: int| t as u32,
                        ) =~= token_list_spec(entries@, layer_size, g, t as nat) + Seq::new(
                            flat_occurrences(neurons@.take(k as int), layer_size, g),
                            |_i: int| t as u32,
                        ).push(t as u32));
                    } else {
                        assert(lists@[g] == before[g]);
                        assert(Seq::new(
                            flat_occurrences(neurons@.take(k + 1), layer_size, g),
                            |_i: int| t as u32,
                        ) =~= Seq::new(
                            flat_occurrences(neurons@.take(k as int), layer_size, g),
                            |_i: int| t as u32,
                        ));
                    }
                }
                k = k + 1;
            }
            assert(neurons@.take(k as int) =~= neurons@);
            assert(entries_below(entries@.take(t + 1), layer_size, num_neurons as nat)) by {
                assert forall|i: int, m: int|
                    0 <= i < entries@.take(t + 1).len() && 0 <= m < entries@.take(t + 1)[i].1@.len()
                    implies flat_index_spec(
                    #[trigger] entries@.take(t + 1)[i].1@[m],
                    layer_size as nat,
                ) < num_neurons by {
                    if i < t {
                        assert(entries@.take(t + 1)[i] == entries@.take(t as int)[i]);
                    } else {
                        assert(entries@.take(t + 1)[i].1@[m] == neurons@[m]);
                    }
                }
            }
            t = t + 1;
        }
        assert(entries@.take(t as int) =~= entries@);
        Ok(lists)
    }
}

/// Every neuron of the entries lies within layers of `layer_size` neurons,
/// and no entry lists a neuron twice.
pub open spec fn entries_in_layers(entries: Seq<(String, Vec<NeuronIndex>)>, layer_size: u32) -> bool {
    &&& forall|i: int, k: int|
        0 <= i < entries.len() && 0 <= k < entries[i].1@.len() ==> (#[trigger] entries[i].1@[k]).neuron
            < layer_size
    &&& forall|i: int| 0 <= i < entries.len() ==> (#[trigger] entries[i]).1@.no_duplicates()
}

/// Within layers, distinct neurons have distinct flat indices, so a list
/// without repeats holds each flat index at most once.
proof fn lemma_flat_occurrences_at_most_one(neurons: Seq<NeuronIndex>, layer_size: u32, f: int)
    requires
        neurons.no_duplicates(),
        forall|k: int| 0 <= k < neurons.len() ==> (#[trigger] neurons[k]).neuron < layer_size,
    ensures
        flat_occurrences(neurons, layer_size, f) <= 1,
        flat_occurrences(neurons, layer_size, f) == 1 ==> exists|k: int|
            0 <= k < neurons.len() && flat_index_spec(#[trigger] neurons[k], layer_size as nat) == f,
    decreases neurons.len(),
{
    if neurons.len() > 0 {
        let init = neurons.drop_last();
        lemma_flat_occurrences_at_most_one(init, layer_size, f);
        let last = neurons.last();
        if flat_index_spec(last, layer_size as nat) == f && flat_occurrences(init, layer_size, f) == 1 {
            let k = choose|k: int|
                0 <= k < init.len() && flat_index_spec(#[trigger] init[k], layer_size as nat) == f;
            assert(init[k] == neurons[k]);
            let x = init[k];
            assert(x.layer * layer_size + x.neuron == last.layer * layer_size + last.neuron);
            vstd::arithmetic::div_mod::lemma_fundamental_div_mod_converse(
                f,
                layer_size as int,
                x.layer as int,
                x.neuron as int,
            );
            vstd::arithmetic::div_mod::lemma_fundamental_div_mod_converse(
                f,
                layer_size as int,
                last.layer as int,
                last.neuron as int,
            );
            assert(x == last);
            assert(neurons[k] == neurons[neurons.len() - 1]);
        }
        if flat_occurrences(neurons, layer_size, f) == 1 && flat_index_spec(last, layer_size as nat) != f {
            let k = choose|k: int|
                0 <= k < init.len() && flat_index_spec(#[trigger] init[k], layer_size as nat) == f;
            assert(init[k] == neurons[k]);
        }
    }
}

/// For a store whose neurons lie within its layers, each neuron's list of
/// token numbers only grows, so walking two such lists counts exactly the
/// tokens the neurons share.
pub proof fn law_token_lists_strictly_increasing(
    entries: Seq<(String, Vec<NeuronIndex>)>,
    layer_size: u32,
    f: int,
    t: nat,
)
    requires
        entries_in_layers(entries, layer_size),
        t <= entries.len(),
        entries.len() <= u32::MAX + 1,
    ensures
        strictly_increasing(token_list_spec(entries, layer_size, f, t)),
        forall|i: int|
            0 <= i < token_list_spec(entries, layer_size, f, t).len() ==> #[trigger] token_list_spec(
                entries,
                layer_size,
                f,
                t,
            )[i] < t,
    decreases t,
{
    if t > 0 {
        let prev = token_list_spec(entries, layer_size, f, (t - 1) as nat);
        law_token_lists_strictly_increasing(entries, layer_size, f, (t - 1) as nat);
        assert(entries[t - 1].1@.no_duplicates());
        lemma_flat_occurrences_at_most_one(entries[t - 1].1@, layer_size, f);
        let block = Seq::new(
            flat_occurrences(entries[t - 1].1@, layer_size, f),
            |_i: int| (t - 1) as u32,
        );
        let all = token_list_spec(entries, layer_size, f, t);
        assert(all == prev + block);
        assert forall|i: int, j: int| 0 <= i < j < all.len() implies all[i] < all[j] by {
            if j >= prev.len() {
                assert(all[j] == (t - 1) as u32);
                assert(i < prev.len());
                assert(prev[i] < t - 1);
            }
        }
    }
}

/// The counts that two neurons' similarity is computed from: the tokens
/// they have in common among the activating and among the important
/// tokens, and the most they could have in common, which takes the number
/// of neurons for the first neuron's count of tokens.
pub fn similarity_counts(
    activating: &Vec<Vec<u32>>,
    important: &Vec<Vec<u32>>,
    neuron: usize,
    other: usize,
) -> (r: (u128, u128))
    requires
        neuron < activating@.len(),
        other < activating@.len(),
        neuron < important@.len(),
        other < important@.len(),
    ensures
        r.0 == merge_common(activating@[neuron as int]@, activating@[other as int]@)
            + merge_common(important@[neuron as int]@, important@[other as int]@),
        r.1 == min(activating@.len() as int, activating@[other as int]@.len() as int) + min(
            important@.len() as int,
            important@[other as int]@.len() as int,
        ),
{
    let a = count_common(activating[neuron].as_slice(), activating[other].as_slice());
    let b = count_common(important[neuron].as_slice(), important[other].as_slice());
    proof {
        lemma_merge_common_bound(activating@[neuron as int]@, activating@[other as int]@);
        lemma_merge_common_bound(important@[neuron as int]@, important@[other as int]@);
    }
    let pa = if activating.len() < activating[other].len() {
        activating.len()
    } else {
        activating[other].len()
    };
    let pb = if important.len() < important[other].len() {
        important.len()
    } else {
        important[other].len()
    };
    (a as u128 + b as u128, pa as u128 + pb as u128)
}

/// Walking two lists counts no more tokens than the first holds.
proof fn lemma_merge_common_bound(a: Seq<u32>, b: Seq<u32>)
    ensures
        merge_common(a, b) <= a.len(),
    decreases a.len() + b.len(),
{
    if a.len() > 0 && b.len() > 0 {
        if a[0] < b[0] {
            lemma_merge_common_bound(a.drop_first(), b);
        } else if a[0] == b[0] {
            lemma_merge_common_bound(a.drop_first(), b.drop_first());
        } else {
            lemma_merge_common_bound(a, b.drop_first());
        }
    }
}

} // verus!
