//! The tokens of a model's vocabulary, and the number of each.

use vstd::prelude::*;

use crate::text::str_equals;

verus! {

/// A vocabulary: token `i` is numbered `i`. Where a token is listed more than
/// once, its number is that of its last place.
#[derive(Clone, Debug)]
pub struct TokenDictionary {
    tokens: Vec<String>,
}

/// The texts of a list of strings.
pub open spec fn texts(tokens: Seq<String>) -> Seq<Seq<char>> {
    tokens.map_values(|t: String| t@)
}

/// The last place of `t` in `ts`.
pub open spec fn last_position(ts: Seq<Seq<char>>, t: Seq<char>) -> Option<int>
    decreases ts.len(),
{
    if ts.len() == 0 {
        None
    } else if ts.last() == t {
        Some(ts.len() - 1)
    } else {
        last_position(ts.drop_last(), t)
    }
}

/// No later place holds the token at place `i`.
pub open spec fn is_last_occurrence(ts: Seq<Seq<char>>, i: int) -> bool {
    forall|j: int| i < j < ts.len() ==> ts[j] != ts[i]
}

/// Each token of the first `n` places whose place is its last, with its number.
pub open spec fn index_entries(ts: Seq<Seq<char>>, n: nat) -> Seq<(Seq<char>, u32)>
    decreases n,
{
    if n == 0 {
        Seq::empty()
    } else {
        index_entries(ts, (n - 1) as nat) + if is_last_occurrence(ts, n - 1) {
            seq![(ts[n - 1], (n - 1) as u32)]
        } else {
            Seq::empty()
        }
    }
}

/// The last place of a token in the list is the highest place that holds it.
pub proof fn lemma_last_position(ts: Seq<Seq<char>>, t: Seq<char>)
    ensures
        last_position(ts, t) matches Some(i) ==> 0 <= i < ts.len() && ts[i] == t
            && is_last_occurrence(ts, i),
        last_position(ts, t) is None ==> forall|j: int| 0 <= j < ts.len() ==> ts[j] != t,
    decreases ts.len(),
{
    if ts.len() > 0 {
        let init = ts.drop_last();
        lemma_last_position(init, t);
        if ts.last() != t {
            if let Some(i) = last_position(init, t) {
                assert forall|j: int| i < j < ts.len() implies ts[j] != ts[i] by {
                    if j < ts.len() - 1 {
                        assert(init[j] == ts[j]);
                    }
                }
            } else {
                assert forall|j: int| 0 <= j < ts.len() implies ts[j] != t by {
                    if j < ts.len() - 1 {
                        assert(init[j] == ts[j]);
                    }
                }
            }
        }
    }
}

/// A listed token has a number, and that number names the token back; a
/// token listed only once is numbered by its place.
pub proof fn law_listed_token_numbered_back(ts: Seq<Seq<char>>, i: int)
    requires
        0 <= i < ts.len(),
    ensures
        last_position(ts, ts[i]) matches Some(p) && 0 <= p < ts.len() && ts[p] == ts[i] && i <= p,
        is_last_occurrence(ts, i) ==> last_position(ts, ts[i]) == Some(i),
{
    lemma_last_position(ts, ts[i]);
    if let Some(p) = last_position(ts, ts[i]) {
        if p < i {
            assert(ts[i] != ts[p]);
        }
        if is_last_occurrence(ts, i) && i < p {
            assert(ts[p] != ts[i]);
        }
    } else {
        assert(ts[i] != ts[i]);
    }
}

/// The tokens of the index entries.
pub open spec fn entry_tokens(entries: Seq<(Seq<char>, u32)>) -> Seq<Seq<char>> {
    entries.map_values(|e: (Seq<char>, u32)| e.0)
}

/// The entries of the first `n` places are the last places among them, each
/// with its token, every token once.
proof fn lemma_index_entries(ts: Seq<Seq<char>>, n: nat)
    requires
        n <= ts.len(),
        ts.len() <= u32::MAX + 1,
    ensures
        forall|j: int|
            0 <= j < index_entries(ts, n).len() ==> {
                let e = #[trigger] index_entries(ts, n)[j];
                &&& e.1 < n
                &&& e.0 == ts[e.1 as int]
                &&& is_last_occurrence(ts, e.1 as int)
            },
        entry_tokens(index_entries(ts, n)).no_duplicates(),
        forall|i: int|
            0 <= i < n && is_last_occurrence(ts, i) ==> entry_tokens(index_entries(ts, n)).contains(
                #[trigger] ts[i],
            ),
    decreases n,
{
    if n > 0 {
        let m = (n - 1) as nat;
        lemma_index_entries(ts, m);
        let prev = index_entries(ts, m);
        let cur = index_entries(ts, n);
        if is_last_occurrence(ts, m as int) {
            assert(cur == prev + seq![(ts[m as int], m as u32)]);
            assert(entry_tokens(cur) =~= entry_tokens(prev).push(ts[m as int]));
            assert(!entry_tokens(prev).contains(ts[m as int])) by {
                if entry_tokens(prev).contains(ts[m as int]) {
                    let j = choose|j: int|
                        0 <= j < entry_tokens(prev).len() && entry_tokens(prev)[j] == ts[m as int];
                    let e = prev[j];
                    assert(e.1 < m && ts[e.1 as int] == ts[m as int]);
                    assert(is_last_occurrence(ts, e.1 as int));
                }
            }
            assert forall|i: int|
                0 <= i < n && is_last_occurrence(ts, i) implies entry_tokens(cur).contains(
                #[trigger] ts[i],
            ) by {
                if i < m {
                    let j = choose|j: int|
                        0 <= j < entry_tokens(prev).len() && entry_tokens(prev)[j] == ts[i];
                    assert(entry_tokens(cur)[j] == ts[i]);
                } else {
                    assert(entry_tokens(cur)[entry_tokens(prev).len() as int] == ts[i]);
                }
            }
        } else {
            assert(cur =~= prev);
        }
    }
}

/// The token index lists every distinct token exactly once, each with its
/// number: the last place that holds it.
pub proof fn law_token_indices_list_each_token_once(ts: Seq<Seq<char>>)
    requires
        ts.len() <= u32::MAX + 1,
    ensures
        index_entries(ts, ts.len()).len() == ts.to_set().len(),
        forall|j: int|
            0 <= j < index_entries(ts, ts.len()).len() ==> {
                let e = #[trigger] index_entries(ts, ts.len())[j];
                &&& e.1 < ts.len()
                &&& ts[e.1 as int] == e.0
                &&& last_position(ts, e.0) == Some(e.1 as int)
            },
{
    let entries = index_entries(ts, ts.len());
    lemma_index_entries(ts, ts.len());
    let keys = entry_tokens(entries);
    assert forall|j: int| 0 <= j < entries.len() implies {
        let e = #[trigger] entries[j];
        &&& e.1 < ts.len()
        &&& ts[e.1 as int] == e.0
        &&& last_position(ts, e.0) == Some(e.1 as int)
    } by {
        let e = entries[j];
        law_listed_token_numbered_back(ts, e.1 as int);
    }
    assert(keys.to_set() =~= ts.to_set()) by {
        assert forall|x: Seq<char>| keys.to_set().contains(x) implies ts.to_set().contains(x) by {
            let j = choose|j: int| 0 <= j < keys.len() && keys[j] == x;
            assert(ts[entries[j].1 as int] == x);
        }
        assert forall|x: Seq<char>| ts.to_set().contains(x) implies keys.to_set().contains(x) by {
            let w = choose|w: int| 0 <= w < ts.len() && ts[w] == x;
            lemma_last_position(ts, x);
            let p = last_position(ts, x)->0;
            assert(ts[p] == x && is_last_occurrence(ts, p));
            assert(keys.contains(ts[p]));
        }
    }
    keys.unique_seq_to_set();
}

impl View for TokenDictionary {
    type V = Seq<Seq<char>>;

    closed spec fn view(&self) -> Seq<Seq<char>> {
        texts(self.tokens@)
    }
}

impl TokenDictionary {
    /// The vocabulary of the given tokens, numbered by place.
    pub fn new(tokens: Vec<String>) -> (r: Self)
        ensures
            r@ == texts(tokens@),
    {
        TokenDictionary { tokens }
    }

    /// The tokens, by number.
    pub fn tokens(&self) -> (r: &[String])
        ensures
            texts(r@) == self@,
    {
        self.tokens.as_slice()
    }

    /// The number of `token`: its last place in the list, cut to 32 bits.
    pub fn token_index(&self, token: &str) -> (r: Option<u32>)
        ensures
            r matches Some(i) ==> last_position(self@, token@) matches Some(p) && i == p as u32,
            r is None ==> last_position(self@, token@) is None,
    {
        let mut i = self.tokens.len();
        assert(self@.take(i as int) =~= self@);
        while i > 0
            invariant
                i <= self.tokens@.len(),
                last_position(self@, token@) == last_position(self@.take(i as int), token@),
            decreases i,
        {
            let ghost prefix = self@.take(i as int);
            assert(prefix.drop_last() =~= self@.take(i - 1));
            assert(prefix.last() == self.tokens@[i - 1]@);
            if str_equals(self.tokens[i - 1].as_str(), token) {
                return Some(#[verifier::truncate] ((i - 1) as u32));
            }
            i = i - 1;
        }
        None
    }

    /// Each distinct token with its number, in the order of their last places.
    pub fn token_indices(&self) -> (r: Vec<(String, u32)>)
        ensures
            r@.map_values(|e: (String, u32)| (e.0@, e.1)) == index_entries(
                self@,
                self@.len(),
            ),
    {
        let n = self.tokens.len();
        let mut r: Vec<(String, u32)> = Vec::new();
        let mut i: usize = 0;
        while i < n
            invariant
                n == self.tokens@.len(),
                i <= n,
                r@.map_values(|e: (String, u32)| (e.0@, e.1)) == index_entries(self@, i as nat),
            decreases n - i,
        {
            let mut last = true;
            let mut j = i + 1;
            while j < n
                invariant
                    n == self.tokens@.len(),
                    i < j <= n,
                    last == (forall|k: int| i < k < j ==> self@[k] != self@[i as int]),
                decreases n - j,
            {
                assert(self@[j as int] == self.tokens@[j as int]@);
                assert(self@[i as int] == self.tokens@[i as int]@);
                if self.tokens[j] == self.tokens[i] {
                    last = false;
                }
                j = j + 1;
            }
            let ghost before = r@;
            if last {
                let entry = (self.tokens[i].clone(), #[verifier::truncate] (i as u32));
                r.push(entry);
                assert(r@.map_values(|e: (String, u32)| (e.0@, e.1)) =~= before.map_values(
                    |e: (String, u32)| (e.0@, e.1),
                ).push((self@[i as int], i as u32)));
            }
            assert(r@.map_values(|e: (String, u32)| (e.0@, e.1)) =~= index_entries(
                self@,
                (i + 1) as nat,
            ));
            i = i + 1;
        }
        r
    }

    /// The number of `token`, which must be listed.
    pub fn index(&self, token: &str) -> (r: u32)
        requires
            last_position(self@, token@) is Some,
        ensures
            r == last_position(self@, token@)->0 as u32,
    {
        match self.token_index(token) {
            Some(i) => i,
            None => {
                proof {
                    assert(false);
                }
                0
            },
        }
    }

    /// The token numbered `index`.
    pub fn token(&self, index: u32) -> (r: &String)
        requires
            index < self@.len(),
        ensures
            r@ == self@[index as int],
    {
        &self.tokens[index as usize]
    }
}

} // verus!
