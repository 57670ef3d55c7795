//! The neuron explainer's activation records: the tokens of a text. The
//! activations beside them are half-precision floats and stay with the
//! caller.

use vstd::prelude::*;

verus! {

/// A token of a neuron explainer activation record.
#[derive(Clone, Debug)]
pub struct Token {
    value: String,
}

impl Token {
    /// The token with the text `value`.
    pub fn new(value: String) -> (r: Self)
        ensures
            r.value_spec() == value@,
    {
        Token { value }
    }

    pub closed spec fn value_spec(&self) -> Seq<char> {
        self.value@
    }

    /// The text of the token.
    pub fn value(&self) -> (r: &str)
        ensures
            r@ == self.value_spec(),
    {
        self.value.as_str()
    }
}

} // verus!
