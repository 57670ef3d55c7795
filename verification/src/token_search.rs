//! Searches for the neurons that a token activates or that find a token
//! important, written `search_type:token`.

use vstd::prelude::*;

use crate::text::{
    chars_of, find_single, occurs_once, single_occurrence_at, single_position, str_equals, substring,
};

verus! {

/// Whether a token is searched among the tokens that activate a neuron or
/// among those that a neuron finds important.
#[derive(Debug, Clone, Copy, PartialEq, Eq, Structural)]
pub enum TokenSearchType {
    Activating,
    Important,
}

/// A token and the ways it is searched for.
#[derive(Debug, Clone)]
pub struct TokenSearch {
    pub token: String,
    pub search_types: Vec<TokenSearchType>,
}

/// Why a text is not a token search.
#[derive(Debug, Clone, PartialEq, Eq)]
pub enum TokenSearchError {
    /// The search type is not `activating`, `important` or `any`; it is given.
    InvalidSearchType(String),
    /// The text does not hold exactly one `:`.
    NotSearchTypeColonToken,
}

/// The name of a search type.
pub open spec fn search_type_name(t: TokenSearchType) -> Seq<char> {
    match t {
        TokenSearchType::Activating => "activating"@,
        TokenSearchType::Important => "important"@,
    }
}

/// The search types that a name stands for: `any` stands for both.
pub open spec fn search_types_named(s: Seq<char>) -> Option<Seq<TokenSearchType>> {
    if s == "activating"@ {
        Some(seq![TokenSearchType::Activating])
    } else if s == "important"@ {
        Some(seq![TokenSearchType::Important])
    } else if s == "any"@ {
        Some(seq![TokenSearchType::Activating, TokenSearchType::Important])
    } else {
        None
    }
}

impl TokenSearchType {
    /// The search type's name.
    pub fn to_str(self) -> (r: &'static str)
        ensures
            r@ == search_type_name(self),
    {
        match self {
            Self::Activating => "activating",
            Self::Important => "important",
        }
    }

    /// The search types that `s` names: `activating`, `important`, or `any`
    /// for both.
    pub fn list_from_str(s: &str) -> (r: Result<Vec<Self>, TokenSearchError>)
        ensures
            r matches Ok(v) ==> search_types_named(s@) == Some(v@),
            r matches Err(e) ==> search_types_named(s@) is None && e
                == TokenSearchError::InvalidSearchType(e->InvalidSearchType_0) && e->InvalidSearchType_0@
                == s@,
    {
        if str_equals(s, "activating") {
            let mut v = Vec::new();
            v.push(Self::Activating);
            assert(v@ =~= seq![TokenSearchType::Activating]);
            Ok(v)
        } else if str_equals(s, "important") {
            let mut v = Vec::new();
            v.push(Self::Important);
            assert(v@ =~= seq![TokenSearchType::Important]);
            Ok(v)
        } else if str_equals(s, "any") {
            let mut v = Vec::new();
            v.push(Self::Activating);
            v.push(Self::Important);
            assert(v@ =~= seq![TokenSearchType::Activating, TokenSearchType::Important]);
            Ok(v)
        } else {
            Err(TokenSearchError::InvalidSearchType(s.to_owned()))
        }
    }

    /// The search type's name, as text.
    pub fn to_string(self) -> (r: String)
        ensures
            r@ == search_type_name(self),
    {
        self.to_str().to_owned()
    }
}

/// What parsing `search_type:token` gives: the search types and the token.
pub open spec fn token_search_spec(s: Seq<char>) -> Option<(Seq<TokenSearchType>, Seq<char>)> {
    if !occurs_once(s, ':') {
        None
    } else {
        let p = single_position(s, ':');
        match search_types_named(s.subrange(0, p)) {
            Some(types) => Some((types, s.subrange(p + 1, s.len() as int))),
            None => None,
        }
    }
}

impl TokenSearch {
    /// Parses a token search written `search_type:token`.
    pub fn parse(s: &str) -> (r: Result<Self, TokenSearchError>)
        ensures
            r matches Ok(search) ==> token_search_spec(s@) == Some(
                (search.search_types@, search.token@),
            ),
            r matches Err(TokenSearchError::NotSearchTypeColonToken) ==> !occurs_once(s@, ':'),
            r matches Err(TokenSearchError::InvalidSearchType(t)) ==> occurs_once(s@, ':')
                && t@ == s@.subrange(0, single_position(s@, ':')) && token_search_spec(
                s@,
            ) is None,
    {
        let chars = chars_of(s);
        let len = chars.len();
        let p = match find_single(&chars, ':') {
            Some(p) => p,
            None => return Err(TokenSearchError::NotSearchTypeColonToken),
        };
        let search_type_str = substring(s, 0, p);
        let token = substring(s, p + 1, len);
        let search_types = TokenSearchType::list_from_str(search_type_str.as_str())?;
        Ok(TokenSearch { token, search_types })
    }
}

/// The name of a search type stands for that search type alone.
pub proof fn law_search_type_name_roundtrip(t: TokenSearchType)
    ensures
        search_types_named(search_type_name(t)) == Some(seq![t]),
{
    reveal_strlit("activating");
    reveal_strlit("important");
    reveal_strlit("any");
    assert("activating"@.len() == 10 && "important"@.len() == 9 && "any"@.len() == 3);
}

/// A search written as a search type's name, a colon and a token without
/// colons is read back as that search type and that token.
pub proof fn law_written_search_parses(t: TokenSearchType, token: Seq<char>)
    requires
        !token.contains(':'),
    ensures
        token_search_spec(search_type_name(t) + seq![':'] + token) == Some((seq![t], token)),
{
    reveal_strlit("activating");
    reveal_strlit("important");
    law_search_type_name_roundtrip(t);
    let name = search_type_name(t);
    let s = name + seq![':'] + token;
    let p = name.len() as int;
    assert(!name.contains(':')) by {
        if name.contains(':') {
            let k = choose|k: int| 0 <= k < name.len() && name[k] == ':';
            assert(name[k] != ':');
        }
    }
    assert(single_occurrence_at(s, ':', p)) by {
        assert forall|j: int| 0 <= j < s.len() && j != p implies s[j] != ':' by {
            if j < p {
                assert(s[j] == name[j]);
                assert(!name.contains(':'));
            } else {
                assert(s[j] == token[j - p - 1]);
            }
        }
    }
    let q = single_position(s, ':');
    assert(single_occurrence_at(s, ':', q));
    assert(q == p);
    assert(s.subrange(0, p) =~= name);
    assert(s.subrange(p + 1, s.len() as int) =~= token);
}

impl core::str::FromStr for TokenSearch {
    type Err = TokenSearchError;

    fn from_str(s: &str) -> (r: Result<Self, TokenSearchError>)
        ensures
            r matches Ok(search) ==> token_search_spec(s@) == Some(
                (search.search_types@, search.token@),
            ),
            r matches Err(TokenSearchError::NotSearchTypeColonToken) ==> !occurs_once(s@, ':'),
            r matches Err(TokenSearchError::InvalidSearchType(t)) ==> occurs_once(s@, ':')
                && t@ == s@.subrange(0, single_position(s@, ':')) && token_search_spec(
                s@,
            ) is None,
    {
        TokenSearch::parse(s)
    }
}

} // verus!
