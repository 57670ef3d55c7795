//! The HTML page of one neuron on neuroscope: a header that names the neuron,
//! a rule, an empty gap, another rule, and then one section per text, the
//! sections separated by rules. The texts' own fields are floats and stay
//! with the caller; what is decided here is how the page is cut up and
//! whether the header names the neuron that was asked for.

use vstd::prelude::*;

use crate::neuron_index::NeuronIndex;
use crate::pattern::{regex_matches, single_match, single_match_spec, MatchError};
use crate::text::{
    char_is_whitespace, first_occurrence_from, is_whitespace, occurs_at, parse_u32, parse_u32_spec,
    split_on, split_str,
};

verus! {

/// The rule that separates the sections of a page.
pub const SECTION_RULE: &'static str = "<hr>";

/// The header of a neuron page: the neuron, then its layer.
pub const NEURON_HEADER_PATTERN: &'static str = r"<h2>Neuron (\d+) in Layer (\d+) </h2>";

/// Every character of `s` is white space: `s.trim()` is empty.
pub open spec fn all_whitespace(s: Seq<char>) -> bool {
    forall|i: int| 0 <= i < s.len() ==> #[trigger] is_whitespace(s[i])
}

/// Whether `s` is all white space.
pub fn is_blank(s: &str) -> (r: bool)
    ensures
        r == all_whitespace(s@),
{
    let chars = crate::text::chars_of(s);
    let mut i: usize = 0;
    while i < chars.len()
        invariant
            chars@ == s@,
            i <= chars@.len(),
            forall|j: int| 0 <= j < i ==> #[trigger] is_whitespace(chars@[j]),
        decreases chars.len() - i,
    {
        if !char_is_whitespace(chars[i]) {
            return false;
        }
        i = i + 1;
    }
    true
}

/// Why a neuron page was refused.
#[derive(Debug, Clone, Copy, PartialEq, Eq, Structural)]
pub enum NeuronPageError {
    /// The page has no second rule.
    MissingSecondRule,
    /// Something other than white space stands between the first two rules.
    GapNotEmpty,
    /// The header pattern did not match exactly once.
    Header(MatchError),
    /// The header's match lacks the neuron or the layer.
    MissingGroup,
    /// The layer in the header is no `u32`.
    BadLayer,
    /// The neuron in the header is no `u32`.
    BadNeuron,
    /// The header names another neuron than the one asked for.
    OtherNeuron(NeuronIndex),
}

/// The message that describes an error.
pub open spec fn page_error_message(e: NeuronPageError) -> Seq<char> {
    match e {
        NeuronPageError::MissingSecondRule => "Second &lt;hr&gt; tag not found."@,
        NeuronPageError::GapNotEmpty => "Space between first two &lt;hr&gt; tags not empty."@,
        NeuronPageError::Header(MatchError::NotFound) => "Failed to find neuron index header."@,
        NeuronPageError::Header(MatchError::Multiple) => "Multiple neuron index headers found."@,
        NeuronPageError::Header(MatchError::BadPattern) => "Failed to create regex."@,
        NeuronPageError::MissingGroup => "Neuron index header incomplete."@,
        NeuronPageError::BadLayer => "Failed to parse layer index."@,
        NeuronPageError::BadNeuron => "Failed to parse neuron index."@,
        NeuronPageError::OtherNeuron(_) => "Neuron index header names another neuron."@,
    }
}

impl NeuronPageError {
    /// The message that describes the error.
    pub fn message(&self) -> (r: String)
        ensures
            r@ == page_error_message(*self),
    {
        match self {
            NeuronPageError::MissingSecondRule => "Second &lt;hr&gt; tag not found.".to_owned(),
            NeuronPageError::GapNotEmpty => "Space between first two &lt;hr&gt; tags not empty.".to_owned(),
            NeuronPageError::Header(MatchError::NotFound) => "Failed to find neuron index header.".to_owned(),
            NeuronPageError::Header(MatchError::Multiple) => "Multiple neuron index headers found.".to_owned(),
            NeuronPageError::Header(MatchError::BadPattern) => "Failed to create regex.".to_owned(),
            NeuronPageError::MissingGroup => "Neuron index header incomplete.".to_owned(),
            NeuronPageError::BadLayer => "Failed to parse layer index.".to_owned(),
            NeuronPageError::BadNeuron => "Failed to parse neuron index.".to_owned(),
            NeuronPageError::OtherNeuron(_) => "Neuron index header names another neuron.".to_owned(),
        }
    }
}

/// `s` holds no rule.
pub open spec fn has_no_rule(s: Seq<char>) -> bool {
    forall|p: int| !occurs_at(s, SECTION_RULE@, p)
}

/// The sections, the rule between each two.
pub open spec fn join_sections(sections: Seq<Seq<char>>) -> Seq<char>
    decreases sections.len(),
{
    if sections.len() <= 1 {
        if sections.len() == 0 {
            Seq::empty()
        } else {
            sections[0]
        }
    } else {
        sections[0] + SECTION_RULE@ + join_sections(sections.drop_first())
    }
}

/// A page written as a header, a rule, a gap, a rule and the texts joined
/// by rules.
pub open spec fn written_page(header: Seq<char>, gap: Seq<char>, texts: Seq<Seq<char>>) -> Seq<char> {
    header + SECTION_RULE@ + gap + SECTION_RULE@ + join_sections(texts)
}

/// Searching a text without a rule finds none.
proof fn lemma_no_rule_found(s: Seq<char>, i: int)
    requires
        has_no_rule(s),
        0 <= i,
    ensures
        first_occurrence_from(s, SECTION_RULE@, i) is None,
    decreases s.len() + 1 - i,
{
    if i + SECTION_RULE@.len() <= s.len() {
        assert(!occurs_at(s, SECTION_RULE@, i));
        lemma_no_rule_found(s, i + 1);
    }
}

/// In `a`, a rule and `b`, where `a` holds no rule, the first rule is the
/// one after `a`: no rule can start inside `a`, since the rule's first
/// character occurs in it only there.
proof fn lemma_first_rule_after(a: Seq<char>, b: Seq<char>, i: int)
    requires
        has_no_rule(a),
        0 <= i <= a.len(),
    ensures
        first_occurrence_from(a + SECTION_RULE@ + b, SECTION_RULE@, i) == Some(a.len() as int),
    decreases a.len() - i,
{
    reveal_strlit("<hr>");
    let r = SECTION_RULE@;
    let s = a + r + b;
    assert(r.len() == 4);
    assert(s.subrange(a.len() as int, a.len() + 4int) =~= r);
    if i < a.len() {
        assert(!occurs_at(s, r, i)) by {
            if i + 4 <= a.len() {
                assert(s.subrange(i, i + 4) =~= a.subrange(i, i + 4));
                assert(!occurs_at(a, r, i));
            } else {
                let m = a.len() - i;
                assert(s.subrange(i, i + 4)[m] == s[a.len() as int]);
                assert(s[a.len() as int] == '<');
                assert(r[m] != '<');
            }
        }
        lemma_first_rule_after(a, b, i + 1);
    }
}

/// Cutting `a`, a rule and `b` at the rules, where `a` holds no rule, gives
/// `a` and then the pieces of `b`.
proof fn lemma_split_after_piece(a: Seq<char>, b: Seq<char>)
    requires
        has_no_rule(a),
    ensures
        split_on(a + SECTION_RULE@ + b, SECTION_RULE@) == seq![a] + split_on(b, SECTION_RULE@),
{
    reveal_strlit("<hr>");
    let r = SECTION_RULE@;
    let s = a + r + b;
    lemma_first_rule_after(a, b, 0);
    assert(s.subrange(0, a.len() as int) =~= a);
    assert(s.subrange(a.len() + 4int, s.len() as int) =~= b);
}

/// Texts without rules, joined by rules, are cut back into those texts.
proof fn lemma_split_joined(texts: Seq<Seq<char>>)
    requires
        texts.len() > 0,
        forall|i: int| 0 <= i < texts.len() ==> has_no_rule(#[trigger] texts[i]),
    ensures
        split_on(join_sections(texts), SECTION_RULE@) == texts,
    decreases texts.len(),
{
    reveal_strlit("<hr>");
    if texts.len() == 1 {
        lemma_no_rule_found(texts[0], 0);
        assert(split_on(texts[0], SECTION_RULE@) == seq![texts[0]]);
        assert(seq![texts[0]] =~= texts);
    } else {
        let rest = texts.drop_first();
        assert(forall|i: int| 0 <= i < rest.len() ==> rest[i] == texts[i + 1]);
        lemma_split_joined(rest);
        lemma_split_after_piece(texts[0], join_sections(rest));
        assert(seq![texts[0]] + rest =~= texts);
    }
}

/// A page written as a header, a blank gap and one or more texts, none of
/// which holds a rule, is cut back into that header and those texts.
pub proof fn law_written_page_cuts_back(header: Seq<char>, gap: Seq<char>, texts: Seq<Seq<char>>)
    requires
        has_no_rule(header),
        has_no_rule(gap),
        all_whitespace(gap),
        texts.len() > 0,
        forall|i: int| 0 <= i < texts.len() ==> has_no_rule(#[trigger] texts[i]),
    ensures
        page_sections(written_page(header, gap, texts)) == Ok::<
            (Seq<char>, Seq<Seq<char>>),
            NeuronPageError,
        >((header, texts)),
{
    let r = SECTION_RULE@;
    let joined = join_sections(texts);
    let inner = gap + r + joined;
    assert(written_page(header, gap, texts) =~= header + r + inner);
    lemma_split_after_piece(header, inner);
    lemma_split_after_piece(gap, joined);
    lemma_split_joined(texts);
    let pieces = split_on(written_page(header, gap, texts), r);
    assert(pieces =~= seq![header] + (seq![gap] + texts));
    assert(pieces[1] == gap);
    assert(pieces.subrange(2, pieces.len() as int) =~= texts);
}

/// The header of a page and the sections of its texts: the page is cut at
/// each rule; the first piece is the header, the second must be blank, and
/// the pieces after it are the texts.
pub open spec fn page_sections(html: Seq<char>) -> Result<
    (Seq<char>, Seq<Seq<char>>),
    NeuronPageError,
> {
    let pieces = split_on(html, SECTION_RULE@);
    if pieces.len() < 2 {
        Err(NeuronPageError::MissingSecondRule)
    } else if !all_whitespace(pieces[1]) {
        Err(NeuronPageError::GapNotEmpty)
    } else {
        Ok((pieces[0], pieces.subrange(2, pieces.len() as int)))
    }
}

/// Cuts a neuron page into its header and the sections of its texts.
pub fn split_neuron_page(html: &str) -> (r: Result<(String, Vec<String>), NeuronPageError>)
    ensures
        match r {
            Ok((header, texts)) => page_sections(html@) == Ok::<
                (Seq<char>, Seq<Seq<char>>),
                NeuronPageError,
            >((header@, texts@.map_values(|t: String| t@))),
            Err(e) => page_sections(html@) == Err::<(Seq<char>, Seq<Seq<char>>), NeuronPageError>(
                e,
            ),
        },
{
    proof {
        reveal_strlit("<hr>");
    }
    let pieces = split_str(html, SECTION_RULE);
    let ghost views = pieces@.map_values(|t: String| t@);
    if pieces.len() < 2 {
        return Err(NeuronPageError::MissingSecondRule);
    }
    if !is_blank(pieces[1].as_str()) {
        return Err(NeuronPageError::GapNotEmpty);
    }
    let mut pieces = pieces;
    let texts: Vec<String> = pieces.split_off(2);
    pieces.truncate(1);
    let header = pieces.pop().unwrap();
    assert(texts@.map_values(|t: String| t@) =~= views.subrange(2, views.len() as int));
    Ok((header, texts))
}

/// What the capture groups of a header say: the neuron is group 1 and the
/// layer group 2, each read as a `u32`; the layer is read first. It must be
/// the neuron `expected`.
pub open spec fn header_check(groups: Seq<Option<Seq<char>>>, expected: NeuronIndex) -> Result<
    (),
    NeuronPageError,
> {
    if groups.len() < 3 || groups[1] is None || groups[2] is None {
        Err(NeuronPageError::MissingGroup)
    } else {
        match parse_u32_spec(groups[2]->0) {
            None => Err(NeuronPageError::BadLayer),
            Some(layer) => match parse_u32_spec(groups[1]->0) {
                None => Err(NeuronPageError::BadNeuron),
                Some(neuron) => if layer == expected.layer && neuron == expected.neuron {
                    Ok(())
                } else {
                    Err(NeuronPageError::OtherNeuron(NeuronIndex { layer, neuron }))
                },
            },
        }
    }
}

/// The header check passes exactly when the header's layer and neuron, read
/// as numbers, are those of the neuron asked for; where they are numbers but
/// name another neuron, the error gives that neuron.
pub proof fn law_header_names_requested_neuron(groups: Seq<Option<Seq<char>>>, expected: NeuronIndex)
    ensures
        header_check(groups, expected) is Ok <==> {
            &&& groups.len() >= 3
            &&& groups[1] is Some
            &&& groups[2] is Some
            &&& parse_u32_spec(groups[2]->0) == Some(expected.layer)
            &&& parse_u32_spec(groups[1]->0) == Some(expected.neuron)
        },
        header_check(groups, expected) matches Err(NeuronPageError::OtherNeuron(found)) ==> {
            &&& found != expected
            &&& parse_u32_spec(groups[2]->0) == Some(found.layer)
            &&& parse_u32_spec(groups[1]->0) == Some(found.neuron)
        },
{
}

/// Checks the capture groups of a page's header against the neuron that
/// was asked for.
pub fn check_header_groups(groups: &Vec<Option<String>>, expected: NeuronIndex) -> (r: Result<
    (),
    NeuronPageError,
>)
    ensures
        r == header_check(groups.deep_view(), expected),
        r is Ok <==> {
            &&& groups@.len() >= 3
            &&& groups.deep_view()[1] is Some
            &&& groups.deep_view()[2] is Some
            &&& parse_u32_spec(groups.deep_view()[2]->0) == Some(expected.layer)
            &&& parse_u32_spec(groups.deep_view()[1]->0) == Some(expected.neuron)
        },
{
    proof {
        law_header_names_requested_neuron(groups.deep_view(), expected);
    }
    if groups.len() < 3 {
        return Err(NeuronPageError::MissingGroup);
    }
    let layer_text = match &groups[2] {
        Some(t) => t,
        None => {
            return Err(NeuronPageError::MissingGroup);
        },
    };
    let neuron_text = match &groups[1] {
        Some(t) => t,
        None => {
            return Err(NeuronPageError::MissingGroup);
        },
    };
    assert(groups.deep_view()[2] == groups@[2].deep_view());
    assert(groups.deep_view()[1] == groups@[1].deep_view());
    let layer = match parse_u32(layer_text.as_str()) {
        Some(v) => v,
        None => {
            return Err(NeuronPageError::BadLayer);
        },
    };
    let neuron = match parse_u32(neuron_text.as_str()) {
        Some(v) => v,
        None => {
            return Err(NeuronPageError::BadNeuron);
        },
    };
    if layer == expected.layer && neuron == expected.neuron {
        Ok(())
    } else {
        Err(NeuronPageError::OtherNeuron(NeuronIndex { layer, neuron }))
    }
}

/// What checking a header against the neuron `expected` gives, given what
/// searching it for the header pattern found.
pub open spec fn header_result(
    found: Option<Seq<Seq<Option<Seq<char>>>>>,
    expected: NeuronIndex,
) -> Result<(), NeuronPageError> {
    match single_match_spec(found) {
        Err(e) => Err(NeuronPageError::Header(e)),
        Ok(groups) => header_check(groups, expected),
    }
}

/// Checks that the header of a neuron page names the neuron `expected`.
pub fn check_neuron_page_header(header: &str, expected: NeuronIndex) -> (r: Result<
    (),
    NeuronPageError,
>)
    ensures
        r == header_result(regex_matches(NEURON_HEADER_PATTERN@, header@), expected),
{
    match single_match(NEURON_HEADER_PATTERN, header) {
        Err(e) => Err(NeuronPageError::Header(e)),
        Ok(groups) => check_header_groups(&groups, expected),
    }
}

} // verus!
