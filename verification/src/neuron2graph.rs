//! Neuron2Graph models of neurons: graphs of the tokens that make a neuron
//! fire, grouped into layers of nodes, each node pointing at the nodes it
//! requires. They are read from and written to graphviz's dot language; the
//! dot structure is given here by plain types that mirror graphviz's own.

use vstd::prelude::*;

use crate::pattern::{regex_replace_all, regex_replaced};
use crate::text::{chars_of, digit_char, parse_usize_range, parse_usize_spec, str_equals, substring};

verus! {

/// An unquoted label value in neuron2graph's graph files.
pub const UNQUOTED_LABEL_PATTERN: &'static str = r#"\[label=([^"]\S*)"#;

/// The same label value, quoted.
pub const QUOTED_LABEL_REPLACEMENT: &'static str = r#"[label="$1""#;

/// The graph file text with every unquoted label value put in quotes, so
/// that the dot parser reads it; `None` where the pattern does not compile.
pub fn quote_graph_labels(text: &str) -> (r: Option<String>)
    ensures
        r.deep_view() == regex_replaced(UNQUOTED_LABEL_PATTERN@, text@, QUOTED_LABEL_REPLACEMENT@),
{
    regex_replace_all(UNQUOTED_LABEL_PATTERN, text, QUOTED_LABEL_REPLACEMENT)
}

/// An identifier in the dot language, by how it is written.
#[derive(Debug, Clone)]
pub enum DotId {
    Html(String),
    Escaped(String),
    Plain(String),
    Anonymous(String),
}

/// A `key=value` attribute.
#[derive(Debug, Clone)]
pub struct DotAttribute {
    pub key: DotId,
    pub value: DotId,
}

/// A node with its attributes.
#[derive(Debug, Clone)]
pub struct DotNode {
    pub id: DotId,
    pub attributes: Vec<DotAttribute>,
}

/// An end of an edge: a node, or a subgraph (whose contents are not kept).
#[derive(Debug, Clone)]
pub enum DotVertex {
    Node(DotId),
    Subgraph,
}

/// The shape of an edge: one pair of ends, or a chain (whose ends are not
/// kept).
#[derive(Debug, Clone)]
pub enum DotEdgeKind {
    Pair(DotVertex, DotVertex),
    Chain,
}

/// An edge with its attributes.
#[derive(Debug, Clone)]
pub struct DotEdge {
    pub kind: DotEdgeKind,
    pub attributes: Vec<DotAttribute>,
}

/// A statement inside a subgraph: a node, or anything else (not kept).
#[derive(Debug, Clone)]
pub enum DotSubgraphStmt {
    Node(DotNode),
    Other,
}

/// A subgraph with its statements.
#[derive(Debug, Clone)]
pub struct DotSubgraph {
    pub id: DotId,
    pub stmts: Vec<DotSubgraphStmt>,
}

/// Attributes that apply to the whole graph, to every node or to every edge.
#[derive(Debug, Clone)]
pub enum DotGraphAttributes {
    Graph(Vec<DotAttribute>),
    Node(Vec<DotAttribute>),
    Edge(Vec<DotAttribute>),
}

/// A statement of a graph.
#[derive(Debug, Clone)]
pub enum DotStmt {
    Node(DotNode),
    Subgraph(DotSubgraph),
    Attribute(DotAttribute),
    GraphAttributes(DotGraphAttributes),
    Edge(DotEdge),
}

/// A graph: directed (a digraph) or not.
#[derive(Debug, Clone)]
pub struct DotGraph {
    pub id: DotId,
    pub strict: bool,
    pub directed: bool,
    pub stmts: Vec<DotStmt>,
}

/// A node of a neuron graph: its token, the nodes it requires (by position
/// in the graph), and its shade: the value, `0` for the most important node
/// and `255` for the least, of the colour channels that its fill colour
/// varies. (Its importance is `1 - shade / 255`.)
#[derive(Debug, Clone)]
pub struct Node {
    pub token: String,
    pub required: Vec<usize>,
    pub shade: u8,
}

/// A neuron graph: its nodes, layer after layer, and where each layer
/// starts, followed by the number of nodes.
#[derive(Debug, Clone)]
pub struct Graph {
    pub subgraph_indices: Vec<usize>,
    pub graph: Vec<Node>,
}

/// Why a dot graph is not a neuron graph.
#[derive(Debug, Clone, PartialEq, Eq)]
pub enum GraphError {
    /// The graph is not directed.
    NotDigraph,
    /// A node's id is not a number; the id is given.
    InvalidNodeId(String),
    /// The node with this id has no `label` attribute.
    MissingLabel(usize),
    /// The node with this id has no `fillcolor` attribute.
    MissingFillColor(usize),
    /// The fill colour of the node with this id has no bytes 4 to 6.
    FillColorTooShort(usize),
    /// Bytes 4 to 6 of the node's fill colour are not a hexadecimal byte.
    InvalidGreen(usize),
    /// A subgraph's id does not start with `cluster_`; the id is given.
    NotCluster(String),
    /// The rest of a subgraph's id is not a number; the id is given.
    InvalidClusterId(String),
    /// An edge's end is not a numbered node; the id is given.
    InvalidEdgeNodeId(String),
    /// The edge between these nodes has no `dir` attribute.
    EdgeWithoutDirection(usize, usize),
    /// The edge between these nodes has a direction other than `back`.
    UnsupportedDirection(usize, usize),
    /// An edge joins a subgraph.
    SubgraphEdge,
    /// An edge is a chain of more than two ends.
    ChainEdge,
}

/// The kinds of `GraphError`, for the specification.
pub enum GraphErrorKind {
    NotDigraph,
    InvalidNodeId,
    MissingLabel,
    MissingFillColor,
    FillColorTooShort,
    InvalidGreen,
    NotCluster,
    InvalidClusterId,
    InvalidEdgeNodeId,
    EdgeWithoutDirection,
    UnsupportedDirection,
    SubgraphEdge,
    ChainEdge,
}

/// The kind of an error.
pub open spec fn error_kind(e: GraphError) -> GraphErrorKind {
    match e {
        GraphError::NotDigraph => GraphErrorKind::NotDigraph,
        GraphError::InvalidNodeId(_) => GraphErrorKind::InvalidNodeId,
        GraphError::MissingLabel(_) => GraphErrorKind::MissingLabel,
        GraphError::MissingFillColor(_) => GraphErrorKind::MissingFillColor,
        GraphError::FillColorTooShort(_) => GraphErrorKind::FillColorTooShort,
        GraphError::InvalidGreen(_) => GraphErrorKind::InvalidGreen,
        GraphError::NotCluster(_) => GraphErrorKind::NotCluster,
        GraphError::InvalidClusterId(_) => GraphErrorKind::InvalidClusterId,
        GraphError::InvalidEdgeNodeId(_) => GraphErrorKind::InvalidEdgeNodeId,
        GraphError::EdgeWithoutDirection(_, _) => GraphErrorKind::EdgeWithoutDirection,
        GraphError::UnsupportedDirection(_, _) => GraphErrorKind::UnsupportedDirection,
        GraphError::SubgraphEdge => GraphErrorKind::SubgraphEdge,
        GraphError::ChainEdge => GraphErrorKind::ChainEdge,
    }
}

/// The text of an identifier, however it is written.
pub open spec fn id_text(id: DotId) -> Seq<char> {
    match id {
        DotId::Html(s) => s@,
        DotId::Escaped(s) => s@,
        DotId::Plain(s) => s@,
        DotId::Anonymous(s) => s@,
    }
}

/// The value of the first attribute named `key`.
pub open spec fn attribute_value(attrs: Seq<DotAttribute>, key: Seq<char>) -> Option<Seq<char>>
    decreases attrs.len(),
{
    if attrs.len() == 0 {
        None
    } else if id_text(attrs[0].key) == key {
        Some(id_text(attrs[0].value))
    } else {
        attribute_value(attrs.drop_first(), key)
    }
}

/// The number of bytes that `c` takes in UTF-8.
pub open spec fn utf8_width(c: char) -> nat {
    if (c as u32) < 0x80 {
        1
    } else if (c as u32) < 0x800 {
        2
    } else if (c as u32) < 0x1_0000 {
        3
    } else {
        4
    }
}

/// The number of UTF-8 bytes of the first `k` characters of `s`.
pub open spec fn bytes_before(s: Seq<char>, k: int) -> nat
    decreases k,
{
    if k <= 0 {
        0
    } else {
        bytes_before(s, k - 1) + utf8_width(s[k - 1])
    }
}

/// Whether a character boundary of `s` lies at byte `b`.
pub open spec fn boundary_at(s: Seq<char>, b: nat) -> bool {
    exists|k: int| 0 <= k <= s.len() && bytes_before(s, k) == b
}

/// The character at whose start byte `b` lies.
pub open spec fn char_at_byte(s: Seq<char>, b: nat) -> int {
    choose|k: int| 0 <= k <= s.len() && bytes_before(s, k) == b
}

/// The text of bytes `from` to `to` of `s`, as `str::get` gives it: `None`
/// unless both are character boundaries.
pub open spec fn byte_slice(s: Seq<char>, from: nat, to: nat) -> Option<Seq<char>> {
    if boundary_at(s, from) && boundary_at(s, to) && from <= to {
        Some(s.subrange(char_at_byte(s, from), char_at_byte(s, to)))
    } else {
        None
    }
}

/// Whether `c` is a hexadecimal digit.
pub open spec fn is_hex_digit(c: char) -> bool {
    ('0' <= c && c <= '9') || ('a' <= c && c <= 'f') || ('A' <= c && c <= 'F')
}

/// The value of the hexadecimal digit `c`.
pub open spec fn hex_value(c: char) -> nat {
    if '0' <= c && c <= '9' {
        (c as u32 - '0' as u32) as nat
    } else if 'a' <= c && c <= 'f' {
        (c as u32 - 'a' as u32 + 10) as nat
    } else {
        (c as u32 - 'A' as u32 + 10) as nat
    }
}

/// The value of a string of hexadecimal digits.
pub open spec fn hex_digits_value(s: Seq<char>) -> nat
    decreases s.len(),
{
    if s.len() == 0 {
        0
    } else {
        hex_digits_value(s.drop_last()) * 16 + hex_value(s.last())
    }
}

/// What `u8::from_str_radix(s, 16)` gives: an optional `+`, then at least
/// one hexadecimal digit, of value at most 255.
pub open spec fn parse_hex_u8_spec(s: Seq<char>) -> Option<u8> {
    let d = crate::text::unsigned_digits(s);
    if d.len() > 0 && (forall|i: int| 0 <= i < d.len() ==> #[trigger] is_hex_digit(d[i]))
        && hex_digits_value(d) <= 255 {
        Some(hex_digits_value(d) as u8)
    } else {
        None
    }
}

/// A node read from dot: its id, its label and its shade.
pub type NodeTriple = (usize, Seq<char>, u8);

/// What reading a dot node gives.
pub open spec fn parse_node_spec(node: DotNode) -> Result<NodeTriple, GraphErrorKind> {
    match parse_usize_spec(id_text(node.id)) {
        None => Err(GraphErrorKind::InvalidNodeId),
        Some(id) => match attribute_value(node.attributes@, "label"@) {
            None => Err(GraphErrorKind::MissingLabel),
            Some(label) => match attribute_value(node.attributes@, "fillcolor"@) {
                None => Err(GraphErrorKind::MissingFillColor),
                Some(color) => match byte_slice(color, 4, 6) {
                    None => Err(GraphErrorKind::FillColorTooShort),
                    Some(hex) => match parse_hex_u8_spec(hex) {
                        None => Err(GraphErrorKind::InvalidGreen),
                        Some(shade) => Ok((id, label, shade)),
                    },
                },
            },
        },
    }
}

/// What reading the nodes of a subgraph's statements gives: every node, in
/// order, or the first error.
pub open spec fn parse_subgraph_nodes_spec(stmts: Seq<DotSubgraphStmt>) -> Result<
    Seq<NodeTriple>,
    GraphErrorKind,
>
    decreases stmts.len(),
{
    if stmts.len() == 0 {
        Ok(Seq::empty())
    } else {
        match parse_subgraph_nodes_spec(stmts.drop_last()) {
            Err(e) => Err(e),
            Ok(prefix) => match stmts.last() {
                DotSubgraphStmt::Node(node) => match parse_node_spec(node) {
                    Err(e) => Err(e),
                    Ok(t) => Ok(prefix.push(t)),
                },
                DotSubgraphStmt::Other => Ok(prefix),
            },
        }
    }
}

/// What reading a subgraph gives: its id must be `cluster_` and a number.
pub open spec fn parse_subgraph_spec(sub: DotSubgraph) -> Result<Seq<NodeTriple>, GraphErrorKind> {
    let text = id_text(sub.id);
    if !(text.len() >= 8 && text.subrange(0, 8) == "cluster_"@) {
        Err(GraphErrorKind::NotCluster)
    } else if parse_usize_spec(text.subrange(8, text.len() as int)) is None {
        Err(GraphErrorKind::InvalidClusterId)
    } else {
        parse_subgraph_nodes_spec(sub.stmts@)
    }
}

/// What reading the subgraphs among a graph's statements gives.
pub open spec fn parse_subgraphs_spec(stmts: Seq<DotStmt>) -> Result<
    Seq<Seq<NodeTriple>>,
    GraphErrorKind,
>
    decreases stmts.len(),
{
    if stmts.len() == 0 {
        Ok(Seq::empty())
    } else {
        match parse_subgraphs_spec(stmts.drop_last()) {
            Err(e) => Err(e),
            Ok(prefix) => match stmts.last() {
                DotStmt::Subgraph(sub) => match parse_subgraph_spec(sub) {
                    Err(e) => Err(e),
                    Ok(nodes) => Ok(prefix.push(nodes)),
                },
                _ => Ok(prefix),
            },
        }
    }
}

/// What reading an edge gives: the pair (required node, requiring node).
pub open spec fn parse_edge_spec(edge: DotEdge) -> Result<(usize, usize), GraphErrorKind> {
    match edge.kind {
        DotEdgeKind::Pair(DotVertex::Node(a), DotVertex::Node(b)) => match parse_usize_spec(
            id_text(a),
        ) {
            None => Err(GraphErrorKind::InvalidEdgeNodeId),
            Some(id1) => match parse_usize_spec(id_text(b)) {
                None => Err(GraphErrorKind::InvalidEdgeNodeId),
                Some(id2) => match attribute_value(edge.attributes@, "dir"@) {
                    None => Err(GraphErrorKind::EdgeWithoutDirection),
                    Some(dir) => if dir == "back"@ {
                        Ok((id2, id1))
                    } else {
                        Err(GraphErrorKind::UnsupportedDirection)
                    },
                },
            },
        },
        DotEdgeKind::Pair(_, _) => Err(GraphErrorKind::SubgraphEdge),
        DotEdgeKind::Chain => Err(GraphErrorKind::ChainEdge),
    }
}

/// What reading the edges among a graph's statements gives.
pub open spec fn parse_edges_spec(stmts: Seq<DotStmt>) -> Result<Seq<(usize, usize)>, GraphErrorKind>
    decreases stmts.len(),
{
    if stmts.len() == 0 {
        Ok(Seq::empty())
    } else {
        match parse_edges_spec(stmts.drop_last()) {
            Err(e) => Err(e),
            Ok(prefix) => match stmts.last() {
                DotStmt::Edge(edge) => match parse_edge_spec(edge) {
                    Err(e) => Err(e),
                    Ok(pair) => Ok(prefix.push(pair)),
                },
                _ => Ok(prefix),
            },
        }
    }
}

/// All nodes of the subgraphs, in order.
pub open spec fn flatten_nodes(subs: Seq<Seq<NodeTriple>>) -> Seq<NodeTriple>
    decreases subs.len(),
{
    if subs.len() == 0 {
        Seq::empty()
    } else {
        flatten_nodes(subs.drop_last()) + subs.last()
    }
}

/// Where each subgraph starts among the flattened nodes, followed by their
/// number.
pub open spec fn subgraph_starts(subs: Seq<Seq<NodeTriple>>) -> Seq<usize>
    decreases subs.len(),
{
    if subs.len() == 0 {
        seq![0]
    } else {
        subgraph_starts(subs.drop_last()).drop_last() + seq![
            flatten_nodes(subs.drop_last()).len() as usize,
            flatten_nodes(subs).len() as usize,
        ]
    }
}

/// The ids of the nodes.
pub open spec fn node_ids(nodes: Seq<NodeTriple>) -> Seq<usize> {
    nodes.map_values(|t: NodeTriple| t.0)
}

/// The last position of `id` among the ids.
pub open spec fn last_id_position(ids: Seq<usize>, id: usize) -> Option<int>
    decreases ids.len(),
{
    if ids.len() == 0 {
        None
    } else if ids.last() == id {
        Some(ids.len() - 1)
    } else {
        last_id_position(ids.drop_last(), id)
    }
}

/// The positions of the nodes that the node with id `id` requires: for each
/// edge into it, in order, the last node with the edge's source id.
pub open spec fn required_positions(edges: Seq<(usize, usize)>, ids: Seq<usize>, id: usize) -> Seq<
    usize,
>
    decreases edges.len(),
{
    if edges.len() == 0 {
        Seq::empty()
    } else {
        required_positions(edges.drop_last(), ids, id) + if edges.last().1 == id {
            seq![last_id_position(ids, edges.last().0).unwrap() as usize]
        } else {
            Seq::empty()
        }
    }
}

/// Every edge into a node comes from a node.
pub open spec fn edges_resolve(edges: Seq<(usize, usize)>, ids: Seq<usize>) -> bool {
    forall|k: int|
        0 <= k < edges.len() && ids.contains(#[trigger] edges[k].1) ==> ids.contains(
            edges[k].0,
        )
}

/// What reading a neuron graph from dot gives: the subgraphs and the edges;
/// or the first error.
pub open spec fn from_dot_spec(g: DotGraph) -> Result<
    (Seq<Seq<NodeTriple>>, Seq<(usize, usize)>),
    GraphErrorKind,
> {
    if !g.directed {
        Err(GraphErrorKind::NotDigraph)
    } else {
        match parse_subgraphs_spec(g.stmts@) {
            Err(e) => Err(e),
            Ok(subs) => match parse_edges_spec(g.stmts@) {
                Err(e) => Err(e),
                Ok(edges) => Ok((subs, edges)),
            },
        }
    }
}

/// A dot graph can be read without an edge from a node that is not there.
pub open spec fn dot_edges_resolve(g: DotGraph) -> bool {
    match from_dot_spec(g) {
        Ok((subs, edges)) => edges_resolve(edges, node_ids(flatten_nodes(subs))),
        Err(_) => true,
    }
}

/// The graph is the one read from the given subgraphs and edges.
pub open spec fn graph_read_from(
    graph: Graph,
    subs: Seq<Seq<NodeTriple>>,
    edges: Seq<(usize, usize)>,
) -> bool {
    let nodes = flatten_nodes(subs);
    &&& graph.subgraph_indices@ == subgraph_starts(subs)
    &&& graph.graph@.len() == nodes.len()
    &&& forall|k: int|
        0 <= k < nodes.len() ==> {
            &&& (#[trigger] graph.graph@[k]).token@ == nodes[k].1
            &&& graph.graph@[k].shade == nodes[k].2
            &&& graph.graph@[k].required@ == required_positions(
                edges,
                node_ids(nodes),
                nodes[k].0,
            )
        }
}

/// The UTF-8 width of every character is at least one byte, so the byte
/// offsets of the characters only grow.
pub proof fn lemma_bytes_before_grows(s: Seq<char>, j: int, k: int)
    requires
        0 <= j <= k,
    ensures
        bytes_before(s, j) + (k - j) <= bytes_before(s, k),
    decreases k - j,
{
    if j < k {
        lemma_bytes_before_grows(s, j, k - 1);
    }
}

/// The text of an identifier.
pub fn id_str(id: &DotId) -> (r: &str)
    ensures
        r@ == id_text(*id),
{
    match id {
        DotId::Html(s) => s.as_str(),
        DotId::Escaped(s) => s.as_str(),
        DotId::Plain(s) => s.as_str(),
        DotId::Anonymous(s) => s.as_str(),
    }
}

/// The value of the first attribute named `key`.
pub fn get_attribute<'a>(attributes: &'a [DotAttribute], key: &str) -> (r: Option<&'a DotId>)
    ensures
        r matches Some(v) ==> attribute_value(attributes@, key@) == Some(id_text(*v)),
        r is None ==> attribute_value(attributes@, key@) is None,
{
    let mut i: usize = 0;
    assert(attributes@.skip(0) =~= attributes@);
    while i < attributes.len()
        invariant
            i <= attributes@.len(),
            attribute_value(attributes@, key@) == attribute_value(attributes@.skip(i as int), key@),
        decreases attributes.len() - i,
    {
        let ghost rest = attributes@.skip(i as int);
        assert(rest[0] == attributes@[i as int]);
        assert(rest.drop_first() =~= attributes@.skip(i + 1));
        if str_equals(id_str(&attributes[i].key), key) {
            return Some(&attributes[i].value);
        }
        i = i + 1;
    }
    assert(attributes@.skip(i as int) =~= Seq::<DotAttribute>::empty());
    None
}

/// The identifier's text as a number, as `str::parse::<usize>` reads it.
pub fn parse_id(id: &DotId) -> (r: Option<usize>)
    ensures
        r == parse_usize_spec(id_text(*id)),
{
    let chars = chars_of(id_str(id));
    let r = parse_usize_range(&chars, 0, chars.len());
    assert(chars@.subrange(0, chars@.len() as int) =~= id_text(*id));
    r
}

/// The UTF-8 width of `c`.
fn char_width(c: char) -> (r: usize)
    ensures
        r == utf8_width(c),
{
    let u = c as u32;
    if u < 0x80 {
        1
    } else if u < 0x800 {
        2
    } else if u < 0x1_0000 {
        3
    } else {
        4
    }
}

/// Bytes `from` to `to` of `s`, as `str::get(from..to)` gives them.
pub fn get_byte_range(s: &str, from: usize, to: usize) -> (r: Option<String>)
    ensures
        r matches Some(t) ==> byte_slice(s@, from as nat, to as nat) == Some(t@),
        r is None ==> byte_slice(s@, from as nat, to as nat) is None,
{
    let chars = chars_of(s);
    let n = chars.len();
    let mut start: Option<usize> = None;
    let mut end: Option<usize> = None;
    let mut offset: u128 = 0;
    let mut i: usize = 0;
    loop
        invariant
            chars@ == s@,
            n == chars@.len(),
            i <= n,
            offset == bytes_before(s@, i as int),
            offset <= 4 * i,
            start matches Some(k) ==> k <= i && bytes_before(s@, k as int) == from,
            start is None ==> forall|k: int| 0 <= k < i ==> bytes_before(s@, k) != from,
            end matches Some(k) ==> k <= i && bytes_before(s@, k as int) == to,
            end is None ==> forall|k: int| 0 <= k < i ==> bytes_before(s@, k) != to,
        ensures
            start matches Some(k) ==> k <= n && bytes_before(s@, k as int) == from,
            start is None ==> !boundary_at(s@, from as nat),
            end matches Some(k) ==> k <= n && bytes_before(s@, k as int) == to,
            end is None ==> !boundary_at(s@, to as nat),
        decreases n - i,
    {
        if offset == from as u128 {
            start = Some(i);
        }
        if offset == to as u128 {
            end = Some(i);
        }
        if i == n || offset > from as u128 && offset > to as u128 {
            proof {
                if start is None && boundary_at(s@, from as nat) {
                    let k = choose|k: int| 0 <= k <= s@.len() && bytes_before(s@, k) == from;
                    if k > i {
                        lemma_bytes_before_grows(s@, i as int, k);
                    }
                }
                if end is None && boundary_at(s@, to as nat) {
                    let k = choose|k: int| 0 <= k <= s@.len() && bytes_before(s@, k) == to;
                    if k > i {
                        lemma_bytes_before_grows(s@, i as int, k);
                    }
                }
            }
            break;
        }
        let w = char_width(chars[i]);
        offset = offset + w as u128;
        i = i + 1;
    }
    match (start, end) {
        (Some(a), Some(b)) => {
            if a <= b {
                proof {
                    lemma_bytes_before_grows(s@, a as int, b as int);
                    assert(boundary_at(s@, from as nat));
                    assert(boundary_at(s@, to as nat));
                    let ka = char_at_byte(s@, from as nat);
                    let kb = char_at_byte(s@, to as nat);
                    if ka != a as int {
                        if ka < a {
                            lemma_bytes_before_grows(s@, ka, a as int);
                        } else {
                            lemma_bytes_before_grows(s@, a as int, ka);
                        }
                    }
                    if kb != b as int {
                        if kb < b {
                            lemma_bytes_before_grows(s@, kb, b as int);
                        } else {
                            lemma_bytes_before_grows(s@, b as int, kb);
                        }
                    }
                }
                Some(substring(s, a, b))
            } else {
                proof {
                    lemma_bytes_before_grows(s@, b as int, a as int);
                }
                None
            }
        },
        _ => None,
    }
}

/// Parses `s` as `u8::from_str_radix(s, 16)` does.
pub fn parse_hex_u8(s: &str) -> (r: Option<u8>)
    ensures
        r == parse_hex_u8_spec(s@),
{
    let chars = chars_of(s);
    let n = chars.len();
    let mut first: usize = 0;
    if n > 0 && chars[0] == '+' {
        first = 1;
    }
    let ghost d = chars@.subrange(first as int, n as int);
    assert(d =~= crate::text::unsigned_digits(s@));
    if first == n {
        return None;
    }
    let mut value: u32 = 0;
    let mut i = first;
    while i < n
        invariant
            chars@ == s@,
            n == chars@.len(),
            first <= i <= n,
            d == chars@.subrange(first as int, n as int),
            d == crate::text::unsigned_digits(s@),
            d.len() > 0,
            forall|j: int| 0 <= j < i - first ==> #[trigger] is_hex_digit(d[j]),
            value as nat == hex_digits_value(d.take(i - first)),
            value <= 255,
        decreases n - i,
    {
        let c = chars[i];
        let digit: u32 = if '0' <= c && c <= '9' {
            c as u32 - '0' as u32
        } else if 'a' <= c && c <= 'f' {
            c as u32 - 'a' as u32 + 10
        } else if 'A' <= c && c <= 'F' {
            c as u32 - 'A' as u32 + 10
        } else {
            assert(!is_hex_digit(d[i - first]));
            return None;
        };
        assert(d.take(i - first + 1).drop_last() =~= d.take(i - first));
        value = value * 16 + digit;
        if value > 255 {
            proof {
                if forall|j: int| 0 <= j < d.len() ==> #[trigger] is_hex_digit(d[j]) {
                    lemma_hex_value_prefix(d, i - first + 1);
                }
            }
            return None;
        }
        i = i + 1;
    }
    assert(d.take(i - first) =~= d);
    Some(value as u8)
}

/// The value of a string of hexadecimal digits does not decrease when
/// digits are appended.
proof fn lemma_hex_value_prefix(s: Seq<char>, i: int)
    requires
        0 <= i <= s.len(),
    ensures
        hex_digits_value(s.take(i)) <= hex_digits_value(s),
    decreases s.len() - i,
{
    if i < s.len() {
        lemma_hex_value_prefix(s, i + 1);
        assert(s.take(i + 1).drop_last() =~= s.take(i));
    } else {
        assert(s.take(i) =~= s);
    }
}

/// Reads a node: its id, its `label` and the shade of its `fillcolor`
/// (bytes 4 to 6 of it, in hexadecimal).
pub fn parse_node(node: &DotNode) -> (r: Result<(usize, String, u8), GraphError>)
    ensures
        r matches Ok(t) ==> parse_node_spec(*node) == Ok::<NodeTriple, GraphErrorKind>(
            (t.0, t.1@, t.2),
        ),
        r matches Err(e) ==> parse_node_spec(*node) == Err::<NodeTriple, GraphErrorKind>(
            error_kind(e),
        ),
{
    let id = match parse_id(&node.id) {
        Some(id) => id,
        None => return Err(GraphError::InvalidNodeId(id_str(&node.id).to_owned())),
    };
    let label = match get_attribute(node.attributes.as_slice(), "label") {
        Some(label) => id_str(label).to_owned(),
        None => return Err(GraphError::MissingLabel(id)),
    };
    let color = match get_attribute(node.attributes.as_slice(), "fillcolor") {
        Some(color) => id_str(color),
        None => return Err(GraphError::MissingFillColor(id)),
    };
    let hex = match get_byte_range(color, 4, 6) {
        Some(hex) => hex,
        None => return Err(GraphError::FillColorTooShort(id)),
    };
    let shade = match parse_hex_u8(hex.as_str()) {
        Some(shade) => shade,
        None => return Err(GraphError::InvalidGreen(id)),
    };
    Ok((id, label, shade))
}

/// The specification's view of read nodes.
pub open spec fn triples_view(v: Seq<(usize, String, u8)>) -> Seq<NodeTriple> {
    v.map_values(|t: (usize, String, u8)| (t.0, t.1@, t.2))
}

/// Whether `chars` starts with `prefix`.
fn starts_with(chars: &Vec<char>, prefix: &str) -> (r: bool)
    ensures
        r == (chars@.len() >= prefix@.len() && chars@.subrange(0, prefix@.len() as int)
            == prefix@),
{
    let p = chars_of(prefix);
    if chars.len() < p.len() {
        return false;
    }
    let mut i: usize = 0;
    while i < p.len()
        invariant
            p@ == prefix@,
            p@.len() <= chars@.len(),
            i <= p@.len(),
            forall|j: int| 0 <= j < i ==> chars@[j] == p@[j],
        decreases p.len() - i,
    {
        if chars[i] != p[i] {
            assert(chars@.subrange(0, p@.len() as int)[i as int] != p@[i as int]);
            return false;
        }
        i = i + 1;
    }
    assert(chars@.subrange(0, p@.len() as int) =~= p@);
    true
}

/// Reads the nodes of a subgraph, whose id must be `cluster_` and a number.
pub fn parse_subgraph(sub: &DotSubgraph) -> (r: Result<Vec<(usize, String, u8)>, GraphError>)
    ensures
        r matches Ok(v) ==> parse_subgraph_spec(*sub) == Ok::<Seq<NodeTriple>, GraphErrorKind>(
            triples_view(v@),
        ),
        r matches Err(e) ==> parse_subgraph_spec(*sub) == Err::<Seq<NodeTriple>, GraphErrorKind>(
            error_kind(e),
        ),
{
    let text = id_str(&sub.id);
    let chars = chars_of(text);
    proof {
        reveal_strlit("cluster_");
    }
    assert("cluster_"@.len() == 8);
    if !starts_with(&chars, "cluster_") {
        return Err(GraphError::NotCluster(text.to_owned()));
    }
    if parse_usize_range(&chars, 8, chars.len()).is_none() {
        return Err(GraphError::InvalidClusterId(text.to_owned()));
    }
    let mut nodes: Vec<(usize, String, u8)> = Vec::new();
    let mut i: usize = 0;
    assert(sub.stmts@.take(0) =~= Seq::<DotSubgraphStmt>::empty());
    assert(triples_view(nodes@) =~= Seq::<NodeTriple>::empty());
    while i < sub.stmts.len()
        invariant
            i <= sub.stmts@.len(),
            parse_subgraph_spec(*sub) == parse_subgraph_nodes_spec(sub.stmts@),
            parse_subgraph_nodes_spec(sub.stmts@.take(i as int)) == Ok::<
                Seq<NodeTriple>,
                GraphErrorKind,
            >(triples_view(nodes@)),
        decreases sub.stmts.len() - i,
    {
        assert(sub.stmts@.take(i + 1).drop_last() =~= sub.stmts@.take(i as int));
        assert(sub.stmts@.take(i + 1).last() == sub.stmts@[i as int]);
        match &sub.stmts[i] {
            DotSubgraphStmt::Node(node) => {
                match parse_node(node) {
                    Ok(t) => {
                        let ghost before = nodes@;
                        nodes.push(t);
                        assert(triples_view(nodes@) =~= triples_view(before).push(
                            (t.0, t.1@, t.2),
                        ));
                    },
                    Err(e) => {
                        proof {
                            lemma_parse_prefix_error_subgraph(sub.stmts@, i + 1);
                        }
                        return Err(e);
                    },
                }
            },
            DotSubgraphStmt::Other => {},
        }
        i = i + 1;
    }
    assert(sub.stmts@.take(i as int) =~= sub.stmts@);
    Ok(nodes)
}

/// An error in reading a prefix of the statements is the error of reading
/// them all.
proof fn lemma_parse_prefix_error_subgraph(stmts: Seq<DotSubgraphStmt>, k: int)
    requires
        0 <= k <= stmts.len(),
        parse_subgraph_nodes_spec(stmts.take(k)) is Err,
    ensures
        parse_subgraph_nodes_spec(stmts) == parse_subgraph_nodes_spec(stmts.take(k)),
    decreases stmts.len() - k,
{
    if k == stmts.len() {
        assert(stmts.take(k) =~= stmts);
    } else {
        assert(stmts.take(k + 1).drop_last() =~= stmts.take(k));
        lemma_parse_prefix_error_subgraph(stmts, k + 1);
    }
}

/// Reads an edge: both ends must be numbered nodes and its direction
/// `back`; it gives the pair (required node, requiring node).
pub fn parse_edge(edge: &DotEdge) -> (r: Result<(usize, usize), GraphError>)
    ensures
        r matches Ok(p) ==> parse_edge_spec(*edge) == Ok::<(usize, usize), GraphErrorKind>(p),
        r matches Err(e) ==> parse_edge_spec(*edge) == Err::<(usize, usize), GraphErrorKind>(
            error_kind(e),
        ),
{
    match &edge.kind {
        DotEdgeKind::Pair(DotVertex::Node(a), DotVertex::Node(b)) => {
            let id1 = match parse_id(a) {
                Some(id) => id,
                None => return Err(GraphError::InvalidEdgeNodeId(id_str(a).to_owned())),
            };
            let id2 = match parse_id(b) {
                Some(id) => id,
                None => return Err(GraphError::InvalidEdgeNodeId(id_str(b).to_owned())),
            };
            match get_attribute(edge.attributes.as_slice(), "dir") {
                Some(dir) => {
                    if str_equals(id_str(dir), "back") {
                        Ok((id2, id1))
                    } else {
                        Err(GraphError::UnsupportedDirection(id1, id2))
                    }
                },
                None => Err(GraphError::EdgeWithoutDirection(id1, id2)),
            }
        },
        DotEdgeKind::Pair(_, _) => Err(GraphError::SubgraphEdge),
        DotEdgeKind::Chain => Err(GraphError::ChainEdge),
    }
}

/// The specification's view of read subgraphs.
pub open spec fn subgraphs_view(v: Seq<Vec<(usize, String, u8)>>) -> Seq<Seq<NodeTriple>> {
    v.map_values(|n: Vec<(usize, String, u8)>| triples_view(n@))
}

proof fn lemma_parse_prefix_error_subgraphs(stmts: Seq<DotStmt>, k: int)
    requires
        0 <= k <= stmts.len(),
        parse_subgraphs_spec(stmts.take(k)) is Err,
    ensures
        parse_subgraphs_spec(stmts) == parse_subgraphs_spec(stmts.take(k)),
    decreases stmts.len() - k,
{
    if k == stmts.len() {
        assert(stmts.take(k) =~= stmts);
    } else {
        assert(stmts.take(k + 1).drop_last() =~= stmts.take(k));
        lemma_parse_prefix_error_subgraphs(stmts, k + 1);
    }
}

proof fn lemma_parse_prefix_error_edges(stmts: Seq<DotStmt>, k: int)
    requires
        0 <= k <= stmts.len(),
        parse_edges_spec(stmts.take(k)) is Err,
    ensures
        parse_edges_spec(stmts) == parse_edges_spec(stmts.take(k)),
    decreases stmts.len() - k,
{
    if k == stmts.len() {
        assert(stmts.take(k) =~= stmts);
    } else {
        assert(stmts.take(k + 1).drop_last() =~= stmts.take(k));
        lemma_parse_prefix_error_edges(stmts, k + 1);
    }
}

/// Reads the subgraphs among the statements.
fn parse_subgraphs(stmts: &Vec<DotStmt>) -> (r: Result<Vec<Vec<(usize, String, u8)>>, GraphError>)
    ensures
        r matches Ok(v) ==> parse_subgraphs_spec(stmts@) == Ok::<
            Seq<Seq<NodeTriple>>,
            GraphErrorKind,
        >(subgraphs_view(v@)),
        r matches Err(e) ==> parse_subgraphs_spec(stmts@) == Err::<
            Seq<Seq<NodeTriple>>,
            GraphErrorKind,
        >(error_kind(e)),
{
    let mut subs: Vec<Vec<(usize, String, u8)>> = Vec::new();
    let mut i: usize = 0;
    assert(stmts@.take(0) =~= Seq::<DotStmt>::empty());
    assert(subgraphs_view(subs@) =~= Seq::<Seq<NodeTriple>>::empty());
    while i < stmts.len()
        invariant
            i <= stmts@.len(),
            parse_subgraphs_spec(stmts@.take(i as int)) == Ok::<
                Seq<Seq<NodeTriple>>,
                GraphErrorKind,
            >(subgraphs_view(subs@)),
        decreases stmts.len() - i,
    {
        assert(stmts@.take(i + 1).drop_last() =~= stmts@.take(i as int));
        assert(stmts@.take(i + 1).last() == stmts@[i as int]);
        match &stmts[i] {
            DotStmt::Subgraph(sub) => {
                match parse_subgraph(sub) {
                    Ok(nodes) => {
                        let ghost before = subs@;
                        subs.push(nodes);
                        assert(subgraphs_view(subs@) =~= subgraphs_view(before).push(
                            triples_view(nodes@),
                        ));
                    },
                    Err(e) => {
                        proof {
                            lemma_parse_prefix_error_subgraphs(stmts@, i + 1);
                        }
                        return Err(e);
                    },
                }
            },
            _ => {},
        }
        i = i + 1;
    }
    assert(stmts@.take(i as int) =~= stmts@);
    Ok(subs)
}

/// Reads the edges among the statements.
fn parse_edges(stmts: &Vec<DotStmt>) -> (r: Result<Vec<(usize, usize)>, GraphError>)
    ensures
        r matches Ok(v) ==> parse_edges_spec(stmts@) == Ok::<Seq<(usize, usize)>, GraphErrorKind>(
            v@,
        ),
        r matches Err(e) ==> parse_edges_spec(stmts@) == Err::<
            Seq<(usize, usize)>,
            GraphErrorKind,
        >(error_kind(e)),
{
    let mut edges: Vec<(usize, usize)> = Vec::new();
    let mut i: usize = 0;
    assert(stmts@.take(0) =~= Seq::<DotStmt>::empty());
    while i < stmts.len()
        invariant
            i <= stmts@.len(),
            parse_edges_spec(stmts@.take(i as int)) == Ok::<Seq<(usize, usize)>, GraphErrorKind>(
                edges@,
            ),
        decreases stmts.len() - i,
    {
        assert(stmts@.take(i + 1).drop_last() =~= stmts@.take(i as int));
        assert(stmts@.take(i + 1).last() == stmts@[i as int]);
        match &stmts[i] {
            DotStmt::Edge(edge) => {
                match parse_edge(edge) {
                    Ok(pair) => {
                        edges.push(pair);
                    },
                    Err(e) => {
                        proof {
                            lemma_parse_prefix_error_edges(stmts@, i + 1);
                        }
                        return Err(e);
                    },
                }
            },
            _ => {},
        }
        i = i + 1;
    }
    assert(stmts@.take(i as int) =~= stmts@);
    Ok(edges)
}

/// The last position of `id` among `ids`.
fn last_position_of(ids: &Vec<usize>, id: usize) -> (r: Option<usize>)
    ensures
        r matches Some(p) ==> last_id_position(ids@, id) == Some(p as int),
        r is None ==> last_id_position(ids@, id) is None,
{
    let mut i = ids.len();
    assert(ids@.take(i as int) =~= ids@);
    while i > 0
        invariant
            i <= ids@.len(),
            last_id_position(ids@, id) == last_id_position(ids@.take(i as int), id),
        decreases i,
    {
        assert(ids@.take(i as int).drop_last() =~= ids@.take(i - 1));
        if ids[i - 1] == id {
            return Some(i - 1);
        }
        i = i - 1;
    }
    None
}

/// `ids` holds `id` exactly where it has a last position.
proof fn lemma_last_id_position(ids: Seq<usize>, id: usize)
    ensures
        last_id_position(ids, id) is Some <==> ids.contains(id),
        last_id_position(ids, id) matches Some(p) ==> 0 <= p < ids.len(),
    decreases ids.len(),
{
    if ids.len() > 0 {
        lemma_last_id_position(ids.drop_last(), id);
        if ids.last() != id {
            if ids.contains(id) {
                let w = choose|w: int| 0 <= w < ids.len() && ids[w] == id;
                assert(ids.drop_last()[w] == id);
            }
            if ids.drop_last().contains(id) {
                let w = choose|w: int| 0 <= w < ids.len() - 1 && ids.drop_last()[w] == id;
                assert(ids[w] == id);
            }
        } else {
            assert(ids[ids.len() - 1] == id);
        }
    }
}

/// Whether every edge into a node of the graph comes from a node of the
/// graph, as reading the graph needs; a graph that cannot be read at all
/// passes.
pub fn edges_resolve_check(graph: &DotGraph) -> (r: bool)
    ensures
        r == dot_edges_resolve(*graph),
{
    if !graph.directed {
        return true;
    }
    let subgraphs = match parse_subgraphs(&graph.stmts) {
        Ok(v) => v,
        Err(_) => {
            return true;
        },
    };
    let edges = match parse_edges(&graph.stmts) {
        Ok(v) => v,
        Err(_) => {
            return true;
        },
    };
    let ghost subs = subgraphs_view(subgraphs@);
    let mut ids: Vec<usize> = Vec::new();
    let mut s: usize = 0;
    assert(subs.take(0) =~= Seq::<Seq<NodeTriple>>::empty());
    while s < subgraphs.len()
        invariant
            s <= subgraphs@.len(),
            subs == subgraphs_view(subgraphs@),
            ids@ == node_ids(flatten_nodes(subs.take(s as int))),
        decreases subgraphs.len() - s,
    {
        let ghost next = subs.take(s + 1);
        assert(next.drop_last() =~= subs.take(s as int));
        assert(next.last() == triples_view(subgraphs@[s as int]@));
        let ghost before = ids@;
        let n = subgraphs[s].len();
        let mut j: usize = 0;
        while j < n
            invariant
                s < subgraphs@.len(),
                n == subgraphs@[s as int]@.len(),
                j <= n,
                ids@ == before + node_ids(triples_view(subgraphs@[s as int]@).take(j as int)),
            decreases n - j,
        {
            ids.push(subgraphs[s][j].0);
            assert(node_ids(triples_view(subgraphs@[s as int]@).take(j + 1)) =~= node_ids(
                triples_view(subgraphs@[s as int]@).take(j as int),
            ).push(subgraphs@[s as int]@[j as int].0));
            j = j + 1;
        }
        assert(triples_view(subgraphs@[s as int]@).take(n as int) =~= triples_view(
            subgraphs@[s as int]@,
        ));
        assert(node_ids(flatten_nodes(next)) =~= node_ids(flatten_nodes(subs.take(s as int)))
            + node_ids(triples_view(subgraphs@[s as int]@)));
        s = s + 1;
    }
    assert(subs.take(s as int) =~= subs);
    assert(from_dot_spec(*graph) == Ok::<
        (Seq<Seq<NodeTriple>>, Seq<(usize, usize)>),
        GraphErrorKind,
    >((subs, edges@)));
    let mut e: usize = 0;
    while e < edges.len()
        invariant
            e <= edges@.len(),
            ids@ == node_ids(flatten_nodes(subs)),
            from_dot_spec(*graph) == Ok::<
                (Seq<Seq<NodeTriple>>, Seq<(usize, usize)>),
                GraphErrorKind,
            >((subs, edges@)),
            forall|k: int|
                0 <= k < e && ids@.contains(#[trigger] edges@[k].1) ==> ids@.contains(
                    edges@[k].0,
                ),
        decreases edges.len() - e,
    {
        let edge = edges[e];
        proof {
            lemma_last_id_position(ids@, edge.0);
            lemma_last_id_position(ids@, edge.1);
        }
        if last_position_of(&ids, edge.1).is_some() && last_position_of(&ids, edge.0).is_none() {
            assert(ids@.contains(edges@[e as int].1));
            assert(!ids@.contains(edges@[e as int].0));
            assert(!edges_resolve(edges@, ids@));
            return false;
        }
        e = e + 1;
    }
    true
}

/// Reads a neuron graph from its dot form: the nodes of each `cluster_`
/// subgraph, in order, each requiring the nodes with edges into it.
pub fn from_dot(graph: &DotGraph) -> (r: Result<Graph, GraphError>)
    requires
        dot_edges_resolve(*graph),
    ensures
        r matches Ok(g) ==> from_dot_spec(*graph) matches Ok((subs, edges)) && graph_read_from(
            g,
            subs,
            edges,
        ),
        r matches Err(e) ==> from_dot_spec(*graph) == Err::<
            (Seq<Seq<NodeTriple>>, Seq<(usize, usize)>),
            GraphErrorKind,
        >(error_kind(e)),
{
    if !graph.directed {
        return Err(GraphError::NotDigraph);
    }
    let subgraphs = parse_subgraphs(&graph.stmts)?;
    let edges = parse_edges(&graph.stmts)?;
    let ghost subs = subgraphs_view(subgraphs@);
    // Flatten the subgraphs and note where each starts.
    let mut flat: Vec<(usize, String, u8)> = Vec::new();
    let mut starts: Vec<usize> = Vec::new();
    starts.push(0);
    let mut s: usize = 0;
    assert(subs.take(0) =~= Seq::<Seq<NodeTriple>>::empty());
    while s < subgraphs.len()
        invariant
            s <= subgraphs@.len(),
            subs == subgraphs_view(subgraphs@),
            triples_view(flat@) == flatten_nodes(subs.take(s as int)),
            starts@ == subgraph_starts(subs.take(s as int)),
        decreases subgraphs.len() - s,
    {
        let ghost taken = subs.take(s as int);
        let ghost next = subs.take(s + 1);
        assert(next.drop_last() =~= taken);
        assert(next.last() == triples_view(subgraphs@[s as int]@));
        let ghost flat_before = flat@;
        let start = flat.len();
        let n = subgraphs[s].len();
        let mut j: usize = 0;
        while j < n
            invariant
                s < subgraphs@.len(),
                n == subgraphs@[s as int]@.len(),
                j <= n,
                triples_view(flat@) == triples_view(flat_before) + triples_view(
                    subgraphs@[s as int]@,
                ).take(j as int),
                flat@.len() == flat_before.len() + j,
            decreases n - j,
        {
            let t = &subgraphs[s][j];
            let entry = (t.0, t.1.clone(), t.2);
            let ghost prev = flat@;
            flat.push(entry);
            assert(triples_view(flat@) =~= triples_view(prev).push((t.0, t.1@, t.2)));
            assert(triples_view(subgraphs@[s as int]@).take(j + 1) =~= triples_view(
                subgraphs@[s as int]@,
            ).take(j as int).push((t.0, t.1@, t.2)));
            assert(triples_view(flat@) =~= triples_view(flat_before) + triples_view(
                subgraphs@[s as int]@,
            ).take(j + 1));
            j = j + 1;
        }
        assert(triples_view(subgraphs@[s as int]@).take(n as int) =~= triples_view(
            subgraphs@[s as int]@,
        ));
        starts.pop();
        starts.push(start);
        starts.push(flat.len());
        assert(starts@ =~= subgraph_starts(taken).drop_last() + seq![
            flatten_nodes(taken).len() as usize,
            flatten_nodes(next).len() as usize,
        ]);
        s = s + 1;
    }
    assert(subs.take(s as int) =~= subs);
    let ghost nodes = flatten_nodes(subs);
    // The ids of the nodes, by position.
    let mut ids: Vec<usize> = Vec::new();
    let mut k: usize = 0;
    while k < flat.len()
        invariant
            k <= flat@.len(),
            triples_view(flat@) == nodes,
            ids@ == node_ids(nodes.take(k as int)),
        decreases flat.len() - k,
    {
        ids.push(flat[k].0);
        assert(node_ids(nodes.take(k + 1)) =~= node_ids(nodes.take(k as int)).push(flat@[k as int].0));
        k = k + 1;
    }
    assert(nodes.take(k as int) =~= nodes);
    proof {
        assert(from_dot_spec(*graph) == Ok::<
            (Seq<Seq<NodeTriple>>, Seq<(usize, usize)>),
            GraphErrorKind,
        >((subs, edges@)));
    }
    // Each node requires the nodes with an edge into it.
    let mut result: Vec<Node> = Vec::new();
    let mut k: usize = 0;
    while k < flat.len()
        invariant
            k <= flat@.len(),
            triples_view(flat@) == nodes,
            ids@ == node_ids(nodes),
            edges_resolve(edges@, ids@),
            result@.len() == k,
            forall|m: int|
                0 <= m < k ==> {
                    &&& (#[trigger] result@[m]).token@ == nodes[m].1
                    &&& result@[m].shade == nodes[m].2
                    &&& result@[m].required@ == required_positions(edges@, ids@, nodes[m].0)
                },
        decreases flat.len() - k,
    {
        let id = flat[k].0;
        assert(nodes[k as int].0 == id);
        let mut required: Vec<usize> = Vec::new();
        let mut e: usize = 0;
        assert(edges@.take(0) =~= Seq::<(usize, usize)>::empty());
        while e < edges.len()
            invariant
                e <= edges@.len(),
                edges_resolve(edges@, ids@),
                ids@ == node_ids(nodes),
                k < nodes.len(),
                nodes[k as int].0 == id,
                required@ == required_positions(edges@.take(e as int), ids@, id),
            decreases edges.len() - e,
        {
            let edge = edges[e];
            assert(edges@.take(e + 1).drop_last() =~= edges@.take(e as int));
            assert(edges@.take(e + 1).last() == edge);
            if edge.1 == id {
                proof {
                    assert(ids@[k as int] == id);
                    assert(ids@.contains(edge.1));
                    assert(ids@.contains(edges@[e as int].1));
                    assert(ids@.contains(edge.0));
                    lemma_last_id_position(ids@, edge.0);
                }
                match last_position_of(&ids, edge.0) {
                    Some(p) => required.push(p),
                    None => {
                        proof {
                            assert(false);
                        }
                    },
                }
            }
            e = e + 1;
        }
        assert(edges@.take(e as int) =~= edges@);
        let node = Node { token: flat[k].1.clone(), required, shade: flat[k].2 };
        result.push(node);
        k = k + 1;
    }
    let g = Graph { subgraph_indices: starts, graph: result };
    assert(graph_read_from(g, subs, edges@));
    Ok(g)
}

/// The lower-case hexadecimal digit of `d` (`d < 16`).
pub open spec fn hex_char(d: nat) -> char {
    if d < 10 {
        digit_char(d)
    } else {
        (d - 10 + 'a' as u32) as char
    }
}

/// `b` as two lower-case hexadecimal digits.
pub open spec fn hex2(b: u8) -> Seq<char> {
    seq![hex_char((b / 16) as nat), hex_char((b % 16) as nat)]
}

/// The fill colour of a node of the given shade: red for the activating
/// layers, blue for the others, paler the less important the node.
pub open spec fn shade_color(shade: u8, activating: bool) -> Seq<char> {
    if activating {
        "\"#ff"@ + hex2(shade) + hex2(shade) + "\""@
    } else {
        "\"#"@ + hex2(shade) + hex2(shade) + "ff\""@
    }
}

/// The attribute is `key=value`, its value escaped where it holds a `"`.
pub open spec fn attribute_is(a: DotAttribute, key: Seq<char>, value: Seq<char>) -> bool {
    &&& a.key is Plain
    &&& id_text(a.key) == key
    &&& id_text(a.value) == value
    &&& value.contains('"') ==> a.value is Escaped
    &&& !value.contains('"') ==> a.value is Plain
}

/// The attributes are the given `key=value` pairs, in order.
pub open spec fn attributes_are(attrs: Seq<DotAttribute>, pairs: Seq<(Seq<char>, Seq<char>)>) -> bool {
    &&& attrs.len() == pairs.len()
    &&& forall|i: int|
        0 <= i < attrs.len() ==> attribute_is(#[trigger] attrs[i], pairs[i].0, pairs[i].1)
}

/// The layout attributes of a neuron graph.
pub open spec fn graph_layout_pairs() -> Seq<(Seq<char>, Seq<char>)> {
    seq![
        ("nodesep"@, "0.2"@),
        ("rankdir"@, "LR"@),
        ("ranksep"@, "1.5"@),
        ("splines"@, "spline"@),
        ("pencolor"@, "white"@),
        ("penwidth"@, "3"@),
    ]
}

/// The attributes that every node of a neuron graph shares.
pub open spec fn node_style_pairs() -> Seq<(Seq<char>, Seq<char>)> {
    seq![
        ("fixedsize"@, "true"@),
        ("height"@, "0.75"@),
        ("width"@, "2"@),
        ("style"@, "\"filled,solid\""@),
        ("shape"@, "box"@),
        ("fontcolor"@, "black"@),
        ("fontsize"@, "25"@),
        ("penwidth"@, "7"@),
    ]
}

/// The attributes that every edge of a neuron graph shares.
pub open spec fn edge_style_pairs() -> Seq<(Seq<char>, Seq<char>)> {
    seq![("penwidth"@, "3"@)]
}

/// The edges of the first nodes: for each node, in order, one edge from each
/// node it requires to it.
pub open spec fn graph_edges(nodes: Seq<Node>) -> Seq<(usize, usize)>
    decreases nodes.len(),
{
    if nodes.len() == 0 {
        Seq::empty()
    } else {
        graph_edges(nodes.drop_last()) + nodes.last().required@.map_values(
            |r: usize| (r, (nodes.len() - 1) as usize),
        )
    }
}

/// The id is the plain decimal numeral of `n`.
pub open spec fn plain_number(id: DotId, n: nat) -> bool {
    id is Plain && id_text(id) == crate::text::decimal(n)
}

/// The statement is the edge from node `a` to node `b`, without attributes.
pub open spec fn edge_stmt_is(stmt: DotStmt, a: usize, b: usize) -> bool {
    &&& stmt matches DotStmt::Edge(e)
    &&& e.attributes@.len() == 0
    &&& e.kind matches DotEdgeKind::Pair(DotVertex::Node(x), DotVertex::Node(y))
    &&& plain_number(x, a as nat)
    &&& plain_number(y, b as nat)
}

/// The statement is layer `w` of the graph: the subgraph `cluster_{w}` of
/// the nodes from `start` to `end`, each labelled by its token and coloured
/// by its shade.
pub open spec fn subgraph_stmt_is(stmt: DotStmt, graph: Graph, w: int, start: int, end: int) -> bool {
    &&& stmt matches DotStmt::Subgraph(sub)
    &&& sub.id is Plain
    &&& id_text(sub.id) == "cluster_"@ + crate::text::decimal(w as nat)
    &&& sub.stmts@.len() == end - start
    &&& forall|i: int|
        0 <= i < end - start ==> {
            &&& #[trigger] sub.stmts@[i] matches DotSubgraphStmt::Node(node)
            &&& plain_number(node.id, (start + i) as nat)
            &&& attributes_are(
                node.attributes@,
                seq![
                    ("label"@, graph.graph@[start + i].token@),
                    ("fillcolor"@, shade_color(graph.graph@[start + i].shade, w <= 1)),
                ],
            )
        }
}

/// Where the layers start is ordered and within the graph.
pub open spec fn graph_well_formed(graph: Graph) -> bool {
    &&& forall|i: int, j: int|
        0 <= i <= j < graph.subgraph_indices@.len() ==> graph.subgraph_indices@[i]
            <= graph.subgraph_indices@[j]
    &&& forall|i: int|
        0 <= i < graph.subgraph_indices@.len() ==> graph.subgraph_indices@[i]
            <= graph.graph@.len()
}

/// The number of layers: one fewer than the starts.
pub open spec fn num_layers_of(graph: Graph) -> int {
    if graph.subgraph_indices@.len() == 0 {
        0
    } else {
        graph.subgraph_indices@.len() - 1
    }
}

/// The dot form of a neuron graph.
pub open spec fn is_dot_of(d: DotGraph, graph: Graph) -> bool {
    let edges = graph_edges(graph.graph@);
    let e = edges.len() as int;
    let stmts = d.stmts@;
    &&& d.directed
    &&& !d.strict
    &&& d.id is Anonymous
    &&& id_text(d.id) == Seq::<char>::empty()
    &&& stmts.len() == 3 + e + num_layers_of(graph)
    &&& stmts[0] matches DotStmt::GraphAttributes(DotGraphAttributes::Graph(a)) && attributes_are(
        a@,
        graph_layout_pairs(),
    )
    &&& stmts[1] matches DotStmt::GraphAttributes(DotGraphAttributes::Node(a)) && attributes_are(
        a@,
        node_style_pairs(),
    )
    &&& stmts[2] matches DotStmt::GraphAttributes(DotGraphAttributes::Edge(a)) && attributes_are(
        a@,
        edge_style_pairs(),
    )
    &&& forall|i: int| 0 <= i < e ==> edge_stmt_is(#[trigger] stmts[3 + i], edges[i].0, edges[i].1)
    &&& forall|w: int|
        0 <= w < num_layers_of(graph) ==> subgraph_stmt_is(
            #[trigger] stmts[3 + e + w],
            graph,
            w,
            graph.subgraph_indices@[w] as int,
            graph.subgraph_indices@[w + 1] as int,
        )
}

/// Appends the lower-case hexadecimal digit of `d` to `out`.
fn push_hex_digit(out: &mut String, d: u8)
    requires
        d < 16,
    ensures
        final(out)@ == old(out)@.push(hex_char(d as nat)),
{
    let ghost before = out@;
    proof {
        if d < 10 {
            crate::text::lemma_digit_char(d as nat);
        } else {
            assert('a' as u32 == 97);
            assert(hex_char(d as nat) as u32 == d + 87);
        }
    }
    match d {
        0 => {
            proof { reveal_strlit("0"); }
            out.append("0");
        },
        1 => {
            proof { reveal_strlit("1"); }
            out.append("1");
        },
        2 => {
            proof { reveal_strlit("2"); }
            out.append("2");
        },
        3 => {
            proof { reveal_strlit("3"); }
            out.append("3");
        },
        4 => {
            proof { reveal_strlit("4"); }
            out.append("4");
        },
        5 => {
            proof { reveal_strlit("5"); }
            out.append("5");
        },
        6 => {
            proof { reveal_strlit("6"); }
            out.append("6");
        },
        7 => {
            proof { reveal_strlit("7"); }
            out.append("7");
        },
        8 => {
            proof { reveal_strlit("8"); }
            out.append("8");
        },
        9 => {
            proof { reveal_strlit("9"); }
            out.append("9");
        },
        10 => {
            proof { reveal_strlit("a"); }
            out.append("a");
        },
        11 => {
            proof { reveal_strlit("b"); }
            out.append("b");
        },
        12 => {
            proof { reveal_strlit("c"); }
            out.append("c");
        },
        13 => {
            proof { reveal_strlit("d"); }
            out.append("d");
        },
        14 => {
            proof { reveal_strlit("e"); }
            out.append("e");
        },
        _ => {
            proof { reveal_strlit("f"); }
            out.append("f");
        },
    }
    assert(out@ =~= before.push(hex_char(d as nat)));
}

/// Appends `b` as two lower-case hexadecimal digits to `out`.
fn push_hex2(out: &mut String, b: u8)
    ensures
        final(out)@ == old(out)@ + hex2(b),
{
    let ghost before = out@;
    push_hex_digit(out, b / 16);
    push_hex_digit(out, b % 16);
    assert(out@ =~= before + hex2(b));
}

/// The fill colour of a node of the given shade.
pub fn importance_to_color(shade: u8, activating: bool) -> (r: String)
    ensures
        r@ == shade_color(shade, activating),
{
    if activating {
        let mut r = "\"#ff".to_owned();
        push_hex2(&mut r, shade);
        push_hex2(&mut r, shade);
        r.append("\"");
        r
    } else {
        let mut r = "\"#".to_owned();
        push_hex2(&mut r, shade);
        push_hex2(&mut r, shade);
        r.append("ff\"");
        r
    }
}

/// Whether `s` holds a `"`.
fn contains_quote(s: &str) -> (r: bool)
    ensures
        r == s@.contains('"'),
{
    let chars = chars_of(s);
    let mut i: usize = 0;
    while i < chars.len()
        invariant
            chars@ == s@,
            i <= chars@.len(),
            forall|j: int| 0 <= j < i ==> chars@[j] != '"',
        decreases chars.len() - i,
    {
        if chars[i] == '"' {
            assert(s@[i as int] == '"');
            return true;
        }
        i = i + 1;
    }
    false
}

/// The attribute `key=value`; a value that holds a `"` is escaped.
pub fn attribute(key: &str, value: String) -> (r: DotAttribute)
    ensures
        attribute_is(r, key@, value@),
{
    let value_id = if contains_quote(value.as_str()) {
        DotId::Escaped(value)
    } else {
        DotId::Plain(value)
    };
    DotAttribute { key: DotId::Plain(key.to_owned()), value: value_id }
}

/// The id written as the plain numeral of `n`.
fn number_id(n: usize) -> (r: DotId)
    ensures
        plain_number(r, n as nat),
{
    DotId::Plain(crate::text::decimal_string(n as u64))
}

/// The layout attributes of a neuron graph, as a statement.
fn graph_layout_stmt() -> (r: DotStmt)
    ensures
        r matches DotStmt::GraphAttributes(DotGraphAttributes::Graph(a)) && attributes_are(
            a@,
            graph_layout_pairs(),
        ),
{
    let mut a: Vec<DotAttribute> = Vec::new();
    a.push(attribute("nodesep", "0.2".to_owned()));
    a.push(attribute("rankdir", "LR".to_owned()));
    a.push(attribute("ranksep", "1.5".to_owned()));
    a.push(attribute("splines", "spline".to_owned()));
    a.push(attribute("pencolor", "white".to_owned()));
    a.push(attribute("penwidth", "3".to_owned()));
    DotStmt::GraphAttributes(DotGraphAttributes::Graph(a))
}

/// The shared node attributes of a neuron graph, as a statement.
fn node_style_stmt() -> (r: DotStmt)
    ensures
        r matches DotStmt::GraphAttributes(DotGraphAttributes::Node(a)) && attributes_are(
            a@,
            node_style_pairs(),
        ),
{
    let mut a: Vec<DotAttribute> = Vec::new();
    a.push(attribute("fixedsize", "true".to_owned()));
    a.push(attribute("height", "0.75".to_owned()));
    a.push(attribute("width", "2".to_owned()));
    a.push(attribute("style", "\"filled,solid\"".to_owned()));
    a.push(attribute("shape", "box".to_owned()));
    a.push(attribute("fontcolor", "black".to_owned()));
    a.push(attribute("fontsize", "25".to_owned()));
    a.push(attribute("penwidth", "7".to_owned()));
    DotStmt::GraphAttributes(DotGraphAttributes::Node(a))
}

/// The shared edge attributes of a neuron graph, as a statement.
fn edge_style_stmt() -> (r: DotStmt)
    ensures
        r matches DotStmt::GraphAttributes(DotGraphAttributes::Edge(a)) && attributes_are(
            a@,
            edge_style_pairs(),
        ),
{
    let mut a: Vec<DotAttribute> = Vec::new();
    a.push(attribute("penwidth", "3".to_owned()));
    DotStmt::GraphAttributes(DotGraphAttributes::Edge(a))
}

/// The statement of layer `w`: the subgraph of the nodes from `start` to
/// `end`.
fn layer_subgraph(graph: &Graph, w: usize, start: usize, end: usize) -> (r: DotStmt)
    requires
        start <= end <= graph.graph@.len(),
    ensures
        subgraph_stmt_is(r, *graph, w as int, start as int, end as int),
{
    proof {
        reveal_strlit("cluster_");
    }
    let mut id = "cluster_".to_owned();
    crate::text::push_decimal(&mut id, w as u64);
    let mut stmts: Vec<DotSubgraphStmt> = Vec::new();
    let mut i = start;
    while i < end
        invariant
            start <= i <= end <= graph.graph@.len(),
            stmts@.len() == i - start,
            forall|j: int|
                0 <= j < i - start ==> {
                    &&& #[trigger] stmts@[j] matches DotSubgraphStmt::Node(node)
                    &&& plain_number(node.id, (start + j) as nat)
                    &&& attributes_are(
                        node.attributes@,
                        seq![
                            ("label"@, graph.graph@[start + j].token@),
                            ("fillcolor"@, shade_color(graph.graph@[start + j].shade, w <= 1)),
                        ],
                    )
                },
        decreases end - i,
    {
        let node = &graph.graph[i];
        let mut attributes: Vec<DotAttribute> = Vec::new();
        attributes.push(attribute("label", node.token.clone()));
        attributes.push(attribute("fillcolor", importance_to_color(node.shade, w <= 1)));
        let ghost pairs = seq![
            ("label"@, graph.graph@[i as int].token@),
            ("fillcolor"@, shade_color(graph.graph@[i as int].shade, w <= 1)),
        ];
        assert(attributes_are(attributes@, pairs));
        stmts.push(DotSubgraphStmt::Node(DotNode { id: number_id(i), attributes }));
        i = i + 1;
    }
    DotStmt::Subgraph(DotSubgraph { id: DotId::Plain(id), stmts })
}

/// The dot form of a neuron graph: the layout attributes, then an edge from
/// each required node to the node that requires it, then each layer as a
/// `cluster_` subgraph whose nodes are labelled by their tokens and coloured
/// by their shades, the first two layers red, the others blue.
pub fn to_dot(graph: &Graph) -> (r: DotGraph)
    requires
        graph_well_formed(*graph),
    ensures
        is_dot_of(r, *graph),
        forall|k: int, j: int|
            #![trigger graph.graph@[k].required@[j]]
            0 <= k < graph.graph@.len() && 0 <= j < graph.graph@[k].required@.len()
                ==> dot_has_edge(r, graph.graph@[k].required@[j] as nat, k as nat),
        forall|s1: int, i1: int, s2: int, i2: int|
            #[trigger] subgraph_node_id(r, s1, i1) is Some && #[trigger] subgraph_node_id(r, s2, i2) is Some
                && (s1 != s2 || i1 != i2) ==> subgraph_node_text(r, s1, i1) != subgraph_node_text(
                r,
                s2,
                i2,
            ),
{
    let mut stmts: Vec<DotStmt> = Vec::new();
    stmts.push(graph_layout_stmt());
    stmts.push(node_style_stmt());
    stmts.push(edge_style_stmt());
    let ghost nodes = graph.graph@;
    let mut k: usize = 0;
    assert(nodes.take(0) =~= Seq::<Node>::empty());
    while k < graph.graph.len()
        invariant
            nodes == graph.graph@,
            k <= nodes.len(),
            stmts@.len() == 3 + graph_edges(nodes.take(k as int)).len(),
            stmts@[0] matches DotStmt::GraphAttributes(DotGraphAttributes::Graph(a))
                && attributes_are(a@, graph_layout_pairs()),
            stmts@[1] matches DotStmt::GraphAttributes(DotGraphAttributes::Node(a))
                && attributes_are(a@, node_style_pairs()),
            stmts@[2] matches DotStmt::GraphAttributes(DotGraphAttributes::Edge(a))
                && attributes_are(a@, edge_style_pairs()),
            forall|i: int|
                0 <= i < graph_edges(nodes.take(k as int)).len() ==> edge_stmt_is(
                    #[trigger] stmts@[3 + i],
                    graph_edges(nodes.take(k as int))[i].0,
                    graph_edges(nodes.take(k as int))[i].1,
                ),
        decreases nodes.len() - k,
    {
        let ghost done = graph_edges(nodes.take(k as int));
        let ghost next = graph_edges(nodes.take(k + 1));
        assert(nodes.take(k + 1).drop_last() =~= nodes.take(k as int));
        assert(nodes.take(k + 1).last() == nodes[k as int]);
        let ghost own = nodes[k as int].required@.map_values(|r: usize| (r, k));
        assert(next =~= done + own);
        let required = &graph.graph[k].required;
        let mut j: usize = 0;
        while j < required.len()
            invariant
                nodes == graph.graph@,
                k < nodes.len(),
                required@ == nodes[k as int].required@,
                own == required@.map_values(|r: usize| (r, k)),
                next == done + own,
                j <= required@.len(),
                stmts@.len() == 3 + done.len() + j,
                stmts@[0] matches DotStmt::GraphAttributes(DotGraphAttributes::Graph(a))
                    && attributes_are(a@, graph_layout_pairs()),
                stmts@[1] matches DotStmt::GraphAttributes(DotGraphAttributes::Node(a))
                    && attributes_are(a@, node_style_pairs()),
                stmts@[2] matches DotStmt::GraphAttributes(DotGraphAttributes::Edge(a))
                    && attributes_are(a@, edge_style_pairs()),
                forall|i: int|
                    0 <= i < done.len() + j ==> edge_stmt_is(
                        #[trigger] stmts@[3 + i],
                        next[i].0,
                        next[i].1,
                    ),
            decreases required.len() - j,
        {
            let edge = DotEdge {
                kind: DotEdgeKind::Pair(
                    DotVertex::Node(number_id(required[j])),
                    DotVertex::Node(number_id(k)),
                ),
                attributes: Vec::new(),
            };
            let ghost before = stmts@;
            stmts.push(DotStmt::Edge(edge));
            assert(next[done.len() + j] == (required@[j as int], k));
            assert forall|i: int| 0 <= i < done.len() + j + 1 implies edge_stmt_is(
                #[trigger] stmts@[3 + i],
                next[i].0,
                next[i].1,
            ) by {
                if i < done.len() + j {
                    assert(stmts@[3 + i] == before[3 + i]);
                }
            }
            j = j + 1;
        }
        k = k + 1;
    }
    assert(nodes.take(k as int) =~= nodes);
    let ghost edges = graph_edges(nodes);
    let num_starts = graph.subgraph_indices.len();
    let num_layers: usize = if num_starts == 0 {
        0
    } else {
        num_starts - 1
    };
    let mut w: usize = 0;
    while w < num_layers
        invariant
            graph_well_formed(*graph),
            nodes == graph.graph@,
            edges == graph_edges(nodes),
            num_layers == num_layers_of(*graph),
            w <= num_layers,
            stmts@.len() == 3 + edges.len() + w,
            stmts@[0] matches DotStmt::GraphAttributes(DotGraphAttributes::Graph(a))
                && attributes_are(a@, graph_layout_pairs()),
            stmts@[1] matches DotStmt::GraphAttributes(DotGraphAttributes::Node(a))
                && attributes_are(a@, node_style_pairs()),
            stmts@[2] matches DotStmt::GraphAttributes(DotGraphAttributes::Edge(a))
                && attributes_are(a@, edge_style_pairs()),
            forall|i: int|
                0 <= i < edges.len() ==> edge_stmt_is(
                    #[trigger] stmts@[3 + i],
                    edges[i].0,
                    edges[i].1,
                ),
            forall|v: int|
                0 <= v < w ==> subgraph_stmt_is(
                    #[trigger] stmts@[3 + edges.len() + v],
                    *graph,
                    v,
                    graph.subgraph_indices@[v] as int,
                    graph.subgraph_indices@[v + 1] as int,
                ),
        decreases num_layers - w,
    {
        let start = graph.subgraph_indices[w];
        let end = graph.subgraph_indices[w + 1];
        let ghost before = stmts@;
        stmts.push(layer_subgraph(graph, w, start, end));
        assert forall|i: int| 0 <= i < edges.len() implies edge_stmt_is(
            #[trigger] stmts@[3 + i],
            edges[i].0,
            edges[i].1,
        ) by {
            assert(stmts@[3 + i] == before[3 + i]);
        }
        assert forall|v: int| 0 <= v < w + 1 implies subgraph_stmt_is(
            #[trigger] stmts@[3 + edges.len() + v],
            *graph,
            v,
            graph.subgraph_indices@[v] as int,
            graph.subgraph_indices@[v + 1] as int,
        ) by {
            if v < w {
                assert(stmts@[3 + edges.len() + v] == before[3 + edges.len() + v]);
            }
        }
        w = w + 1;
    }
    let d = DotGraph { id: DotId::Anonymous(String::new()), strict: false, directed: true, stmts };
    proof {
        law_dot_edges_run_from_required_node(d, *graph);
        assert forall|s1: int, i1: int, s2: int, i2: int|
            #[trigger] subgraph_node_id(d, s1, i1) is Some && #[trigger] subgraph_node_id(d, s2, i2) is Some
                && (s1 != s2 || i1 != i2) implies subgraph_node_text(d, s1, i1) != subgraph_node_text(
            d,
            s2,
            i2,
        ) by {
            law_dot_node_ids_distinct(d, *graph, s1, i1, s2, i2);
        }
    }
    d
}

/// Each layer starts where the nodes of the layers before it end, and the
/// starts end with the number of nodes.
proof fn lemma_subgraph_starts(subs: Seq<Seq<NodeTriple>>)
    requires
        flatten_nodes(subs).len() <= usize::MAX,
    ensures
        subgraph_starts(subs).len() == subs.len() + 1,
        forall|i: int|
            0 <= i <= subs.len() ==> #[trigger] subgraph_starts(subs)[i] as int == flatten_nodes(
                subs.take(i),
            ).len(),
        forall|i: int, j: int|
            0 <= i <= j <= subs.len() ==> flatten_nodes(subs.take(i)).len() <= flatten_nodes(
                subs.take(j),
            ).len(),
    decreases subs.len(),
{
    if subs.len() == 0 {
        assert(subs.take(0) =~= subs);
    } else {
        let init = subs.drop_last();
        assert(flatten_nodes(subs) == flatten_nodes(init) + subs.last());
        lemma_subgraph_starts(init);
        assert(subs.take(subs.len() as int) =~= subs);
        assert forall|i: int| 0 <= i < subs.len() implies subs.take(i) =~= init.take(i) by {}
        assert forall|i: int|
            0 <= i <= subs.len() implies #[trigger] subgraph_starts(subs)[i] as int
            == flatten_nodes(subs.take(i)).len() by {
            if i < subs.len() {
                assert(subs.take(i) =~= init.take(i));
            }
        }
        assert forall|i: int, j: int| 0 <= i <= j <= subs.len() implies flatten_nodes(
            subs.take(i),
        ).len() <= flatten_nodes(subs.take(j)).len() by {
            if j == subs.len() {
                assert(subs.take(i) =~= init.take(i) || i == subs.len());
                if i < subs.len() {
                    assert(init.take(init.len() as int) =~= init);
                    assert(flatten_nodes(init.take(i)).len() <= flatten_nodes(
                        init.take(init.len() as int),
                    ).len());
                }
            } else {
                assert(subs.take(i) =~= init.take(i));
                assert(subs.take(j) =~= init.take(j));
            }
        }
    }
}

/// A graph read from dot has ordered layer starts within its nodes, so it
/// can be written back to dot.
pub proof fn law_read_graph_well_formed(
    g: Graph,
    subs: Seq<Seq<NodeTriple>>,
    edges: Seq<(usize, usize)>,
)
    requires
        graph_read_from(g, subs, edges),
        g.graph@.len() <= usize::MAX,
    ensures
        graph_well_formed(g),
{
    lemma_subgraph_starts(subs);
    assert(subs.take(subs.len() as int) =~= subs);
    let starts = g.subgraph_indices@;
    assert forall|i: int, j: int| 0 <= i <= j < starts.len() implies starts[i] <= starts[j] by {
        assert(starts[i] as int == flatten_nodes(subs.take(i)).len());
        assert(starts[j] as int == flatten_nodes(subs.take(j)).len());
    }
    assert forall|i: int| 0 <= i < starts.len() implies starts[i] <= g.graph@.len() by {
        assert(starts[i] as int == flatten_nodes(subs.take(i)).len());
    }
}

/// Whether the graph's layer starts are ordered and within its nodes.
pub fn is_well_formed(graph: &Graph) -> (r: bool)
    ensures
        r == graph_well_formed(*graph),
{
    let starts = &graph.subgraph_indices;
    let n = graph.graph.len();
    let mut i: usize = 0;
    while i < starts.len()
        invariant
            starts@ == graph.subgraph_indices@,
            n == graph.graph@.len(),
            i <= starts@.len(),
            forall|a: int, b: int| 0 <= a <= b < i ==> starts@[a] <= starts@[b],
            forall|a: int| 0 <= a < i ==> starts@[a] <= n,
        decreases starts.len() - i,
    {
        if starts[i] > n {
            return false;
        }
        if i > 0 && starts[i - 1] > starts[i] {
            assert(!graph_well_formed(*graph)) by {
                assert(starts@[i - 1] > starts@[i as int]);
            }
            return false;
        }
        i = i + 1;
    }
    true
}

/// The two node ids of an edge statement between two nodes.
pub open spec fn edge_ends(stmt: DotStmt) -> Option<(DotId, DotId)> {
    match stmt {
        DotStmt::Edge(e) => match e.kind {
            DotEdgeKind::Pair(DotVertex::Node(x), DotVertex::Node(y)) => Some((x, y)),
            _ => None,
        },
        _ => None,
    }
}

/// The id of the node written as statement `i` of the subgraph that is
/// statement `s` of the dot graph.
pub open spec fn subgraph_node_id(d: DotGraph, s: int, i: int) -> Option<DotId> {
    if 0 <= s < d.stmts@.len() {
        match d.stmts@[s] {
            DotStmt::Subgraph(sub) => if 0 <= i < sub.stmts@.len() {
                match sub.stmts@[i] {
                    DotSubgraphStmt::Node(node) => Some(node.id),
                    _ => None,
                }
            } else {
                None
            },
            _ => None,
        }
    } else {
        None
    }
}

/// The edge list holds, for each node and each node it requires, the pair
/// of the required node and the node.
proof fn lemma_graph_edges_has(nodes: Seq<Node>, k: int, j: int)
    requires
        nodes.len() <= usize::MAX,
        0 <= k < nodes.len(),
        0 <= j < nodes[k].required@.len(),
    ensures
        exists|i: int|
            0 <= i < graph_edges(nodes).len() && #[trigger] graph_edges(nodes)[i] == (
                nodes[k].required@[j],
                k as usize,
            ),
    decreases nodes.len(),
{
    let init = nodes.drop_last();
    let own = nodes.last().required@.map_values(|r: usize| (r, (nodes.len() - 1) as usize));
    assert(graph_edges(nodes) == graph_edges(init) + own);
    if k == nodes.len() - 1 {
        let i = graph_edges(init).len() + j;
        assert(graph_edges(nodes)[i] == own[j]);
    } else {
        lemma_graph_edges_has(init, k, j);
        let i = choose|i: int|
            0 <= i < graph_edges(init).len() && #[trigger] graph_edges(init)[i] == (
                init[k].required@[j],
                k as usize,
            );
        assert(graph_edges(nodes)[i] == graph_edges(init)[i]);
    }
}

/// Each pair of the edge list is a node it requires and a node.
proof fn lemma_graph_edges_from(nodes: Seq<Node>, i: int)
    requires
        nodes.len() <= usize::MAX,
        0 <= i < graph_edges(nodes).len(),
    ensures
        exists|k: int, j: int|
            0 <= k < nodes.len() && 0 <= j < nodes[k].required@.len() && graph_edges(nodes)[i] == (
                #[trigger] nodes[k].required@[j],
                k as usize,
            ),
    decreases nodes.len(),
{
    let init = nodes.drop_last();
    let own = nodes.last().required@.map_values(|r: usize| (r, (nodes.len() - 1) as usize));
    assert(graph_edges(nodes) == graph_edges(init) + own);
    if i < graph_edges(init).len() {
        lemma_graph_edges_from(init, i);
        let (k, j) = choose|k: int, j: int|
            0 <= k < init.len() && 0 <= j < init[k].required@.len() && graph_edges(init)[i] == (
                #[trigger] init[k].required@[j],
                k as usize,
            );
        assert(nodes[k] == init[k]);
    } else {
        let k = nodes.len() - 1;
        let j = i - graph_edges(init).len();
        assert(graph_edges(nodes)[i] == own[j]);
        assert(graph_edges(nodes)[i] == (nodes[k].required@[j], k as usize));
    }
}

/// The statement is an edge from the node named by the numeral of `a` to
/// the node named by the numeral of `b`.
pub open spec fn edge_between(stmt: DotStmt, a: nat, b: nat) -> bool {
    match edge_ends(stmt) {
        Some((x, y)) => plain_number(x, a) && plain_number(y, b),
        None => false,
    }
}

/// Some statement of the dot graph is an edge from the node named by the
/// numeral of `a` to the node named by the numeral of `b`.
pub open spec fn dot_has_edge(d: DotGraph, a: nat, b: nat) -> bool {
    exists|s: int| 0 <= s < d.stmts@.len() && #[trigger] edge_between(d.stmts@[s], a, b)
}

/// For a node and a node it requires, the dot form has an edge statement
/// from the numeral of the required node to the numeral of the node.
proof fn lemma_dot_has_edge(d: DotGraph, g: Graph, k: int, j: int)
    requires
        is_dot_of(d, g),
        g.graph@.len() <= usize::MAX,
        0 <= k < g.graph@.len(),
        0 <= j < g.graph@[k].required@.len(),
    ensures
        dot_has_edge(d, g.graph@[k].required@[j] as nat, k as nat),
{
    let nodes = g.graph@;
    let edges = graph_edges(nodes);
    lemma_graph_edges_has(nodes, k, j);
    let i = choose|i: int|
        0 <= i < edges.len() && #[trigger] edges[i] == (nodes[k].required@[j], k as usize);
    assert(edge_stmt_is(d.stmts@[3 + i], edges[i].0, edges[i].1));
    assert(edge_between(d.stmts@[3 + i], g.graph@[k].required@[j] as nat, k as nat));
}

/// An edge statement between two nodes in the dot form of a neuron graph
/// runs from the numeral of a node to the numeral of a node that requires
/// it.
proof fn lemma_dot_edge_is_requirement(d: DotGraph, g: Graph, s: int)
    requires
        is_dot_of(d, g),
        g.graph@.len() <= usize::MAX,
        0 <= s < d.stmts@.len(),
        edge_ends(d.stmts@[s]) is Some,
    ensures
        exists|k: int, j: int|
            0 <= k < g.graph@.len() && 0 <= j < g.graph@[k].required@.len() && #[trigger] edge_between(
                d.stmts@[s],
                g.graph@[k].required@[j] as nat,
                k as nat,
            ),
{
    let nodes = g.graph@;
    let edges = graph_edges(nodes);
    let e = edges.len() as int;
    if s >= 3 + e {
        assert(subgraph_stmt_is(
            d.stmts@[3 + e + (s - 3 - e)],
            g,
            s - 3 - e,
            g.subgraph_indices@[s - 3 - e] as int,
            g.subgraph_indices@[s - 3 - e + 1] as int,
        ));
    }
    let i = s - 3;
    assert(edge_stmt_is(d.stmts@[3 + i], edges[i].0, edges[i].1));
    lemma_graph_edges_from(nodes, i);
    let (k, j) = choose|k: int, j: int|
        0 <= k < nodes.len() && 0 <= j < nodes[k].required@.len() && edges[i] == (
            #[trigger] nodes[k].required@[j],
            k as usize,
        );
    assert(edge_between(d.stmts@[s], g.graph@[k].required@[j] as nat, k as nat));
}

/// Every edge of the dot form of a neuron graph runs from a node to a node
/// that requires it, and for each node and each node it requires there is
/// such an edge: from the numeral of the required node's position to the
/// numeral of the requiring node's position.
pub proof fn law_dot_edges_run_from_required_node(d: DotGraph, g: Graph)
    requires
        is_dot_of(d, g),
        g.graph@.len() <= usize::MAX,
    ensures
        forall|k: int, j: int|
            #![trigger g.graph@[k].required@[j]]
            0 <= k < g.graph@.len() && 0 <= j < g.graph@[k].required@.len() ==> dot_has_edge(
                d,
                g.graph@[k].required@[j] as nat,
                k as nat,
            ),
        forall|s: int|
            0 <= s < d.stmts@.len() && #[trigger] edge_ends(d.stmts@[s]) is Some ==> exists|
                k: int,
                j: int,
            |
                0 <= k < g.graph@.len() && 0 <= j < g.graph@[k].required@.len() && #[trigger] edge_between(
                    d.stmts@[s],
                    g.graph@[k].required@[j] as nat,
                    k as nat,
                ),
{
    assert forall|k: int, j: int|
        #![trigger g.graph@[k].required@[j]]
        0 <= k < g.graph@.len() && 0 <= j < g.graph@[k].required@.len() implies dot_has_edge(
        d,
        g.graph@[k].required@[j] as nat,
        k as nat,
    ) by {
        lemma_dot_has_edge(d, g, k, j);
    }
    assert forall|s: int|
        0 <= s < d.stmts@.len() && #[trigger] edge_ends(d.stmts@[s]) is Some implies exists|
            k: int,
            j: int,
        |
            0 <= k < g.graph@.len() && 0 <= j < g.graph@[k].required@.len() && #[trigger] edge_between(
                d.stmts@[s],
                g.graph@[k].required@[j] as nat,
                k as nat,
            ) by {
        lemma_dot_edge_is_requirement(d, g, s);
    }
}

/// Different numbers have different decimal numerals.
proof fn lemma_decimal_injective(a: nat, b: nat)
    requires
        a != b,
    ensures
        crate::text::decimal(a) != crate::text::decimal(b),
{
    crate::text::lemma_decimal_digits(a);
    crate::text::lemma_decimal_digits(b);
}

/// A node statement of a layer subgraph in the dot form of a neuron graph
/// stands in the statement of some layer `w`, within that layer's nodes,
/// and is named by the numeral of its position in the whole graph.
proof fn lemma_dot_node_id(d: DotGraph, g: Graph, s: int, i: int)
    requires
        is_dot_of(d, g),
        subgraph_node_id(d, s, i) is Some,
    ensures
        ({
            let e = graph_edges(g.graph@).len() as int;
            let w = s - 3 - e;
            &&& 0 <= w < num_layers_of(g)
            &&& 0 <= i < g.subgraph_indices@[w + 1] - g.subgraph_indices@[w]
            &&& plain_number(
                subgraph_node_id(d, s, i)->Some_0,
                (g.subgraph_indices@[w] + i) as nat,
            )
        }),
{
    let e = graph_edges(g.graph@).len() as int;
    let w = s - 3 - e;
    if 3 <= s < 3 + e {
        assert(edge_stmt_is(d.stmts@[3 + (s - 3)], graph_edges(g.graph@)[s - 3].0, graph_edges(g.graph@)[s - 3].1));
    }
    assert(subgraph_stmt_is(
        d.stmts@[3 + e + w],
        g,
        w,
        g.subgraph_indices@[w] as int,
        g.subgraph_indices@[w + 1] as int,
    ));
}

/// The text of the id of the node written as statement `i` of the subgraph
/// that is statement `s`, if there is such a node.
pub open spec fn subgraph_node_text(d: DotGraph, s: int, i: int) -> Option<Seq<char>> {
    match subgraph_node_id(d, s, i) {
        Some(id) => Some(id_text(id)),
        None => None,
    }
}

/// No two node statements of the dot form of a neuron graph, in one layer
/// subgraph or in two, name the same node: each node is written under its
/// position in the whole graph, not within its layer.
pub proof fn law_dot_node_ids_distinct(d: DotGraph, g: Graph, s1: int, i1: int, s2: int, i2: int)
    requires
        is_dot_of(d, g),
        graph_well_formed(g),
        subgraph_node_id(d, s1, i1) is Some,
        subgraph_node_id(d, s2, i2) is Some,
        s1 != s2 || i1 != i2,
    ensures
        subgraph_node_text(d, s1, i1) != subgraph_node_text(d, s2, i2),
{
    lemma_dot_node_id(d, g, s1, i1);
    lemma_dot_node_id(d, g, s2, i2);
    let e = graph_edges(g.graph@).len() as int;
    let w1 = s1 - 3 - e;
    let w2 = s2 - 3 - e;
    let starts = g.subgraph_indices@;
    let p1 = (starts[w1] + i1) as nat;
    let p2 = (starts[w2] + i2) as nat;
    if w1 < w2 {
        assert(starts[w1 + 1] <= starts[w2]);
    } else if w2 < w1 {
        assert(starts[w2 + 1] <= starts[w1]);
    }
    assert(p1 != p2);
    lemma_decimal_injective(p1, p2);
}

/// Where the layer starts are ordered, a position between the first and
/// the `m`th start lies in some layer before the `m`th.
proof fn lemma_find_layer(starts: Seq<usize>, p: int, m: int)
    requires
        0 < m < starts.len(),
        starts[0] <= p < starts[m],
        forall|a: int, b: int| 0 <= a <= b < starts.len() ==> starts[a] <= starts[b],
    ensures
        exists|w: int| 0 <= w < m && starts[w] <= p < #[trigger] starts[w + 1],
    decreases m,
{
    if starts[m - 1] <= p {
        assert(starts[m - 1] <= p < starts[(m - 1) + 1]);
    } else {
        lemma_find_layer(starts, p, m - 1);
        let w = choose|w: int| 0 <= w < m - 1 && starts[w] <= p < #[trigger] starts[w + 1];
    }
}

/// Where the layers of a neuron graph start at its first node and end at
/// its last, the dot form writes the node at each position `p` in a layer
/// subgraph under the numeral of `p`.
pub proof fn law_dot_node_named_by_position(d: DotGraph, g: Graph, p: int)
    requires
        is_dot_of(d, g),
        graph_well_formed(g),
        g.subgraph_indices@.len() > 0,
        g.subgraph_indices@[0] == 0,
        g.subgraph_indices@.last() == g.graph@.len(),
        0 <= p < g.graph@.len(),
    ensures
        exists|s: int, i: int|
            #[trigger] subgraph_node_text(d, s, i) == Some(crate::text::decimal(p as nat)),
{
    let starts = g.subgraph_indices@;
    let m = starts.len() - 1;
    lemma_find_layer(starts, p, m);
    let w = choose|w: int| 0 <= w < m && starts[w] <= p < #[trigger] starts[w + 1];
    let e = graph_edges(g.graph@).len() as int;
    let s = 3 + e + w;
    let i = p - starts[w];
    assert(subgraph_stmt_is(d.stmts@[s], g, w, starts[w] as int, starts[w + 1] as int));
    assert(subgraph_node_text(d, s, i) == Some(crate::text::decimal(p as nat)));
}

/// Where the layers of a neuron graph start at its first node and end at
/// its last, and every node it requires is one of its nodes, both ends of
/// every edge of its dot form are nodes written in a layer subgraph.
pub proof fn law_dot_edge_ends_are_nodes(d: DotGraph, g: Graph, s: int)
    requires
        is_dot_of(d, g),
        graph_well_formed(g),
        g.graph@.len() <= usize::MAX,
        g.subgraph_indices@.len() > 0,
        g.subgraph_indices@[0] == 0,
        g.subgraph_indices@.last() == g.graph@.len(),
        forall|k: int, j: int|
            0 <= k < g.graph@.len() && 0 <= j < g.graph@[k].required@.len()
                ==> #[trigger] g.graph@[k].required@[j] < g.graph@.len(),
        0 <= s < d.stmts@.len(),
        edge_ends(d.stmts@[s]) is Some,
    ensures
        exists|s1: int, i1: int|
            #[trigger] subgraph_node_text(d, s1, i1) == Some(
                id_text((edge_ends(d.stmts@[s])->Some_0).0),
            ),
        exists|s2: int, i2: int|
            #[trigger] subgraph_node_text(d, s2, i2) == Some(
                id_text((edge_ends(d.stmts@[s])->Some_0).1),
            ),
{
    lemma_dot_edge_is_requirement(d, g, s);
    let (k, j) = choose|k: int, j: int|
        0 <= k < g.graph@.len() && 0 <= j < g.graph@[k].required@.len() && #[trigger] edge_between(
            d.stmts@[s],
            g.graph@[k].required@[j] as nat,
            k as nat,
        );
    let r = g.graph@[k].required@[j];
    law_dot_node_named_by_position(d, g, r as int);
    law_dot_node_named_by_position(d, g, k);
}

} // verus!
