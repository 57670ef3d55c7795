//! Neuron graph files: dot text whose bare label values are quoted first,
//! then parsed by `graphviz_rust` into the plain dot structure, then read as
//! a neuron graph.

use vstd::prelude::*;

use graphviz_rust::dot_structures::{
    Attribute, Edge, EdgeTy, GraphAttributes, Id, Node as GvNode, NodeId, Stmt, Subgraph, Vertex,
};

use crate::neuron2graph::{
    dot_edges_resolve, edges_resolve_check, error_kind, from_dot, from_dot_spec, graph_read_from,
    quote_graph_labels, DotAttribute, DotEdge, DotEdgeKind, DotGraph, DotGraphAttributes, DotId,
    DotNode, DotStmt, DotSubgraph, DotSubgraphStmt, DotVertex, Graph, GraphError, GraphErrorKind,
    NodeTriple, QUOTED_LABEL_REPLACEMENT, UNQUOTED_LABEL_PATTERN,
};
use crate::pattern::regex_replaced;

verus! {

#[verifier::external_type_specification]
#[verifier::external_body]
pub struct ExGvId(Id);

#[verifier::external_type_specification]
#[verifier::external_body]
pub struct ExGvAttribute(Attribute);

#[verifier::external_type_specification]
#[verifier::external_body]
pub struct ExGvNode(GvNode);

#[verifier::external_type_specification]
#[verifier::external_body]
pub struct ExGvVertex(Vertex);

#[verifier::external_type_specification]
#[verifier::external_body]
pub struct ExGvGraphAttributes(GraphAttributes);

#[verifier::external_type_specification]
#[verifier::external_body]
pub struct ExGvSubgraph(Subgraph);

#[verifier::external_type_specification]
#[verifier::external_body]
pub struct ExGvStmt(Stmt);

/// The dot structure that `graphviz_rust::parse` gives for `text`, in the
/// library's plain form, or `None` where the text is not dot.
pub uninterp spec fn dot_parsed(text: Seq<char>) -> Option<DotGraph>;

/// A `graphviz_rust` identifier in the plain form, variant for variant.
#[verifier::external_body]
fn plain_id(id: &Id) -> DotId {
    match id {
        Id::Html(s) => DotId::Html(s.clone()),
        Id::Escaped(s) => DotId::Escaped(s.clone()),
        Id::Plain(s) => DotId::Plain(s.clone()),
        Id::Anonymous(s) => DotId::Anonymous(s.clone()),
    }
}

/// `graphviz_rust` attributes in the plain form, one for one.
#[verifier::external_body]
fn plain_attributes(attributes: &Vec<Attribute>) -> Vec<DotAttribute> {
    attributes.iter().map(|a| DotAttribute { key: plain_id(&a.0), value: plain_id(&a.1) }).collect()
}

/// A `graphviz_rust` node in the plain form: its id (without port) and its
/// attributes.
#[verifier::external_body]
fn plain_node(node: &GvNode) -> DotNode {
    DotNode { id: plain_id(&node.id.0), attributes: plain_attributes(&node.attributes) }
}

/// A `graphviz_rust` edge end in the plain form: a node's id, or the mark of
/// a subgraph.
#[verifier::external_body]
fn plain_vertex(vertex: &Vertex) -> DotVertex {
    match vertex {
        Vertex::N(NodeId(id, _)) => DotVertex::Node(plain_id(id)),
        Vertex::S(_) => DotVertex::Subgraph,
    }
}

/// `graphviz_rust` graph-wide attributes in the plain form, variant for
/// variant.
#[verifier::external_body]
fn plain_graph_attributes(attributes: &GraphAttributes) -> DotGraphAttributes {
    match attributes {
        GraphAttributes::Graph(v) => DotGraphAttributes::Graph(plain_attributes(v)),
        GraphAttributes::Node(v) => DotGraphAttributes::Node(plain_attributes(v)),
        GraphAttributes::Edge(v) => DotGraphAttributes::Edge(plain_attributes(v)),
    }
}

/// A `graphviz_rust` subgraph in the plain form: its id, and each statement
/// as a node or as the mark of another statement.
#[verifier::external_body]
fn plain_subgraph(subgraph: &Subgraph) -> DotSubgraph {
    let stmts = subgraph.stmts.iter().map(|s| match s {
        Stmt::Node(node) => DotSubgraphStmt::Node(plain_node(node)),
        _ => DotSubgraphStmt::Other,
    });
    DotSubgraph { id: plain_id(&subgraph.id), stmts: stmts.collect() }
}

/// A `graphviz_rust` statement in the plain form, variant for variant; of a
/// chain edge only the mark is kept.
#[verifier::external_body]
fn plain_stmt(stmt: &Stmt) -> DotStmt {
    match stmt {
        Stmt::Node(node) => DotStmt::Node(plain_node(node)),
        Stmt::Subgraph(subgraph) => DotStmt::Subgraph(plain_subgraph(subgraph)),
        Stmt::Attribute(a) => DotStmt::Attribute(DotAttribute { key: plain_id(&a.0), value: plain_id(&a.1) }),
        Stmt::GAttribute(a) => DotStmt::GraphAttributes(plain_graph_attributes(a)),
        Stmt::Edge(Edge { ty: EdgeTy::Pair(a, b), attributes }) => DotStmt::Edge(DotEdge {
            kind: DotEdgeKind::Pair(plain_vertex(a), plain_vertex(b)),
            attributes: plain_attributes(attributes),
        }),
        Stmt::Edge(Edge { ty: EdgeTy::Chain(_), attributes }) => {
            DotStmt::Edge(DotEdge { kind: DotEdgeKind::Chain, attributes: plain_attributes(attributes) })
        },
    }
}

/// Parses dot text with `graphviz_rust::parse` and gives the graph in the
/// plain form: directed or not, its id, strictness and statements. Claimed:
/// the result is `dot_parsed` of the text; nothing is claimed of what that
/// is.
#[verifier::external_body]
pub fn parse_dot(text: &str) -> (r: Option<DotGraph>)
    ensures
        r == dot_parsed(text@),
{
    let (id, strict, stmts, directed) = match graphviz_rust::parse(text).ok()? {
        graphviz_rust::dot_structures::Graph::Graph { id, strict, stmts } => (id, strict, stmts, false),
        graphviz_rust::dot_structures::Graph::DiGraph { id, strict, stmts } => (id, strict, stmts, true),
    };
    Some(DotGraph { id: plain_id(&id), strict, directed, stmts: stmts.iter().map(plain_stmt).collect() })
}

/// Why a graph file could not be read as a neuron graph.
#[derive(Debug, Clone, PartialEq, Eq)]
pub enum GraphFileError {
    /// The pattern that finds bare labels does not compile.
    LabelPattern,
    /// The text, labels quoted, is not dot.
    NotDot,
    /// An edge leads into a node of the graph from a node that is not in it,
    /// so the node it requires cannot be found.
    DanglingEdge,
    /// The dot graph is not a neuron graph.
    Graph(GraphError),
}

/// The kinds of `GraphFileError`, for the specification.
pub enum GraphFileErrorKind {
    LabelPattern,
    NotDot,
    DanglingEdge,
    Graph(GraphErrorKind),
}

/// The kind of a graph file error.
pub open spec fn file_error_kind(e: GraphFileError) -> GraphFileErrorKind {
    match e {
        GraphFileError::LabelPattern => GraphFileErrorKind::LabelPattern,
        GraphFileError::NotDot => GraphFileErrorKind::NotDot,
        GraphFileError::DanglingEdge => GraphFileErrorKind::DanglingEdge,
        GraphFileError::Graph(g) => GraphFileErrorKind::Graph(error_kind(g)),
    }
}

/// The text of a graph file with its bare labels quoted, where the pattern
/// compiles.
pub open spec fn quoted_file_text(text: Seq<char>) -> Option<Seq<char>> {
    regex_replaced(UNQUOTED_LABEL_PATTERN@, text, QUOTED_LABEL_REPLACEMENT@)
}

/// What reading a graph file gives: the subgraphs and edges of the dot graph
/// that its quoted text parses to, or the first step that fails.
pub open spec fn graph_file_outcome(text: Seq<char>) -> Result<
    (Seq<Seq<NodeTriple>>, Seq<(usize, usize)>),
    GraphFileErrorKind,
> {
    match quoted_file_text(text) {
        None => Err(GraphFileErrorKind::LabelPattern),
        Some(q) => match dot_parsed(q) {
            None => Err(GraphFileErrorKind::NotDot),
            Some(d) => match from_dot_spec(d) {
                Ok(read) => if dot_edges_resolve(d) {
                    Ok(read)
                } else {
                    Err(GraphFileErrorKind::DanglingEdge)
                },
                Err(kind) => Err(GraphFileErrorKind::Graph(kind)),
            },
        },
    }
}

/// Reads a neuron graph file: its bare labels are quoted, the text is parsed
/// as dot, and the dot graph is read as a neuron graph.
pub fn graph_from_file_text(text: &str) -> (r: Result<Graph, GraphFileError>)
    ensures
        match r {
            Ok(g) => graph_file_outcome(text@) matches Ok((subs, edges)) && graph_read_from(
                g,
                subs,
                edges,
            ),
            Err(e) => graph_file_outcome(text@) == Err::<
                (Seq<Seq<NodeTriple>>, Seq<(usize, usize)>),
                GraphFileErrorKind,
            >(file_error_kind(e)),
        },
{
    let quoted = match quote_graph_labels(text) {
        Some(q) => q,
        None => {
            return Err(GraphFileError::LabelPattern);
        },
    };
    let dot = match parse_dot(quoted.as_str()) {
        Some(d) => d,
        None => {
            return Err(GraphFileError::NotDot);
        },
    };
    if !edges_resolve_check(&dot) {
        return Err(GraphFileError::DanglingEdge);
    }
    match from_dot(&dot) {
        Ok(g) => Ok(g),
        Err(e) => Err(GraphFileError::Graph(e)),
    }
}

} // verus!
