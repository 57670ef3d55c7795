use deepdecipher::dot_file::{graph_from_file_text, parse_dot, GraphFileError};
use deepdecipher::payload::{Payload, Service, ServiceProvider};
use deepdecipher::model_table::{metadata_from_table, model_metadata_from_page, ModelTableError};
use deepdecipher::neuron2graph::{
    edges_resolve_check, from_dot, importance_to_color, is_well_formed, parse_hex_u8, quote_graph_labels,
    to_dot, DotAttribute, DotEdge, DotEdgeKind, DotGraph, DotId, DotNode, DotStmt, DotSubgraph,
    DotSubgraphStmt, DotVertex, Graph, GraphError, Node,
};
use deepdecipher::neuron_index::NeuronIndex;
use deepdecipher::neuron_page::{
    check_header_groups, check_neuron_page_header, is_blank, split_neuron_page, NeuronPageError,
};
use deepdecipher::neuron_viewer::NeuronId;
use deepdecipher::activations::Token;
use deepdecipher::pattern::{select_single_match, single_match, MatchError};

fn plain(s: &str) -> DotId {
    DotId::Plain(String::from(s))
}

fn attr(key: &str, value: DotId) -> DotAttribute {
    DotAttribute { key: plain(key), value }
}

fn node(id: &str, label: &str, fill: &str) -> DotSubgraphStmt {
    DotSubgraphStmt::Node(DotNode {
        id: plain(id),
        attributes: vec![
            attr("label", DotId::Escaped(format!("\"{label}\""))),
            attr("fillcolor", DotId::Escaped(String::from(fill))),
        ],
    })
}

fn edge(from: &str, to: &str, dir: Option<&str>) -> DotStmt {
    DotStmt::Edge(DotEdge {
        kind: DotEdgeKind::Pair(DotVertex::Node(plain(from)), DotVertex::Node(plain(to))),
        attributes: dir.map(|d| vec![attr("dir", plain(d))]).unwrap_or_default(),
    })
}

fn sample_graph() -> DotGraph {
    DotGraph {
        id: DotId::Anonymous(String::new()),
        strict: false,
        directed: true,
        stmts: vec![
            DotStmt::Subgraph(DotSubgraph {
                id: plain("cluster_0"),
                stmts: vec![node("1", "a", "\"#ff00ff\""), node("2", "b", "\"#ff80ff\"")],
            }),
            DotStmt::Subgraph(DotSubgraph { id: plain("cluster_1"), stmts: vec![node("3", "c", "\"#ffffff\"")] }),
            edge("1", "3", Some("back")),
            edge("2", "3", Some("back")),
        ],
    }
}

#[test]
fn dot_graph_reads_as_neuron_graph() {
    let dot = sample_graph();
    assert!(edges_resolve_check(&dot));
    let graph = from_dot(&dot).unwrap();
    assert_eq!(graph.subgraph_indices, vec![0, 2, 3]);
    let tokens: Vec<&str> = graph.graph.iter().map(|n| n.token.as_str()).collect();
    assert_eq!(tokens, vec!["\"a\"", "\"b\"", "\"c\""]);
    let shades: Vec<u8> = graph.graph.iter().map(|n| n.shade).collect();
    assert_eq!(shades, vec![0x00, 0x80, 0xff]);
    assert_eq!(graph.graph[0].required, vec![2]);
    assert_eq!(graph.graph[1].required, vec![2]);
    assert_eq!(graph.graph[2].required, Vec::<usize>::new());
    assert!(is_well_formed(&graph));
}

#[test]
fn dot_graph_errors() {
    let mut undirected = sample_graph();
    undirected.directed = false;
    assert_eq!(from_dot(&undirected).unwrap_err(), GraphError::NotDigraph);
    let mut no_dir = sample_graph();
    no_dir.stmts.push(edge("3", "1", None));
    assert_eq!(from_dot(&no_dir).unwrap_err(), GraphError::EdgeWithoutDirection(3, 1));
    let mut forward = sample_graph();
    forward.stmts.push(edge("3", "1", Some("forward")));
    assert_eq!(from_dot(&forward).unwrap_err(), GraphError::UnsupportedDirection(3, 1));
    let mut bad_cluster = sample_graph();
    bad_cluster.stmts.push(DotStmt::Subgraph(DotSubgraph { id: plain("layer_2"), stmts: vec![] }));
    assert_eq!(from_dot(&bad_cluster).unwrap_err(), GraphError::NotCluster(String::from("layer_2")));
    let mut dangling = sample_graph();
    dangling.stmts.push(edge("1", "9", Some("back")));
    assert!(!edges_resolve_check(&dangling));
}

#[test]
fn neuron_graph_writes_to_dot() {
    let graph = Graph {
        subgraph_indices: vec![0, 1, 2],
        graph: vec![
            Node { token: String::from("x"), required: vec![], shade: 0x10 },
            Node { token: String::from("y\""), required: vec![0], shade: 0xff },
        ],
    };
    assert!(is_well_formed(&graph));
    let dot = to_dot(&graph);
    assert!(dot.directed);
    let edges = dot.stmts.iter().filter(|s| matches!(s, DotStmt::Edge(_))).count();
    let subgraphs = dot.stmts.iter().filter(|s| matches!(s, DotStmt::Subgraph(_))).count();
    assert_eq!(edges, 1);
    assert_eq!(subgraphs, 2);
    let bad = Graph { subgraph_indices: vec![0, 3], graph: vec![] };
    assert!(!is_well_formed(&bad));
}

#[test]
fn node_colours() {
    assert_eq!(importance_to_color(0x1a, true), "\"#ff1a1a\"");
    assert_eq!(importance_to_color(0x1a, false), "\"#1a1aff\"");
    assert_eq!(parse_hex_u8("ff"), Some(255));
    assert_eq!(parse_hex_u8("0A"), Some(10));
    assert_eq!(parse_hex_u8("+a"), Some(10));
    assert_eq!(parse_hex_u8("g0"), None);
    assert_eq!(parse_hex_u8("100"), None);
}

#[test]
fn graph_labels_get_quoted() {
    let text = "1 [label=foo fillcolor=red]\n2 [label=\"bar\"]";
    assert_eq!(
        quote_graph_labels(text),
        Some(String::from("1 [label=\"foo\" fillcolor=red]\n2 [label=\"bar\"]"))
    );
}

#[test]
fn single_pattern_matches() {
    let groups = single_match(r"<b>(\d+)</b>", "x <b>12</b> y").unwrap();
    assert_eq!(groups, vec![Some(String::from("<b>12</b>")), Some(String::from("12"))]);
    assert_eq!(single_match(r"<b>(\d+)</b>", "none").unwrap_err(), MatchError::NotFound);
    assert_eq!(single_match(r"<b>(\d+)</b>", "<b>1</b><b>2</b>").unwrap_err(), MatchError::Multiple);
    assert_eq!(single_match(r"(", "x").unwrap_err(), MatchError::BadPattern);
    assert_eq!(select_single_match(vec![vec![None]]), Ok(vec![None]));
    assert_eq!(select_single_match(vec![]), Err(MatchError::NotFound));
}

const PAGE: &str = "<h2>Neuron 5596 in Layer 9 </h2>\n<hr> \n\t<hr>first text<hr>second text";

#[test]
fn neuron_page_is_cut_at_rules() {
    let (header, texts) = split_neuron_page(PAGE).unwrap();
    assert_eq!(header, "<h2>Neuron 5596 in Layer 9 </h2>\n");
    assert_eq!(texts, vec![String::from("first text"), String::from("second text")]);
    assert_eq!(split_neuron_page("no rules"), Err(NeuronPageError::MissingSecondRule));
    assert_eq!(split_neuron_page("a<hr>b<hr>c"), Err(NeuronPageError::GapNotEmpty));
    let (header, texts) = split_neuron_page("h<hr><hr>").unwrap();
    assert_eq!(header, "h");
    assert_eq!(texts, vec![String::new()]);
    assert!(is_blank(" \n\t\u{a0}"));
    assert!(!is_blank(" x "));
}

#[test]
fn neuron_page_header_names_the_neuron() {
    let (header, _) = split_neuron_page(PAGE).unwrap();
    let index = NeuronIndex { layer: 9, neuron: 5596 };
    assert_eq!(check_neuron_page_header(&header, index), Ok(()));
    assert_eq!(
        check_neuron_page_header(&header, NeuronIndex { layer: 9, neuron: 1 }),
        Err(NeuronPageError::OtherNeuron(index))
    );
    assert_eq!(
        check_neuron_page_header("<h2>Neuron</h2>", index),
        Err(NeuronPageError::Header(MatchError::NotFound))
    );
    let twice = format!("{header}{header}");
    assert_eq!(
        check_neuron_page_header(&twice, index),
        Err(NeuronPageError::Header(MatchError::Multiple))
    );
    assert_eq!(
        check_neuron_page_header("<h2>Neuron 1 in Layer 99999999999 </h2>", index),
        Err(NeuronPageError::BadLayer)
    );
    let groups = vec![None, Some(String::from("x")), Some(String::from("9"))];
    assert_eq!(check_header_groups(&groups, index), Err(NeuronPageError::BadNeuron));
    assert_eq!(check_header_groups(&vec![None, None], index), Err(NeuronPageError::MissingGroup));
}

const FRONT_PAGE: &str = "<html><body><table>\
<tr><th>Model</th><th>Link</th></tr>\
<tr><td><a href='/solu-1l'>solu-1l</a></td><td>x</td><td>solu</td><td>c4</td><td>1</td><td>2,048</td><td>2,048</td><td>3,145,728</td></tr>\
<tr><td><a href='/gelu-2l'>gelu-2l</a></td><td>x</td><td>gelu</td><td>pile</td><td>2</td><td>2,048</td><td>4,096</td><td>6,291,456</td></tr>\
</table></body></html>";

#[test]
fn model_metadata_from_front_page() {
    let metadata = model_metadata_from_page("gelu-2l", FRONT_PAGE).unwrap();
    assert_eq!(metadata.name, "gelu-2l");
    assert_eq!(metadata.activation_function, "gelu");
    assert_eq!(metadata.dataset, "pile");
    assert_eq!(metadata.num_layers, 2);
    assert_eq!(metadata.layer_size, 2048);
    assert_eq!(metadata.num_total_neurons, 4096);
    assert_eq!(metadata.num_total_parameters, 6_291_456);
    assert_eq!(model_metadata_from_page("gpt2", FRONT_PAGE).unwrap_err(), ModelTableError::UnknownModel);
}

fn cells(texts: &[&str]) -> Vec<Option<String>> {
    texts.iter().map(|t| Some(String::from(*t))).collect()
}

#[test]
fn model_table_errors() {
    let names = cells(&["a", "b"]);
    let head = cells(&["Model"]);
    let row_a = cells(&["a", "x", "relu", "data", "1", "10", "10", "1,000"]);
    let rows = vec![head.clone(), row_a.clone()];
    let metadata = metadata_from_table("a", &names, &rows).unwrap();
    assert_eq!(metadata.num_total_parameters, 1000);
    assert_eq!(metadata_from_table("b", &names, &rows).unwrap_err(), ModelTableError::MissingRow);
    let names_gap = vec![None, Some(String::from("a"))];
    assert_eq!(metadata_from_table("a", &names_gap, &rows).unwrap_err(), ModelTableError::MissingName);
    let short = vec![head.clone(), cells(&["a", "x", "relu"])];
    assert_eq!(metadata_from_table("a", &names, &short).unwrap_err(), ModelTableError::TooFewCells);
    let mut hole = row_a.clone();
    hole[1] = None;
    assert_eq!(
        metadata_from_table("a", &names, &vec![head.clone(), hole]).unwrap_err(),
        ModelTableError::MissingCellText
    );
    let bad = vec![head, cells(&["a", "x", "relu", "data", "1", "ten", "10", "1"])];
    assert_eq!(metadata_from_table("a", &names, &bad).unwrap_err(), ModelTableError::BadNumber(5));
}

#[test]
fn viewer_records() {
    assert_eq!(NeuronId::from_indices(3, 7), NeuronId { layer_index: 3, neuron_index: 7 });
    assert_eq!(
        NeuronId::from_indices(u64::from(u32::MAX) + 2, 1),
        NeuronId { layer_index: 1, neuron_index: 1 }
    );
    assert_eq!(Token::new(String::from(" the")).value(), " the");
}

#[test]
fn written_page_cuts_back_into_header_and_texts() {
    let header = "<h2>Neuron 1 in Layer 0 </h2>";
    let gap = "\n  ";
    let texts = ["<h4>one</h4>", "", "<h4>three</h4>"];
    let page = format!("{header}<hr>{gap}<hr>{}", texts.join("<hr>"));
    let (read_header, read_texts) = split_neuron_page(&page).unwrap();
    assert_eq!(read_header, header);
    assert_eq!(read_texts, texts.iter().map(|t| t.to_string()).collect::<Vec<_>>());
}

#[test]
fn graph_files_are_read_as_neuron_graphs() {
    let text = "digraph {\n subgraph cluster_0 { 1 [label=a fillcolor=\"#ff00ff\"] }\n subgraph cluster_1 { 2 [label=\"b\" fillcolor=\"#ffffff\"] }\n 1 -> 2 [dir=back]\n}";
    let graph = graph_from_file_text(text).unwrap();
    assert_eq!(graph.subgraph_indices, vec![0, 1, 2]);
    assert_eq!(graph.graph.len(), 2);
    assert_eq!(graph.graph[0].required, vec![1]);
    assert_eq!(graph.graph[1].required, Vec::<usize>::new());
    assert!(parse_dot(text).unwrap().directed);
    assert!(parse_dot("digraph {").is_none());
    assert_eq!(graph_from_file_text("digraph {").unwrap_err(), GraphFileError::NotDot);
    let dangling = "digraph { subgraph cluster_0 { 1 [label=a fillcolor=\"#ff00ff\"] } 1 -> 9 [dir=back] }";
    assert_eq!(graph_from_file_text(dangling).unwrap_err(), GraphFileError::DanglingEdge);
    let undirected = "graph { subgraph cluster_0 { 1 [label=a fillcolor=\"#ff00ff\"] } }";
    assert_eq!(graph_from_file_text(undirected).unwrap_err(), GraphFileError::Graph(GraphError::NotDigraph));
}

#[test]
fn payload_count_grows_by_accepted_services() {
    let mut payload = Payload::initialize();
    let _ = payload.add_service(Service::new(String::from("a"), ServiceProvider::Neuroscope));
    let _ = payload.add_service(Service::new(String::from("a"), ServiceProvider::Neuron2Graph));
    let _ = payload.add_service(Service::new(String::from("metadata"), ServiceProvider::Neuroscope));
    let _ = payload.add_service(Service::new(String::from("b"), ServiceProvider::Neuron2Graph));
    assert_eq!(payload.services().len(), 3);
    assert_eq!(payload.service("a").unwrap().provider(), ServiceProvider::Neuroscope);
    assert_eq!(payload.service("metadata").unwrap().provider(), ServiceProvider::Metadata);
}
