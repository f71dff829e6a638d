use pipeline_graph::model::{
    extract, Component, Config, Edge, Element, InputRef, Node, NodeKind,
};

fn node(id: &str, kind: NodeKind) -> Node {
    Node { id: id.to_string(), kind }
}

fn edge(from: &str, to: &str, label: Option<&str>) -> Edge {
    Edge { from: from.to_string(), to: to.to_string(), label: label.map(|l| l.to_string()) }
}

fn sample() -> Config {
    Config {
        sources: vec!["in".to_string(), "aux".to_string()],
        transforms: vec![
            Component {
                id: "route".to_string(),
                inputs: vec![
                    InputRef { component: "in".to_string(), port: None },
                    InputRef { component: "aux".to_string(), port: None },
                ],
            },
            Component {
                id: "parse".to_string(),
                inputs: vec![InputRef {
                    component: "route".to_string(),
                    port: Some("errors".to_string()),
                }],
            },
        ],
        sinks: vec![Component {
            id: "out".to_string(),
            inputs: vec![
                InputRef { component: "parse".to_string(), port: None },
                InputRef { component: "route".to_string(), port: Some("a".to_string()) },
            ],
        }],
    }
}

#[test]
fn extract_emits_each_node_then_its_edges() {
    let graph = extract(&sample());
    assert_eq!(
        graph.elements,
        vec![
            Element::Node(node("in", NodeKind::Source)),
            Element::Node(node("aux", NodeKind::Source)),
            Element::Node(node("route", NodeKind::Transform)),
            Element::Edge(edge("in", "route", None)),
            Element::Edge(edge("aux", "route", None)),
            Element::Node(node("parse", NodeKind::Transform)),
            Element::Edge(edge("route", "parse", Some("errors"))),
            Element::Node(node("out", NodeKind::Sink)),
            Element::Edge(edge("parse", "out", None)),
            Element::Edge(edge("route", "out", Some("a"))),
        ]
    );
}

#[test]
fn extract_of_nothing_is_empty() {
    let graph = extract(&Config { sources: vec![], transforms: vec![], sinks: vec![] });
    assert!(graph.elements.is_empty());
    assert!(graph.nodes().is_empty());
    assert!(graph.edges().is_empty());
}

#[test]
fn nodes_are_the_declared_components_in_order() {
    let graph = extract(&sample());
    assert_eq!(
        graph.nodes(),
        vec![
            node("in", NodeKind::Source),
            node("aux", NodeKind::Source),
            node("route", NodeKind::Transform),
            node("parse", NodeKind::Transform),
            node("out", NodeKind::Sink),
        ]
    );
}

#[test]
fn edges_are_the_declared_inputs_grouped_by_target() {
    let graph = extract(&sample());
    assert_eq!(
        graph.edges(),
        vec![
            edge("in", "route", None),
            edge("aux", "route", None),
            edge("route", "parse", Some("errors")),
            edge("parse", "out", None),
            edge("route", "out", Some("a")),
        ]
    );
}

#[test]
fn sources_alone_extract_to_nodes_only() {
    let config = Config {
        sources: vec!["a".to_string(), "b".to_string()],
        transforms: vec![],
        sinks: vec![],
    };
    let graph = extract(&config);
    assert_eq!(graph.nodes(), vec![node("a", NodeKind::Source), node("b", NodeKind::Source)]);
    assert_eq!(graph.edges(), Vec::<Edge>::new());
    assert_eq!(graph.elements.len(), 2);
}

#[test]
fn every_edge_end_is_one_node_in_a_well_formed_configuration() {
    let graph = extract(&sample());
    let nodes = graph.nodes();
    let edges = graph.edges();
    assert_eq!(edges.len(), 5);
    for e in edges.iter() {
        assert_eq!(nodes.iter().filter(|n| n.id == e.from).count(), 1);
        assert_eq!(nodes.iter().filter(|n| n.id == e.to).count(), 1);
    }
}

#[test]
fn colliding_identifiers_stay_separate_nodes() {
    let config = Config {
        sources: vec!["x".to_string()],
        transforms: vec![Component { id: "x".to_string(), inputs: vec![] }],
        sinks: vec![],
    };
    let graph = extract(&config);
    assert_eq!(graph.nodes(), vec![node("x", NodeKind::Source), node("x", NodeKind::Transform)]);
}

#[test]
fn extraction_leaves_the_configuration_as_it_was() {
    let config = sample();
    let before = config.clone();
    let _ = extract(&config);
    assert_eq!(config, before);
}
