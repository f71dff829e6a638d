use pipeline_graph::dispatch::{render_named, GraphError};
use pipeline_graph::model::{Component, Config, InputRef};
use pipeline_graph::render::{graphviz_graph, mermaid_graph, OutputFormat};

fn routed() -> Config {
    Config {
        sources: vec!["in".to_string()],
        transforms: vec![Component {
            id: "route".to_string(),
            inputs: vec![InputRef { component: "in".to_string(), port: None }],
        }],
        sinks: vec![Component {
            id: "out".to_string(),
            inputs: vec![InputRef { component: "route".to_string(), port: Some("a".to_string()) }],
        }],
    }
}

#[test]
fn dot_selects_graphviz() {
    assert_eq!(render_named("dot", routed()), Ok(graphviz_graph(routed())));
}

#[test]
fn mermaid_selects_mermaid() {
    assert_eq!(render_named("mermaid", routed()), Ok(mermaid_graph(routed())));
}

#[test]
fn the_two_formats_differ_in_text() {
    let dot = render_named("dot", routed()).unwrap();
    let mm = render_named("mermaid", routed()).unwrap();
    assert!(dot.starts_with("digraph {\n"));
    assert!(mm.starts_with("flowchart TD\n"));
    assert_ne!(dot, mm);
}

#[test]
fn unknown_format_is_an_error_not_an_empty_document() {
    assert_eq!(
        render_named("svg", routed()),
        Err(GraphError::UnsupportedFormat { name: "svg".to_string() })
    );
}

#[test]
fn empty_format_name_is_an_error() {
    assert_eq!(
        render_named("", routed()),
        Err(GraphError::UnsupportedFormat { name: String::new() })
    );
}

#[test]
fn format_names_are_matched_exactly() {
    assert!(render_named("DOT", routed()).is_err());
    assert!(render_named("dot ", routed()).is_err());
    assert!(render_named("Mermaid", routed()).is_err());
    assert!(render_named("mermaid\n", routed()).is_err());
    assert!(render_named("do", routed()).is_err());
}

#[test]
fn from_name_knows_both_formats() {
    assert_eq!(OutputFormat::from_name("dot"), Ok(OutputFormat::Dot));
    assert_eq!(OutputFormat::from_name("mermaid"), Ok(OutputFormat::Mermaid));
    assert_eq!(
        OutputFormat::from_name("graphml"),
        Err(GraphError::UnsupportedFormat { name: "graphml".to_string() })
    );
}

#[test]
fn name_and_from_name_agree() {
    assert_eq!(OutputFormat::Dot.name(), "dot");
    assert_eq!(OutputFormat::Mermaid.name(), "mermaid");
    assert_eq!(OutputFormat::from_name(OutputFormat::Dot.name()), Ok(OutputFormat::Dot));
    assert_eq!(OutputFormat::from_name(OutputFormat::Mermaid.name()), Ok(OutputFormat::Mermaid));
}

#[test]
fn default_format_is_dot() {
    assert_eq!(OutputFormat::default(), OutputFormat::Dot);
}

#[test]
fn error_message_names_the_format() {
    let e = GraphError::UnsupportedFormat { name: "svg".to_string() };
    assert_eq!(e.message(), "unsupported output format: svg");
}
