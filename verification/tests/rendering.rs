use pipeline_graph::model::{extract, Component, Config, InputRef};
use pipeline_graph::render::{graphviz_graph, mermaid_graph, render, OutputFormat};

fn input(component: &str, port: Option<&str>) -> InputRef {
    InputRef { component: component.to_string(), port: port.map(|p| p.to_string()) }
}

fn component(id: &str, inputs: Vec<InputRef>) -> Component {
    Component { id: id.to_string(), inputs }
}

fn routed() -> Config {
    Config {
        sources: vec!["in".to_string()],
        transforms: vec![component("route", vec![input("in", None)])],
        sinks: vec![component("out", vec![input("route", Some("a"))])],
    }
}

fn lines(text: &str) -> Vec<String> {
    text.lines().map(|l| l.to_string()).collect()
}

#[test]
fn routed_pipeline_as_dot() {
    let dot = graphviz_graph(routed());
    assert_eq!(
        dot,
        "digraph {\n  \"in\" [shape=trapezium]\n  \"route\" [shape=diamond]\n  \"in\" -> \"route\"\n  \"out\" [shape=invtrapezium]\n  \"route\" -> \"out\" [label=\"a\"]\n}"
    );
}

#[test]
fn routed_pipeline_as_mermaid() {
    let mm = mermaid_graph(routed());
    assert_eq!(
        mm,
        "flowchart TD\n  in[/in\\]\n  route[{ route }]\n  in-->route\n  out[\\ out /]\n  route--a-->out\n"
    );
}

#[test]
fn routed_pipeline_dot_holds_each_statement() {
    let dot = graphviz_graph(routed());
    assert!(dot.contains("\"in\" [shape=trapezium]"));
    assert!(dot.contains("\"route\" [shape=diamond]"));
    assert!(dot.contains("\"in\" -> \"route\""));
    assert!(dot.contains("\"out\" [shape=invtrapezium]"));
    assert!(dot.contains("\"route\" -> \"out\" [label=\"a\"]"));
}

#[test]
fn routed_pipeline_mermaid_holds_each_statement() {
    let mm = mermaid_graph(routed());
    assert!(mm.contains("in[/in\\]"));
    assert!(mm.contains("route[{ route }]"));
    assert!(mm.contains("in-->route"));
    assert!(mm.contains("out[\\ out /]"));
    assert!(mm.contains("route--a-->out"));
}

#[test]
fn empty_configuration_is_a_bare_frame() {
    let empty = Config { sources: vec![], transforms: vec![], sinks: vec![] };
    assert_eq!(graphviz_graph(empty.clone()), "digraph {\n}");
    assert_eq!(mermaid_graph(empty), "flowchart TD\n");
}

#[test]
fn sources_alone_give_nodes_and_no_edges() {
    let config = Config {
        sources: vec!["stdin".to_string(), "file".to_string(), "syslog".to_string()],
        transforms: vec![],
        sinks: vec![],
    };
    let dot = graphviz_graph(config);
    assert_eq!(
        dot,
        "digraph {\n  \"stdin\" [shape=trapezium]\n  \"file\" [shape=trapezium]\n  \"syslog\" [shape=trapezium]\n}"
    );
    assert_eq!(dot.matches("[shape=trapezium]").count(), 3);
    assert!(!dot.contains("->"));
}

#[test]
fn port_becomes_the_label_in_both_dialects() {
    let config = Config {
        sources: vec!["upstream".to_string()],
        transforms: vec![],
        sinks: vec![component("down", vec![input("upstream", Some("branch"))])],
    };
    let dot = graphviz_graph(config.clone());
    let mm = mermaid_graph(config);
    assert_eq!(lines(&dot)[3], "  \"upstream\" -> \"down\" [label=\"branch\"]");
    assert_eq!(lines(&mm)[3], "  upstream--branch-->down");
}

#[test]
fn input_without_port_has_no_label() {
    let config = Config {
        sources: vec!["upstream".to_string()],
        transforms: vec![],
        sinks: vec![component("down", vec![input("upstream", None)])],
    };
    let dot = graphviz_graph(config.clone());
    let mm = mermaid_graph(config);
    assert_eq!(lines(&dot)[3], "  \"upstream\" -> \"down\"");
    assert_eq!(lines(&mm)[3], "  upstream-->down");
    assert!(!dot.contains("label"));
    assert!(!mm.contains("--upstream"));
}

#[test]
fn nodes_come_in_declaration_order() {
    let config = Config {
        sources: vec!["a".to_string()],
        transforms: vec![component("b", vec![input("a", None)])],
        sinks: vec![component("c", vec![input("b", None)])],
    };
    let dot = graphviz_graph(config.clone());
    let a = dot.find("\"a\" [shape=").unwrap();
    let b = dot.find("\"b\" [shape=").unwrap();
    let c = dot.find("\"c\" [shape=").unwrap();
    assert!(a < b && b < c);
    let mm = mermaid_graph(config);
    let a = mm.find("a[/a\\]").unwrap();
    let b = mm.find("b[{ b }]").unwrap();
    let c = mm.find("c[\\ c /]").unwrap();
    assert!(a < b && b < c);
}

#[test]
fn declaration_order_is_kept_not_sorted() {
    let config = Config {
        sources: vec!["zeta".to_string(), "alpha".to_string()],
        transforms: vec![
            component("mid", vec![input("zeta", None)]),
            component("beta", vec![input("alpha", None)]),
        ],
        sinks: vec![],
    };
    assert_eq!(
        mermaid_graph(config),
        "flowchart TD\n  zeta[/zeta\\]\n  alpha[/alpha\\]\n  mid[{ mid }]\n  zeta-->mid\n  beta[{ beta }]\n  alpha-->beta\n"
    );
}

#[test]
fn edges_follow_their_target_in_input_order() {
    let config = Config {
        sources: vec!["s1".to_string(), "s2".to_string()],
        transforms: vec![component(
            "join",
            vec![input("s2", None), input("s1", Some("x")), input("s1", None)],
        )],
        sinks: vec![component("sink", vec![input("join", None), input("s2", Some("y"))])],
    };
    assert_eq!(
        graphviz_graph(config),
        "digraph {\n  \"s1\" [shape=trapezium]\n  \"s2\" [shape=trapezium]\n  \"join\" [shape=diamond]\n  \"s2\" -> \"join\"\n  \"s1\" -> \"join\" [label=\"x\"]\n  \"s1\" -> \"join\"\n  \"sink\" [shape=invtrapezium]\n  \"join\" -> \"sink\"\n  \"s2\" -> \"sink\" [label=\"y\"]\n}"
    );
}

#[test]
fn rendering_twice_gives_the_same_bytes() {
    let graph = extract(&routed());
    assert_eq!(render(&graph, OutputFormat::Dot), render(&graph, OutputFormat::Dot));
    assert_eq!(render(&graph, OutputFormat::Mermaid), render(&graph, OutputFormat::Mermaid));
    assert_eq!(graphviz_graph(routed()).as_bytes(), graphviz_graph(routed()).as_bytes());
}

#[test]
fn entry_points_render_the_extracted_graph() {
    let graph = extract(&routed());
    assert_eq!(graphviz_graph(routed()), render(&graph, OutputFormat::Dot));
    assert_eq!(mermaid_graph(routed()), render(&graph, OutputFormat::Mermaid));
}

#[test]
fn both_dialects_state_the_same_nodes_and_edges() {
    let config = Config {
        sources: vec!["in".to_string(), "aux".to_string()],
        transforms: vec![component("route", vec![input("in", None), input("aux", None)])],
        sinks: vec![component("out", vec![input("route", Some("a"))])],
    };
    let dot = lines(&graphviz_graph(config.clone()));
    let mm = lines(&mermaid_graph(config.clone()));
    let graph = extract(&config);
    // header and one line per element; DOT adds its closing brace
    assert_eq!(dot.len(), graph.elements.len() + 2);
    assert_eq!(mm.len(), graph.elements.len() + 1);
    let dot_nodes: Vec<String> = dot
        .iter()
        .filter(|l| l.contains("[shape="))
        .map(|l| l.split('"').nth(1).unwrap().to_string())
        .collect();
    let mm_nodes: Vec<String> = mm
        .iter()
        .filter(|l| l.contains('['))
        .map(|l| l.trim_start().split('[').next().unwrap().to_string())
        .collect();
    assert_eq!(dot_nodes, vec!["in", "aux", "route", "out"]);
    assert_eq!(dot_nodes, mm_nodes);
    let dot_edges: Vec<(String, String)> = dot
        .iter()
        .filter(|l| l.contains(" -> "))
        .map(|l| {
            let parts: Vec<&str> = l.split('"').collect();
            (parts[1].to_string(), parts[3].to_string())
        })
        .collect();
    let mm_edges: Vec<(String, String)> = mm
        .iter()
        .filter(|l| l.contains("-->"))
        .map(|l| {
            let l = l.trim_start();
            let from = l.split("--").next().unwrap().to_string();
            let to = l.rsplit("-->").next().unwrap().to_string();
            (from, to)
        })
        .collect();
    assert_eq!(dot_edges.len(), 3);
    assert_eq!(dot_edges, mm_edges);
}

#[test]
fn delimiters_in_names_pass_through_unescaped() {
    let config = Config {
        sources: vec!["a\"b".to_string()],
        transforms: vec![],
        sinks: vec![component("x[y", vec![input("a\"b", Some("p\\q"))])],
    };
    assert_eq!(
        graphviz_graph(config.clone()),
        "digraph {\n  \"a\"b\" [shape=trapezium]\n  \"x[y\" [shape=invtrapezium]\n  \"a\"b\" -> \"x[y\" [label=\"p\\q\"]\n}"
    );
    assert_eq!(
        mermaid_graph(config),
        "flowchart TD\n  a\"b[/a\"b\\]\n  x[y[\\ x[y /]\n  a\"b--p\\q-->x[y\n"
    );
}

#[test]
fn colliding_identifiers_are_not_merged() {
    let config = Config {
        sources: vec!["same".to_string()],
        transforms: vec![component("same", vec![input("same", None)])],
        sinks: vec![component("same", vec![])],
    };
    assert_eq!(
        graphviz_graph(config),
        "digraph {\n  \"same\" [shape=trapezium]\n  \"same\" [shape=diamond]\n  \"same\" -> \"same\"\n  \"same\" [shape=invtrapezium]\n}"
    );
}

#[test]
fn dangling_reference_is_rendered_as_declared() {
    let config = Config {
        sources: vec![],
        transforms: vec![],
        sinks: vec![component("out", vec![input("nowhere", None)])],
    };
    assert_eq!(mermaid_graph(config), "flowchart TD\n  out[\\ out /]\n  nowhere-->out\n");
}

#[test]
fn non_ascii_names_are_kept() {
    let config = Config {
        sources: vec!["quelle_ä".to_string()],
        transforms: vec![],
        sinks: vec![component("ziel", vec![input("quelle_ä", Some("π"))])],
    };
    assert_eq!(
        graphviz_graph(config),
        "digraph {\n  \"quelle_ä\" [shape=trapezium]\n  \"ziel\" [shape=invtrapezium]\n  \"quelle_ä\" -> \"ziel\" [label=\"π\"]\n}"
    );
}

#[test]
fn plain_names_keep_graphs_apart() {
    let with_port = Config {
        sources: vec!["in".to_string()],
        transforms: vec![],
        sinks: vec![component("out", vec![input("in", Some("a"))])],
    };
    let without_port = Config {
        sources: vec!["in".to_string()],
        transforms: vec![],
        sinks: vec![component("out", vec![input("in", None)])],
    };
    let as_transform = Config {
        sources: vec!["in".to_string()],
        transforms: vec![component("out", vec![input("in", None)])],
        sinks: vec![],
    };
    assert_ne!(graphviz_graph(with_port.clone()), graphviz_graph(without_port.clone()));
    assert_ne!(mermaid_graph(with_port), mermaid_graph(without_port.clone()));
    assert_ne!(graphviz_graph(without_port.clone()), graphviz_graph(as_transform.clone()));
    assert_ne!(mermaid_graph(without_port), mermaid_graph(as_transform));
}

#[test]
fn a_dash_in_a_name_can_make_two_graphs_look_alike_in_mermaid() {
    let port_in_arrow = Config {
        sources: vec![],
        transforms: vec![],
        sinks: vec![component("c", vec![input("a", Some(">b"))])],
    };
    let dash_in_target = Config {
        sources: vec![],
        transforms: vec![],
        sinks: vec![component("b-->c", vec![input("a", None)])],
    };
    let first = mermaid_graph(port_in_arrow.clone());
    let second = mermaid_graph(dash_in_target.clone());
    assert_eq!(lines(&first)[2], "  a-->b-->c");
    assert_eq!(lines(&first)[2], lines(&second)[2]);
    assert_ne!(lines(&graphviz_graph(port_in_arrow))[2], lines(&graphviz_graph(dash_in_target))[2]);
}

#[test]
fn a_quote_in_a_port_reads_as_a_second_attribute_in_dot() {
    let quoted_port = Config {
        sources: vec![],
        transforms: vec![],
        sinks: vec![component("t", vec![input("f", Some("x\"] [color=\"red"))])],
    };
    let dot = graphviz_graph(quoted_port);
    assert_eq!(lines(&dot)[2], "  \"f\" -> \"t\" [label=\"x\"] [color=\"red\"]");
}
