//! The format renderers: one traversal of a graph, and for each dialect the
//! text of a node statement and of an edge statement.
//!
//! Identifiers and port names are written as they are. Nothing is escaped, so
//! a name that holds a delimiter of the chosen dialect (a double quote in DOT;
//! a bracket, a dash or a line break in Mermaid) yields text that the dialect's
//! own tools may reject.

use vstd::prelude::*;
use vstd::string::*;
use crate::model::{
    Config, Edge, EdgeView, Element, ElementView, Graph, Node, NodeKind, NodeView, extract,
    extract_spec,
};

verus! {

/// The output dialects.
#[derive(Clone, Copy, Debug, PartialEq, Eq, Structural)]
pub enum OutputFormat {
    /// A Graphviz `digraph`.
    Dot,
    /// A Mermaid `flowchart TD`.
    Mermaid,
}

/// The Graphviz shape that stands for a kind of node.
pub open spec fn dot_shape(kind: NodeKind) -> Seq<char> {
    match kind {
        NodeKind::Source => "trapezium"@,
        NodeKind::Transform => "diamond"@,
        NodeKind::Sink => "invtrapezium"@,
    }
}

/// The line of a node in DOT: the quoted identifier and its shape attribute.
pub open spec fn dot_node_line(n: NodeView) -> Seq<char> {
    "  \""@ + n.id + "\" [shape="@ + dot_shape(n.kind) + "]"@
}

/// The line of an edge in DOT: quoted source, arrow, quoted target, and the
/// port as a `label` attribute where there is one.
pub open spec fn dot_edge_line(e: EdgeView) -> Seq<char> {
    match e.label {
        Some(port) => "  \""@ + e.from + "\" -> \""@ + e.to + "\" [label=\""@ + port + "\"]"@,
        None => "  \""@ + e.from + "\" -> \""@ + e.to + "\""@,
    }
}

/// The line of a node in Mermaid: the identifier, then the identifier again
/// as the visible label inside the brackets that stand for the kind.
pub open spec fn mermaid_node_line(n: NodeView) -> Seq<char> {
    match n.kind {
        NodeKind::Source => "  "@ + n.id + "[/"@ + n.id + "\\]"@,
        NodeKind::Transform => "  "@ + n.id + "[{ "@ + n.id + " }]"@,
        NodeKind::Sink => "  "@ + n.id + "[\\ "@ + n.id + " /]"@,
    }
}

/// The line of an edge in Mermaid: source, arrow, target, with the port
/// written into the arrow where there is one.
pub open spec fn mermaid_edge_line(e: EdgeView) -> Seq<char> {
    match e.label {
        Some(port) => "  "@ + e.from + "--"@ + port + "-->"@ + e.to,
        None => "  "@ + e.from + "-->"@ + e.to,
    }
}

/// The line that opens a document.
pub open spec fn header(format: OutputFormat) -> Seq<char> {
    match format {
        OutputFormat::Dot => "digraph {\n"@,
        OutputFormat::Mermaid => "flowchart TD\n"@,
    }
}

/// What closes a document: DOT closes the graph body, Mermaid has nothing.
pub open spec fn footer(format: OutputFormat) -> Seq<char> {
    match format {
        OutputFormat::Dot => "}"@,
        OutputFormat::Mermaid => Seq::empty(),
    }
}

/// The line that one element becomes, without its line break.
pub open spec fn line(format: OutputFormat, e: ElementView) -> Seq<char> {
    match (format, e) {
        (OutputFormat::Dot, ElementView::Node(n)) => dot_node_line(n),
        (OutputFormat::Dot, ElementView::Edge(e)) => dot_edge_line(e),
        (OutputFormat::Mermaid, ElementView::Node(n)) => mermaid_node_line(n),
        (OutputFormat::Mermaid, ElementView::Edge(e)) => mermaid_edge_line(e),
    }
}

/// The statement of one element: its line and the line break that ends it.
pub open spec fn statement(format: OutputFormat, e: ElementView) -> Seq<char> {
    line(format, e) + "\n"@
}

/// The statements of a graph, one after the other in emission order.
pub open spec fn body(format: OutputFormat, graph: Seq<ElementView>) -> Seq<char> {
    graph.flat_map(|e: ElementView| statement(format, e))
}

/// The whole document: header, one statement per element, footer.
pub open spec fn document(format: OutputFormat, graph: Seq<ElementView>) -> Seq<char> {
    header(format) + body(format, graph) + footer(format)
}

/// Where in the document the statement of element `k` begins: after the
/// header and the statements of the elements before it.
pub open spec fn statement_start(format: OutputFormat, graph: Seq<ElementView>, k: int) -> int {
    (header(format).len() + body(format, graph.take(k)).len()) as int
}

fn push_dot_node(out: &mut String, node: &Node)
    ensures
        final(out)@ == old(out)@ + dot_node_line(node@),
{
    out.append("  \"");
    out.append(node.id.as_str());
    out.append("\" [shape=");
    match node.kind {
        NodeKind::Source => out.append("trapezium"),
        NodeKind::Transform => out.append("diamond"),
        NodeKind::Sink => out.append("invtrapezium"),
    }
    out.append("]");
}

fn push_dot_edge(out: &mut String, edge: &Edge)
    ensures
        final(out)@ == old(out)@ + dot_edge_line(edge@),
{
    out.append("  \"");
    out.append(edge.from.as_str());
    out.append("\" -> \"");
    out.append(edge.to.as_str());
    match &edge.label {
        Some(port) => {
            out.append("\" [label=\"");
            out.append(port.as_str());
            out.append("\"]");
        },
        None => {
            out.append("\"");
        },
    }
}

fn push_mermaid_node(out: &mut String, node: &Node)
    ensures
        final(out)@ == old(out)@ + mermaid_node_line(node@),
{
    out.append("  ");
    out.append(node.id.as_str());
    match node.kind {
        NodeKind::Source => {
            out.append("[/");
            out.append(node.id.as_str());
            out.append("\\]");
        },
        NodeKind::Transform => {
            out.append("[{ ");
            out.append(node.id.as_str());
            out.append(" }]");
        },
        NodeKind::Sink => {
            out.append("[\\ ");
            out.append(node.id.as_str());
            out.append(" /]");
        },
    }
}

fn push_mermaid_edge(out: &mut String, edge: &Edge)
    ensures
        final(out)@ == old(out)@ + mermaid_edge_line(edge@),
{
    out.append("  ");
    out.append(edge.from.as_str());
    match &edge.label {
        Some(port) => {
            out.append("--");
            out.append(port.as_str());
            out.append("-->");
        },
        None => {
            out.append("-->");
        },
    }
    out.append(edge.to.as_str());
}

/// Appends the statement of one element in the given dialect.
fn push_statement(out: &mut String, format: OutputFormat, element: &Element)
    ensures
        final(out)@ == old(out)@ + statement(format, element@),
{
    match (format, element) {
        (OutputFormat::Dot, Element::Node(n)) => push_dot_node(out, n),
        (OutputFormat::Dot, Element::Edge(e)) => push_dot_edge(out, e),
        (OutputFormat::Mermaid, Element::Node(n)) => push_mermaid_node(out, n),
        (OutputFormat::Mermaid, Element::Edge(e)) => push_mermaid_edge(out, e),
    }
    out.append("\n");
}

/// Renders a graph in the given dialect.
///
/// The text is the dialect's header line, then one statement per element of
/// the graph in emission order, each on a line of its own, then the dialect's
/// footer.
pub fn render(graph: &Graph, format: OutputFormat) -> (text: String)
    ensures
        text@ == document(format, graph@),
{
    let mut out = match format {
        OutputFormat::Dot => String::from_str("digraph {\n"),
        OutputFormat::Mermaid => String::from_str("flowchart TD\n"),
    };
    let mut i: usize = 0;
    while i < graph.elements.len()
        invariant
            i <= graph.elements.len(),
            out@ == header(format) + body(format, graph@.take(i as int)),
        decreases graph.elements.len() - i,
    {
        push_statement(&mut out, format, &graph.elements[i]);
        proof {
            graph@.lemma_flat_map_take_append(|e: ElementView| statement(format, e), i as int);
        }
        i += 1;
    }
    assert(graph@.take(i as int) == graph@);
    match format {
        OutputFormat::Dot => out.append("}"),
        OutputFormat::Mermaid => {},
    }
    out
}

/// Renders the topology of a configuration as a Graphviz `digraph`.
///
/// A source is a `trapezium`, a transform a `diamond`, a sink an
/// `invtrapezium`; an edge from a named port carries the port as its `label`.
/// The text ends with the closing brace, without a line break after it.
pub fn graphviz_graph(config: Config) -> (dot: String)
    ensures
        dot@ == document(OutputFormat::Dot, extract_spec(config@)),
{
    let graph = extract(&config);
    render(&graph, OutputFormat::Dot)
}

/// Renders the topology of a configuration as a Mermaid `flowchart TD`.
///
/// A source is written `id[/id\]`, a transform `id[{ id }]`, a sink
/// `id[\ id /]`; an edge is `from-->to`, or `from--port-->to` where the input
/// names a port. Every line, the last one too, ends with a line break.
pub fn mermaid_graph(config: Config) -> (mm: String)
    ensures
        mm@ == document(OutputFormat::Mermaid, extract_spec(config@)),
{
    let graph = extract(&config);
    render(&graph, OutputFormat::Mermaid)
}

} // verus!
