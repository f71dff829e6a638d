//! What holds of every configuration, proved from the models of the
//! extractor and of the renderers.

use vstd::prelude::*;
use vstd::seq_lib::*;
use crate::model::{
    ComponentView, ConfigView, EdgeView, ElementView, Graph, InputRefView, NodeKind, NodeView,
    component_edges, component_elements, component_position, components_of, declared_before,
    declared_edges, declared_nodes, declared_once, edge_element, edges_of, extract_spec,
    identifiers, input_edge, input_edges, inputs_resolve, node_element, nodes_of,
    section_elements, source_elements,
};
use crate::render::{
    OutputFormat, body, document, dot_node_line, footer, header, statement, statement_start,
};

verus! {

proof fn lemma_filter_map_concat<A, B>(a: Seq<A>, b: Seq<A>, f: spec_fn(A) -> Option<B>)
    ensures
        (a + b).filter_map(f) == a.filter_map(f) + b.filter_map(f),
    decreases b.len(),
{
    if b.len() == 0 {
        assert(a + b =~= a);
        assert(a.filter_map(f) + b.filter_map(f) =~= a.filter_map(f));
    } else {
        assert((a + b).drop_last() =~= a + b.drop_last());
        assert((a + b).last() == b.last());
        lemma_filter_map_concat(a, b.drop_last(), f);
        match f(b.last()) {
            Some(x) => {
                assert((a.filter_map(f) + b.drop_last().filter_map(f)) + seq![x] =~= a.filter_map(
                    f,
                ) + (b.drop_last().filter_map(f) + seq![x]));
            },
            None => {},
        }
    }
}

/// Splitting a graph in two splits its nodes and its edges the same way.
pub proof fn lemma_nodes_and_edges_of_concat(a: Seq<ElementView>, b: Seq<ElementView>)
    ensures
        nodes_of(a + b) == nodes_of(a) + nodes_of(b),
        edges_of(a + b) == edges_of(a) + edges_of(b),
{
    lemma_filter_map_concat(
        a,
        b,
        |e: ElementView|
            match e {
                ElementView::Node(n) => Some(n),
                ElementView::Edge(_) => None,
            },
    );
    lemma_filter_map_concat(
        a,
        b,
        |e: ElementView|
            match e {
                ElementView::Node(_) => None,
                ElementView::Edge(e) => Some(e),
            },
    );
}

proof fn lemma_source_elements(ids: Seq<Seq<char>>)
    ensures
        nodes_of(source_elements(ids)) == ids.map_values(
            |id: Seq<char>| NodeView { id, kind: NodeKind::Source },
        ),
        edges_of(source_elements(ids)) == Seq::<EdgeView>::empty(),
    decreases ids.len(),
{
    if ids.len() > 0 {
        lemma_source_elements(ids.drop_last());
        assert(source_elements(ids).drop_last() =~= source_elements(ids.drop_last()));
    }
}

proof fn lemma_input_edges(inputs: Seq<InputRefView>, target: Seq<char>)
    ensures
        nodes_of(input_edges(inputs, target)) == Seq::<NodeView>::empty(),
        edges_of(input_edges(inputs, target)) == inputs.map_values(
            |r: InputRefView| input_edge(r, target),
        ),
    decreases inputs.len(),
{
    if inputs.len() > 0 {
        lemma_input_edges(inputs.drop_last(), target);
        assert(input_edges(inputs, target).drop_last() =~= input_edges(
            inputs.drop_last(),
            target,
        ));
    }
}

proof fn lemma_component_elements(c: ComponentView, kind: NodeKind)
    ensures
        nodes_of(component_elements(c, kind)) == seq![NodeView { id: c.id, kind }],
        edges_of(component_elements(c, kind)) == component_edges(c),
{
    let first = seq![node_element(c.id, kind)];
    lemma_nodes_and_edges_of_concat(first, input_edges(c.inputs, c.id));
    lemma_input_edges(c.inputs, c.id);
    Seq::lemma_filter_map_singleton(
        node_element(c.id, kind),
        |e: ElementView|
            match e {
                ElementView::Node(n) => Some(n),
                ElementView::Edge(_) => None,
            },
    );
    Seq::lemma_filter_map_singleton(
        node_element(c.id, kind),
        |e: ElementView|
            match e {
                ElementView::Node(_) => None,
                ElementView::Edge(e) => Some(e),
            },
    );
}

proof fn lemma_section_elements(components: Seq<ComponentView>, kind: NodeKind)
    ensures
        nodes_of(section_elements(components, kind)) == components.map_values(
            |c: ComponentView| NodeView { id: c.id, kind },
        ),
        edges_of(section_elements(components, kind)) == components.flat_map(
            |c: ComponentView| component_edges(c),
        ),
    decreases components.len(),
{
    if components.len() == 0 {
        assert(section_elements(components, kind) =~= Seq::<ElementView>::empty());
        assert(components.flat_map(|c: ComponentView| component_edges(c)) =~= Seq::<
            EdgeView,
        >::empty());
    } else {
        let rest = components.drop_last();
        let last = components.last();
        assert(components =~= rest.push(last));
        lemma_section_elements(rest, kind);
        rest.lemma_flat_map_push(|c: ComponentView| component_elements(c, kind), last);
        rest.lemma_flat_map_push(|c: ComponentView| component_edges(c), last);
        lemma_component_elements(last, kind);
        lemma_nodes_and_edges_of_concat(
            section_elements(rest, kind),
            component_elements(last, kind),
        );
        assert(components.map_values(|c: ComponentView| NodeView { id: c.id, kind })
            =~= rest.map_values(|c: ComponentView| NodeView { id: c.id, kind }) + seq![
            NodeView { id: last.id, kind },
        ]);
    }
}

/// The nodes of the graph are the declared components, sources first, then
/// transforms, then sinks, each group in declaration order; and the edges are
/// the declared inputs, grouped by target in that same order and, within a
/// target, in the order the inputs are declared. An edge's label is the port
/// of the input it comes from, and absent where the input names none.
pub proof fn lemma_extract_keeps_declaration_order(config: ConfigView)
    ensures
        nodes_of(extract_spec(config)) == declared_nodes(config),
        edges_of(extract_spec(config)) == declared_edges(config),
{
    let sources = source_elements(config.sources);
    let transforms = section_elements(config.transforms, NodeKind::Transform);
    let sinks = section_elements(config.sinks, NodeKind::Sink);
    lemma_source_elements(config.sources);
    lemma_section_elements(config.transforms, NodeKind::Transform);
    lemma_section_elements(config.sinks, NodeKind::Sink);
    lemma_nodes_and_edges_of_concat(sources, transforms);
    lemma_nodes_and_edges_of_concat(sources + transforms, sinks);
    assert(edges_of(extract_spec(config)) =~= declared_edges(config));
}

/// A configuration without transforms and sinks gives one node per source
/// and no edge, and its DOT document holds one node statement per source
/// between the header and the closing brace.
pub proof fn lemma_sources_only(config: ConfigView)
    requires
        config.transforms.len() == 0,
        config.sinks.len() == 0,
    ensures
        extract_spec(config) == source_elements(config.sources),
        nodes_of(extract_spec(config)) == config.sources.map_values(
            |id: Seq<char>| NodeView { id, kind: NodeKind::Source },
        ),
        edges_of(extract_spec(config)) == Seq::<EdgeView>::empty(),
        document(OutputFormat::Dot, extract_spec(config)) == "digraph {\n"@
            + config.sources.flat_map(
            |id: Seq<char>| dot_node_line(NodeView { id, kind: NodeKind::Source }) + "\n"@,
        ) + "}"@,
{
    assert(section_elements(config.transforms, NodeKind::Transform) =~= Seq::<
        ElementView,
    >::empty());
    assert(section_elements(config.sinks, NodeKind::Sink) =~= Seq::<ElementView>::empty());
    assert(extract_spec(config) =~= source_elements(config.sources));
    lemma_source_elements(config.sources);
    assert(source_elements(config.sources).map_values(
        |e: ElementView| statement(OutputFormat::Dot, e),
    ) =~= config.sources.map_values(
        |id: Seq<char>| dot_node_line(NodeView { id, kind: NodeKind::Source }) + "\n"@,
    ));
}

proof fn lemma_flat_map_element<A, B>(s: Seq<A>, f: spec_fn(A) -> Seq<B>, k: int) -> (at: (
    int,
    int,
))
    requires
        0 <= k < s.flat_map(f).len(),
    ensures
        0 <= at.0 < s.len(),
        0 <= at.1 < f(s[at.0]).len(),
        s.flat_map(f)[k] == f(s[at.0])[at.1],
    decreases s.len(),
{
    if s.len() == 0 {
        assert(s.flat_map(f) =~= Seq::<B>::empty());
        (0, 0)
    } else {
        let rest = s.drop_last();
        assert(s =~= rest.push(s.last()));
        rest.lemma_flat_map_push(f, s.last());
        if k < rest.flat_map(f).len() {
            lemma_flat_map_element(rest, f, k)
        } else {
            (s.len() - 1, k - rest.flat_map(f).len())
        }
    }
}

proof fn lemma_identifier_declared_once(config: ConfigView, i: int)
    requires
        identifiers(config).no_duplicates(),
        0 <= i < identifiers(config).len(),
    ensures
        declared_once(declared_nodes(config), identifiers(config)[i]),
{
    let ids = identifiers(config);
    let nodes = declared_nodes(config);
    assert(nodes.len() == ids.len());
    assert forall|j: int| 0 <= j < nodes.len() implies (#[trigger] nodes[j]).id == ids[j] by {}
    assert(nodes[i].id == ids[i]);
}

proof fn lemma_section_edges_declared_once(
    config: ConfigView,
    components: Seq<ComponentView>,
    offset: int,
    k: int,
)
    requires
        identifiers(config).no_duplicates(),
        inputs_resolve(components, identifiers(config)),
        0 <= offset,
        offset + components.len() <= identifiers(config).len(),
        forall|i: int|
            0 <= i < components.len() ==> identifiers(config)[offset + i]
                == (#[trigger] components[i]).id,
        0 <= k < components.flat_map(|c: ComponentView| component_edges(c)).len(),
    ensures
        ({
            let e = components.flat_map(|c: ComponentView| component_edges(c))[k];
            &&& declared_once(declared_nodes(config), e.from)
            &&& declared_once(declared_nodes(config), e.to)
        }),
{
    let ids = identifiers(config);
    let at = lemma_flat_map_element(components, |c: ComponentView| component_edges(c), k);
    let c = components[at.0];
    let r = c.inputs[at.1];
    assert(component_edges(c)[at.1] == input_edge(r, c.id));
    assert(ids.contains(r.component));
    let from_index = choose|i: int| 0 <= i < ids.len() && ids[i] == r.component;
    lemma_identifier_declared_once(config, from_index);
    lemma_identifier_declared_once(config, offset + at.0);
}

/// In the graph of a well-formed configuration, the identifier at either end
/// of an edge is the identifier of exactly one node.
pub proof fn lemma_edge_endpoints_declared_once(config: ConfigView)
    requires
        config.well_formed(),
    ensures
        forall|k: int|
            #![trigger edges_of(extract_spec(config))[k]]
            0 <= k < edges_of(extract_spec(config)).len() ==> {
                let e = edges_of(extract_spec(config))[k];
                &&& declared_once(nodes_of(extract_spec(config)), e.from)
                &&& declared_once(nodes_of(extract_spec(config)), e.to)
            },
{
    lemma_extract_keeps_declaration_order(config);
    let into_transforms = config.transforms.flat_map(|c: ComponentView| component_edges(c));
    let into_sinks = config.sinks.flat_map(|c: ComponentView| component_edges(c));
    let edges = declared_edges(config);
    assert forall|k: int| 0 <= k < edges.len() implies {
        let e = #[trigger] edges[k];
        &&& declared_once(declared_nodes(config), e.from)
        &&& declared_once(declared_nodes(config), e.to)
    } by {
        if k < into_transforms.len() {
            lemma_section_edges_declared_once(
                config,
                config.transforms,
                config.sources.len() as int,
                k,
            );
        } else {
            lemma_section_edges_declared_once(
                config,
                config.sinks,
                (config.sources.len() + config.transforms.len()) as int,
                k - into_transforms.len(),
            );
        }
    }
}

proof fn lemma_flat_map_piece<A, B>(s: Seq<A>, f: spec_fn(A) -> Seq<B>, i: int)
    requires
        0 <= i < s.len(),
    ensures
        ({
            let start = s.take(i).flat_map(f).len() as int;
            let end = s.take(i + 1).flat_map(f).len() as int;
            &&& end == start + f(s[i]).len()
            &&& end <= s.flat_map(f).len()
            &&& s.flat_map(f).subrange(start, end) == f(s[i])
        }),
{
    let head = s.take(i + 1);
    let tail = s.skip(i + 1);
    s.lemma_flat_map_take_append(f, i);
    assert(s =~= head + tail);
    assert(s.map_values(f) =~= head.map_values(f) + tail.map_values(f));
    lemma_flatten_concat(head.map_values(f), tail.map_values(f));
    assert(s.flat_map(f) =~= s.take(i).flat_map(f) + f(s[i]) + tail.flat_map(f));
}

proof fn lemma_flat_map_prefixes_grow<A, B>(s: Seq<A>, f: spec_fn(A) -> Seq<B>, i: int, j: int)
    requires
        0 <= i <= j <= s.len(),
    ensures
        s.take(i).flat_map(f).len() <= s.take(j).flat_map(f).len(),
    decreases j - i,
{
    if i < j {
        lemma_flat_map_piece(s, f, j - 1);
        lemma_flat_map_prefixes_grow(s, f, i, j - 1);
    }
}

/// The document holds the statement of each element of the graph, and the
/// statements stand in the order of the elements: each begins where the one
/// before it ends, the first right after the header, and the footer follows
/// the last.
pub proof fn lemma_statement_position(format: OutputFormat, graph: Seq<ElementView>, k: int)
    requires
        0 <= k < graph.len(),
    ensures
        ({
            let start = statement_start(format, graph, k);
            let end = statement_start(format, graph, k + 1);
            &&& header(format).len() <= start
            &&& end == start + statement(format, graph[k]).len()
            &&& end + footer(format).len() <= document(format, graph).len()
            &&& document(format, graph).subrange(start, end) == statement(format, graph[k])
        }),
{
    lemma_flat_map_piece(graph, |e: ElementView| statement(format, e), k);
    let start = statement_start(format, graph, k);
    let end = statement_start(format, graph, k + 1);
    let at = body(format, graph.take(k)).len() as int;
    assert(document(format, graph).subrange(start, end) =~= body(format, graph).subrange(
        at,
        at + statement(format, graph[k]).len(),
    ));
}

/// Of two elements, the statement of the earlier one ends before the
/// statement of the later one begins.
pub proof fn lemma_statements_in_order(
    format: OutputFormat,
    graph: Seq<ElementView>,
    j: int,
    k: int,
)
    requires
        0 <= j < k < graph.len(),
    ensures
        statement_start(format, graph, j + 1) <= statement_start(format, graph, k),
{
    lemma_flat_map_prefixes_grow(graph, |e: ElementView| statement(format, e), j + 1, k);
}

/// Every component has its place in the graph: its node stands at its
/// position, and the edges for its inputs follow the node, one per input, in
/// the order the inputs are declared. The edge for an input runs from the
/// component the input names to the component that declares it, and its
/// label is the port of the input, or absent where the input names none.
pub proof fn lemma_component_position(config: ConfigView, kind: NodeKind, i: int)
    requires
        0 <= i < components_of(config, kind).len(),
    ensures
        ({
            let c = components_of(config, kind)[i];
            let at = component_position(config, kind, i);
            let graph = extract_spec(config);
            &&& 0 <= at
            &&& at + c.inputs.len() < graph.len()
            &&& graph[at] == node_element(c.id, kind)
            &&& forall|j: int|
                0 <= j < c.inputs.len() ==> #[trigger] graph[at + 1 + j] == edge_element(
                    c.inputs[j],
                    c.id,
                )
        }),
{
    let graph = extract_spec(config);
    let c = components_of(config, kind)[i];
    match kind {
        NodeKind::Source => {},
        NodeKind::Transform => {
            lemma_flat_map_piece(
                config.transforms,
                |c: ComponentView| component_elements(c, NodeKind::Transform),
                i,
            );
            let section = section_elements(config.transforms, NodeKind::Transform);
            let start = section_elements(config.transforms.take(i), NodeKind::Transform).len() as int;
            let piece = section.subrange(start, start + component_elements(c, kind).len());
            assert(piece[0] == section[start]);
            assert forall|j: int| 0 <= j < c.inputs.len() implies #[trigger] graph[config.sources.len()
                + start + 1 + j] == edge_element(c.inputs[j], c.id) by {
                assert(piece[1 + j] == section[start + 1 + j]);
            }
        },
        NodeKind::Sink => {
            lemma_flat_map_piece(
                config.sinks,
                |c: ComponentView| component_elements(c, NodeKind::Sink),
                i,
            );
            let section = section_elements(config.sinks, NodeKind::Sink);
            let before = config.sources.len() + section_elements(
                config.transforms,
                NodeKind::Transform,
            ).len();
            let start = section_elements(config.sinks.take(i), NodeKind::Sink).len() as int;
            let piece = section.subrange(start, start + component_elements(c, kind).len());
            assert(piece[0] == section[start]);
            assert forall|j: int| 0 <= j < c.inputs.len() implies #[trigger] graph[before + start
                + 1 + j] == edge_element(c.inputs[j], c.id) by {
                assert(piece[1 + j] == section[start + 1 + j]);
            }
        },
    }
}

/// Components stand in the graph in declaration order: a component and the
/// edges into it come before the node of every component declared after it.
pub proof fn lemma_positions_in_declaration_order(
    config: ConfigView,
    kind_a: NodeKind,
    a: int,
    kind_b: NodeKind,
    b: int,
)
    requires
        0 <= a < components_of(config, kind_a).len(),
        0 <= b < components_of(config, kind_b).len(),
        declared_before(kind_a, a, kind_b, b),
    ensures
        component_position(config, kind_a, a) + components_of(config, kind_a)[a].inputs.len()
            < component_position(config, kind_b, b),
{
    let transform = |c: ComponentView| component_elements(c, NodeKind::Transform);
    let sink = |c: ComponentView| component_elements(c, NodeKind::Sink);
    match kind_a {
        NodeKind::Source => {},
        NodeKind::Transform => {
            lemma_flat_map_piece(config.transforms, transform, a);
            if kind_b == NodeKind::Transform {
                lemma_flat_map_prefixes_grow(config.transforms, transform, a + 1, b);
            }
        },
        NodeKind::Sink => {
            lemma_flat_map_piece(config.sinks, sink, a);
            lemma_flat_map_prefixes_grow(config.sinks, sink, a + 1, b);
        },
    }
}

/// Node statements stand in the document in declaration order: sources
/// first, then transforms, then sinks, each kind in the order of the
/// configuration. Of two components, the node statement of the one declared
/// first ends before that of the other begins.
pub proof fn lemma_node_statements_in_declaration_order(
    format: OutputFormat,
    config: ConfigView,
    kind_a: NodeKind,
    a: int,
    kind_b: NodeKind,
    b: int,
)
    requires
        0 <= a < components_of(config, kind_a).len(),
        0 <= b < components_of(config, kind_b).len(),
        declared_before(kind_a, a, kind_b, b),
    ensures
        ({
            let graph = extract_spec(config);
            let text = document(format, graph);
            let at_a = component_position(config, kind_a, a);
            let at_b = component_position(config, kind_b, b);
            &&& 0 <= at_a < at_b < graph.len()
            &&& text.subrange(
                statement_start(format, graph, at_a),
                statement_start(format, graph, at_a + 1),
            ) == statement(format, node_element(components_of(config, kind_a)[a].id, kind_a))
            &&& text.subrange(
                statement_start(format, graph, at_b),
                statement_start(format, graph, at_b + 1),
            ) == statement(format, node_element(components_of(config, kind_b)[b].id, kind_b))
            &&& statement_start(format, graph, at_a + 1) <= statement_start(format, graph, at_b)
        }),
{
    let graph = extract_spec(config);
    let at_a = component_position(config, kind_a, a);
    let at_b = component_position(config, kind_b, b);
    lemma_component_position(config, kind_a, a);
    lemma_component_position(config, kind_b, b);
    lemma_positions_in_declaration_order(config, kind_a, a, kind_b, b);
    lemma_statement_position(format, graph, at_a);
    lemma_statement_position(format, graph, at_b);
    lemma_statements_in_order(format, graph, at_a, at_b);
}

/// Every declared input is rendered as one edge statement, in both dialects.
/// Where the input names a port, DOT carries it as the `label` attribute and
/// Mermaid writes it into the arrow; where it names none, the statement holds
/// the two identifiers and the arrow and nothing else.
pub proof fn lemma_input_statement(
    format: OutputFormat,
    config: ConfigView,
    kind: NodeKind,
    i: int,
    j: int,
)
    requires
        0 <= i < components_of(config, kind).len(),
        0 <= j < components_of(config, kind)[i].inputs.len(),
    ensures
        ({
            let c = components_of(config, kind)[i];
            let r = c.inputs[j];
            let graph = extract_spec(config);
            let k = component_position(config, kind, i) + 1 + j;
            let text = document(format, graph).subrange(
                statement_start(format, graph, k),
                statement_start(format, graph, k + 1),
            );
            &&& 0 <= k < graph.len()
            &&& graph[k] == ElementView::Edge(
                EdgeView { from: r.component, to: c.id, label: r.port },
            )
            &&& match (format, r.port) {
                (OutputFormat::Dot, Some(port)) => text == "  \""@ + r.component + "\" -> \""@
                    + c.id + "\" [label=\""@ + port + "\"]"@ + "\n"@,
                (OutputFormat::Dot, None) => text == "  \""@ + r.component + "\" -> \""@ + c.id
                    + "\""@ + "\n"@,
                (OutputFormat::Mermaid, Some(port)) => text == "  "@ + r.component + "--"@ + port
                    + "-->"@ + c.id + "\n"@,
                (OutputFormat::Mermaid, None) => text == "  "@ + r.component + "-->"@ + c.id
                    + "\n"@,
            }
        }),
{
    let c = components_of(config, kind)[i];
    let graph = extract_spec(config);
    let k = component_position(config, kind, i) + 1 + j;
    lemma_component_position(config, kind, i);
    assert(graph[k] == edge_element(c.inputs[j], c.id));
    lemma_statement_position(format, graph, k);
}

/// Rendering depends on nothing but the value of the graph and the dialect:
/// graphs of equal value have the same document, so rendering one graph twice
/// gives the same text twice.
pub proof fn lemma_rendering_is_deterministic(format: OutputFormat, a: Graph, b: Graph)
    requires
        a@ == b@,
    ensures
        document(format, a@) == document(format, b@),
{
}

/// Both dialects render the same graph: each document holds one statement per
/// element of the graph of the configuration, in the same order, and the
/// `k`-th statement of either document is the rendering of the same `k`-th
/// element. The documents differ in how a statement is written, not in which
/// nodes and edges they state.
pub proof fn lemma_dialects_state_the_same_elements(config: ConfigView, k: int)
    requires
        0 <= k < extract_spec(config).len(),
    ensures
        ({
            let graph = extract_spec(config);
            let dot = document(OutputFormat::Dot, graph);
            let mermaid = document(OutputFormat::Mermaid, graph);
            &&& dot.subrange(
                statement_start(OutputFormat::Dot, graph, k),
                statement_start(OutputFormat::Dot, graph, k + 1),
            ) == statement(OutputFormat::Dot, graph[k])
            &&& mermaid.subrange(
                statement_start(OutputFormat::Mermaid, graph, k),
                statement_start(OutputFormat::Mermaid, graph, k + 1),
            ) == statement(OutputFormat::Mermaid, graph[k])
            &&& statement_start(OutputFormat::Dot, graph, graph.len() as int) + 1 == dot.len()
            &&& statement_start(OutputFormat::Mermaid, graph, graph.len() as int) == mermaid.len()
        }),
{
    let graph = extract_spec(config);
    lemma_statement_position(OutputFormat::Dot, graph, k);
    lemma_statement_position(OutputFormat::Mermaid, graph, k);
    assert(graph.take(graph.len() as int) =~= graph);
    reveal_strlit("}");
}

} // verus!
