//! The dialect-independent topology model.
//!
//! A [`Config`] lists the components of a pipeline in declaration order.
//! [`extract`] turns it into a [`Graph`]: the nodes and edges of the topology
//! in emission order, which is the only thing a renderer ever looks at.
//!
//! Every executable type has a mathematical view over `Seq<char>` that the
//! contracts are stated in; [`extract_spec`] is the model of the extractor.

use vstd::prelude::*;

verus! {

/// What role a component plays in the pipeline.
#[derive(Clone, Copy, Debug, PartialEq, Eq, Structural)]
pub enum NodeKind {
    /// Originates data; has no inputs.
    Source,
    /// Derives new data from its inputs.
    Transform,
    /// Terminal consumer of its inputs.
    Sink,
}

/// A declared dependency on an upstream component, optionally on one of its
/// named output ports.
#[derive(Clone, Debug, PartialEq, Eq)]
pub struct InputRef {
    pub component: String,
    pub port: Option<String>,
}

/// Mathematical value of an [`InputRef`].
pub ghost struct InputRefView {
    pub component: Seq<char>,
    pub port: Option<Seq<char>>,
}

/// A transform or a sink: an identifier and the inputs it declares, in order.
#[derive(Clone, Debug, PartialEq, Eq)]
pub struct Component {
    pub id: String,
    pub inputs: Vec<InputRef>,
}

/// Mathematical value of a [`Component`].
pub ghost struct ComponentView {
    pub id: Seq<char>,
    pub inputs: Seq<InputRefView>,
}

/// A pipeline configuration: sources, transforms and sinks, each in
/// declaration order.
#[derive(Clone, Debug, PartialEq, Eq)]
pub struct Config {
    pub sources: Vec<String>,
    pub transforms: Vec<Component>,
    pub sinks: Vec<Component>,
}

/// Mathematical value of a [`Config`].
pub ghost struct ConfigView {
    pub sources: Seq<Seq<char>>,
    pub transforms: Seq<ComponentView>,
    pub sinks: Seq<ComponentView>,
}

/// One vertex of the topology.
#[derive(Clone, Debug, PartialEq, Eq)]
pub struct Node {
    pub id: String,
    pub kind: NodeKind,
}

/// Mathematical value of a [`Node`].
pub ghost struct NodeView {
    pub id: Seq<char>,
    pub kind: NodeKind,
}

/// One directed connection, labelled with the upstream port if there is one.
#[derive(Clone, Debug, PartialEq, Eq)]
pub struct Edge {
    pub from: String,
    pub to: String,
    pub label: Option<String>,
}

/// Mathematical value of an [`Edge`].
pub ghost struct EdgeView {
    pub from: Seq<char>,
    pub to: Seq<char>,
    pub label: Option<Seq<char>>,
}

/// One entry of a graph: a node, or an edge into the node emitted before it.
#[derive(Clone, Debug, PartialEq, Eq)]
pub enum Element {
    Node(Node),
    Edge(Edge),
}

/// Mathematical value of an [`Element`].
pub ghost enum ElementView {
    Node(NodeView),
    Edge(EdgeView),
}

/// The normalized graph of one configuration: its nodes and edges in emission
/// order. Each node is followed by the edges that enter it.
#[derive(Clone, Debug, PartialEq, Eq)]
pub struct Graph {
    pub elements: Vec<Element>,
}

/// The characters of an optional string.
pub open spec fn option_view(o: Option<String>) -> Option<Seq<char>> {
    match o {
        Some(s) => Some(s@),
        None => None,
    }
}

impl View for InputRef {
    type V = InputRefView;

    open spec fn view(&self) -> InputRefView {
        InputRefView { component: self.component@, port: option_view(self.port) }
    }
}

impl View for Component {
    type V = ComponentView;

    open spec fn view(&self) -> ComponentView {
        ComponentView { id: self.id@, inputs: self.inputs@.map_values(|r: InputRef| r@) }
    }
}

impl View for Config {
    type V = ConfigView;

    open spec fn view(&self) -> ConfigView {
        ConfigView {
            sources: self.sources@.map_values(|s: String| s@),
            transforms: self.transforms@.map_values(|c: Component| c@),
            sinks: self.sinks@.map_values(|c: Component| c@),
        }
    }
}

impl View for Node {
    type V = NodeView;

    open spec fn view(&self) -> NodeView {
        NodeView { id: self.id@, kind: self.kind }
    }
}

impl View for Edge {
    type V = EdgeView;

    open spec fn view(&self) -> EdgeView {
        EdgeView { from: self.from@, to: self.to@, label: option_view(self.label) }
    }
}

impl View for Element {
    type V = ElementView;

    open spec fn view(&self) -> ElementView {
        match self {
            Element::Node(n) => ElementView::Node(n@),
            Element::Edge(e) => ElementView::Edge(e@),
        }
    }
}

/// The values of a run of elements, in order.
pub open spec fn elements_view(elements: Seq<Element>) -> Seq<ElementView> {
    elements.map_values(|e: Element| e@)
}

impl View for Graph {
    type V = Seq<ElementView>;

    open spec fn view(&self) -> Seq<ElementView> {
        elements_view(self.elements@)
    }
}

/// The node that a component of the given kind and identifier contributes.
pub open spec fn node_element(id: Seq<char>, kind: NodeKind) -> ElementView {
    ElementView::Node(NodeView { id, kind })
}

/// The edge that input `r` of the component `target` stands for: from the
/// referenced component to `target`, labelled with the port of `r`.
pub open spec fn input_edge(r: InputRefView, target: Seq<char>) -> EdgeView {
    EdgeView { from: r.component, to: target, label: r.port }
}

/// The element that input `r` of the component `target` contributes.
pub open spec fn edge_element(r: InputRefView, target: Seq<char>) -> ElementView {
    ElementView::Edge(input_edge(r, target))
}

/// The edges into `target`, one per input, in the order the inputs are declared.
pub open spec fn input_edges(inputs: Seq<InputRefView>, target: Seq<char>) -> Seq<ElementView> {
    inputs.map_values(|r: InputRefView| edge_element(r, target))
}

/// What one transform or sink contributes: its node, then its incoming edges.
pub open spec fn component_elements(c: ComponentView, kind: NodeKind) -> Seq<ElementView> {
    seq![node_element(c.id, kind)] + input_edges(c.inputs, c.id)
}

/// What the sources contribute: one node each, no edges.
pub open spec fn source_elements(ids: Seq<Seq<char>>) -> Seq<ElementView> {
    ids.map_values(|id: Seq<char>| node_element(id, NodeKind::Source))
}

/// What a run of transforms (or of sinks) contributes: the contribution of
/// each component, one after the other.
pub open spec fn section_elements(components: Seq<ComponentView>, kind: NodeKind) -> Seq<
    ElementView,
> {
    components.flat_map(|c: ComponentView| component_elements(c, kind))
}

/// The graph of a configuration: sources first, then transforms, then sinks,
/// each in declaration order.
pub open spec fn extract_spec(config: ConfigView) -> Seq<ElementView> {
    source_elements(config.sources) + section_elements(config.transforms, NodeKind::Transform)
        + section_elements(config.sinks, NodeKind::Sink)
}

/// The nodes that a configuration declares: one per source, then one per
/// transform, then one per sink, each group in declaration order.
pub open spec fn declared_nodes(config: ConfigView) -> Seq<NodeView> {
    config.sources.map_values(|id: Seq<char>| NodeView { id, kind: NodeKind::Source })
        + config.transforms.map_values(
        |c: ComponentView| NodeView { id: c.id, kind: NodeKind::Transform },
    ) + config.sinks.map_values(|c: ComponentView| NodeView { id: c.id, kind: NodeKind::Sink })
}

/// The edges into one component, in the order its inputs are declared.
pub open spec fn component_edges(c: ComponentView) -> Seq<EdgeView> {
    c.inputs.map_values(|r: InputRefView| input_edge(r, c.id))
}

/// The edges that a configuration declares: grouped by target, transforms
/// before sinks, targets in declaration order.
pub open spec fn declared_edges(config: ConfigView) -> Seq<EdgeView> {
    config.transforms.flat_map(|c: ComponentView| component_edges(c)) + config.sinks.flat_map(
        |c: ComponentView| component_edges(c),
    )
}

/// Every identifier that a configuration declares, in declaration order.
pub open spec fn identifiers(config: ConfigView) -> Seq<Seq<char>> {
    config.sources + config.transforms.map_values(|c: ComponentView| c.id)
        + config.sinks.map_values(|c: ComponentView| c.id)
}

/// Whether every input of every listed component names a declared identifier.
pub open spec fn inputs_resolve(components: Seq<ComponentView>, declared: Seq<Seq<char>>) -> bool {
    forall|i: int, j: int|
        0 <= i < components.len() && 0 <= j < components[i].inputs.len()
            ==> declared.contains(#[trigger] components[i].inputs[j].component)
}

impl ConfigView {
    /// What a loaded configuration guarantees: no identifier is declared
    /// twice, whatever the kinds, and every input names a declared component.
    pub open spec fn well_formed(self) -> bool {
        &&& identifiers(self).no_duplicates()
        &&& inputs_resolve(self.transforms, identifiers(self))
        &&& inputs_resolve(self.sinks, identifiers(self))
    }
}

/// Whether exactly one of the nodes has the identifier `id`.
pub open spec fn declared_once(nodes: Seq<NodeView>, id: Seq<char>) -> bool {
    exists|i: int|
        {
            &&& 0 <= i < nodes.len()
            &&& (#[trigger] nodes[i]).id == id
            &&& forall|j: int| 0 <= j < nodes.len() && (#[trigger] nodes[j]).id == id ==> j == i
        }
}

/// The components of one kind, in declaration order. A source is a
/// component without inputs.
pub open spec fn components_of(config: ConfigView, kind: NodeKind) -> Seq<ComponentView> {
    match kind {
        NodeKind::Source => config.sources.map_values(
            |id: Seq<char>| ComponentView { id, inputs: Seq::empty() },
        ),
        NodeKind::Transform => config.transforms,
        NodeKind::Sink => config.sinks,
    }
}

/// Where in the graph the node of the `i`-th component of a kind stands:
/// after everything that the components declared before it contribute.
pub open spec fn component_position(config: ConfigView, kind: NodeKind, i: int) -> int {
    match kind {
        NodeKind::Source => i,
        NodeKind::Transform => (config.sources.len() + section_elements(
            config.transforms.take(i),
            NodeKind::Transform,
        ).len()) as int,
        NodeKind::Sink => (config.sources.len() + section_elements(
            config.transforms,
            NodeKind::Transform,
        ).len() + section_elements(config.sinks.take(i), NodeKind::Sink).len()) as int,
    }
}

/// Whether the `a`-th component of kind `kind_a` is declared before the
/// `b`-th of kind `kind_b`: sources come before transforms, transforms before
/// sinks, and within a kind the order is that of the configuration.
pub open spec fn declared_before(kind_a: NodeKind, a: int, kind_b: NodeKind, b: int) -> bool {
    match (kind_a, kind_b) {
        (NodeKind::Source, NodeKind::Source) => a < b,
        (NodeKind::Transform, NodeKind::Transform) => a < b,
        (NodeKind::Sink, NodeKind::Sink) => a < b,
        (NodeKind::Source, _) => true,
        (NodeKind::Transform, NodeKind::Sink) => true,
        _ => false,
    }
}

/// The nodes of a graph, in emission order.
pub open spec fn nodes_of(graph: Seq<ElementView>) -> Seq<NodeView> {
    graph.filter_map(
        |e: ElementView|
            match e {
                ElementView::Node(n) => Some(n),
                ElementView::Edge(_) => None,
            },
    )
}

/// The edges of a graph, in emission order.
pub open spec fn edges_of(graph: Seq<ElementView>) -> Seq<EdgeView> {
    graph.filter_map(
        |e: ElementView|
            match e {
                ElementView::Node(_) => None,
                ElementView::Edge(e) => Some(e),
            },
    )
}

fn clone_option(o: &Option<String>) -> (r: Option<String>)
    ensures
        option_view(r) == option_view(*o),
{
    match o {
        Some(s) => Some(s.clone()),
        None => None,
    }
}

/// Appends the node of `c` and one edge per input to `elements`.
fn push_component(elements: &mut Vec<Element>, c: &Component, kind: NodeKind)
    ensures
        elements_view(final(elements)@) == elements_view(old(elements)@) + component_elements(
            c@,
            kind,
        ),
{
    let ghost before = elements_view(elements@);
    let ghost start = elements@;
    elements.push(Element::Node(Node { id: c.id.clone(), kind }));
    proof {
        assert(elements_view(elements@) =~= elements_view(start).push(node_element(c@.id, kind)));
        assert(input_edges(c@.inputs.take(0), c@.id) =~= Seq::empty());
        assert(elements_view(elements@) =~= before + (seq![node_element(c@.id, kind)]
            + input_edges(c@.inputs.take(0), c@.id)));
    }
    let mut k: usize = 0;
    while k < c.inputs.len()
        invariant
            k <= c.inputs.len(),
            elements_view(elements@) == before + (seq![node_element(c@.id, kind)] + input_edges(
                c@.inputs.take(k as int),
                c@.id,
            )),
        decreases c.inputs.len() - k,
    {
        let input = &c.inputs[k];
        let edge = Edge {
            from: input.component.clone(),
            to: c.id.clone(),
            label: clone_option(&input.port),
        };
        let ghost prev = elements@;
        let ghost added = edge_element(c@.inputs[k as int], c@.id);
        assert(ElementView::Edge(edge@) == added);
        elements.push(Element::Edge(edge));
        proof {
            assert(elements_view(elements@) =~= elements_view(prev).push(added));
            assert(input_edges(c@.inputs.take(k + 1), c@.id) =~= input_edges(
                c@.inputs.take(k as int),
                c@.id,
            ).push(added));
            assert(elements_view(elements@) =~= before + (seq![node_element(c@.id, kind)]
                + input_edges(c@.inputs.take(k + 1), c@.id)));
        }
        k += 1;
    }
    assert(c@.inputs.take(k as int) == c@.inputs);
}

/// Appends what a run of transforms (or of sinks) contributes to `elements`.
fn push_section(elements: &mut Vec<Element>, components: &Vec<Component>, kind: NodeKind)
    ensures
        elements_view(final(elements)@) == elements_view(old(elements)@) + section_elements(
            components@.map_values(|c: Component| c@),
            kind,
        ),
{
    let ghost before = elements_view(elements@);
    let ghost all = components@.map_values(|c: Component| c@);
    let mut i: usize = 0;
    while i < components.len()
        invariant
            i <= components.len(),
            all == components@.map_values(|c: Component| c@),
            elements_view(elements@) == before + section_elements(all.take(i as int), kind),
        decreases components.len() - i,
    {
        push_component(elements, &components[i], kind);
        proof {
            all.lemma_flat_map_take_append(
                |c: ComponentView| component_elements(c, kind),
                i as int,
            );
        }
        i += 1;
    }
    assert(all.take(i as int) == all);
}

/// Builds the normalized graph of a configuration.
///
/// Nodes come in declaration order, sources first, then transforms, then
/// sinks; each transform and sink is followed by one edge per declared input,
/// in the order the inputs are declared. Nothing is checked or merged:
/// identifiers and ports are taken as they are.
pub fn extract(config: &Config) -> (graph: Graph)
    ensures
        graph@ == extract_spec(config@),
{
    let mut elements: Vec<Element> = Vec::new();
    let mut i: usize = 0;
    while i < config.sources.len()
        invariant
            i <= config.sources.len(),
            elements_view(elements@) == source_elements(config@.sources.take(i as int)),
        decreases config.sources.len() - i,
    {
        let ghost prev = elements@;
        let ghost added = node_element(config@.sources[i as int], NodeKind::Source);
        elements.push(Element::Node(Node { id: config.sources[i].clone(), kind: NodeKind::Source }));
        proof {
            assert(elements_view(elements@) =~= elements_view(prev).push(added));
            assert(source_elements(config@.sources.take(i + 1)) =~= source_elements(
                config@.sources.take(i as int),
            ).push(added));
        }
        i += 1;
    }
    assert(config@.sources.take(i as int) == config@.sources);
    push_section(&mut elements, &config.transforms, NodeKind::Transform);
    push_section(&mut elements, &config.sinks, NodeKind::Sink);
    Graph { elements }
}

impl Graph {
    /// The nodes of the graph, in emission order.
    pub fn nodes(&self) -> (nodes: Vec<Node>)
        ensures
            nodes@.map_values(|n: Node| n@) == nodes_of(self@),
    {
        let mut nodes: Vec<Node> = Vec::new();
        let mut i: usize = 0;
        while i < self.elements.len()
            invariant
                i <= self.elements.len(),
                nodes@.map_values(|n: Node| n@) == nodes_of(self@.take(i as int)),
            decreases self.elements.len() - i,
        {
            let ghost before = nodes@;
            proof {
                self@.lemma_filter_map_take_succ(
                    |e: ElementView|
                        match e {
                            ElementView::Node(n) => Some(n),
                            ElementView::Edge(_) => None,
                        },
                    i as int,
                );
            }
            match &self.elements[i] {
                Element::Node(n) => {
                    let copy = Node { id: n.id.clone(), kind: n.kind };
                    nodes.push(copy);
                    assert(nodes@.map_values(|n: Node| n@) =~= before.map_values(|n: Node| n@).push(
                        copy@,
                    ));
                },
                Element::Edge(_) => {},
            }
            i += 1;
        }
        assert(self@.take(i as int) == self@);
        nodes
    }

    /// The edges of the graph, in emission order.
    pub fn edges(&self) -> (edges: Vec<Edge>)
        ensures
            edges@.map_values(|e: Edge| e@) == edges_of(self@),
    {
        let mut edges: Vec<Edge> = Vec::new();
        let mut i: usize = 0;
        while i < self.elements.len()
            invariant
                i <= self.elements.len(),
                edges@.map_values(|e: Edge| e@) == edges_of(self@.take(i as int)),
            decreases self.elements.len() - i,
        {
            let ghost before = edges@;
            proof {
                self@.lemma_filter_map_take_succ(
                    |e: ElementView|
                        match e {
                            ElementView::Node(_) => None,
                            ElementView::Edge(e) => Some(e),
                        },
                    i as int,
                );
            }
            match &self.elements[i] {
                Element::Node(_) => {},
                Element::Edge(e) => {
                    let copy = Edge {
                        from: e.from.clone(),
                        to: e.to.clone(),
                        label: clone_option(&e.label),
                    };
                    edges.push(copy);
                    assert(edges@.map_values(|e: Edge| e@) =~= before.map_values(|e: Edge| e@).push(
                        copy@,
                    ));
                },
            }
            i += 1;
        }
        assert(self@.take(i as int) == self@);
        edges
    }
}

} // verus!
