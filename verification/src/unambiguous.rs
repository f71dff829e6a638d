//! Reading a document back.
//!
//! The renderers escape nothing, so a name that holds a delimiter of the
//! dialect can make two different graphs look alike. This module says which
//! names are free of that, and proves that for such names a line determines
//! the element it was written for and a document determines its graph.

use vstd::prelude::*;
use crate::model::{EdgeView, ElementView, NodeKind};
use crate::render::{OutputFormat, body, document, dot_shape, footer, header, line, statement};

verus! {

/// Whether a name holds none of the characters that the dialect reads as
/// syntax where a name stands: the double quote in DOT, the opening bracket
/// and the dash in Mermaid, and the line break in both.
pub open spec fn plain(format: OutputFormat, name: Seq<char>) -> bool {
    match format {
        OutputFormat::Dot => !name.contains('"') && !name.contains('\n'),
        OutputFormat::Mermaid => !name.contains('[') && !name.contains('-') && !name.contains(
            '\n',
        ),
    }
}

/// Whether every name in the element is plain.
pub open spec fn renderable(format: OutputFormat, e: ElementView) -> bool {
    match e {
        ElementView::Node(n) => plain(format, n.id),
        ElementView::Edge(e) => {
            &&& plain(format, e.from)
            &&& plain(format, e.to)
            &&& match e.label {
                Some(port) => plain(format, port),
                None => true,
            }
        },
    }
}

/// Whether every name in the graph is plain.
pub open spec fn all_renderable(format: OutputFormat, graph: Seq<ElementView>) -> bool {
    forall|k: int| 0 <= k < graph.len() ==> renderable(format, #[trigger] graph[k])
}

proof fn lemma_same_prefix(p: Seq<char>, u: Seq<char>, v: Seq<char>)
    requires
        p + u == p + v,
    ensures
        u == v,
{
    assert(u =~= (p + u).subrange(p.len() as int, (p + u).len() as int));
    assert(v =~= (p + v).subrange(p.len() as int, (p + v).len() as int));
}

proof fn lemma_same_suffix(u: Seq<char>, v: Seq<char>, s: Seq<char>)
    requires
        u + s == v + s,
    ensures
        u == v,
{
    assert((u + s).len() == (v + s).len());
    assert(u =~= (u + s).subrange(0, u.len() as int));
    assert(v =~= (v + s).subrange(0, v.len() as int));
}

proof fn lemma_concat_lacks(a: Seq<char>, b: Seq<char>, c: char)
    requires
        !a.contains(c),
        !b.contains(c),
    ensures
        !(a + b).contains(c),
{
    if (a + b).contains(c) {
        let i = choose|i: int| 0 <= i < (a + b).len() && (a + b)[i] == c;
        if i < a.len() {
            assert(a[i] == c);
        } else {
            assert(b[i - a.len()] == c);
        }
    }
}

/// Two texts that agree, each a run without delimiters followed by a
/// delimiter, agree on the run, on the delimiter and on what follows it.
proof fn lemma_split(a: Seq<char>, d1: char, x: Seq<char>, b: Seq<char>, d2: char, y: Seq<char>)
    requires
        a + seq![d1] + x == b + seq![d2] + y,
        !a.contains(d1),
        !a.contains(d2),
        !b.contains(d1),
        !b.contains(d2),
    ensures
        a == b,
        d1 == d2,
        x == y,
{
    let l = a + seq![d1] + x;
    let r = b + seq![d2] + y;
    if a.len() < b.len() {
        assert(l[a.len() as int] == d1);
        assert(r[a.len() as int] == b[a.len() as int]);
        assert(b.contains(d1));
    }
    if b.len() < a.len() {
        assert(r[b.len() as int] == d2);
        assert(l[b.len() as int] == a[b.len() as int]);
        assert(a.contains(d2));
    }
    assert(l[a.len() as int] == d1);
    assert(r[a.len() as int] == d2);
    assert forall|i: int| 0 <= i < a.len() implies a[i] == b[i] by {
        assert(l[i] == a[i]);
        assert(r[i] == b[i]);
    }
    assert(a =~= b);
    assert(l.len() == r.len());
    assert forall|i: int| 0 <= i < x.len() implies x[i] == y[i] by {
        assert(l[a.len() + 1 + i] == x[i]);
        assert(r[a.len() + 1 + i] == y[i]);
    }
    assert(x =~= y);
}

spec fn quote() -> Seq<char> {
    seq!['"']
}

/// The name that a DOT line begins with.
spec fn dot_first(e: ElementView) -> Seq<char> {
    match e {
        ElementView::Node(n) => n.id,
        ElementView::Edge(e) => e.from,
    }
}

/// What ends a DOT edge line after the quote that closes the target.
spec fn dot_edge_end(label: Option<Seq<char>>) -> Seq<char> {
    match label {
        Some(port) => (" [label="@ + quote()) + (port + quote() + "]"@),
        None => Seq::empty(),
    }
}

/// What follows the quote that closes the first name of a DOT line.
spec fn dot_rest(e: ElementView) -> Seq<char> {
    match e {
        ElementView::Node(n) => " [shape="@ + dot_shape(n.kind) + "]"@,
        ElementView::Edge(e) => (" -> "@ + quote()) + (e.to + quote() + dot_edge_end(e.label)),
    }
}

proof fn lemma_dot_form(e: ElementView)
    ensures
        line(OutputFormat::Dot, e) == ("  "@ + quote()) + (dot_first(e) + quote() + dot_rest(e)),
{
    reveal_strlit("  \"");
    reveal_strlit("  ");
    reveal_strlit("\" [shape=");
    reveal_strlit(" [shape=");
    reveal_strlit("\" -> \"");
    reveal_strlit(" -> ");
    reveal_strlit("\" [label=\"");
    reveal_strlit(" [label=");
    reveal_strlit("\"]");
    reveal_strlit("]");
    reveal_strlit("\"");
    assert("  \""@ =~= "  "@ + quote());
    assert("\" [shape="@ =~= quote() + " [shape="@);
    assert("\" -> \""@ =~= quote() + " -> "@ + quote());
    assert("\" [label=\""@ =~= quote() + " [label="@ + quote());
    assert("\"]"@ =~= quote() + "]"@);
    assert("\""@ =~= quote());
    assert(line(OutputFormat::Dot, e) =~= ("  "@ + quote()) + (dot_first(e) + quote() + dot_rest(
        e,
    )));
}

proof fn lemma_dot_line_determines_element(a: ElementView, b: ElementView)
    requires
        renderable(OutputFormat::Dot, a),
        renderable(OutputFormat::Dot, b),
        line(OutputFormat::Dot, a) == line(OutputFormat::Dot, b),
    ensures
        a == b,
{
    lemma_dot_form(a);
    lemma_dot_form(b);
    lemma_same_prefix(
        "  "@ + quote(),
        dot_first(a) + quote() + dot_rest(a),
        dot_first(b) + quote() + dot_rest(b),
    );
    lemma_split(dot_first(a), '"', dot_rest(a), dot_first(b), '"', dot_rest(b));
    reveal_strlit(" [shape=");
    reveal_strlit(" -> ");
    reveal_strlit("]");
    match (a, b) {
        (ElementView::Node(n), ElementView::Node(m)) => {
            reveal_strlit("trapezium");
            reveal_strlit("diamond");
            reveal_strlit("invtrapezium");
            assert(dot_rest(a).len() == 9 + dot_shape(n.kind).len());
            assert(dot_rest(b).len() == 9 + dot_shape(m.kind).len());
        },
        (ElementView::Node(n), ElementView::Edge(e)) => {
            assert(dot_rest(a)[1] == '[');
            assert(dot_rest(b)[1] == '-');
        },
        (ElementView::Edge(e), ElementView::Node(n)) => {
            assert(dot_rest(a)[1] == '-');
            assert(dot_rest(b)[1] == '[');
        },
        (ElementView::Edge(e), ElementView::Edge(f)) => {
            lemma_same_prefix(
                " -> "@ + quote(),
                e.to + quote() + dot_edge_end(e.label),
                f.to + quote() + dot_edge_end(f.label),
            );
            lemma_split(e.to, '"', dot_edge_end(e.label), f.to, '"', dot_edge_end(f.label));
            reveal_strlit(" [label=");
            match (e.label, f.label) {
                (Some(p), Some(r)) => {
                    lemma_same_prefix(
                        " [label="@ + quote(),
                        p + quote() + "]"@,
                        r + quote() + "]"@,
                    );
                    lemma_split(p, '"', "]"@, r, '"', "]"@);
                },
                (Some(p), None) => {
                    assert(dot_edge_end(e.label).len() > 0);
                },
                (None, Some(r)) => {
                    assert(dot_edge_end(f.label).len() > 0);
                },
                (None, None) => {},
            }
        },
    }
}

/// The name that a Mermaid line begins with.
spec fn mermaid_first(e: ElementView) -> Seq<char> {
    match e {
        ElementView::Node(n) => n.id,
        ElementView::Edge(e) => e.from,
    }
}

/// The first character after the first name of a Mermaid line.
spec fn mermaid_mark(e: ElementView) -> char {
    match e {
        ElementView::Node(_) => '[',
        ElementView::Edge(_) => '-',
    }
}

/// What follows the second dash of a Mermaid edge line.
spec fn mermaid_edge_end(e: EdgeView) -> Seq<char> {
    match e.label {
        Some(port) => port + seq!['-'] + ("->"@ + e.to),
        None => ">"@ + e.to,
    }
}

/// What follows the first character after the first name of a Mermaid line.
spec fn mermaid_rest(e: ElementView) -> Seq<char> {
    match e {
        ElementView::Node(n) => match n.kind {
            NodeKind::Source => "/"@ + n.id + "\\]"@,
            NodeKind::Transform => "{ "@ + n.id + " }]"@,
            NodeKind::Sink => "\\ "@ + n.id + " /]"@,
        },
        ElementView::Edge(e) => seq!['-'] + mermaid_edge_end(e),
    }
}

proof fn lemma_mermaid_form(e: ElementView)
    ensures
        line(OutputFormat::Mermaid, e) == "  "@ + (mermaid_first(e) + seq![mermaid_mark(e)]
            + mermaid_rest(e)),
{
    reveal_strlit("[/");
    reveal_strlit("/");
    reveal_strlit("[{ ");
    reveal_strlit("{ ");
    reveal_strlit("[\\ ");
    reveal_strlit("\\ ");
    reveal_strlit("--");
    reveal_strlit("-->");
    reveal_strlit("->");
    reveal_strlit(">");
    assert("[/"@ =~= seq!['['] + "/"@);
    assert("[{ "@ =~= seq!['['] + "{ "@);
    assert("[\\ "@ =~= seq!['['] + "\\ "@);
    assert("--"@ =~= seq!['-'] + seq!['-']);
    assert("-->"@ =~= seq!['-'] + seq!['-'] + ">"@);
    assert("-->"@ =~= seq!['-'] + "->"@);
    assert(line(OutputFormat::Mermaid, e) =~= "  "@ + (mermaid_first(e) + seq![mermaid_mark(e)]
        + mermaid_rest(e)));
}

proof fn lemma_mermaid_line_determines_element(a: ElementView, b: ElementView)
    requires
        renderable(OutputFormat::Mermaid, a),
        renderable(OutputFormat::Mermaid, b),
        line(OutputFormat::Mermaid, a) == line(OutputFormat::Mermaid, b),
    ensures
        a == b,
{
    lemma_mermaid_form(a);
    lemma_mermaid_form(b);
    lemma_same_prefix(
        "  "@,
        mermaid_first(a) + seq![mermaid_mark(a)] + mermaid_rest(a),
        mermaid_first(b) + seq![mermaid_mark(b)] + mermaid_rest(b),
    );
    lemma_split(
        mermaid_first(a),
        mermaid_mark(a),
        mermaid_rest(a),
        mermaid_first(b),
        mermaid_mark(b),
        mermaid_rest(b),
    );
    match (a, b) {
        (ElementView::Node(n), ElementView::Node(m)) => {
            reveal_strlit("/");
            reveal_strlit("{ ");
            reveal_strlit("\\ ");
            assert(mermaid_rest(a)[0] == mermaid_rest(b)[0]);
        },
        (ElementView::Edge(e), ElementView::Edge(f)) => {
            lemma_same_prefix(seq!['-'], mermaid_edge_end(e), mermaid_edge_end(f));
            reveal_strlit(">");
            reveal_strlit("->");
            match (e.label, f.label) {
                (Some(p), Some(r)) => {
                    lemma_split(p, '-', "->"@ + e.to, r, '-', "->"@ + f.to);
                    lemma_same_prefix("->"@, e.to, f.to);
                },
                (Some(p), None) => {
                    lemma_concat_lacks(">"@, f.to, '-');
                    assert(mermaid_edge_end(e)[p.len() as int] == '-');
                    assert((">"@ + f.to).contains('-'));
                },
                (None, Some(r)) => {
                    lemma_concat_lacks(">"@, e.to, '-');
                    assert(mermaid_edge_end(f)[r.len() as int] == '-');
                    assert((">"@ + e.to).contains('-'));
                },
                (None, None) => {
                    lemma_same_prefix(">"@, e.to, f.to);
                },
            }
        },
        _ => {},
    }
}

/// Among elements whose names are plain, a line is the line of one element
/// only: whoever reads the line knows the kind of node and its identifier, or
/// the two ends of the edge and its label.
pub proof fn lemma_line_determines_element(format: OutputFormat, a: ElementView, b: ElementView)
    requires
        renderable(format, a),
        renderable(format, b),
        line(format, a) == line(format, b),
    ensures
        a == b,
{
    match format {
        OutputFormat::Dot => lemma_dot_line_determines_element(a, b),
        OutputFormat::Mermaid => lemma_mermaid_line_determines_element(a, b),
    }
}

/// The line of an element whose names are plain holds no line break.
pub proof fn lemma_line_has_no_break(format: OutputFormat, e: ElementView)
    requires
        renderable(format, e),
    ensures
        !line(format, e).contains('\n'),
{
    let nl = '\n';
    match format {
        OutputFormat::Dot => {
            lemma_dot_form(e);
            reveal_strlit("  ");
            reveal_strlit(" [shape=");
            reveal_strlit("trapezium");
            reveal_strlit("diamond");
            reveal_strlit("invtrapezium");
            reveal_strlit(" -> ");
            reveal_strlit(" [label=");
            reveal_strlit("]");
            assert(!"  "@.contains(nl));
            assert(!quote().contains(nl));
            assert(!"]"@.contains(nl));
            lemma_concat_lacks("  "@, quote(), nl);
            lemma_concat_lacks(dot_first(e), quote(), nl);
            match e {
                ElementView::Node(n) => {
                    assert(!" [shape="@.contains(nl));
                    assert(!dot_shape(n.kind).contains(nl));
                    lemma_concat_lacks(" [shape="@, dot_shape(n.kind), nl);
                    lemma_concat_lacks(" [shape="@ + dot_shape(n.kind), "]"@, nl);
                },
                ElementView::Edge(e) => {
                    assert(!" -> "@.contains(nl));
                    lemma_concat_lacks(" -> "@, quote(), nl);
                    lemma_concat_lacks(e.to, quote(), nl);
                    match e.label {
                        Some(port) => {
                            assert(!" [label="@.contains(nl));
                            lemma_concat_lacks(" [label="@, quote(), nl);
                            lemma_concat_lacks(port, quote(), nl);
                            lemma_concat_lacks(port + quote(), "]"@, nl);
                            lemma_concat_lacks(
                                " [label="@ + quote(),
                                port + quote() + "]"@,
                                nl,
                            );
                        },
                        None => {},
                    }
                    lemma_concat_lacks(e.to + quote(), dot_edge_end(e.label), nl);
                    lemma_concat_lacks(
                        " -> "@ + quote(),
                        e.to + quote() + dot_edge_end(e.label),
                        nl,
                    );
                },
            }
            lemma_concat_lacks(dot_first(e) + quote(), dot_rest(e), nl);
            lemma_concat_lacks("  "@ + quote(), dot_first(e) + quote() + dot_rest(e), nl);
        },
        OutputFormat::Mermaid => {
            lemma_mermaid_form(e);
            reveal_strlit("  ");
            reveal_strlit("/");
            reveal_strlit("\\]");
            reveal_strlit("{ ");
            reveal_strlit(" }]");
            reveal_strlit("\\ ");
            reveal_strlit(" /]");
            reveal_strlit("->");
            reveal_strlit(">");
            assert(!"  "@.contains(nl));
            assert(!seq![mermaid_mark(e)].contains(nl));
            lemma_concat_lacks(mermaid_first(e), seq![mermaid_mark(e)], nl);
            match e {
                ElementView::Node(n) => {
                    match n.kind {
                        NodeKind::Source => {
                            assert(!"/"@.contains(nl));
                            assert(!"\\]"@.contains(nl));
                            lemma_concat_lacks("/"@, n.id, nl);
                            lemma_concat_lacks("/"@ + n.id, "\\]"@, nl);
                        },
                        NodeKind::Transform => {
                            assert(!"{ "@.contains(nl));
                            assert(!" }]"@.contains(nl));
                            lemma_concat_lacks("{ "@, n.id, nl);
                            lemma_concat_lacks("{ "@ + n.id, " }]"@, nl);
                        },
                        NodeKind::Sink => {
                            assert(!"\\ "@.contains(nl));
                            assert(!" /]"@.contains(nl));
                            lemma_concat_lacks("\\ "@, n.id, nl);
                            lemma_concat_lacks("\\ "@ + n.id, " /]"@, nl);
                        },
                    }
                },
                ElementView::Edge(e) => {
                    assert(!seq!['-'].contains(nl));
                    match e.label {
                        Some(port) => {
                            assert(!"->"@.contains(nl));
                            lemma_concat_lacks("->"@, e.to, nl);
                            lemma_concat_lacks(port, seq!['-'], nl);
                            lemma_concat_lacks(port + seq!['-'], "->"@ + e.to, nl);
                        },
                        None => {
                            assert(!">"@.contains(nl));
                            lemma_concat_lacks(">"@, e.to, nl);
                        },
                    }
                    lemma_concat_lacks(seq!['-'], mermaid_edge_end(e), nl);
                },
            }
            lemma_concat_lacks(
                mermaid_first(e) + seq![mermaid_mark(e)],
                mermaid_rest(e),
                nl,
            );
            lemma_concat_lacks(
                "  "@,
                mermaid_first(e) + seq![mermaid_mark(e)] + mermaid_rest(e),
                nl,
            );
        },
    }
}

/// Two texts that agree, each a run of whole lines followed by one more
/// line and its line break, agree on the run and on the last line.
proof fn lemma_last_line(x: Seq<char>, l1: Seq<char>, y: Seq<char>, l2: Seq<char>)
    requires
        x + (l1 + seq!['\n']) == y + (l2 + seq!['\n']),
        !l1.contains('\n'),
        !l2.contains('\n'),
        x.len() == 0 || x.last() == '\n',
        y.len() == 0 || y.last() == '\n',
    ensures
        x == y,
        l1 == l2,
{
    let l = x + (l1 + seq!['\n']);
    let r = y + (l2 + seq!['\n']);
    assert(l.len() == r.len());
    if l1.len() < l2.len() {
        let at = x.len() - 1;
        assert(l[at] == x.last());
        assert(r[at] == l2[at - y.len()]);
        assert(l2.contains('\n'));
    }
    if l2.len() < l1.len() {
        let at = y.len() - 1;
        assert(r[at] == y.last());
        assert(l[at] == l1[at - x.len()]);
        assert(l1.contains('\n'));
    }
    assert forall|i: int| 0 <= i < x.len() implies x[i] == y[i] by {
        assert(l[i] == x[i]);
        assert(r[i] == y[i]);
    }
    assert(x =~= y);
    assert forall|i: int| 0 <= i < l1.len() implies l1[i] == l2[i] by {
        assert(l[x.len() + i] == l1[i]);
        assert(r[x.len() + i] == l2[i]);
    }
    assert(l1 =~= l2);
}

/// The body of a graph is the body of all but its last element, then the
/// line of the last element and a line break.
proof fn lemma_body_unfolds(format: OutputFormat, graph: Seq<ElementView>)
    requires
        graph.len() > 0,
    ensures
        body(format, graph) == body(format, graph.drop_last()) + (line(format, graph.last())
            + seq!['\n']),
        body(format, graph).len() > 0,
        body(format, graph).last() == '\n',
{
    reveal_strlit("\n");
    assert("\n"@ =~= seq!['\n']);
    assert(graph =~= graph.drop_last().push(graph.last()));
    graph.drop_last().lemma_flat_map_push(|e: ElementView| statement(format, e), graph.last());
}

proof fn lemma_body_ends_lines(format: OutputFormat, graph: Seq<ElementView>)
    ensures
        body(format, graph).len() == 0 || body(format, graph).last() == '\n',
        graph.len() == 0 ==> body(format, graph).len() == 0,
{
    if graph.len() > 0 {
        lemma_body_unfolds(format, graph);
    } else {
        assert(body(format, graph) =~= Seq::<char>::empty());
    }
}

proof fn lemma_body_determines_graph(
    format: OutputFormat,
    a: Seq<ElementView>,
    b: Seq<ElementView>,
)
    requires
        all_renderable(format, a),
        all_renderable(format, b),
        body(format, a) == body(format, b),
    ensures
        a == b,
    decreases a.len(),
{
    lemma_body_ends_lines(format, a);
    lemma_body_ends_lines(format, b);
    if a.len() == 0 {
        if b.len() > 0 {
            lemma_body_unfolds(format, b);
        }
        assert(a =~= b);
    } else if b.len() == 0 {
        lemma_body_unfolds(format, a);
    } else {
        lemma_body_unfolds(format, a);
        lemma_body_unfolds(format, b);
        lemma_body_ends_lines(format, a.drop_last());
        lemma_body_ends_lines(format, b.drop_last());
        assert(renderable(format, a[a.len() - 1]));
        assert(renderable(format, b[b.len() - 1]));
        lemma_line_has_no_break(format, a.last());
        lemma_line_has_no_break(format, b.last());
        lemma_last_line(
            body(format, a.drop_last()),
            line(format, a.last()),
            body(format, b.drop_last()),
            line(format, b.last()),
        );
        lemma_line_determines_element(format, a.last(), b.last());
        assert forall|k: int| 0 <= k < a.drop_last().len() implies renderable(
            format,
            #[trigger] a.drop_last()[k],
        ) by {
            assert(a.drop_last()[k] == a[k]);
        }
        assert forall|k: int| 0 <= k < b.drop_last().len() implies renderable(
            format,
            #[trigger] b.drop_last()[k],
        ) by {
            assert(b.drop_last()[k] == b[k]);
        }
        lemma_body_determines_graph(format, a.drop_last(), b.drop_last());
        assert(a =~= a.drop_last().push(a.last()));
        assert(b =~= b.drop_last().push(b.last()));
    }
}

/// Among graphs whose names are plain, a document is the document of one
/// graph only: the text determines every node and every edge, and their
/// order.
pub proof fn lemma_document_determines_graph(
    format: OutputFormat,
    a: Seq<ElementView>,
    b: Seq<ElementView>,
)
    requires
        all_renderable(format, a),
        all_renderable(format, b),
        document(format, a) == document(format, b),
    ensures
        a == b,
{
    assert(document(format, a) =~= header(format) + (body(format, a) + footer(format)));
    assert(document(format, b) =~= header(format) + (body(format, b) + footer(format)));
    lemma_same_prefix(
        header(format),
        body(format, a) + footer(format),
        body(format, b) + footer(format),
    );
    lemma_same_suffix(body(format, a), body(format, b), footer(format));
    lemma_body_determines_graph(format, a, b);
}

/// The two dialects say the same thing in different syntax: of two graphs
/// whose names are plain in both dialects, the DOT documents are the same
/// text exactly when the Mermaid documents are, which is when the graphs
/// have the same nodes and the same edges in the same order.
pub proof fn lemma_dialects_carry_the_same_graph(a: Seq<ElementView>, b: Seq<ElementView>)
    requires
        all_renderable(OutputFormat::Dot, a),
        all_renderable(OutputFormat::Dot, b),
        all_renderable(OutputFormat::Mermaid, a),
        all_renderable(OutputFormat::Mermaid, b),
    ensures
        document(OutputFormat::Dot, a) == document(OutputFormat::Dot, b) <==> a == b,
        document(OutputFormat::Mermaid, a) == document(OutputFormat::Mermaid, b) <==> a == b,
{
    if document(OutputFormat::Dot, a) == document(OutputFormat::Dot, b) {
        lemma_document_determines_graph(OutputFormat::Dot, a, b);
    }
    if document(OutputFormat::Mermaid, a) == document(OutputFormat::Mermaid, b) {
        lemma_document_determines_graph(OutputFormat::Mermaid, a, b);
    }
}

} // verus!
