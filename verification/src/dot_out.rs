//! The boundary to the diagram-text serializer: the graph under
//! construction is an external value, so its contents are named here, each
//! builder call states what it adds, and the serializer's output is named as
//! a function of the finished contents — the serializer is trusted to be
//! deterministic.

use vstd::prelude::*;

verus! {

use crate::uml_relation::UMLRelationKind;

#[verifier::external_type_specification]
#[verifier::external_body]
pub struct ExDotGraph(dot_graph::Graph);

#[verifier::external_type_specification]
#[verifier::external_body]
pub struct ExDotSubgraph(dot_graph::Subgraph);

/// A serializer node, carried opaquely.
#[verifier::external_body]
pub struct DotNode {
    inner: dot_graph::Node,
}

/// A serializer edge, carried opaquely.
#[verifier::external_body]
pub struct DotEdge {
    inner: dot_graph::Edge,
}

/// What one serializer node holds: its name, its label, and whether it is
/// drawn as a record.
pub ghost struct DNodeD {
    pub name: Seq<char>,
    pub label: Seq<char>,
    pub shape_record: bool,
}

/// What one serializer edge holds: its endpoints and the relation kind whose
/// arrow convention it carries.
pub ghost struct DEdgeD {
    pub from: Seq<char>,
    pub to: Seq<char>,
    pub kind: UMLRelationKind,
}

/// What one subgraph cluster holds.
pub ghost struct DSubD {
    pub name: Seq<char>,
    pub label: Seq<char>,
    pub nodes: Seq<DNodeD>,
    pub edges: Seq<DEdgeD>,
}

/// What one graph under construction holds.
pub ghost struct DGraphD {
    pub name: Seq<char>,
    pub subs: Seq<DSubD>,
    pub nodes: Seq<DNodeD>,
    pub edges: Seq<DEdgeD>,
}

pub uninterp spec fn dnode_desc(n: DotNode) -> DNodeD;

pub uninterp spec fn dedge_desc(e: DotEdge) -> DEdgeD;

pub uninterp spec fn dsub_desc(s: dot_graph::Subgraph) -> DSubD;

pub uninterp spec fn dgraph_desc(g: dot_graph::Graph) -> DGraphD;

/// The serializer's output on a finished graph: a function of the graph's
/// contents alone.
pub uninterp spec fn dot_text_of(g: DGraphD) -> Seq<char>;

/// A name the serializer accepts for a node: non-empty, made of letters,
/// digits, underscores and dots, not beginning with a digit. Anything else
/// makes its constructor panic.
pub open spec fn valid_dot_name(s: Seq<char>) -> bool {
    &&& s.len() > 0
    &&& dot_name_start(s[0])
    &&& forall|i: int| 1 <= i < s.len() ==> dot_name_char(#[trigger] s[i])
}

pub open spec fn dot_name_start(c: char) -> bool {
    ||| ('a' as u32) <= (c as u32) && (c as u32) <= ('z' as u32)
    ||| ('A' as u32) <= (c as u32) && (c as u32) <= ('Z' as u32)
    ||| c == '_'
    ||| c == '.'
}

pub open spec fn dot_name_char(c: char) -> bool {
    dot_name_start(c) || (('0' as u32) <= (c as u32) && (c as u32) <= ('9' as u32))
}

/// A name the serializer accepts for a subgraph: as for a node but without
/// dots, and it must start with `cluster_`.
pub open spec fn valid_cluster_name(s: Seq<char>) -> bool {
    &&& s.len() >= 8
    &&& s.take(8) == "cluster_"@
    &&& forall|i: int| 0 <= i < s.len() ==> dot_name_char(#[trigger] s[i]) && s[i] != '.'
}

/// Relies on `dot_graph::Node::new` and `Node::label`: a fresh node with the
/// given name and label, no style, no color, no shape.
#[verifier::external_body]
pub(crate) fn dnode_plain(name: &str, label: &str) -> (r: DotNode)
    requires
        valid_dot_name(name@),
    ensures
        dnode_desc(r) == (DNodeD { name: name@, label: label@, shape_record: false }),
{
    DotNode { inner: dot_graph::Node::new(name).label(label) }
}

/// Relies on `dot_graph::Node::new`, `Node::label` and `Node::shape`: a
/// fresh node with the given name and label, drawn as a record.
#[verifier::external_body]
pub(crate) fn dnode_record(name: &str, label: &str) -> (r: DotNode)
    requires
        valid_dot_name(name@),
    ensures
        dnode_desc(r) == (DNodeD { name: name@, label: label@, shape_record: true }),
{
    DotNode { inner: dot_graph::Node::new(name).label(label).shape(Some("record")) }
}

/// Relies on `dot_graph::Edge::new` and its builder methods: one edge per
/// relation kind, in the UML arrow conventions — an open diamond tail for an
/// aggregation, a filled diamond head for a composition, a dashed open arrow
/// for a dependency, an open arrow for a one-directional association, an
/// explicit no-arrow head for a bidirectional one, and a dashed open
/// triangle for a realization.
#[verifier::external_body]
pub(crate) fn dedge_aggregation(from: &str, to: &str) -> (r: DotEdge)
    ensures
        dedge_desc(r) == (DEdgeD {
            from: from@,
            to: to@,
            kind: UMLRelationKind::UMLAggregation,
        }),
{
    DotEdge {
        inner: dot_graph::Edge::new(from, to, "").start_arrow(
            dot_graph::Arrow::from_arrow(
                dot_graph::ArrowShape::Diamond(dot_graph::Fill::Open, dot_graph::Side::Both),
            ),
        ),
    }
}

/// Relies on `dot_graph::Edge::new` and its builder methods; see
/// [`dedge_aggregation`].
#[verifier::external_body]
pub(crate) fn dedge_composition(from: &str, to: &str) -> (r: DotEdge)
    ensures
        dedge_desc(r) == (DEdgeD {
            from: from@,
            to: to@,
            kind: UMLRelationKind::UMLComposition,
        }),
{
    DotEdge {
        inner: dot_graph::Edge::new(from, to, "").end_arrow(
            dot_graph::Arrow::from_arrow(dot_graph::ArrowShape::diamond()),
        ),
    }
}

/// Relies on `dot_graph::Edge::new` and its builder methods; see
/// [`dedge_aggregation`].
#[verifier::external_body]
pub(crate) fn dedge_dependency(from: &str, to: &str) -> (r: DotEdge)
    ensures
        dedge_desc(r) == (DEdgeD { from: from@, to: to@, kind: UMLRelationKind::UMLDependency }),
{
    DotEdge {
        inner: dot_graph::Edge::new(from, to, "").style(dot_graph::Style::Dashed).end_arrow(
            dot_graph::Arrow::from_arrow(dot_graph::ArrowShape::vee()),
        ),
    }
}

/// Relies on `dot_graph::Edge::new` and its builder methods; see
/// [`dedge_aggregation`].
#[verifier::external_body]
pub(crate) fn dedge_association_uni(from: &str, to: &str) -> (r: DotEdge)
    ensures
        dedge_desc(r) == (DEdgeD {
            from: from@,
            to: to@,
            kind: UMLRelationKind::UMLAssociationUni,
        }),
{
    DotEdge {
        inner: dot_graph::Edge::new(from, to, "").end_arrow(
            dot_graph::Arrow::from_arrow(dot_graph::ArrowShape::vee()),
        ),
    }
}

/// Relies on `dot_graph::Edge::new` and its builder methods; see
/// [`dedge_aggregation`].
#[verifier::external_body]
pub(crate) fn dedge_association_bi(from: &str, to: &str) -> (r: DotEdge)
    ensures
        dedge_desc(r) == (DEdgeD {
            from: from@,
            to: to@,
            kind: UMLRelationKind::UMLAssociationBi,
        }),
{
    DotEdge { inner: dot_graph::Edge::new(from, to, "").end_arrow(dot_graph::Arrow::none()) }
}

/// Relies on `dot_graph::Edge::new` and its builder methods; see
/// [`dedge_aggregation`].
#[verifier::external_body]
pub(crate) fn dedge_realization(from: &str, to: &str) -> (r: DotEdge)
    ensures
        dedge_desc(r) == (DEdgeD {
            from: from@,
            to: to@,
            kind: UMLRelationKind::UMLRealization,
        }),
{
    DotEdge {
        inner: dot_graph::Edge::new(from, to, "").end_arrow(
            dot_graph::Arrow::from_arrow(
                dot_graph::ArrowShape::Normal(dot_graph::Fill::Open, dot_graph::Side::Both),
            ),
        ).style(dot_graph::Style::Dashed),
    }
}

/// Relies on `dot_graph::Graph::new`: a fresh, empty digraph.
#[verifier::external_body]
pub(crate) fn dgraph_new(name: &str) -> (r: dot_graph::Graph)
    ensures
        dgraph_desc(r) == (DGraphD {
            name: name@,
            subs: Seq::empty(),
            nodes: Seq::empty(),
            edges: Seq::empty(),
        }),
{
    dot_graph::Graph::new(name, dot_graph::Kind::Digraph)
}

/// Relies on `dot_graph::Graph::add_node`: appends one node.
#[verifier::external_body]
pub(crate) fn dgraph_add_node(g: &mut dot_graph::Graph, node: DotNode)
    ensures
        dgraph_desc(*final(g)) == (DGraphD {
            nodes: dgraph_desc(*old(g)).nodes.push(dnode_desc(node)),
            ..dgraph_desc(*old(g))
        }),
{
    g.add_node(node.inner)
}

/// Relies on `dot_graph::Graph::add_edge`: appends one edge.
#[verifier::external_body]
pub(crate) fn dgraph_add_edge(g: &mut dot_graph::Graph, edge: DotEdge)
    ensures
        dgraph_desc(*final(g)) == (DGraphD {
            edges: dgraph_desc(*old(g)).edges.push(dedge_desc(edge)),
            ..dgraph_desc(*old(g))
        }),
{
    g.add_edge(edge.inner)
}

/// Relies on `dot_graph::Graph::add_subgraph`: appends one subgraph cluster.
/// The call also hands the graph's own edge operator down to the subgraph,
/// which changes nothing for a digraph.
#[verifier::external_body]
pub(crate) fn dgraph_add_subgraph(g: &mut dot_graph::Graph, sub: dot_graph::Subgraph)
    ensures
        dgraph_desc(*final(g)) == (DGraphD {
            subs: dgraph_desc(*old(g)).subs.push(dsub_desc(sub)),
            ..dgraph_desc(*old(g))
        }),
{
    g.add_subgraph(sub)
}

/// Relies on `dot_graph::Subgraph::new` and `Subgraph::label`: a fresh,
/// empty, labelled cluster.
#[verifier::external_body]
pub(crate) fn dsub_new(name: &str, label: &str) -> (r: dot_graph::Subgraph)
    requires
        valid_cluster_name(name@),
    ensures
        dsub_desc(r) == (DSubD {
            name: name@,
            label: label@,
            nodes: Seq::empty(),
            edges: Seq::empty(),
        }),
{
    dot_graph::Subgraph::new(name).label(label)
}

/// Relies on `dot_graph::Subgraph::add_node`: appends one node.
#[verifier::external_body]
pub(crate) fn dsub_add_node(s: &mut dot_graph::Subgraph, node: DotNode)
    ensures
        dsub_desc(*final(s)) == (DSubD {
            nodes: dsub_desc(*old(s)).nodes.push(dnode_desc(node)),
            ..dsub_desc(*old(s))
        }),
{
    s.add_node(node.inner)
}

/// Relies on `dot_graph::Subgraph::add_edge`: appends one edge.
#[verifier::external_body]
pub(crate) fn dsub_add_edge(s: &mut dot_graph::Subgraph, edge: DotEdge)
    ensures
        dsub_desc(*final(s)) == (DSubD {
            edges: dsub_desc(*old(s)).edges.push(dedge_desc(edge)),
            ..dsub_desc(*old(s))
        }),
{
    s.add_edge(edge.inner)
}

/// Relies on `dot_graph::Graph::to_dot_string`: serializes the finished
/// graph. The serializer writes UTF-8 text into memory, so its result is
/// always available; its output depends on the graph's contents alone.
#[verifier::external_body]
pub(crate) fn dgraph_to_dot(g: &dot_graph::Graph) -> (r: String)
    ensures
        r@ == dot_text_of(dgraph_desc(*g)),
{
    match g.to_dot_string() {
        Ok(s) => s,
        Err(_) => String::new(),
    }
}

} // verus!
