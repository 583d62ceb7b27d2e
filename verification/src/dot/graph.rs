//! Graph kinds and two ready-made graph shapes: a labelled graph and a
//! default-styled graph, both walkable by the renderer.

use vstd::prelude::*;

verus! {

use crate::dot::edge::{Edge, EdgeV, edge, edge_views};
use crate::dot::id::{Id, id_name, spec_id_name, valid_id};
use crate::dot::node::{Node, NodeV, node_views};
use crate::dot::style::Style;

/// Whether `digraph` or `graph` introduces the graph.
#[derive(Copy, Clone, PartialEq, Eq, Structural, Debug)]
pub enum Kind {
    Digraph,
    Graph,
}

/// The keyword introducing a graph of this kind.
pub open spec fn kind_keyword(k: Kind) -> Seq<char> {
    match k {
        Kind::Digraph => "digraph"@,
        Kind::Graph => "graph"@,
    }
}

/// The edge operator of a graph of this kind.
pub open spec fn kind_edgeop(k: Kind) -> Seq<char> {
    match k {
        Kind::Digraph => "->"@,
        Kind::Graph => "--"@,
    }
}

impl Kind {
    /// The keyword to use to introduce the graph.
    pub fn keyword(&self) -> (r: &'static str)
        ensures
            r@ == kind_keyword(*self),
    {
        match *self {
            Kind::Digraph => "digraph",
            Kind::Graph => "graph",
        }
    }

    /// The edge operator to use for this graph kind.
    pub fn edgeop(&self) -> (r: &'static str)
        ensures
            r@ == kind_edgeop(*self),
    {
        match *self {
            Kind::Digraph => "->",
            Kind::Graph => "--",
        }
    }
}

/// An abstraction over a graph made of nodes and edges, as the renderer
/// walks it.
pub trait GraphWalk {
    /// The graph can be walked: its identifier is valid.
    spec fn gw_wf(&self) -> bool;

    /// The nodes, mathematically.
    spec fn spec_nodes(&self) -> Seq<NodeV>;

    /// The edges, mathematically.
    spec fn spec_edges(&self) -> Seq<EdgeV>;

    /// The graph identifier, mathematically.
    spec fn spec_id(&self) -> Seq<char>;

    /// The graph kind, mathematically.
    spec fn spec_kind(&self) -> Kind;

    /// All the nodes in this graph.
    fn nodes(&self) -> (r: &Vec<Node>)
        ensures
            node_views(r@) == self.spec_nodes(),
    ;

    /// All the edges in this graph.
    fn edges(&self) -> (r: &Vec<Edge>)
        ensures
            edge_views(r@) == self.spec_edges(),
    ;

    /// A DOT-compatible identifier naming the graph.
    fn graph_id(&self) -> (r: Id)
        requires
            self.gw_wf(),
        ensures
            r@ == self.spec_id(),
    ;

    /// The kind of graph.
    fn kind(&self) -> (r: Kind)
        ensures
            r == self.spec_kind(),
    ;
}

/// A digraph whose nodes are labelled by an optional text each — a node
/// without one is labelled by its own generated name — and styled from an
/// optional style list.
pub struct LabelledGraph {
    pub name: String,
    pub node_styles: Vec<Style>,
    pub edges: Vec<Edge>,
    pub nodes: Vec<Node>,
}

/// The label a node gets: the given text, or the node's generated name.
pub open spec fn opt_label(o: Option<&str>, i: nat) -> Seq<char> {
    match o {
        Some(l) => l@,
        None => spec_id_name(i),
    }
}

/// The style a node gets: the given one, or none.
pub open spec fn opt_style(o: Option<Seq<Style>>, i: int) -> Style {
    match o {
        Some(s) => s[i],
        None => Style::Unstyled,
    }
}

impl LabelledGraph {
    /// A labelled digraph. A style list, when given, styles the nodes one by
    /// one and must be as long as the label list.
    pub fn new(
        name: &str,
        node_labels: Vec<Option<&str>>,
        edges: Vec<Edge>,
        node_styles: Option<Vec<Style>>,
    ) -> (r: LabelledGraph)
        requires
            match node_styles {
                Some(s) => s@.len() == node_labels@.len(),
                None => true,
            },
        ensures
            r.spec_id() == name@,
            r.spec_kind() == Kind::Digraph,
            r.spec_edges() == edge_views(edges@),
            r.spec_nodes() == Seq::new(
                node_labels@.len(),
                |i: int|
                    NodeV {
                        name: spec_id_name(i as nat),
                        label: opt_label(node_labels@[i], i as nat),
                        style: opt_style(
                            match node_styles {
                                Some(s) => Some(s@),
                                None => None,
                            },
                            i,
                        ),
                        color: None,
                        index: i as nat,
                        shape: None,
                    },
            ),
            r.gw_wf() == valid_id(name@),
    {
        let ghost styles_view: Option<Seq<Style>> = match node_styles {
            Some(ref s) => Some(s@),
            None => None,
        };
        let count = node_labels.len();
        let styles: Vec<Style> = match node_styles {
            Some(s) => s,
            None => {
                let mut v: Vec<Style> = Vec::new();
                let mut k: usize = 0;
                while k < count
                    invariant
                        k <= count,
                        v@.len() == k,
                        forall|t: int| 0 <= t < k ==> v@[t] == Style::Unstyled,
                    decreases count - k,
                {
                    v.push(Style::Unstyled);
                    k += 1;
                }
                v
            },
        };
        let mut nodes: Vec<Node> = Vec::new();
        let mut i: usize = 0;
        while i < count
            invariant
                i <= count,
                count == node_labels@.len(),
                styles@.len() == count,
                forall|t: int|
                    0 <= t < count ==> styles@[t] == opt_style(styles_view, t),
                nodes@.len() == i,
                forall|t: int|
                    0 <= t < i ==> (#[trigger] nodes@[t])@ == (NodeV {
                        name: spec_id_name(t as nat),
                        label: opt_label(node_labels@[t], t as nat),
                        style: opt_style(styles_view, t),
                        color: None,
                        index: t as nat,
                        shape: None,
                    }),
            decreases count - i,
        {
            let style = styles[i];
            let node = match node_labels[i] {
                Some(l) => Node::new(i, l, style, None),
                None => {
                    let nm = id_name(i).name();
                    Node::new(i, nm.as_str(), style, None)
                },
            };
            nodes.push(node);
            i += 1;
        }
        let r = LabelledGraph { name: name.to_owned(), node_styles: styles, edges, nodes };
        proof {
            assert(r.spec_nodes() =~= Seq::new(
                node_labels@.len(),
                |i: int|
                    NodeV {
                        name: spec_id_name(i as nat),
                        label: opt_label(node_labels@[i], i as nat),
                        style: opt_style(styles_view, i),
                        color: None,
                        index: i as nat,
                        shape: None,
                    },
            ));
        }
        r
    }
}

impl GraphWalk for LabelledGraph {
    open spec fn gw_wf(&self) -> bool {
        valid_id(self.name@)
    }

    open spec fn spec_nodes(&self) -> Seq<NodeV> {
        node_views(self.nodes@)
    }

    open spec fn spec_edges(&self) -> Seq<EdgeV> {
        edge_views(self.edges@)
    }

    open spec fn spec_id(&self) -> Seq<char> {
        self.name@
    }

    open spec fn spec_kind(&self) -> Kind {
        Kind::Digraph
    }

    fn nodes(&self) -> (r: &Vec<Node>) {
        &self.nodes
    }

    fn edges(&self) -> (r: &Vec<Edge>) {
        &self.edges
    }

    fn graph_id(&self) -> (r: Id) {
        Id::new(self.name.as_str()).unwrap()
    }

    fn kind(&self) -> (r: Kind) {
        Kind::Digraph
    }
}

/// A graph of a given kind whose nodes and edges all carry the default
/// style, nodes labelled by their generated names.
pub struct DefaultStyleGraph {
    pub name: String,
    pub edges: Vec<Edge>,
    pub kind: Kind,
    pub node_vec: Vec<Node>,
}

impl DefaultStyleGraph {
    /// A default-styled graph over `nodes` indices and the given edge pairs.
    pub fn new(name: &str, nodes: usize, edges: Vec<(usize, usize)>, kind: Kind) -> (r:
        DefaultStyleGraph)
        requires
            name@.len() > 0,
        ensures
            r.spec_id() == name@,
            r.spec_kind() == kind,
            r.spec_nodes() == Seq::new(
                nodes as nat,
                |i: int|
                    NodeV {
                        name: spec_id_name(i as nat),
                        label: spec_id_name(i as nat),
                        style: Style::Unstyled,
                        color: None,
                        index: i as nat,
                        shape: None,
                    },
            ),
            r.spec_edges() == Seq::new(
                edges@.len(),
                |i: int|
                    EdgeV {
                        from: edges@[i].0 as nat,
                        to: edges@[i].1 as nat,
                        label: ""@,
                        style: Style::Unstyled,
                        start_arrow: Seq::empty(),
                        end_arrow: Seq::empty(),
                        color: None,
                    },
            ),
            r.gw_wf() == valid_id(name@),
    {
        let mut results: Vec<Edge> = Vec::new();
        let mut i: usize = 0;
        while i < edges.len()
            invariant
                i <= edges.len(),
                results@.len() == i,
                forall|t: int|
                    0 <= t < i ==> (#[trigger] results@[t])@ == (EdgeV {
                        from: edges@[t].0 as nat,
                        to: edges@[t].1 as nat,
                        label: ""@,
                        style: Style::Unstyled,
                        start_arrow: Seq::<crate::dot::arrow::ArrowShape>::empty(),
                        end_arrow: Seq::<crate::dot::arrow::ArrowShape>::empty(),
                        color: None,
                    }),
            decreases edges.len() - i,
        {
            let (start, end) = edges[i];
            let e = edge(start, end, "", Style::Unstyled, None);
            results.push(e);
            i += 1;
        }
        let mut node_vec: Vec<Node> = Vec::new();
        let mut k: usize = 0;
        while k < nodes
            invariant
                k <= nodes,
                node_vec@.len() == k,
                forall|t: int|
                    0 <= t < k ==> (#[trigger] node_vec@[t])@ == (NodeV {
                        name: spec_id_name(t as nat),
                        label: spec_id_name(t as nat),
                        style: Style::Unstyled,
                        color: None,
                        index: t as nat,
                        shape: None,
                    }),
            decreases nodes - k,
        {
            let nm = id_name(k).name();
            let node = Node::new(k, nm.as_str(), Style::Unstyled, None);
            node_vec.push(node);
            k += 1;
        }
        let r = DefaultStyleGraph { name: name.to_owned(), edges: results, kind, node_vec };
        proof {
            assert(r.spec_nodes() =~= Seq::new(
                nodes as nat,
                |i: int|
                    NodeV {
                        name: spec_id_name(i as nat),
                        label: spec_id_name(i as nat),
                        style: Style::Unstyled,
                        color: None,
                        index: i as nat,
                        shape: None,
                    },
            ));
            assert(r.spec_edges() =~= Seq::new(
                edges@.len(),
                |i: int|
                    EdgeV {
                        from: edges@[i].0 as nat,
                        to: edges@[i].1 as nat,
                        label: ""@,
                        style: Style::Unstyled,
                        start_arrow: Seq::empty(),
                        end_arrow: Seq::empty(),
                        color: None,
                    },
            ));
        }
        r
    }
}

impl GraphWalk for DefaultStyleGraph {
    open spec fn gw_wf(&self) -> bool {
        valid_id(self.name@)
    }

    open spec fn spec_nodes(&self) -> Seq<NodeV> {
        node_views(self.node_vec@)
    }

    open spec fn spec_edges(&self) -> Seq<EdgeV> {
        edge_views(self.edges@)
    }

    open spec fn spec_id(&self) -> Seq<char> {
        self.name@
    }

    open spec fn spec_kind(&self) -> Kind {
        self.kind
    }

    fn nodes(&self) -> (r: &Vec<Node>) {
        &self.node_vec
    }

    fn edges(&self) -> (r: &Vec<Edge>) {
        &self.edges
    }

    fn graph_id(&self) -> (r: Id) {
        Id::new(self.name.as_str()).unwrap()
    }

    fn kind(&self) -> (r: Kind) {
        self.kind
    }
}

} // verus!
