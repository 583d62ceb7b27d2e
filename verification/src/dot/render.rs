//! The renderer: writes a walkable graph in DOT syntax, one statement per
//! line, indented by four spaces.

use vstd::prelude::*;

verus! {

use vstd::string::StringExecFns;
use crate::dot::edge::{EdgeTrait, EdgeV, edge_dot, edge_views};
use crate::dot::graph::{GraphWalk, Kind, kind_edgeop, kind_keyword};
use crate::dot::node::{NodeV, node_dot, node_views};
use crate::dot::graph::LabelledGraph;

/// What the renderer may be told to leave out.
#[derive(Copy, Clone, PartialEq, Eq, Structural, Debug)]
pub enum RenderOption {
    NoEdgeLabels,
    NoNodeLabels,
    NoEdgeStyles,
    NoEdgeColors,
    NoNodeStyles,
    NoNodeColors,
    NoArrows,
}

/// The default render options: none.
pub fn default_options() -> (r: Vec<RenderOption>)
    ensures
        r@ == Seq::<RenderOption>::empty(),
{
    let r: Vec<RenderOption> = vec![];
    proof {
        assert(r@ =~= Seq::<RenderOption>::empty());
    }
    r
}

/// True iff the option is among those given.
pub(crate) fn has_opt(options: &[RenderOption], o: RenderOption) -> (r: bool)
    ensures
        r == options@.contains(o),
{
    let mut i: usize = 0;
    while i < options.len()
        invariant
            i <= options@.len(),
            forall|k: int| 0 <= k < i ==> options@[k] != o,
        decreases options@.len() - i,
    {
        if options[i] == o {
            return true;
        }
        i += 1;
    }
    false
}

/// A text wrapped in double quotes.
pub open spec fn quoted(s: Seq<char>) -> Seq<char> {
    "\""@ + s + "\""@
}

/// Wraps a text in double quotes.
pub fn quote_string(s: String) -> (r: String)
    ensures
        r@ == quoted(s@),
{
    let mut q = "\"".to_owned();
    q.append(s.as_str());
    q.append("\"");
    q
}

/// Appends one indentation step: four spaces.
pub fn indent(w: &mut String)
    ensures
        final(w)@ == old(w)@ + "    "@,
{
    w.append("    ");
}

/// The node statements, one per line, indented.
pub open spec fn node_lines(ns: Seq<NodeV>, opts: Seq<RenderOption>) -> Seq<char>
    decreases ns.len(),
{
    if ns.len() == 0 {
        Seq::empty()
    } else {
        node_lines(ns.drop_last(), opts) + "    "@ + node_dot(ns.last(), opts) + "\n"@
    }
}

/// The edge statements, one per line, indented.
pub open spec fn edge_stmt_lines(es: Seq<EdgeV>, sym: Seq<char>, opts: Seq<RenderOption>) -> Seq<
    char,
>
    decreases es.len(),
{
    if es.len() == 0 {
        Seq::empty()
    } else {
        edge_stmt_lines(es.drop_last(), sym, opts) + "    "@ + edge_dot(es.last(), sym, opts)
            + "\n"@
    }
}

/// A whole graph in DOT syntax: the kind keyword and the identifier, then
/// every node statement, then every edge statement, each on its own line.
pub open spec fn spec_render(
    kind: Kind,
    id: Seq<char>,
    ns: Seq<NodeV>,
    es: Seq<EdgeV>,
    opts: Seq<RenderOption>,
) -> Seq<char> {
    kind_keyword(kind) + " "@ + id + " {\n"@ + node_lines(ns, opts) + edge_stmt_lines(
        es,
        kind_edgeop(kind),
        opts,
    ) + "}\n"@
}

/// Renders graph `g` into `w` in DOT syntax, honouring the given options.
pub fn render_opts<G: GraphWalk>(g: &G, w: &mut String, options: &[RenderOption])
    requires
        g.gw_wf(),
    ensures
        final(w)@ == old(w)@ + spec_render(
            g.spec_kind(),
            g.spec_id(),
            g.spec_nodes(),
            g.spec_edges(),
            options@,
        ),
{
    let kind = g.kind();
    w.append(kind.keyword());
    w.append(" ");
    let gid = g.graph_id();
    w.append(gid.as_slice());
    w.append(" {\n");
    let ghost head = w@;
    let nodes = g.nodes();
    let ghost nv = node_views(nodes@);
    let mut i: usize = 0;
    proof {
        assert(w@ =~= head + node_lines(nv.take(0), options@));
    }
    while i < nodes.len()
        invariant
            i <= nodes.len(),
            nv == node_views(nodes@),
            nv == g.spec_nodes(),
            w@ == head + node_lines(nv.take(i as int), options@),
        decreases nodes.len() - i,
    {
        indent(w);
        let line = nodes[i].to_dot_string(options);
        w.append(line.as_str());
        w.append("\n");
        proof {
            assert(nv[i as int] == nodes@[i as int]@);
            assert(nv.take(i + 1).drop_last() =~= nv.take(i as int));
            assert(nv.take(i + 1).last() == nv[i as int]);
            assert(w@ =~= head + node_lines(nv.take(i + 1), options@));
        }
        i += 1;
    }
    proof {
        assert(nv.take(nv.len() as int) =~= nv);
    }
    let ghost mid = w@;
    let edge_symbol = kind.edgeop();
    let edges = g.edges();
    let ghost ev = edge_views(edges@);
    let mut j: usize = 0;
    proof {
        assert(w@ =~= mid + edge_stmt_lines(ev.take(0), kind_edgeop(g.spec_kind()), options@));
    }
    while j < edges.len()
        invariant
            j <= edges.len(),
            ev == edge_views(edges@),
            ev == g.spec_edges(),
            edge_symbol@ == kind_edgeop(g.spec_kind()),
            w@ == mid + edge_stmt_lines(ev.take(j as int), kind_edgeop(g.spec_kind()), options@),
        decreases edges.len() - j,
    {
        indent(w);
        let line = edges[j].to_dot_string(edge_symbol, options);
        w.append(line.as_str());
        w.append("\n");
        proof {
            assert(ev[j as int] == edges@[j as int]@);
            assert(ev.take(j + 1).drop_last() =~= ev.take(j as int));
            assert(ev.take(j + 1).last() == ev[j as int]);
            assert(w@ =~= mid + edge_stmt_lines(
                ev.take(j + 1),
                kind_edgeop(g.spec_kind()),
                options@,
            ));
        }
        j += 1;
    }
    proof {
        assert(ev.take(ev.len() as int) =~= ev);
    }
    w.append("}\n");
    proof {
        assert(w@ =~= old(w)@ + spec_render(
            g.spec_kind(),
            g.spec_id(),
            g.spec_nodes(),
            g.spec_edges(),
            options@,
        ));
    }
}

/// Renders graph `g` into `w` in DOT syntax with the default options.
pub fn render<G: GraphWalk>(g: &G, w: &mut String)
    requires
        g.gw_wf(),
    ensures
        final(w)@ == old(w)@ + spec_render(
            g.spec_kind(),
            g.spec_id(),
            g.spec_nodes(),
            g.spec_edges(),
            Seq::empty(),
        ),
{
    let opts: [RenderOption; 0] = [];
    proof {
        assert(opts@ =~= Seq::<RenderOption>::empty());
    }
    render_opts(g, w, opts.as_slice())
}

/// Renders a labelled graph to one string.
pub fn graph_to_string(g: LabelledGraph) -> (r: Result<String, ()>)
    requires
        g.gw_wf(),
    ensures
        match r {
            Ok(s) => s@ == spec_render(
                g.spec_kind(),
                g.spec_id(),
                g.spec_nodes(),
                g.spec_edges(),
                Seq::empty(),
            ),
            Err(_) => false,
        },
{
    let mut writer = String::new();
    render(&g, &mut writer);
    proof {
        assert(Seq::<char>::empty() + spec_render(
            g.spec_kind(),
            g.spec_id(),
            g.spec_nodes(),
            g.spec_edges(),
            Seq::empty(),
        ) =~= spec_render(
            g.spec_kind(),
            g.spec_id(),
            g.spec_nodes(),
            g.spec_edges(),
            Seq::empty(),
        ));
    }
    Ok(writer)
}

} // verus!
