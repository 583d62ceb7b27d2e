//! Rendering of a resolved graph as a Graphviz-compatible directed-graph
//! description. The plain renderer below writes the single-unit form: one
//! node per local entity, one edge per visible relation, with the UML arrow
//! conventions.

use vstd::prelude::*;

verus! {

use vstd::string::StringExecFns;
use crate::dot_out::{
    DEdgeD, DGraphD, DNodeD, DSubD, DotEdge, DotNode, dedge_aggregation, dedge_association_bi,
    dedge_association_uni, dedge_composition, dedge_dependency, dedge_desc, dedge_realization,
    dgraph_add_edge, dgraph_add_node, dgraph_add_subgraph, dgraph_desc, dgraph_new, dgraph_to_dot,
    dnode_desc, dnode_plain, dnode_record, dot_text_of, dsub_add_edge, dsub_add_node, dsub_desc,
    dsub_new, dot_name_char, valid_cluster_name, valid_dot_name,
};
use crate::text::{contains_char, join_sep, join_strings, str_views};
use crate::uml_class::{ClassV, UMLClass, UMLClassKind};
use crate::uml_fn::FnV;
use crate::uml_graph::{
    GraphV, UMLGraph, class_views, fn_views, outer_rels, rel_views, visible_fns, visible_rels,
    visible_structs,
};
use crate::uml_relation::{RelV, UMLRelationKind};

/// The node label of a class-like entity: a record of name, fields and
/// methods in Graphviz record syntax, with an `Interface` marker for
/// interfaces; a bare name when there is nothing else to show.
pub open spec fn class_label(c: ClassV) -> Seq<char> {
    if c.kind == UMLClassKind::UMLTrait {
        if c.methods.len() > 0 {
            "{"@ + "Interface\\l"@ + c.name + "|"@ + join_sep(c.methods, "\\l"@) + "}"@
        } else {
            "Interface\\l"@ + c.name
        }
    } else {
        if c.fields.len() + c.methods.len() > 0 {
            "{"@ + c.name + (if c.fields.len() > 0 {
                "|"@ + join_sep(c.fields, "\\l"@)
            } else {
                Seq::empty()
            }) + (if c.methods.len() > 0 {
                "|"@ + join_sep(c.methods, "\\l"@)
            } else {
                Seq::empty()
            }) + "}"@
        } else {
            c.name
        }
    }
}

/// The node label of a class-like entity.
pub fn class_label_of(c: &UMLClass) -> (r: String)
    ensures
        r@ == class_label(c@),
{
    let methods = c.get_method_names();
    let fields = c.get_field_names();
    let methods_str = join_strings(&methods, "\\l");
    let fields_str = join_strings(&fields, "\\l");
    if c.kind == UMLClassKind::UMLTrait {
        if methods.len() > 0 {
            let mut s = "{".to_owned();
            s.append("Interface\\l");
            s.append(c.name.as_str());
            s.append("|");
            s.append(methods_str.as_str());
            s.append("}");
            proof {
                assert(str_views(methods@).len() == c@.methods.len());
            }
            s
        } else {
            let mut s = "Interface\\l".to_owned();
            s.append(c.name.as_str());
            proof {
                assert(str_views(methods@).len() == c@.methods.len());
            }
            s
        }
    } else {
        if fields.len() > 0 || methods.len() > 0 {
            let mut s = "{".to_owned();
            s.append(c.name.as_str());
            let ghost base = s@;
            if fields.len() > 0 {
                s.append("|");
                s.append(fields_str.as_str());
                proof {
                    assert(s@ =~= base + ("|"@ + join_sep(c@.fields, "\\l"@)));
                }
            } else {
                proof {
                    assert(str_views(fields@).len() == c@.fields.len());
                    assert(s@ =~= base + Seq::<char>::empty());
                }
            }
            let ghost base2 = s@;
            if methods.len() > 0 {
                s.append("|");
                s.append(methods_str.as_str());
                proof {
                    assert(s@ =~= base2 + ("|"@ + join_sep(c@.methods, "\\l"@)));
                }
            } else {
                proof {
                    assert(str_views(methods@).len() == c@.methods.len());
                    assert(s@ =~= base2 + Seq::<char>::empty());
                }
            }
            s.append("}");
            proof {
                assert(str_views(fields@).len() == c@.fields.len());
                assert(str_views(methods@).len() == c@.methods.len());
                assert(s@ =~= class_label(c@));
            }
            s
        } else {
            proof {
                assert(str_views(fields@).len() == c@.fields.len());
                assert(str_views(methods@).len() == c@.methods.len());
            }
            c.name.clone()
        }
    }
}

/// One node statement of the plain rendering.
pub open spec fn plain_node(name: Seq<char>, label: Seq<char>, record: bool) -> Seq<char> {
    "    "@ + name + "[label=\""@ + label + "\"]"@ + (if record {
        "[shape=\"record\"]"@
    } else {
        Seq::empty()
    }) + ";\n"@
}

fn plain_node_line(name: &str, label: &str, record: bool) -> (r: String)
    ensures
        r@ == plain_node(name@, label@, record),
{
    let mut s = "    ".to_owned();
    s.append(name);
    s.append("[label=\"");
    s.append(label);
    s.append("\"]");
    if record {
        s.append("[shape=\"record\"]");
    } else {
        proof {
            assert(s@ + Seq::<char>::empty() =~= s@);
        }
    }
    s.append(";\n");
    s
}

/// The arrow attributes of one relation kind, in the UML conventions: an
/// open diamond tail for aggregation, a filled diamond head for composition,
/// a dashed open arrow for dependency, an open arrow for one-directional
/// association, no head for bidirectional association, and a dashed open
/// triangle for realization.
pub open spec fn plain_edge_attrs(k: UMLRelationKind) -> Seq<char> {
    match k {
        UMLRelationKind::UMLDependency => "[style=\"dashed\"][arrowhead=\"vee\"]"@,
        UMLRelationKind::UMLAssociationUni => "[arrowhead=\"vee\"]"@,
        UMLRelationKind::UMLAssociationBi => "[arrowhead=\"none\"]"@,
        UMLRelationKind::UMLAggregation => "[arrowtail=\"odiamond\"]"@,
        UMLRelationKind::UMLComposition => "[arrowhead=\"diamond\"]"@,
        UMLRelationKind::UMLRealization => "[style=\"dashed\"][arrowhead=\"onormal\"]"@,
    }
}

/// One edge statement of the plain rendering.
pub open spec fn plain_edge(r: RelV) -> Seq<char> {
    "    "@ + r.from + " -> "@ + r.to + "[label=\"\"]"@ + plain_edge_attrs(r.kind) + ";\n"@
}

fn plain_edge_line(from: &str, to: &str, kind: UMLRelationKind) -> (r: String)
    ensures
        r@ == plain_edge(RelV { from: from@, to: to@, kind }),
{
    let mut s = "    ".to_owned();
    s.append(from);
    s.append(" -> ");
    s.append(to);
    s.append("[label=\"\"]");
    match kind {
        UMLRelationKind::UMLDependency => s.append("[style=\"dashed\"][arrowhead=\"vee\"]"),
        UMLRelationKind::UMLAssociationUni => s.append("[arrowhead=\"vee\"]"),
        UMLRelationKind::UMLAssociationBi => s.append("[arrowhead=\"none\"]"),
        UMLRelationKind::UMLAggregation => s.append("[arrowtail=\"odiamond\"]"),
        UMLRelationKind::UMLComposition => s.append("[arrowhead=\"diamond\"]"),
        UMLRelationKind::UMLRealization => s.append("[style=\"dashed\"][arrowhead=\"onormal\"]"),
    }
    s.append(";\n");
    s
}

/// The node statements of the local type entities, in order.
pub open spec fn struct_nodes(cs: Seq<ClassV>) -> Seq<char>
    decreases cs.len(),
{
    if cs.len() == 0 {
        Seq::empty()
    } else {
        struct_nodes(cs.drop_last()) + plain_node(cs.last().name, class_label(cs.last()), true)
    }
}

/// The node statements of the local functions, labelled by their bare name.
pub open spec fn fn_nodes(fs: Seq<FnV>) -> Seq<char>
    decreases fs.len(),
{
    if fs.len() == 0 {
        Seq::empty()
    } else {
        fn_nodes(fs.drop_last()) + plain_node(fs.last().name, fs.last().name, false)
    }
}

/// The edge statements of the visible relations, in order.
pub open spec fn edge_lines(rs: Seq<RelV>) -> Seq<char>
    decreases rs.len(),
{
    if rs.len() == 0 {
        Seq::empty()
    } else {
        edge_lines(rs.drop_last()) + plain_edge(rs.last())
    }
}

/// The plain single-unit rendering of a graph: local type nodes, then local
/// function nodes, then the visible relation edges, inside `digraph ast`.
pub open spec fn plain_digraph(g: GraphV) -> Seq<char> {
    "digraph ast {\n"@ + struct_nodes(visible_structs(g)) + fn_nodes(visible_fns(g)) + edge_lines(
        visible_rels(g),
    ) + "}\n"@
}

/// Renders a graph as a plain single-unit Graphviz description.
pub fn to_plain_digraph(g: &UMLGraph) -> (r: String)
    ensures
        r@ == plain_digraph(g@),
{
    let mut out = "digraph ast {\n".to_owned();
    let ghost head = out@;
    let ss = g.structs();
    let ghost sv = class_views(ss@);
    let mut i: usize = 0;
    proof {
        assert(out@ =~= head + struct_nodes(sv.take(0)));
    }
    while i < ss.len()
        invariant
            i <= ss.len(),
            sv == class_views(ss@),
            sv == visible_structs(g@),
            out@ == head + struct_nodes(sv.take(i as int)),
        decreases ss.len() - i,
    {
        let ghost pre = out@;
        let label = class_label_of(&ss[i]);
        let line = plain_node_line(ss[i].name.as_str(), label.as_str(), true);
        out.append(line.as_str());
        proof {
            assert(sv[i as int] == ss@[i as int]@);
            assert(sv.take(i + 1).drop_last() =~= sv.take(i as int));
            assert(sv.take(i + 1).last() == sv[i as int]);
            assert(struct_nodes(sv.take(i + 1)) == struct_nodes(sv.take(i as int)) + plain_node(
                sv[i as int].name,
                class_label(sv[i as int]),
                true,
            ));
            assert(out@ =~= head + struct_nodes(sv.take(i + 1)));
        }
        i += 1;
    }
    proof {
        assert(sv.take(sv.len() as int) =~= sv);
    }
    let ghost head2 = out@;
    let fs = g.fns();
    let ghost fv = fn_views(fs@);
    let mut j: usize = 0;
    proof {
        assert(out@ =~= head2 + fn_nodes(fv.take(0)));
    }
    while j < fs.len()
        invariant
            j <= fs.len(),
            fv == fn_views(fs@),
            fv == visible_fns(g@),
            out@ == head2 + fn_nodes(fv.take(j as int)),
        decreases fs.len() - j,
    {
        let ghost pre = out@;
        let line = plain_node_line(fs[j].name.as_str(), fs[j].name.as_str(), false);
        out.append(line.as_str());
        proof {
            assert(fv[j as int] == fs@[j as int]@);
            assert(fv.take(j + 1).drop_last() =~= fv.take(j as int));
            assert(fv.take(j + 1).last() == fv[j as int]);
            assert(fn_nodes(fv.take(j + 1)) == fn_nodes(fv.take(j as int)) + plain_node(
                fv[j as int].name,
                fv[j as int].name,
                false,
            ));
            assert(out@ =~= head2 + fn_nodes(fv.take(j + 1)));
        }
        j += 1;
    }
    proof {
        assert(fv.take(fv.len() as int) =~= fv);
    }
    let ghost head3 = out@;
    let rs = g.relations();
    let ghost rv = rel_views(rs@);
    let mut k: usize = 0;
    proof {
        assert(out@ =~= head3 + edge_lines(rv.take(0)));
    }
    while k < rs.len()
        invariant
            k <= rs.len(),
            rv == rel_views(rs@),
            rv == visible_rels(g@),
            out@ == head3 + edge_lines(rv.take(k as int)),
        decreases rs.len() - k,
    {
        let line = plain_edge_line(rs[k].from.as_str(), rs[k].to.as_str(), rs[k].kind);
        out.append(line.as_str());
        proof {
            assert(rv[k as int] == rs@[k as int]@);
            assert(rv.take(k + 1).drop_last() =~= rv.take(k as int));
            assert(rv.take(k + 1).last() == rv[k as int]);
            assert(edge_lines(rv.take(k + 1)) == edge_lines(rv.take(k as int)) + plain_edge(
                rv[k as int],
            ));
            assert(out@ =~= head3 + edge_lines(rv.take(k + 1)));
        }
        k += 1;
    }
    proof {
        assert(rv.take(rv.len() as int) =~= rv);
    }
    out.append("}\n");
    proof {
        assert(out@ =~= plain_digraph(g@));
    }
    out
}

/// One entity handed to the serializer: a node or an edge.
pub enum DotEntity {
    Edge(DotEdge),
    Node(DotNode),
}

/// The mathematical value of one serializer entity.
pub ghost enum DotEntityV {
    Edge(DEdgeD),
    Node(DNodeD),
}

impl View for DotEntity {
    type V = DotEntityV;

    open spec fn view(&self) -> DotEntityV {
        match self {
            DotEntity::Edge(e) => DotEntityV::Edge(dedge_desc(*e)),
            DotEntity::Node(n) => DotEntityV::Node(dnode_desc(*n)),
        }
    }
}

/// The views of a list of serializer entities.
pub open spec fn dent_views(es: Seq<DotEntity>) -> Seq<DotEntityV> {
    es.map_values(|e: DotEntity| e@)
}

/// The node descriptions of a list of serializer nodes.
pub open spec fn dnode_descs(ns: Seq<DotNode>) -> Seq<DNodeD> {
    ns.map_values(|n: DotNode| dnode_desc(n))
}

/// The edge descriptions of a list of serializer edges.
pub open spec fn dedge_descs(es: Seq<DotEdge>) -> Seq<DEdgeD> {
    es.map_values(|e: DotEdge| dedge_desc(e))
}

/// The nodes among a list of entities, in order.
pub open spec fn nodes_of_entities(es: Seq<DotEntityV>) -> Seq<DNodeD>
    decreases es.len(),
{
    if es.len() == 0 {
        Seq::empty()
    } else {
        nodes_of_entities(es.drop_last()) + (match es.last() {
            DotEntityV::Node(n) => seq![n],
            DotEntityV::Edge(_) => Seq::<DNodeD>::empty(),
        })
    }
}

/// The edges among a list of entities, in order.
pub open spec fn edges_of_entities(es: Seq<DotEntityV>) -> Seq<DEdgeD>
    decreases es.len(),
{
    if es.len() == 0 {
        Seq::empty()
    } else {
        edges_of_entities(es.drop_last()) + (match es.last() {
            DotEntityV::Edge(e) => seq![e],
            DotEntityV::Node(_) => Seq::<DEdgeD>::empty(),
        })
    }
}

/// Splits a list of entities into the nodes and the edges the serializer can
/// take, keeping each category's order.
pub fn get_node_and_edge_list(dot_entities: Vec<DotEntity>) -> (r: (Vec<DotNode>, Vec<DotEdge>))
    ensures
        dnode_descs(r.0@) == nodes_of_entities(dent_views(dot_entities@)),
        dedge_descs(r.1@) == edges_of_entities(dent_views(dot_entities@)),
{
    let ghost dv = dent_views(dot_entities@);
    let mut edge_list: Vec<DotEdge> = Vec::new();
    let mut node_list: Vec<DotNode> = Vec::new();
    let mut ents = dot_entities;
    let ghost total = dv.len();
    proof {
        assert(dv.skip(0) =~= dv);
        assert(dnode_descs(node_list@) =~= nodes_of_entities(dv.take(0)));
        assert(dedge_descs(edge_list@) =~= edges_of_entities(dv.take(0)));
    }
    while ents.len() > 0
        invariant
            ents@.len() <= total,
            total == dv.len(),
            dent_views(ents@) == dv.skip(total - ents@.len()),
            dnode_descs(node_list@) == nodes_of_entities(dv.take(total - ents@.len())),
            dedge_descs(edge_list@) == edges_of_entities(dv.take(total - ents@.len())),
        decreases ents.len(),
    {
        let ghost i = total - ents@.len();
        let ghost prev = ents@;
        let ent = ents.remove(0);
        proof {
            assert(dent_views(prev)[0] == dv.skip(i)[0]);
            assert(ent@ == dv[i]);
            assert forall|x: int| 0 <= x < ents@.len() implies #[trigger] dent_views(ents@)[x]
                == dv.skip(i + 1)[x] by {
                assert(ents@[x] == prev[x + 1]);
                assert(dent_views(prev)[x + 1] == dv.skip(i)[x + 1]);
                assert(dv.skip(i)[x + 1] == dv[i + 1 + x]);
            }
            assert(dent_views(ents@) =~= dv.skip(i + 1));
            assert(dv.take(i + 1).drop_last() =~= dv.take(i));
            assert(dv.take(i + 1).last() == dv[i]);
        }
        let ghost pre_nodes = node_list@;
        let ghost pre_edges = edge_list@;
        match ent {
            DotEntity::Edge(ent_edge) => {
                edge_list.push(ent_edge);
                proof {
                    assert(dedge_descs(edge_list@) =~= dedge_descs(pre_edges).push(
                        dedge_desc(ent_edge),
                    ));
                    assert(dv[i] == DotEntityV::Edge(dedge_desc(ent_edge)));
                    assert(dedge_descs(edge_list@) =~= edges_of_entities(dv.take(i + 1)));
                    assert(dnode_descs(node_list@) =~= nodes_of_entities(dv.take(i + 1)));
                }
            },
            DotEntity::Node(node) => {
                node_list.push(node);
                proof {
                    assert(dnode_descs(node_list@) =~= dnode_descs(pre_nodes).push(
                        dnode_desc(node),
                    ));
                    assert(dv[i] == DotEntityV::Node(dnode_desc(node)));
                    assert(dnode_descs(node_list@) =~= nodes_of_entities(dv.take(i + 1)));
                    assert(dedge_descs(edge_list@) =~= edges_of_entities(dv.take(i + 1)));
                }
            },
        }
    }
    proof {
        assert(dv.take(total as int) =~= dv);
    }
    (node_list, edge_list)
}

/// A name as the serializer shows it: an already-qualified name (one with a
/// dot) stays as it is, any other gets the module prefix.
pub open spec fn pref_name(prefix: Seq<char>, n: Seq<char>) -> Seq<char> {
    if n.contains('.') {
        n
    } else {
        prefix + n
    }
}

/// The serializer nodes of one graph: one record node per local type, one
/// plain node per local function, names prefixed.
pub open spec fn dnodes_of(g: GraphV, prefix: Seq<char>) -> Seq<DNodeD> {
    visible_structs(g).map_values(
        |c: ClassV|
            DNodeD { name: pref_name(prefix, c.name), label: class_label(c), shape_record: true },
    ) + visible_fns(g).map_values(
        |f: FnV| DNodeD { name: pref_name(prefix, f.name), label: f.name, shape_record: false },
    )
}

/// One serializer edge for one relation, endpoints prefixed.
pub open spec fn dedge_of(prefix: Seq<char>, r: RelV) -> DEdgeD {
    DEdgeD { from: pref_name(prefix, r.from), to: pref_name(prefix, r.to), kind: r.kind }
}

/// The serializer edges of one graph: its in-scope relations, then its
/// scope-qualified cross-module relations.
pub open spec fn dedges_of(g: GraphV, prefix: Seq<char>) -> Seq<DEdgeD> {
    visible_rels(g).map_values(|r: RelV| dedge_of(prefix, r)) + outer_rels(g).map_values(
        |r: RelV| dedge_of(prefix, r),
    )
}

/// Every node name the serializer would build for this graph is one it
/// accepts.
pub open spec fn node_names_ok(g: GraphV, prefix: Seq<char>) -> bool {
    &&& forall|i: int|
        0 <= i < visible_structs(g).len() ==> valid_dot_name(
            pref_name(prefix, (#[trigger] visible_structs(g)[i]).name),
        )
    &&& forall|i: int|
        0 <= i < visible_fns(g).len() ==> valid_dot_name(
            pref_name(prefix, (#[trigger] visible_fns(g)[i]).name),
        )
}

/// The graph and its child modules can be handed to the serializer: every
/// node name and every cluster name is one the serializer accepts.
pub open spec fn renderable(g: &UMLGraph) -> bool {
    &&& node_names_ok(g@, Seq::empty())
    &&& forall|k: int|
        0 <= k < g.spec_modules().len() ==> {
            let m = #[trigger] g.spec_modules()[k];
            &&& valid_cluster_name("cluster_"@ + m@.name)
            &&& node_names_ok(m@, m@.name + seq!['.'])
        }
}

/// One cluster per child module: its nodes and edges, names prefixed by the
/// module's own name.
pub open spec fn module_sub(m: UMLGraph) -> DSubD {
    DSubD {
        name: "cluster_"@ + m@.name,
        label: m@.name,
        nodes: dnodes_of(m@, m@.name + seq!['.']),
        edges: dedges_of(m@, m@.name + seq!['.']),
    }
}

/// What the serializer is handed for a whole module graph: the graph's own
/// entities unprefixed, and one labelled cluster per child module.
pub open spec fn expected_dot_desc(g: &UMLGraph) -> DGraphD {
    DGraphD {
        name: "ast"@,
        subs: g.spec_modules().map_values(|m: UMLGraph| module_sub(m)),
        nodes: dnodes_of(g@, Seq::empty()),
        edges: dedges_of(g@, Seq::empty()),
    }
}

/// The prefixed form of a name.
fn prefixed(prefix: &str, n: &str) -> (r: String)
    ensures
        r@ == pref_name(prefix@, n@),
{
    if contains_char(n, '.') {
        n.to_owned()
    } else {
        let mut s = prefix.to_owned();
        s.append(n);
        s
    }
}

/// The serializer edge of one relation.
fn dedge_for(from: &str, to: &str, kind: UMLRelationKind) -> (r: DotEdge)
    ensures
        dedge_desc(r) == (DEdgeD { from: from@, to: to@, kind }),
{
    match kind {
        UMLRelationKind::UMLAggregation => dedge_aggregation(from, to),
        UMLRelationKind::UMLComposition => dedge_composition(from, to),
        UMLRelationKind::UMLDependency => dedge_dependency(from, to),
        UMLRelationKind::UMLAssociationUni => dedge_association_uni(from, to),
        UMLRelationKind::UMLAssociationBi => dedge_association_bi(from, to),
        UMLRelationKind::UMLRealization => dedge_realization(from, to),
    }
}

/// The serializer nodes and edges of one graph, names prefixed.
fn collect_dot_parts(g: &UMLGraph, prefix: &str) -> (r: (Vec<DotNode>, Vec<DotEdge>))
    requires
        node_names_ok(g@, prefix@),
    ensures
        dnode_descs(r.0@) == dnodes_of(g@, prefix@),
        dedge_descs(r.1@) == dedges_of(g@, prefix@),
{
    let ghost sv = visible_structs(g@);
    let ghost fv = visible_fns(g@);
    let ghost rv = visible_rels(g@);
    let ghost ov = outer_rels(g@);
    let ghost snodes = sv.map_values(
        |c: ClassV|
            DNodeD { name: pref_name(prefix@, c.name), label: class_label(c), shape_record: true },
    );
    let ghost fnodes = fv.map_values(
        |f: FnV| DNodeD { name: pref_name(prefix@, f.name), label: f.name, shape_record: false },
    );
    let mut nodes: Vec<DotNode> = Vec::new();
    let ss = g.structs();
    let mut i: usize = 0;
    proof {
        assert(dnode_descs(nodes@) =~= snodes.take(0));
    }
    while i < ss.len()
        invariant
            i <= ss.len(),
            class_views(ss@) == sv,
            snodes == sv.map_values(
                |c: ClassV|
                    DNodeD {
                        name: pref_name(prefix@, c.name),
                        label: class_label(c),
                        shape_record: true,
                    },
            ),
            node_names_ok(g@, prefix@),
            sv == visible_structs(g@),
            dnode_descs(nodes@) == snodes.take(i as int),
        decreases ss.len() - i,
    {
        let name = prefixed(prefix, ss[i].name.as_str());
        let label = class_label_of(&ss[i]);
        proof {
            assert(ss@[i as int]@ == sv[i as int]);
            assert(valid_dot_name(pref_name(prefix@, sv[i as int].name)));
        }
        let ghost pre = nodes@;
        let node = dnode_record(name.as_str(), label.as_str());
        nodes.push(node);
        proof {
            assert(dnode_desc(node) == snodes[i as int]);
            assert(dnode_descs(nodes@) =~= dnode_descs(pre).push(snodes[i as int]));
            assert(snodes.take(i + 1) =~= snodes.take(i as int).push(snodes[i as int]));
        }
        i += 1;
    }
    proof {
        assert(snodes.take(snodes.len() as int) =~= snodes);
    }
    let fs = g.fns();
    let mut j: usize = 0;
    proof {
        assert(dnode_descs(nodes@) + fnodes.take(0) =~= dnode_descs(nodes@));
    }
    while j < fs.len()
        invariant
            j <= fs.len(),
            fn_views(fs@) == fv,
            fnodes == fv.map_values(
                |f: FnV|
                    DNodeD {
                        name: pref_name(prefix@, f.name),
                        label: f.name,
                        shape_record: false,
                    },
            ),
            node_names_ok(g@, prefix@),
            fv == visible_fns(g@),
            dnode_descs(nodes@) == snodes + fnodes.take(j as int),
        decreases fs.len() - j,
    {
        let name = prefixed(prefix, fs[j].name.as_str());
        proof {
            assert(fs@[j as int]@ == fv[j as int]);
            assert(valid_dot_name(pref_name(prefix@, fv[j as int].name)));
        }
        let ghost pre = nodes@;
        let node = dnode_plain(name.as_str(), fs[j].name.as_str());
        nodes.push(node);
        proof {
            assert(dnode_desc(node) == fnodes[j as int]);
            assert(dnode_descs(nodes@) =~= dnode_descs(pre).push(fnodes[j as int]));
            assert(snodes + fnodes.take(j + 1) =~= (snodes + fnodes.take(j as int)).push(
                fnodes[j as int],
            ));
        }
        j += 1;
    }
    proof {
        assert(fnodes.take(fnodes.len() as int) =~= fnodes);
        assert(snodes + fnodes =~= dnodes_of(g@, prefix@));
    }
    let ghost redges = rv.map_values(|r: RelV| dedge_of(prefix@, r));
    let ghost oedges = ov.map_values(|r: RelV| dedge_of(prefix@, r));
    let mut edges: Vec<DotEdge> = Vec::new();
    let rs = g.relations();
    let mut k: usize = 0;
    proof {
        assert(dedge_descs(edges@) =~= redges.take(0));
    }
    while k < rs.len()
        invariant
            k <= rs.len(),
            rel_views(rs@) == rv,
            redges == rv.map_values(|r: RelV| dedge_of(prefix@, r)),
            dedge_descs(edges@) == redges.take(k as int),
        decreases rs.len() - k,
    {
        let from = prefixed(prefix, rs[k].from.as_str());
        let to = prefixed(prefix, rs[k].to.as_str());
        proof {
            assert(rs@[k as int]@ == rv[k as int]);
        }
        let ghost pre = edges@;
        let e = dedge_for(from.as_str(), to.as_str(), rs[k].kind);
        edges.push(e);
        proof {
            assert(dedge_desc(e) == redges[k as int]);
            assert(dedge_descs(edges@) =~= dedge_descs(pre).push(redges[k as int]));
            assert(redges.take(k + 1) =~= redges.take(k as int).push(redges[k as int]));
        }
        k += 1;
    }
    proof {
        assert(redges.take(redges.len() as int) =~= redges);
    }
    let os = g.outer_relations();
    let mut t: usize = 0;
    proof {
        assert(dedge_descs(edges@) + oedges.take(0) =~= dedge_descs(edges@));
    }
    while t < os.len()
        invariant
            t <= os.len(),
            rel_views(os@) == ov,
            oedges == ov.map_values(|r: RelV| dedge_of(prefix@, r)),
            dedge_descs(edges@) == redges + oedges.take(t as int),
        decreases os.len() - t,
    {
        let from = prefixed(prefix, os[t].from.as_str());
        let to = prefixed(prefix, os[t].to.as_str());
        proof {
            assert(os@[t as int]@ == ov[t as int]);
        }
        let ghost pre = edges@;
        let e = dedge_for(from.as_str(), to.as_str(), os[t].kind);
        edges.push(e);
        proof {
            assert(dedge_desc(e) == oedges[t as int]);
            assert(dedge_descs(edges@) =~= dedge_descs(pre).push(oedges[t as int]));
            assert(redges + oedges.take(t + 1) =~= (redges + oedges.take(t as int)).push(
                oedges[t as int],
            ));
        }
        t += 1;
    }
    proof {
        assert(oedges.take(oedges.len() as int) =~= oedges);
        assert(redges + oedges =~= dedges_of(g@, prefix@));
    }
    (nodes, edges)
}

/// Hands every node of the list to the graph, in order.
fn add_nodes_to_graph(g: &mut dot_graph::Graph, nodes: Vec<DotNode>)
    ensures
        dgraph_desc(*final(g)) == (DGraphD {
            nodes: dgraph_desc(*old(g)).nodes + dnode_descs(nodes@),
            ..dgraph_desc(*old(g))
        }),
{
    let ghost full = dnode_descs(nodes@);
    let ghost base = dgraph_desc(*g);
    let mut rest = nodes;
    proof {
        assert(full.skip(0) =~= full);
        assert(base.nodes + full.take(0) =~= base.nodes);
        assert(dgraph_desc(*g) =~= (DGraphD { nodes: base.nodes + full.take(0), ..base }));
    }
    while rest.len() > 0
        invariant
            rest@.len() <= full.len(),
            dnode_descs(rest@) == full.skip(full.len() - rest@.len()),
            dgraph_desc(*g) == (DGraphD { nodes: base.nodes + full.take(full.len() - rest@.len()), ..base }),
        decreases rest.len(),
    {
        let ghost j = full.len() - rest@.len();
        let ghost prev = rest@;
        let n = rest.remove(0);
        proof {
            assert(dnode_descs(prev)[0] == full.skip(j)[0]);
            assert(dnode_desc(n) == full[j]);
            assert forall|x: int| 0 <= x < rest@.len() implies #[trigger] dnode_descs(rest@)[x]
                == full.skip(j + 1)[x] by {
                assert(rest@[x] == prev[x + 1]);
                assert(dnode_descs(prev)[x + 1] == full.skip(j)[x + 1]);
                assert(full.skip(j)[x + 1] == full[j + 1 + x]);
            }
            assert(dnode_descs(rest@) =~= full.skip(j + 1));
        }
        dgraph_add_node(g, n);
        proof {
            assert((base.nodes + full.take(j)).push(full[j]) =~= base.nodes
                + full.take(j + 1));
        }
    }
    proof {
        assert(full.take(full.len() as int) =~= full);
    }
}

/// Hands every edge of the list to the graph, in order.
fn add_edges_to_graph(g: &mut dot_graph::Graph, edges: Vec<DotEdge>)
    ensures
        dgraph_desc(*final(g)) == (DGraphD {
            edges: dgraph_desc(*old(g)).edges + dedge_descs(edges@),
            ..dgraph_desc(*old(g))
        }),
{
    let ghost full = dedge_descs(edges@);
    let ghost base = dgraph_desc(*g);
    let mut rest = edges;
    proof {
        assert(full.skip(0) =~= full);
        assert(base.edges + full.take(0) =~= base.edges);
        assert(dgraph_desc(*g) =~= (DGraphD { edges: base.edges + full.take(0), ..base }));
    }
    while rest.len() > 0
        invariant
            rest@.len() <= full.len(),
            dedge_descs(rest@) == full.skip(full.len() - rest@.len()),
            dgraph_desc(*g) == (DGraphD { edges: base.edges + full.take(full.len() - rest@.len()), ..base }),
        decreases rest.len(),
    {
        let ghost j = full.len() - rest@.len();
        let ghost prev = rest@;
        let e = rest.remove(0);
        proof {
            assert(dedge_descs(prev)[0] == full.skip(j)[0]);
            assert(dedge_desc(e) == full[j]);
            assert forall|x: int| 0 <= x < rest@.len() implies #[trigger] dedge_descs(rest@)[x]
                == full.skip(j + 1)[x] by {
                assert(rest@[x] == prev[x + 1]);
                assert(dedge_descs(prev)[x + 1] == full.skip(j)[x + 1]);
                assert(full.skip(j)[x + 1] == full[j + 1 + x]);
            }
            assert(dedge_descs(rest@) =~= full.skip(j + 1));
        }
        dgraph_add_edge(g, e);
        proof {
            assert((base.edges + full.take(j)).push(full[j]) =~= base.edges
                + full.take(j + 1));
        }
    }
    proof {
        assert(full.take(full.len() as int) =~= full);
    }
}

/// Hands every node of the list to the cluster, in order.
fn add_nodes_to_sub(s: &mut dot_graph::Subgraph, nodes: Vec<DotNode>)
    ensures
        dsub_desc(*final(s)) == (DSubD {
            nodes: dsub_desc(*old(s)).nodes + dnode_descs(nodes@),
            ..dsub_desc(*old(s))
        }),
{
    let ghost full = dnode_descs(nodes@);
    let ghost base = dsub_desc(*s);
    let mut rest = nodes;
    proof {
        assert(full.skip(0) =~= full);
        assert(base.nodes + full.take(0) =~= base.nodes);
        assert(dsub_desc(*s) =~= (DSubD { nodes: base.nodes + full.take(0), ..base }));
    }
    while rest.len() > 0
        invariant
            rest@.len() <= full.len(),
            dnode_descs(rest@) == full.skip(full.len() - rest@.len()),
            dsub_desc(*s) == (DSubD { nodes: base.nodes + full.take(full.len() - rest@.len()), ..base }),
        decreases rest.len(),
    {
        let ghost j = full.len() - rest@.len();
        let ghost prev = rest@;
        let n = rest.remove(0);
        proof {
            assert(dnode_descs(prev)[0] == full.skip(j)[0]);
            assert(dnode_desc(n) == full[j]);
            assert forall|x: int| 0 <= x < rest@.len() implies #[trigger] dnode_descs(rest@)[x]
                == full.skip(j + 1)[x] by {
                assert(rest@[x] == prev[x + 1]);
                assert(dnode_descs(prev)[x + 1] == full.skip(j)[x + 1]);
                assert(full.skip(j)[x + 1] == full[j + 1 + x]);
            }
            assert(dnode_descs(rest@) =~= full.skip(j + 1));
        }
        dsub_add_node(s, n);
        proof {
            assert((base.nodes + full.take(j)).push(full[j]) =~= base.nodes
                + full.take(j + 1));
        }
    }
    proof {
        assert(full.take(full.len() as int) =~= full);
    }
}

/// Hands every edge of the list to the cluster, in order.
fn add_edges_to_sub(s: &mut dot_graph::Subgraph, edges: Vec<DotEdge>)
    ensures
        dsub_desc(*final(s)) == (DSubD {
            edges: dsub_desc(*old(s)).edges + dedge_descs(edges@),
            ..dsub_desc(*old(s))
        }),
{
    let ghost full = dedge_descs(edges@);
    let ghost base = dsub_desc(*s);
    let mut rest = edges;
    proof {
        assert(full.skip(0) =~= full);
        assert(base.edges + full.take(0) =~= base.edges);
        assert(dsub_desc(*s) =~= (DSubD { edges: base.edges + full.take(0), ..base }));
    }
    while rest.len() > 0
        invariant
            rest@.len() <= full.len(),
            dedge_descs(rest@) == full.skip(full.len() - rest@.len()),
            dsub_desc(*s) == (DSubD { edges: base.edges + full.take(full.len() - rest@.len()), ..base }),
        decreases rest.len(),
    {
        let ghost j = full.len() - rest@.len();
        let ghost prev = rest@;
        let e = rest.remove(0);
        proof {
            assert(dedge_descs(prev)[0] == full.skip(j)[0]);
            assert(dedge_desc(e) == full[j]);
            assert forall|x: int| 0 <= x < rest@.len() implies #[trigger] dedge_descs(rest@)[x]
                == full.skip(j + 1)[x] by {
                assert(rest@[x] == prev[x + 1]);
                assert(dedge_descs(prev)[x + 1] == full.skip(j)[x + 1]);
                assert(full.skip(j)[x + 1] == full[j + 1 + x]);
            }
            assert(dedge_descs(rest@) =~= full.skip(j + 1));
        }
        dsub_add_edge(s, e);
        proof {
            assert((base.edges + full.take(j)).push(full[j]) =~= base.edges
                + full.take(j + 1));
        }
    }
    proof {
        assert(full.take(full.len() as int) =~= full);
    }
}


/// True iff the serializer accepts `s` as a node name.
fn check_dot_name(s: &str) -> (r: bool)
    ensures
        r == valid_dot_name(s@),
{
    let len = s.unicode_len();
    if len == 0 {
        return false;
    }
    let c0 = s.get_char(0);
    let c0u = c0 as u32;
    let start_ok = (('a' as u32) <= c0u && c0u <= ('z' as u32)) || (('A' as u32) <= c0u && c0u <= (
    'Z' as u32)) || c0 == '_' || c0 == '.';
    if !start_ok {
        return false;
    }
    let mut i: usize = 1;
    while i < len
        invariant
            1 <= i <= len,
            len == s@.len(),
            forall|j: int| 1 <= j < i ==> dot_name_char(#[trigger] s@[j]),
        decreases len - i,
    {
        let c = s.get_char(i);
        let cu = c as u32;
        let ok = (('a' as u32) <= cu && cu <= ('z' as u32)) || (('A' as u32) <= cu && cu <= ('Z'
            as u32)) || c == '_' || c == '.' || (('0' as u32) <= cu && cu <= ('9' as u32));
        if !ok {
            return false;
        }
        i += 1;
    }
    true
}

/// True iff the serializer accepts `s` as a subgraph name.
fn check_cluster_name(s: &str) -> (r: bool)
    ensures
        r == valid_cluster_name(s@),
{
    proof {
        reveal_strlit("cluster_");
    }
    let len = s.unicode_len();
    if len < 8 {
        return false;
    }
    let head_ok = s.get_char(0) == 'c' && s.get_char(1) == 'l' && s.get_char(2) == 'u'
        && s.get_char(3) == 's' && s.get_char(4) == 't' && s.get_char(5) == 'e' && s.get_char(6)
        == 'r' && s.get_char(7) == '_';
    if !head_ok {
        proof {
            if s@.take(8) == "cluster_"@ {
                assert forall|j: int| 0 <= j < 8 implies s@[j] == "cluster_"@[j] by {
                    assert(s@.take(8)[j] == s@[j]);
                }
                assert(false);
            }
        }
        return false;
    }
    proof {
        assert forall|j: int| 0 <= j < 8 implies s@.take(8)[j] == "cluster_"@[j] by {
            assert(s@.take(8)[j] == s@[j]);
        }
        assert(s@.take(8) =~= "cluster_"@);
    }
    let mut i: usize = 0;
    while i < len
        invariant
            i <= len,
            len == s@.len(),
            forall|j: int| 0 <= j < i ==> dot_name_char(#[trigger] s@[j]) && s@[j] != '.',
        decreases len - i,
    {
        let c = s.get_char(i);
        let cu = c as u32;
        let ok = (('a' as u32) <= cu && cu <= ('z' as u32)) || (('A' as u32) <= cu && cu <= ('Z'
            as u32)) || c == '_' || (('0' as u32) <= cu && cu <= ('9' as u32));
        if !ok {
            proof {
                assert(!(dot_name_char(s@[i as int]) && s@[i as int] != '.'));
            }
            return false;
        }
        i += 1;
    }
    true
}

/// True iff every node name this graph would hand the serializer, under the
/// given prefix, is one it accepts.
fn names_ok_for(g: &UMLGraph, prefix: &str) -> (r: bool)
    ensures
        r == node_names_ok(g@, prefix@),
{
    let ss = g.structs();
    let ghost sv = class_views(ss@);
    let mut i: usize = 0;
    while i < ss.len()
        invariant
            i <= ss.len(),
            class_views(ss@) == sv,
            sv == visible_structs(g@),
            forall|k: int|
                0 <= k < i ==> valid_dot_name(pref_name(prefix@, (#[trigger] sv[k]).name)),
        decreases ss.len() - i,
    {
        let pname = prefixed(prefix, ss[i].name.as_str());
        proof {
            assert(ss@[i as int]@ == sv[i as int]);
        }
        if !check_dot_name(pname.as_str()) {
            proof {
                assert(!valid_dot_name(pref_name(prefix@, sv[i as int].name)));
            }
            return false;
        }
        i += 1;
    }
    let fs = g.fns();
    let ghost fv = fn_views(fs@);
    let mut j: usize = 0;
    while j < fs.len()
        invariant
            j <= fs.len(),
            fn_views(fs@) == fv,
            fv == visible_fns(g@),
            forall|k: int|
                0 <= k < j ==> valid_dot_name(pref_name(prefix@, (#[trigger] fv[k]).name)),
        decreases fs.len() - j,
    {
        let pname = prefixed(prefix, fs[j].name.as_str());
        proof {
            assert(fs@[j as int]@ == fv[j as int]);
        }
        if !check_dot_name(pname.as_str()) {
            proof {
                assert(!valid_dot_name(pref_name(prefix@, fv[j as int].name)));
            }
            return false;
        }
        j += 1;
    }
    true
}

impl UMLGraph {
    /// True iff [`UMLGraph::to_string`] accepts this graph: every node name
    /// and every cluster name it would build is one the serializer takes.
    pub fn is_renderable(&self) -> (r: bool)
        ensures
            r == renderable(self),
    {
        proof {
            reveal_strlit("");
            assert(""@ =~= Seq::<char>::empty());
        }
        if !names_ok_for(self, "") {
            return false;
        }
        let ghost msv = self.spec_modules();
        let ms = self.modules();
        let mut k: usize = 0;
        while k < ms.len()
            invariant
                k <= ms.len(),
                ms@ == msv,
                msv == self.spec_modules(),
                node_names_ok(self@, Seq::empty()),
                forall|t: int|
                    0 <= t < k ==> {
                        let m = #[trigger] msv[t];
                        valid_cluster_name("cluster_"@ + m@.name) && node_names_ok(
                            m@,
                            m@.name + seq!['.'],
                        )
                    },
            decreases ms.len() - k,
        {
            let m = &ms[k];
            let mut cluster = "cluster_".to_owned();
            cluster.append(m.name().as_str());
            proof {
                assert(ms@[k as int] == msv[k as int]);
                assert(cluster@ == "cluster_"@ + msv[k as int]@.name);
            }
            if !check_cluster_name(cluster.as_str()) {
                return false;
            }
            let mut prefix = m.name().clone();
            prefix.append(".");
            proof {
                reveal_strlit(".");
                assert("."@ =~= seq!['.']);
                assert(prefix@ == msv[k as int]@.name + seq!['.']);
            }
            if !names_ok_for(m, prefix.as_str()) {
                return false;
            }
            k += 1;
        }
        true
    }

    /// Renders this module graph through the external serializer: the
    /// graph's own entities, then one labelled cluster per child module with
    /// its names prefixed by the module name, its in-scope relations, and
    /// its scope-qualified cross-module relations.
    pub fn to_string(&self) -> (r: String)
        requires
            renderable(self),
        ensures
            r@ == dot_text_of(expected_dot_desc(self)),
    {
        let mut graph = dgraph_new("ast");
        proof {
            reveal_strlit("");
            assert(""@ =~= Seq::<char>::empty());
        }
        let (node_list, edge_list) = collect_dot_parts(self, "");
        add_nodes_to_graph(&mut graph, node_list);
        add_edges_to_graph(&mut graph, edge_list);
        proof {
            assert(Seq::<DNodeD>::empty() + dnodes_of(self@, Seq::empty()) =~= dnodes_of(
                self@,
                Seq::empty(),
            ));
            assert(Seq::<DEdgeD>::empty() + dedges_of(self@, Seq::empty()) =~= dedges_of(
                self@,
                Seq::empty(),
            ));
        }
        let ghost msv = self.spec_modules();
        let ghost subs_full = msv.map_values(|m: UMLGraph| module_sub(m));
        let ms = self.modules();
        let mut k: usize = 0;
        proof {
            assert(dgraph_desc(graph).subs + subs_full.take(0) =~= dgraph_desc(graph).subs);
            assert(dgraph_desc(graph) =~= (DGraphD {
                name: "ast"@,
                subs: subs_full.take(0),
                nodes: dnodes_of(self@, Seq::empty()),
                edges: dedges_of(self@, Seq::empty()),
            }));
        }
        while k < ms.len()
            invariant
                k <= ms.len(),
                ms@ == msv,
                msv == self.spec_modules(),
                subs_full == msv.map_values(|m: UMLGraph| module_sub(m)),
                renderable(self),
                dgraph_desc(graph) == (DGraphD {
                    name: "ast"@,
                    subs: subs_full.take(k as int),
                    nodes: dnodes_of(self@, Seq::empty()),
                    edges: dedges_of(self@, Seq::empty()),
                }),
            decreases ms.len() - k,
        {
            let m = &ms[k];
            let mut cluster = "cluster_".to_owned();
            cluster.append(m.name().as_str());
            let mut prefix = m.name().clone();
            prefix.append(".");
            proof {
                reveal_strlit(".");
                assert("."@ =~= seq!['.']);
                assert(ms@[k as int] == msv[k as int]);
                assert(valid_cluster_name("cluster_"@ + msv[k as int]@.name));
                assert(cluster@ == "cluster_"@ + msv[k as int]@.name);
                assert(prefix@ == msv[k as int]@.name + seq!['.']);
                assert(node_names_ok(msv[k as int]@, msv[k as int]@.name + seq!['.']));
            }
            let mut sub = dsub_new(cluster.as_str(), m.name().as_str());
            let (mn, me) = collect_dot_parts(m, prefix.as_str());
            add_nodes_to_sub(&mut sub, mn);
            add_edges_to_sub(&mut sub, me);
            proof {
                assert(Seq::<DNodeD>::empty() + dnodes_of(msv[k as int]@, prefix@) =~= dnodes_of(
                    msv[k as int]@,
                    prefix@,
                ));
                assert(Seq::<DEdgeD>::empty() + dedges_of(msv[k as int]@, prefix@) =~= dedges_of(
                    msv[k as int]@,
                    prefix@,
                ));
                assert(dsub_desc(sub) == module_sub(msv[k as int]));
            }
            dgraph_add_subgraph(&mut graph, sub);
            proof {
                assert(subs_full.take(k as int).push(module_sub(msv[k as int])) =~= subs_full.take(
                    k + 1,
                ));
            }
            k += 1;
        }
        proof {
            assert(subs_full.take(subs_full.len() as int) =~= subs_full);
            assert(dgraph_desc(graph) =~= expected_dot_desc(self));
        }
        dgraph_to_dot(&graph)
    }
}

} // verus!
