//! The two-pass construction of a graph from an unordered stream of
//! observations: all entities are registered first, then every candidate
//! relation is resolved against the complete entity set, so that visibility
//! can be decided.

use vstd::prelude::*;

verus! {

use ra_ap_syntax::ast;
use crate::classifier::decl_obs_ok;
use crate::decl::{Decl, DeclV, EntityV, UMLEntity, decl_views, entity_views};
use crate::syntax_input::{item_decl, item_to_decl, parse_items, source_items};
use crate::text::clone_strings;
use crate::uml_class::UMLClass;
use crate::uml_fn::UMLFn;
use crate::uml_graph::{GraphV, UMLGraph, rel_views, spec_add_relation, spec_add_struct};
use crate::uml_outer_entity::UMLOuterEntity;
use crate::uml_relation::{RelV, UMLRelation};

/// A graph with a name and nothing else.
pub open spec fn empty_graph(name: Seq<char>) -> GraphV {
    GraphV {
        name,
        structs: Seq::empty(),
        fns: Seq::empty(),
        relations: Seq::empty(),
        outers: Seq::empty(),
    }
}

/// The first pass: entities are registered in discovery order — types merge
/// by name, functions and externals append — and relation candidates are set
/// aside.
pub open spec fn pass_entities(g: GraphV, es: Seq<EntityV>) -> GraphV
    decreases es.len(),
{
    if es.len() == 0 {
        g
    } else {
        let g1 = pass_entities(g, es.drop_last());
        match es.last() {
            EntityV::Class(c) => GraphV { structs: spec_add_struct(g1.structs, c), ..g1 },
            EntityV::Fn(f) => GraphV { fns: g1.fns.push(f), ..g1 },
            EntityV::Outer(o) => GraphV { outers: g1.outers.push(o), ..g1 },
            EntityV::Rel(_) => g1,
        }
    }
}

/// The relation candidates of an observation stream, in discovery order.
pub open spec fn rel_candidates(es: Seq<EntityV>) -> Seq<RelV>
    decreases es.len(),
{
    if es.len() == 0 {
        Seq::empty()
    } else {
        rel_candidates(es.drop_last()) + (match es.last() {
            EntityV::Rel(r) => seq![r],
            _ => Seq::<RelV>::empty(),
        })
    }
}

/// The second pass: every candidate is resolved, in order, by the engine's
/// merge rules.
pub open spec fn pass_relations(g: GraphV, rs: Seq<RelV>) -> GraphV
    decreases rs.len(),
{
    if rs.len() == 0 {
        g
    } else {
        let g1 = pass_relations(g, rs.drop_last());
        GraphV { relations: spec_add_relation(g1.relations, rs.last()), ..g1 }
    }
}

/// The graph built from an observation stream: entities first, then
/// relations against the complete entity set.
pub open spec fn build_graph(name: Seq<char>, es: Seq<EntityV>) -> GraphV {
    pass_relations(pass_entities(empty_graph(name), es), rel_candidates(es))
}

/// The declarations read from a list of parsed items, in item order; items
/// outside the model contribute nothing.
pub open spec fn decls_of_items(items: Seq<ast::Item>) -> Seq<DeclV>
    decreases items.len(),
{
    if items.len() == 0 {
        Seq::empty()
    } else {
        decls_of_items(items.drop_last()) + (match item_decl(items.last()) {
            Some(d) => seq![d],
            None => Seq::<DeclV>::empty(),
        })
    }
}

/// The declarations of one source text, as the external parser and the
/// boundary readers determine them.
pub open spec fn source_decls(code: Seq<char>) -> Seq<DeclV> {
    decls_of_items(source_items(code))
}

/// The observation stream `obs` is what classifying `decls`, in order,
/// contributes: it splits into one segment per declaration, each segment
/// being that declaration's observations.
pub open spec fn stream_obs_ok(decls: Seq<DeclV>, obs: Seq<EntityV>) -> bool
    decreases decls.len(),
{
    if decls.len() == 0 {
        obs.len() == 0
    } else {
        exists|k: int|
            #![auto]
            0 <= k <= obs.len() && stream_obs_ok(decls.drop_last(), obs.take(k)) && decl_obs_ok(
                decls.last(),
                obs.skip(k),
            )
    }
}

/// A fresh copy of one observation.
fn copy_entity(e: &UMLEntity) -> (r: UMLEntity)
    ensures
        r@ == e@,
{
    match e {
        UMLEntity::UMLClass(c) => {
            let copy = UMLClass::new(
                c.name.as_str(),
                clone_strings(&c.fields),
                clone_strings(&c.method_names),
                c.kind,
            );
            UMLEntity::UMLClass(copy)
        },
        UMLEntity::UMLFn(f) => UMLEntity::UMLFn(UMLFn::new(f.name.as_str(), f.full_name.as_str())),
        UMLEntity::UMLRelation(r) => UMLEntity::UMLRelation(
            UMLRelation::new(r.from.as_str(), r.to.as_str(), r.kind),
        ),
        UMLEntity::UMLOuterEntity(o) => UMLEntity::UMLOuterEntity(
            UMLOuterEntity::new(o.name.as_str(), o.mod_name.as_str()),
        ),
    }
}

/// Builds a graph from an observation stream in two passes: entities first,
/// then relations, so that every candidate is resolved against the complete
/// entity set.
pub fn graph_from_entities(name: &str, entities: &Vec<UMLEntity>) -> (g: UMLGraph)
    ensures
        g@ == build_graph(name@, entity_views(entities@)),
        g@.name == name@,
        g.wf(),
        g.spec_modules() == Seq::<UMLGraph>::empty(),
{
    let ghost ev = entity_views(entities@);
    let mut g = UMLGraph::new(name);
    let mut rels: Vec<UMLRelation> = Vec::new();
    let mut i: usize = 0;
    proof {
        assert(ev.take(0).len() == 0);
        assert(g@ == pass_entities(empty_graph(name@), ev.take(0)));
        assert(rel_views(rels@) =~= rel_candidates(ev.take(0)));
    }
    while i < entities.len()
        invariant
            i <= entities.len(),
            ev == entity_views(entities@),
            g@ == pass_entities(empty_graph(name@), ev.take(i as int)),
            g@.name == name@,
            rel_views(rels@) == rel_candidates(ev.take(i as int)),
            g.wf(),
            g.spec_modules() == Seq::<UMLGraph>::empty(),
        decreases entities.len() - i,
    {
        let ghost pre_rels = rel_views(rels@);
        proof {
            assert(ev.take(i + 1).drop_last() =~= ev.take(i as int));
            assert(ev.take(i + 1).last() == ev[i as int]);
            assert(ev[i as int] == entities@[i as int]@);
        }
        let e = copy_entity(&entities[i]);
        match e {
            UMLEntity::UMLClass(c) => {
                g.add_struct(c);
                proof {
                    assert(rel_views(rels@) =~= rel_candidates(ev.take(i + 1)));
                }
            },
            UMLEntity::UMLFn(f) => {
                g.add_fn(f);
                proof {
                    assert(rel_views(rels@) =~= rel_candidates(ev.take(i + 1)));
                }
            },
            UMLEntity::UMLOuterEntity(o) => {
                g.add_outer_entity(o);
                proof {
                    assert(rel_views(rels@) =~= rel_candidates(ev.take(i + 1)));
                }
            },
            UMLEntity::UMLRelation(r) => {
                rels.push(r);
                proof {
                    assert(rel_views(rels@) =~= pre_rels + seq![ev[i as int]->Rel_0]);
                    assert(rel_views(rels@) =~= rel_candidates(ev.take(i + 1)));
                }
            },
        }
        i += 1;
    }
    proof {
        assert(ev.take(ev.len() as int) =~= ev);
    }
    let ghost base = g@;
    let ghost rv = rel_views(rels@);
    let mut j: usize = 0;
    proof {
        assert(g@ == pass_relations(base, rv.take(0)));
    }
    while j < rels.len()
        invariant
            j <= rels.len(),
            rv == rel_views(rels@),
            g@ == pass_relations(base, rv.take(j as int)),
            g@.name == name@,
            g.wf(),
            g.spec_modules() == Seq::<UMLGraph>::empty(),
        decreases rels.len() - j,
    {
        let r = UMLRelation::new(rels[j].from.as_str(), rels[j].to.as_str(), rels[j].kind);
        proof {
            assert(rv.take(j + 1).drop_last() =~= rv.take(j as int));
            assert(rv.take(j + 1).last() == rv[j as int]);
            assert(rv[j as int] == rels@[j as int]@);
        }
        g.add_relation(r);
        j += 1;
    }
    proof {
        assert(rv.take(rv.len() as int) =~= rv);
    }
    g
}

/// Parses one source unit into a graph.
pub trait StringParser {
    /// Parses `input` and resolves its declarations into one graph: the
    /// declarations the external parser reads from the text are classified
    /// in order, and the resulting observation stream is resolved in two
    /// passes.
    fn parse_string(input: &str) -> (g: UMLGraph)
        ensures
            g.wf(),
            g@.name == Seq::<char>::empty(),
            g.spec_modules() == Seq::<UMLGraph>::empty(),
            exists|obs: Seq<EntityV>|
                #![auto]
                stream_obs_ok(source_decls(input@), obs) && g@ == build_graph(
                    Seq::empty(),
                    obs,
                ),
    ;
}

/// The parser backed by the external syntax tree: it reads each top-level
/// item into the library's declaration model, classifies the declarations,
/// and feeds the observations to the engine in two passes.
pub struct AstParser;

impl StringParser for AstParser {
    fn parse_string(input: &str) -> (g: UMLGraph) {
        let items = parse_items(input);
        let ghost iv = items@;
        let mut decls: Vec<Decl> = Vec::new();
        let mut i: usize = 0;
        proof {
            assert(decl_views(decls@) =~= decls_of_items(iv.take(0)));
        }
        while i < items.len()
            invariant
                i <= items.len(),
                items@ == iv,
                decl_views(decls@) == decls_of_items(iv.take(i as int)),
            decreases items.len() - i,
        {
            let ghost pre = decls@;
            proof {
                assert(iv.take(i + 1).drop_last() =~= iv.take(i as int));
                assert(iv.take(i + 1).last() == iv[i as int]);
            }
            match item_to_decl(&items[i]) {
                Some(d) => {
                    let ghost dv = d@;
                    decls.push(d);
                    proof {
                        assert(decl_views(decls@) =~= decl_views(pre).push(dv));
                        assert(decls_of_items(iv.take(i + 1)) =~= decls_of_items(
                            iv.take(i as int),
                        ).push(dv));
                    }
                },
                None => {
                    proof {
                        assert(decls_of_items(iv.take(i + 1)) =~= decls_of_items(iv.take(i as int)));
                    }
                },
            }
            i += 1;
        }
        proof {
            assert(iv.take(iv.len() as int) =~= iv);
        }
        let ghost dv = decl_views(decls@);
        let mut entities: Vec<UMLEntity> = Vec::new();
        let mut k: usize = 0;
        proof {
            assert(entity_views(entities@).len() == 0);
            assert(stream_obs_ok(dv.take(0), entity_views(entities@)));
        }
        while k < decls.len()
            invariant
                k <= decls.len(),
                decl_views(decls@) == dv,
                stream_obs_ok(dv.take(k as int), entity_views(entities@)),
            decreases decls.len() - k,
        {
            let ghost pre = entity_views(entities@);
            let mut obs = decls[k].get_uml_entities();
            let ghost seg = entity_views(obs@);
            entities.append(&mut obs);
            proof {
                assert(decls@[k as int]@ == dv[k as int]);
                assert(entity_views(entities@) =~= pre + seg);
                let all = entity_views(entities@);
                assert(dv.take(k + 1).drop_last() =~= dv.take(k as int));
                assert(dv.take(k + 1).last() == dv[k as int]);
                assert(all.take(pre.len() as int) =~= pre);
                assert(all.skip(pre.len() as int) =~= seg);
                assert(stream_obs_ok(dv.take(k + 1), all)) by {
                    assert(0 <= pre.len() <= all.len() && stream_obs_ok(
                        dv.take(k + 1).drop_last(),
                        all.take(pre.len() as int),
                    ) && decl_obs_ok(dv.take(k + 1).last(), all.skip(pre.len() as int)));
                }
            }
            k += 1;
        }
        proof {
            assert(dv.take(dv.len() as int) =~= dv);
        }
        let g = graph_from_entities("", &entities);
        proof {
            reveal_strlit("");
            assert(""@ =~= Seq::<char>::empty());
            assert(stream_obs_ok(source_decls(input@), entity_views(entities@)) && g@
                == build_graph(Seq::empty(), entity_views(entities@)));
        }
        g
    }
}

} // verus!
