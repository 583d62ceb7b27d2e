//! The resolution engine: owns the authoritative, duplicate-free model of
//! entities and relations and exposes deterministic read views.
//!
//! Invariants kept by every operation:
//! - no stored relation relates a name to itself;
//! - for any unordered pair of names at most one relation is stored;
//! - at most one type entity exists per name (same-name declarations merge);
//! - child module graphs are strictly sorted by name.

use vstd::prelude::*;

verus! {

use crate::text::{contains_char, lex_lt};
use crate::uml_class::{ClassV, UMLClass, UMLClassKind};
use crate::uml_fn::{FnV, UMLFn};
use crate::uml_outer_entity::{OuterV, UMLOuterEntity};
use crate::uml_relation::{RelV, UMLRelation, UMLRelationKind, kind_priority, same_pair};

/// Filtering a list extended by one element keeps the element iff the
/// predicate holds of it.
proof fn lemma_filter_one<A>(s: Seq<A>, x: A, pred: spec_fn(A) -> bool)
    ensures
        (s + seq![x]).filter(pred) == if pred(x) {
            s.filter(pred).push(x)
        } else {
            s.filter(pred)
        },
{
    reveal(Seq::filter);
    assert((s + seq![x]).drop_last() =~= s);
    assert((s + seq![x]).last() == x);
}

/// The mathematical value of one graph, child modules aside.
pub ghost struct GraphV {
    pub name: Seq<char>,
    pub structs: Seq<ClassV>,
    pub fns: Seq<FnV>,
    pub relations: Seq<RelV>,
    pub outers: Seq<OuterV>,
}

/// The views of a sequence of stored relations.
pub open spec fn rel_views(rs: Seq<UMLRelation>) -> Seq<RelV> {
    rs.map_values(|r: UMLRelation| r@)
}

/// The views of a sequence of type entities.
pub open spec fn class_views(cs: Seq<UMLClass>) -> Seq<ClassV> {
    cs.map_values(|c: UMLClass| c@)
}

/// The views of a sequence of function summaries.
pub open spec fn fn_views(fs: Seq<UMLFn>) -> Seq<FnV> {
    fs.map_values(|f: UMLFn| f@)
}

/// The views of a sequence of external placeholders.
pub open spec fn outer_views(os: Seq<UMLOuterEntity>) -> Seq<OuterV> {
    os.map_values(|o: UMLOuterEntity| o@)
}

/// No stored relation relates a name to itself.
pub open spec fn no_self_rels(rs: Seq<RelV>) -> bool {
    forall|i: int| 0 <= i < rs.len() ==> (#[trigger] rs[i]).from != rs[i].to
}

/// At most one stored relation per unordered pair of names.
pub open spec fn unique_pairs(rs: Seq<RelV>) -> bool {
    forall|i: int, j: int|
        0 <= i < j < rs.len() ==> !same_pair(#[trigger] rs[i], #[trigger] rs[j])
}

/// The two invariants of the stored relation list together.
pub open spec fn rels_ok(rs: Seq<RelV>) -> bool {
    no_self_rels(rs) && unique_pairs(rs)
}

/// At most one type entity per name.
pub open spec fn unique_struct_names(cs: Seq<ClassV>) -> bool {
    forall|i: int, j: int|
        0 <= i < j < cs.len() ==> (#[trigger] cs[i]).name != (#[trigger] cs[j]).name
}

/// `rs[i]` is the exact reverse of candidate `c` and is a one-directional
/// association, so `c` upgrades it to a bidirectional one.
pub open spec fn rev_au_at(rs: Seq<RelV>, c: RelV, i: int) -> bool {
    &&& rs[i].from == c.to
    &&& rs[i].to == c.from
    &&& rs[i].kind == UMLRelationKind::UMLAssociationUni
}

/// Some stored relation is the exact reverse of `c` with kind
/// `AssociationUni`.
pub open spec fn has_rev_au(rs: Seq<RelV>, c: RelV) -> bool {
    exists|i: int| 0 <= i < rs.len() && rev_au_at(rs, c, i)
}

/// Some stored relation covers the same unordered pair as `c`.
pub open spec fn has_pair(rs: Seq<RelV>, c: RelV) -> bool {
    exists|i: int| 0 <= i < rs.len() && same_pair(rs[i], c)
}

/// What one `add_relation` call does to the stored relation list:
/// a self-relation is discarded; a one-directional association meeting its
/// exact reverse upgrades the stored relation to bidirectional; a candidate
/// on an already-related pair replaces the stored kind only when strictly
/// higher in priority (the stored direction wins); anything else is appended.
pub open spec fn spec_add_relation(rs: Seq<RelV>, c: RelV) -> Seq<RelV> {
    if c.from == c.to {
        rs
    } else if c.kind == UMLRelationKind::UMLAssociationUni && has_rev_au(rs, c) {
        let i = choose|i: int| 0 <= i < rs.len() && rev_au_at(rs, c, i);
        rs.update(i, RelV { kind: UMLRelationKind::UMLAssociationBi, ..rs[i] })
    } else if has_pair(rs, c) {
        let i = choose|i: int| 0 <= i < rs.len() && same_pair(rs[i], c);
        if kind_priority(c.kind) > kind_priority(rs[i].kind) {
            rs.update(i, RelV { kind: c.kind, ..rs[i] })
        } else {
            rs
        }
    } else {
        rs.push(c)
    }
}

/// What one `add_type` call does to the entity list: a declaration whose
/// name is already present merges its method list into the existing entity
/// (fields and kind untouched); a new name is appended.
pub open spec fn spec_add_struct(cs: Seq<ClassV>, c: ClassV) -> Seq<ClassV> {
    if exists|i: int| 0 <= i < cs.len() && (#[trigger] cs[i]).name == c.name {
        let i = choose|i: int| 0 <= i < cs.len() && (#[trigger] cs[i]).name == c.name;
        cs.update(i, ClassV { methods: cs[i].methods + c.methods, ..cs[i] })
    } else {
        cs.push(c)
    }
}

/// The name belongs to an entity of the graph's own sets (a type or a
/// function; externals do not count).
pub open spec fn knows_name(g: GraphV, n: Seq<char>) -> bool {
    ||| exists|i: int| 0 <= i < g.structs.len() && (#[trigger] g.structs[i]).name == n
    ||| exists|i: int| 0 <= i < g.fns.len() && (#[trigger] g.fns[i]).name == n
}

/// The name is known only through an import statement.
pub open spec fn is_outer_name(g: GraphV, n: Seq<char>) -> bool {
    exists|i: int| 0 <= i < g.outers.len() && (#[trigger] g.outers[i]).name == n
}

/// A class-like entity is local iff its name is not import-qualified.
pub open spec fn plain_class_pred() -> spec_fn(ClassV) -> bool {
    |c: ClassV| !c.name.contains('.')
}

/// The local type entities: those whose name is not import-qualified.
pub open spec fn visible_structs(g: GraphV) -> Seq<ClassV> {
    g.structs.filter(plain_class_pred())
}

/// A function summary is local iff its name is not import-qualified.
pub open spec fn plain_fn_pred() -> spec_fn(FnV) -> bool {
    |f: FnV| !f.name.contains('.')
}

/// The local function summaries: those whose name is not import-qualified.
pub open spec fn visible_fns(g: GraphV) -> Seq<FnV> {
    g.fns.filter(plain_fn_pred())
}

/// A stored relation surfaces in `relations()` iff both endpoints name
/// in-scope entities and neither endpoint is import-qualified.
pub open spec fn rel_visible(g: GraphV, r: RelV) -> bool {
    &&& knows_name(g, r.from)
    &&& knows_name(g, r.to)
    &&& !r.from.contains('.')
    &&& !r.to.contains('.')
}

pub open spec fn rel_vis_pred(g: GraphV) -> spec_fn(RelV) -> bool {
    |r: RelV| rel_visible(g, r)
}

/// The in-scope view of the stored relations.
pub open spec fn visible_rels(g: GraphV) -> Seq<RelV> {
    g.relations.filter(rel_vis_pred(g))
}

/// The scope-qualified form of a name: the first matching external
/// placeholder contributes its origin scope as a `scope.name` prefix; a name
/// with no placeholder is unchanged.
pub open spec fn outer_qual(outers: Seq<OuterV>, n: Seq<char>) -> Seq<char>
    decreases outers.len(),
{
    if outers.len() == 0 {
        n
    } else if outers[0].name == n {
        outers[0].mod_name + seq!['.'] + n
    } else {
        outer_qual(outers.skip(1), n)
    }
}

/// A relation with both endpoint names rewritten to their scope-qualified
/// form.
pub open spec fn qualify_rel(g: GraphV, r: RelV) -> RelV {
    RelV { from: outer_qual(g.outers, r.from), to: outer_qual(g.outers, r.to), kind: r.kind }
}

pub open spec fn qualify_pred(g: GraphV) -> spec_fn(RelV) -> RelV {
    |r: RelV| qualify_rel(g, r)
}

/// A stored relation surfaces in `outer_relations()` iff at least one
/// endpoint is an external placeholder and every endpoint is either known
/// in scope or an external placeholder.
pub open spec fn outer_rel_visible(g: GraphV, r: RelV) -> bool {
    &&& is_outer_name(g, r.from) || is_outer_name(g, r.to)
    &&& is_outer_name(g, r.from) || knows_name(g, r.from)
    &&& is_outer_name(g, r.to) || knows_name(g, r.to)
}

pub open spec fn outer_vis_pred(g: GraphV) -> spec_fn(RelV) -> bool {
    |r: RelV| outer_rel_visible(g, r)
}

/// The cross-module view of the stored relations, scope-qualified.
pub open spec fn outer_rels(g: GraphV) -> Seq<RelV> {
    g.relations.filter(outer_vis_pred(g)).map_values(qualify_pred(g))
}

pub open spec fn any_outer_pred(g: GraphV) -> spec_fn(RelV) -> bool {
    |r: RelV| is_outer_name(g, r.from) || is_outer_name(g, r.to)
}

/// The wider cross-module view: every stored relation touching an external
/// placeholder, scope-qualified, with no check on the other endpoint.
pub open spec fn outer_rels_all(g: GraphV) -> Seq<RelV> {
    g.relations.filter(any_outer_pred(g)).map_values(qualify_pred(g))
}

/// Child modules are strictly sorted by name (so names are also unique).
pub open spec fn modules_sorted(ms: Seq<UMLGraph>) -> bool {
    forall|i: int, j: int|
        0 <= i < j < ms.len() ==> lex_lt((#[trigger] ms[i])@.name, (#[trigger] ms[j])@.name)
}

/// One graph in the module hierarchy, with its four collections and its
/// child module graphs.
#[derive(PartialEq, Debug)]
pub struct UMLGraph {
    name: String,
    structs: Vec<UMLClass>,
    fns: Vec<UMLFn>,
    relations: Vec<UMLRelation>,
    modules: Vec<UMLGraph>,
    outer_entities: Vec<UMLOuterEntity>,
}

impl View for UMLGraph {
    type V = GraphV;

    closed spec fn view(&self) -> GraphV {
        GraphV {
            name: self.name@,
            structs: class_views(self.structs@),
            fns: fn_views(self.fns@),
            relations: rel_views(self.relations@),
            outers: outer_views(self.outer_entities@),
        }
    }
}

impl UMLGraph {
    /// The child module graphs, sorted by name.
    pub closed spec fn spec_modules(&self) -> Seq<UMLGraph> {
        self.modules@
    }

    /// The engine's invariants: the stored relations are self-free and
    /// pair-unique, type-entity names are unique, and child modules are
    /// strictly sorted by name. Established by `new` and kept by every
    /// operation.
    pub open spec fn wf(&self) -> bool {
        &&& rels_ok(self@.relations)
        &&& unique_struct_names(self@.structs)
        &&& modules_sorted(self.spec_modules())
    }

    /// An empty graph with the given name.
    pub fn new(name: &str) -> (r: UMLGraph)
        ensures
            r@ == (GraphV {
                name: name@,
                structs: Seq::empty(),
                fns: Seq::empty(),
                relations: Seq::empty(),
                outers: Seq::empty(),
            }),
            r.spec_modules() == Seq::<UMLGraph>::empty(),
            r.wf(),
    {
        let r = UMLGraph {
            name: name.to_owned(),
            structs: vec![],
            fns: vec![],
            relations: vec![],
            modules: vec![],
            outer_entities: vec![],
        };
        proof {
            assert(r@.structs =~= Seq::<ClassV>::empty());
            assert(r@.fns =~= Seq::<FnV>::empty());
            assert(r@.relations =~= Seq::<RelV>::empty());
            assert(r@.outers =~= Seq::<OuterV>::empty());
        }
        r
    }

    /// The graph's name.
    pub fn name(&self) -> (r: &String)
        ensures
            r@ == self@.name,
    {
        &self.name
    }

    /// Renames the graph; everything else is untouched.
    pub fn set_name(&mut self, name: &str)
        requires
            old(self).wf(),
        ensures
            final(self)@ == (GraphV { name: name@, ..old(self)@ }),
            final(self).spec_modules() == old(self).spec_modules(),
            final(self).wf(),
    {
        self.name = name.to_owned();
    }

    /// True iff `n` names a type or a function of this graph's own sets.
    fn knows(&self, n: &String) -> (r: bool)
        ensures
            r == knows_name(self@, n@),
    {
        let mut i: usize = 0;
        while i < self.structs.len()
            invariant
                i <= self.structs.len(),
                forall|k: int| 0 <= k < i ==> (#[trigger] self@.structs[k]).name != n@,
            decreases self.structs.len() - i,
        {
            if self.structs[i].name == *n {
                proof {
                    assert(self@.structs[i as int].name == n@);
                }
                return true;
            }
            i += 1;
        }
        let mut j: usize = 0;
        while j < self.fns.len()
            invariant
                j <= self.fns.len(),
                forall|k: int| 0 <= k < j ==> (#[trigger] self@.fns[k]).name != n@,
            decreases self.fns.len() - j,
        {
            if self.fns[j].name == *n {
                proof {
                    assert(self@.fns[j as int].name == n@);
                }
                return true;
            }
            j += 1;
        }
        false
    }

    /// True iff `n` was registered as an external placeholder.
    fn is_outer_entity(&self, n: &String) -> (r: bool)
        ensures
            r == is_outer_name(self@, n@),
    {
        let mut i: usize = 0;
        while i < self.outer_entities.len()
            invariant
                i <= self.outer_entities.len(),
                forall|k: int| 0 <= k < i ==> (#[trigger] self@.outers[k]).name != n@,
            decreases self.outer_entities.len() - i,
        {
            if self.outer_entities[i].name == *n {
                proof {
                    assert(self@.outers[i as int].name == n@);
                }
                return true;
            }
            i += 1;
        }
        false
    }

    /// The scope-qualified display form of a name: `scope.name` for a name
    /// known through an import, the name itself otherwise.
    fn get_outer_entity_full_name(&self, name: &String) -> (r: String)
        ensures
            r@ == outer_qual(self@.outers, name@),
    {
        let ghost os = self@.outers;
        let mut i: usize = 0;
        proof {
            assert(os.skip(0) =~= os);
        }
        while i < self.outer_entities.len()
            invariant
                i <= self.outer_entities.len(),
                os == self@.outers,
                outer_qual(os, name@) == outer_qual(os.skip(i as int), name@),
            decreases self.outer_entities.len() - i,
        {
            proof {
                assert(os.skip(i as int)[0] == os[i as int]);
                assert(os.skip(i as int).skip(1) =~= os.skip(i + 1));
            }
            if self.outer_entities[i].name == *name {
                let r = crate::text::qualified_name(
                    self.outer_entities[i].mod_name.as_str(),
                    name.as_str(),
                );
                return r;
            }
            i += 1;
        }
        proof {
            assert(os.skip(os.len() as int).len() == 0);
        }
        name.clone()
    }

    /// The local type entities, in insertion order.
    pub fn structs(&self) -> (r: Vec<UMLClass>)
        ensures
            class_views(r@) == visible_structs(self@),
    {
        let ghost g = self@;
        let mut out: Vec<UMLClass> = Vec::new();
        let mut i: usize = 0;
        proof {
            reveal(Seq::filter);
            assert(g.structs.take(0) =~= Seq::<ClassV>::empty());
            assert(class_views(out@) =~= g.structs.take(0).filter(plain_class_pred()));
        }
        while i < self.structs.len()
            invariant
                i <= self.structs.len(),
                g == self@,
                i <= g.structs.len(),
                class_views(out@) == g.structs.take(i as int).filter(plain_class_pred()),
            decreases self.structs.len() - i,
        {
            let ghost pre = out@;
            let cls = &self.structs[i];
            proof {
                lemma_filter_one(g.structs.take(i as int), g.structs[i as int], plain_class_pred());
                assert(g.structs.take(i + 1) =~= g.structs.take(i as int) + seq![
                    g.structs[i as int],
                ]);
            }
            if !contains_char(cls.name.as_str(), '.') {
                let copy = UMLClass::new(
                    cls.name.as_str(),
                    cls.get_field_names(),
                    cls.get_method_names(),
                    cls.kind,
                );
                proof {
                    assert(copy@ == g.structs[i as int]);
                }
                out.push(copy);
                proof {
                    assert(class_views(out@) =~= class_views(pre).push(g.structs[i as int]));
                }
            }
            i += 1;
        }
        proof {
            assert(g.structs.take(g.structs.len() as int) =~= g.structs);
        }
        out
    }

    /// The local function summaries, in insertion order.
    pub fn fns(&self) -> (r: Vec<UMLFn>)
        ensures
            fn_views(r@) == visible_fns(self@),
    {
        let ghost g = self@;
        let mut out: Vec<UMLFn> = Vec::new();
        let mut i: usize = 0;
        proof {
            reveal(Seq::filter);
            assert(g.fns.take(0) =~= Seq::<FnV>::empty());
            assert(fn_views(out@) =~= g.fns.take(0).filter(plain_fn_pred()));
        }
        while i < self.fns.len()
            invariant
                i <= self.fns.len(),
                g == self@,
                i <= g.fns.len(),
                fn_views(out@) == g.fns.take(i as int).filter(plain_fn_pred()),
            decreases self.fns.len() - i,
        {
            let ghost pre = out@;
            let f = &self.fns[i];
            proof {
                lemma_filter_one(g.fns.take(i as int), g.fns[i as int], plain_fn_pred());
                assert(g.fns.take(i + 1) =~= g.fns.take(i as int) + seq![g.fns[i as int]]);
            }
            if !contains_char(f.name.as_str(), '.') {
                out.push(UMLFn::new(f.name.as_str(), f.full_name.as_str()));
                proof {
                    assert(fn_views(out@) =~= fn_views(pre).push(g.fns[i as int]));
                }
            }
            i += 1;
        }
        proof {
            assert(g.fns.take(g.fns.len() as int) =~= g.fns);
        }
        out
    }

    /// The in-scope relations: those whose endpoints both name entities of
    /// this graph and are not import-qualified.
    pub fn relations(&self) -> (r: Vec<UMLRelation>)
        ensures
            rel_views(r@) == visible_rels(self@),
    {
        let ghost g = self@;
        let mut out: Vec<UMLRelation> = Vec::new();
        let mut i: usize = 0;
        proof {
            reveal(Seq::filter);
            assert(g.relations.take(0) =~= Seq::<RelV>::empty());
            assert(rel_views(out@) =~= g.relations.take(0).filter(rel_vis_pred(g)));
        }
        while i < self.relations.len()
            invariant
                i <= self.relations.len(),
                g == self@,
                i <= g.relations.len(),
                rel_views(out@) == g.relations.take(i as int).filter(rel_vis_pred(g)),
            decreases self.relations.len() - i,
        {
            let ghost pre = out@;
            proof {
                lemma_filter_one(g.relations.take(i as int), g.relations[i as int], rel_vis_pred(g));
                assert(g.relations.take(i + 1) =~= g.relations.take(i as int) + seq![
                    g.relations[i as int],
                ]);
            }
            let vis = self.knows(&self.relations[i].from) && self.knows(&self.relations[i].to)
                && !contains_char(self.relations[i].from.as_str(), '.') && !contains_char(
                self.relations[i].to.as_str(),
                '.',
            );
            if vis {
                let rel = &self.relations[i];
                out.push(UMLRelation::new(rel.from.as_str(), rel.to.as_str(), rel.kind));
                proof {
                    assert(rel_views(out@) =~= rel_views(pre).push(g.relations[i as int]));
                }
            }
            i += 1;
        }
        proof {
            assert(g.relations.take(g.relations.len() as int) =~= g.relations);
        }
        out
    }

    /// The cross-module relations: those touching an external placeholder
    /// whose other endpoints are known, with endpoints rewritten to their
    /// scope-qualified `scope.name` form.
    pub fn outer_relations(&self) -> (r: Vec<UMLRelation>)
        ensures
            rel_views(r@) == outer_rels(self@),
    {
        let ghost g = self@;
        let mut out: Vec<UMLRelation> = Vec::new();
        let mut i: usize = 0;
        proof {
            reveal(Seq::filter);
            assert(g.relations.take(0) =~= Seq::<RelV>::empty());
            assert(rel_views(out@) =~= g.relations.take(0).filter(outer_vis_pred(g)).map_values(
                qualify_pred(g),
            ));
        }
        while i < self.relations.len()
            invariant
                i <= self.relations.len(),
                g == self@,
                i <= g.relations.len(),
                rel_views(out@) == g.relations.take(i as int).filter(outer_vis_pred(g)).map_values(
                    qualify_pred(g),
                ),
            decreases self.relations.len() - i,
        {
            let ghost pre = out@;
            proof {
                lemma_filter_one(
                    g.relations.take(i as int),
                    g.relations[i as int],
                    outer_vis_pred(g),
                );
                assert(g.relations.take(i + 1) =~= g.relations.take(i as int) + seq![
                    g.relations[i as int],
                ]);
            }
            let out_from = self.is_outer_entity(&self.relations[i].from);
            let out_to = self.is_outer_entity(&self.relations[i].to);
            let vis = (out_from || out_to) && (out_from || self.knows(&self.relations[i].from))
                && (out_to || self.knows(&self.relations[i].to));
            if vis {
                let qf = self.get_outer_entity_full_name(&self.relations[i].from);
                let qt = self.get_outer_entity_full_name(&self.relations[i].to);
                out.push(UMLRelation::new(qf.as_str(), qt.as_str(), self.relations[i].kind));
                proof {
                    assert(rel_views(out@) =~= rel_views(pre).push(
                        qualify_pred(g)(g.relations[i as int]),
                    ));
                    assert(g.relations.take(i + 1).filter(outer_vis_pred(g)) =~= g.relations.take(
                        i as int,
                    ).filter(outer_vis_pred(g)).push(g.relations[i as int]));
                    assert(g.relations.take(i + 1).filter(outer_vis_pred(g)).map_values(
                        qualify_pred(g),
                    ) =~= g.relations.take(i as int).filter(outer_vis_pred(g)).map_values(
                        qualify_pred(g),
                    ).push(qualify_pred(g)(g.relations[i as int])));
                }
            }
            i += 1;
        }
        proof {
            assert(g.relations.take(g.relations.len() as int) =~= g.relations);
        }
        out
    }

    /// The widest cross-module view: every stored relation touching an
    /// external placeholder, scope-qualified, whatever its other endpoint.
    pub fn outer_relations_new(&self) -> (r: Vec<UMLRelation>)
        ensures
            rel_views(r@) == outer_rels_all(self@),
    {
        let ghost g = self@;
        let mut out: Vec<UMLRelation> = Vec::new();
        let mut i: usize = 0;
        proof {
            reveal(Seq::filter);
            assert(g.relations.take(0) =~= Seq::<RelV>::empty());
            assert(rel_views(out@) =~= g.relations.take(0).filter(any_outer_pred(g)).map_values(
                qualify_pred(g),
            ));
        }
        while i < self.relations.len()
            invariant
                i <= self.relations.len(),
                g == self@,
                i <= g.relations.len(),
                rel_views(out@) == g.relations.take(i as int).filter(any_outer_pred(g)).map_values(
                    qualify_pred(g),
                ),
            decreases self.relations.len() - i,
        {
            let ghost pre = out@;
            proof {
                lemma_filter_one(
                    g.relations.take(i as int),
                    g.relations[i as int],
                    any_outer_pred(g),
                );
                assert(g.relations.take(i + 1) =~= g.relations.take(i as int) + seq![
                    g.relations[i as int],
                ]);
            }
            let vis = self.is_outer_entity(&self.relations[i].from) || self.is_outer_entity(
                &self.relations[i].to,
            );
            if vis {
                let qf = self.get_outer_entity_full_name(&self.relations[i].from);
                let qt = self.get_outer_entity_full_name(&self.relations[i].to);
                out.push(UMLRelation::new(qf.as_str(), qt.as_str(), self.relations[i].kind));
                proof {
                    assert(rel_views(out@) =~= rel_views(pre).push(
                        qualify_pred(g)(g.relations[i as int]),
                    ));
                    assert(g.relations.take(i + 1).filter(any_outer_pred(g)) =~= g.relations.take(
                        i as int,
                    ).filter(any_outer_pred(g)).push(g.relations[i as int]));
                    assert(g.relations.take(i + 1).filter(any_outer_pred(g)).map_values(
                        qualify_pred(g),
                    ) =~= g.relations.take(i as int).filter(any_outer_pred(g)).map_values(
                        qualify_pred(g),
                    ).push(qualify_pred(g)(g.relations[i as int])));
                }
            }
            i += 1;
        }
        proof {
            assert(g.relations.take(g.relations.len() as int) =~= g.relations);
        }
        out
    }

    /// All registered external placeholders, in insertion order.
    pub fn outer_entities(&self) -> (r: Vec<UMLOuterEntity>)
        ensures
            outer_views(r@) == self@.outers,
    {
        let mut out: Vec<UMLOuterEntity> = Vec::new();
        let mut i: usize = 0;
        proof {
            assert(outer_views(out@) =~= self@.outers.take(0));
        }
        while i < self.outer_entities.len()
            invariant
                i <= self.outer_entities.len(),
                out@.len() == i,
                outer_views(out@) == self@.outers.take(i as int),
            decreases self.outer_entities.len() - i,
        {
            let ghost pre = out@;
            let o = &self.outer_entities[i];
            out.push(UMLOuterEntity::new(o.name.as_str(), o.mod_name.as_str()));
            proof {
                assert(outer_views(out@) =~= self@.outers.take(i + 1));
            }
            i += 1;
        }
        proof {
            assert(self@.outers.take(self@.outers.len() as int) =~= self@.outers);
        }
        out
    }

    /// The child module graphs, strictly sorted by name.
    pub fn modules(&self) -> (r: &Vec<UMLGraph>)
        ensures
            r@ == self.spec_modules(),
    {
        &self.modules
    }

    /// The index of some stored relation on the same unordered pair as `c`,
    /// or `None` when the pair is new.
    fn find_same_pair(&self, c: &UMLRelation) -> (r: Option<usize>)
        ensures
            match r {
                Some(i) => i < self@.relations.len() && same_pair(self@.relations[i as int], c@),
                None => forall|j: int|
                    0 <= j < self@.relations.len() ==> !same_pair(self@.relations[j], c@),
            },
    {
        let mut j: usize = 0;
        while j < self.relations.len()
            invariant
                j <= self.relations.len(),
                forall|k: int| 0 <= k < j ==> !same_pair(self@.relations[k], c@),
            decreases self.relations.len() - j,
        {
            let a = &self.relations[j];
            if (a.from == c.from && a.to == c.to) || (a.from == c.to && a.to == c.from) {
                return Some(j);
            }
            j += 1;
        }
        None
    }

    /// Resolves one candidate relation into the store: rejects
    /// self-relations, upgrades a one-directional association met by its
    /// exact reverse to a bidirectional one, otherwise keeps at most one
    /// relation per unordered pair, letting only a strictly
    /// higher-priority kind replace the stored one.
    pub fn add_relation(&mut self, rel: UMLRelation)
        requires
            old(self).wf(),
        ensures
            final(self)@ == (GraphV {
                relations: spec_add_relation(old(self)@.relations, rel@),
                ..old(self)@
            }),
            final(self).spec_modules() == old(self).spec_modules(),
            final(self).wf(),
    {
        let ghost o = self@.relations;
        let ghost c = rel@;
        if rel.from == rel.to {
            proof {
                assert(self@ =~= (GraphV { relations: spec_add_relation(o, c), ..self@ }));
            }
            return ;
        }
        match self.find_same_pair(&rel) {
            Some(i) => {
                let ghost stored = o[i as int];
                proof {
                    assert forall|k: int|
                        0 <= k < o.len() && same_pair(o[k], c) implies k == i as int by {
                        if k != i as int {
                            assert(same_pair(o[k], o[i as int]));
                        }
                    }
                }
                let upgrade = rel.kind == UMLRelationKind::UMLAssociationUni
                    && self.relations[i].from == rel.to && self.relations[i].to == rel.from
                    && self.relations[i].kind == UMLRelationKind::UMLAssociationUni;
                if upgrade {
                    let mut e = self.relations.remove(i);
                    e.change_relation_kind(UMLRelationKind::UMLAssociationBi);
                    self.relations.insert(i, e);
                    proof {
                        assert(rel_views(self.relations@) =~= o.update(
                            i as int,
                            RelV { kind: UMLRelationKind::UMLAssociationBi, ..stored },
                        ));
                        assert(rev_au_at(o, c, i as int));
                        let k = choose|k: int| 0 <= k < o.len() && rev_au_at(o, c, k);
                        assert(same_pair(o[k], c));
                        assert(k == i as int);
                        assert(self@ =~= (GraphV { relations: spec_add_relation(o, c), ..self@ }));
                    }
                } else {
                    proof {
                        if c.kind == UMLRelationKind::UMLAssociationUni && has_rev_au(o, c) {
                            let k = choose|k: int| 0 <= k < o.len() && rev_au_at(o, c, k);
                            assert(same_pair(o[k], c));
                            assert(k == i as int);
                            assert(false);
                        }
                        let k = choose|k: int| 0 <= k < o.len() && same_pair(o[k], c);
                        assert(k == i as int);
                    }
                    if self.relations[i].kind.priority() < rel.kind.priority() {
                        let mut e = self.relations.remove(i);
                        e.change_relation_kind(rel.kind);
                        self.relations.insert(i, e);
                        proof {
                            assert(rel_views(self.relations@) =~= o.update(
                                i as int,
                                RelV { kind: c.kind, ..stored },
                            ));
                            assert(self@ =~= (GraphV {
                                relations: spec_add_relation(o, c),
                                ..self@
                            }));
                        }
                    } else {
                        proof {
                            assert(self@ =~= (GraphV {
                                relations: spec_add_relation(o, c),
                                ..self@
                            }));
                        }
                    }
                }
            },
            None => {
                self.relations.push(rel);
                proof {
                    assert(rel_views(self.relations@) =~= o.push(c));
                    assert(!has_rev_au(o, c)) by {
                        if has_rev_au(o, c) {
                            let k = choose|k: int| 0 <= k < o.len() && rev_au_at(o, c, k);
                            assert(same_pair(o[k], c));
                        }
                    }
                    assert(self@ =~= (GraphV { relations: spec_add_relation(o, c), ..self@ }));
                }
            },
        }
    }

    /// The index of the type entity with this name, if any.
    fn find_struct_idx(&self, name: &String) -> (r: Option<usize>)
        ensures
            match r {
                Some(i) => i < self@.structs.len() && self@.structs[i as int].name == name@,
                None => forall|j: int|
                    0 <= j < self@.structs.len() ==> (#[trigger] self@.structs[j]).name != name@,
            },
    {
        let mut j: usize = 0;
        while j < self.structs.len()
            invariant
                j <= self.structs.len(),
                forall|k: int| 0 <= k < j ==> (#[trigger] self@.structs[k]).name != name@,
            decreases self.structs.len() - j,
        {
            if self.structs[j].name == *name {
                return Some(j);
            }
            j += 1;
        }
        None
    }

    /// Adds a type entity; a declaration whose name already exists merges
    /// its method list into the existing entity instead of duplicating it.
    pub fn add_struct(&mut self, cls: UMLClass)
        requires
            old(self).wf(),
        ensures
            final(self)@ == (GraphV {
                structs: spec_add_struct(old(self)@.structs, cls@),
                ..old(self)@
            }),
            final(self).spec_modules() == old(self).spec_modules(),
            final(self).wf(),
    {
        let ghost o = self@.structs;
        let ghost c = cls@;
        match self.find_struct_idx(&cls.name) {
            Some(i) => {
                proof {
                    let k = choose|k: int| 0 <= k < o.len() && (#[trigger] o[k]).name == c.name;
                    assert(k == i as int);
                }
                let mut e = self.structs.remove(i);
                let mut from = cls;
                e.merge_method_names_from(&mut from);
                self.structs.insert(i, e);
                proof {
                    assert(self@.structs =~= o.update(
                        i as int,
                        ClassV { methods: o[i as int].methods + c.methods, ..o[i as int] },
                    ));
                    assert(self@ =~= (GraphV { structs: spec_add_struct(o, c), ..self@ }));
                }
            },
            None => {
                self.structs.push(cls);
                proof {
                    assert(self@.structs =~= o.push(c));
                    assert(self@ =~= (GraphV { structs: spec_add_struct(o, c), ..self@ }));
                }
            },
        }
    }

    /// Adds a function summary; names are assumed unique in scope and are
    /// not defended against.
    pub fn add_fn(&mut self, f: UMLFn)
        requires
            old(self).wf(),
        ensures
            final(self)@ == (GraphV { fns: old(self)@.fns.push(f@), ..old(self)@ }),
            final(self).spec_modules() == old(self).spec_modules(),
            final(self).wf(),
    {
        self.fns.push(f);
        proof {
            assert(self@.fns =~= old(self)@.fns.push(f@));
            assert(self@ =~= (GraphV { fns: old(self)@.fns.push(f@), ..old(self)@ }));
        }
    }

    /// Registers an external placeholder; duplicates are harmless.
    pub fn add_outer_entity(&mut self, outer_entity: UMLOuterEntity)
        requires
            old(self).wf(),
        ensures
            final(self)@ == (GraphV {
                outers: old(self)@.outers.push(outer_entity@),
                ..old(self)@
            }),
            final(self).spec_modules() == old(self).spec_modules(),
            final(self).wf(),
    {
        let ghost ov = outer_entity@;
        self.outer_entities.push(outer_entity);
        proof {
            assert(self@.outers =~= old(self)@.outers.push(ov));
            assert(self@ =~= (GraphV { outers: old(self)@.outers.push(ov), ..old(self)@ }));
        }
    }

    /// Adds a type entity under its scope-qualified `scope.name` form, as a
    /// stand-in for a type declared in another module.
    pub fn add_outer_class(&mut self, cls_name: &str, kind: UMLClassKind, mod_name: &str)
        requires
            old(self).wf(),
        ensures
            final(self)@ == (GraphV {
                structs: spec_add_struct(
                    old(self)@.structs,
                    ClassV {
                        name: mod_name@ + seq!['.'] + cls_name@,
                        fields: Seq::empty(),
                        methods: Seq::empty(),
                        kind,
                    },
                ),
                ..old(self)@
            }),
            final(self).spec_modules() == old(self).spec_modules(),
            final(self).wf(),
    {
        let name = crate::text::qualified_name(mod_name, cls_name);
        let cls = UMLClass::new(name.as_str(), Vec::new(), Vec::new(), kind);
        proof {
            assert(crate::text::str_views(Seq::<String>::empty()) =~= Seq::<Seq<char>>::empty());
        }
        self.add_struct(cls);
    }

    /// Registers a child module graph, keyed by its name: the children stay
    /// strictly sorted by name, and a module with the same name is replaced.
    pub fn add_module(&mut self, module: UMLGraph)
        requires
            old(self).wf(),
        ensures
            final(self)@ == old(self)@,
            final(self).wf(),
            ({
                let ms = old(self).spec_modules();
                let nm = final(self).spec_modules();
                if exists|i: int| 0 <= i < ms.len() && (#[trigger] ms[i])@.name == module@.name {
                    exists|i: int|
                        0 <= i < ms.len() && (#[trigger] ms[i])@.name == module@.name && nm
                            == ms.update(i, module)
                } else {
                    exists|i: int| 0 <= i <= ms.len() && nm == ms.insert(i, module)
                }
            }),
    {
        let ghost ms = self.modules@;
        let mut i: usize = 0;
        while i < self.modules.len()
            invariant
                i <= ms.len(),
                self@ == old(self)@,
                self.modules@ == ms,
                ms == old(self).spec_modules(),
                old(self).wf(),
                forall|k: int| 0 <= k < i ==> lex_lt((#[trigger] ms[k])@.name, module@.name),
            decreases self.modules.len() - i,
        {
            let c = crate::text::str_cmp(self.modules[i].name.as_str(), module.name.as_str());
            if c == 0 {
                let ghost mv = module@;
                self.modules.remove(i);
                self.modules.insert(i, module);
                proof {
                    assert(self.modules@ =~= ms.update(i as int, module));
                    assert(ms[i as int]@.name == mv.name);
                    assert forall|p: int, q: int|
                        0 <= p < q < self.modules@.len() implies lex_lt(
                        (#[trigger] self.modules@[p])@.name,
                        (#[trigger] self.modules@[q])@.name,
                    ) by {
                        assert(lex_lt(ms[p]@.name, ms[q]@.name));
                        assert(self.modules@[p]@.name == ms[p]@.name);
                        assert(self.modules@[q]@.name == ms[q]@.name);
                    }
                    assert(exists|k: int|
                        0 <= k < ms.len() && (#[trigger] ms[k])@.name == mv.name && self.modules@
                            == ms.update(k, module)) by {
                        let ghost ii = i as int;
                        assert(0 <= ii && ii < ms.len() && (#[trigger] ms[ii])@.name == mv.name
                            && self.modules@ == ms.update(ii, module));
                    }
                }
                return ;
            }
            if c == 1 {
                // the existing module sorts after the new one: insert here
                self.modules.insert(i, module);
                proof {
                    assert(self.modules@ =~= ms.insert(i as int, module));
                    assert forall|p: int, q: int|
                        0 <= p < q < self.modules@.len() implies lex_lt(
                        (#[trigger] self.modules@[p])@.name,
                        (#[trigger] self.modules@[q])@.name,
                    ) by {
                        let ii = i as int;
                        if p < ii {
                            assert(self.modules@[p] == ms[p]);
                            if q < ii {
                                assert(self.modules@[q] == ms[q]);
                                assert(lex_lt(ms[p]@.name, ms[q]@.name));
                            } else if q == ii {
                                assert(lex_lt(ms[p]@.name, module@.name));
                            } else {
                                assert(self.modules@[q] == ms[q - 1]);
                                assert(lex_lt(ms[p]@.name, ms[q - 1]@.name));
                            }
                        } else if p == ii {
                            assert(self.modules@[q] == ms[q - 1]);
                            if q - 1 > ii {
                                crate::text::lemma_lex_trans(
                                    module@.name,
                                    ms[ii]@.name,
                                    ms[q - 1]@.name,
                                );
                            }
                        } else {
                            assert(self.modules@[p] == ms[p - 1]);
                            assert(self.modules@[q] == ms[q - 1]);
                            assert(lex_lt(ms[p - 1]@.name, ms[q - 1]@.name));
                        }
                    }
                    if exists|k: int|
                        0 <= k < ms.len() && (#[trigger] ms[k])@.name == module@.name {
                        let k = choose|k: int|
                            0 <= k < ms.len() && (#[trigger] ms[k])@.name == module@.name;
                        if k < i as int {
                            crate::text::lemma_lex_asym(ms[k]@.name, module@.name);
                        } else if k == i as int {
                            crate::text::lemma_lex_asym(module@.name, ms[k]@.name);
                        } else {
                            crate::text::lemma_lex_trans(
                                module@.name,
                                ms[i as int]@.name,
                                ms[k]@.name,
                            );
                            crate::text::lemma_lex_asym(module@.name, ms[k]@.name);
                        }
                        assert(false);
                    }
                }
                return ;
            }
            proof {
                crate::text::lemma_lex_total(ms[i as int]@.name, module@.name);
                if !lex_lt(ms[i as int]@.name, module@.name) {
                    assert(false);
                }
            }
            i += 1;
        }
        self.modules.push(module);
        proof {
            assert(self.modules@ =~= ms.insert(ms.len() as int, module));
            assert forall|p: int, q: int|
                0 <= p < q < self.modules@.len() implies lex_lt(
                (#[trigger] self.modules@[p])@.name,
                (#[trigger] self.modules@[q])@.name,
            ) by {
                assert(self.modules@[p] == ms[p]);
                if q < ms.len() {
                    assert(self.modules@[q] == ms[q]);
                }
            }
            if exists|k: int| 0 <= k < ms.len() && (#[trigger] ms[k])@.name == module@.name {
                let k = choose|k: int|
                    0 <= k < ms.len() && (#[trigger] ms[k])@.name == module@.name;
                crate::text::lemma_lex_asym(ms[k]@.name, module@.name);
                assert(false);
            }
        }
    }

    /// Adds a function summary under its scope-qualified `scope.name` form.
    pub fn add_outer_fn(&mut self, f_name: &str, mod_name: &str)
        requires
            old(self).wf(),
        ensures
            final(self)@ == (GraphV {
                fns: old(self)@.fns.push(
                    FnV {
                        name: mod_name@ + seq!['.'] + f_name@,
                        full_name: mod_name@ + seq!['.'] + f_name@,
                    },
                ),
                ..old(self)@
            }),
            final(self).spec_modules() == old(self).spec_modules(),
            final(self).wf(),
    {
        let name = crate::text::qualified_name(mod_name, f_name);
        let f = UMLFn::new(name.as_str(), name.as_str());
        self.add_fn(f);
    }
}

} // verus!
