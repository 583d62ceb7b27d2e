//! The classification rules: pure functions that map one declaration to the
//! sequence of provisional entities and candidate relations it contributes.
//! No function here touches the graph; resolution happens later, in the
//! engine.

use vstd::prelude::*;

verus! {

use vstd::string::StringExecFns;
use crate::decl::{
    Decl, EntityV, FieldDecl, FieldV, FnDeclV, ImplV, ImportLeaf, LeafV, SigV, TypeDecl, TypeDeclV,
    FnDecl, ImplDecl, UMLEntity, entity_views,
};
use crate::text::{
    after_last_dot, before_last_dot, dotted, lex_lt, prefix_before, replace_coloncolon, rsplit_dot,
    str_views, upto_char,
};
use crate::uml_class::{ClassV, UMLClass, UMLClassKind};
use crate::uml_fn::{FnV, UMLFn};
use crate::uml_outer_entity::{OuterV, UMLOuterEntity};
use crate::uml_relation::{RelV, UMLRelation, UMLRelationKind};

/// A type name with any generic-argument suffix removed: the text before the
/// first `<`.
pub fn strip_trait_bound(s: &str) -> (r: String)
    ensures
        r@ == upto_char(s@, '<'),
{
    prefix_before(s, '<')
}

/// A field owned by value is a composition; a field behind a raw pointer is
/// an aggregation (referenced, not owned).
pub open spec fn field_rel_kind(f: FieldV) -> UMLRelationKind {
    if f.is_pointer {
        UMLRelationKind::UMLAggregation
    } else {
        UMLRelationKind::UMLComposition
    }
}

/// The candidate relations one field contributes: one per named type its
/// type expression mentions.
pub open spec fn rels_of_field(owner: Seq<char>, f: FieldV) -> Seq<EntityV> {
    f.paths.map_values(
        |p: Seq<char>| EntityV::Rel(RelV { from: owner, to: p, kind: field_rel_kind(f) }),
    )
}

/// The candidate relations of a whole field list, in declaration order.
pub open spec fn rels_of_fields(owner: Seq<char>, fs: Seq<FieldV>) -> Seq<EntityV>
    decreases fs.len(),
{
    if fs.len() == 0 {
        Seq::empty()
    } else {
        rels_of_fields(owner, fs.drop_last()) + rels_of_field(owner, fs.last())
    }
}

/// The display texts of a field list.
pub open spec fn field_texts(fs: Seq<FieldV>) -> Seq<Seq<char>> {
    fs.map_values(|f: FieldV| f.text)
}

/// What a concrete type declaration contributes: the ownership relations of
/// its fields, then one concrete type entity carrying the field texts.
pub open spec fn struct_obs(d: TypeDeclV) -> Seq<EntityV> {
    rels_of_fields(d.name, d.fields) + seq![
        EntityV::Class(
            ClassV {
                name: d.name,
                fields: field_texts(d.fields),
                methods: Seq::empty(),
                kind: UMLClassKind::UMLClass,
            },
        ),
    ]
}

/// What an interface declaration contributes: one interface entity, then the
/// ownership relations of any fields it declares (rare but supported).
pub open spec fn interface_obs(d: TypeDeclV) -> Seq<EntityV> {
    seq![
        EntityV::Class(
            ClassV {
                name: d.name,
                fields: Seq::empty(),
                methods: Seq::empty(),
                kind: UMLClassKind::UMLTrait,
            },
        ),
    ] + rels_of_fields(d.name, d.fields)
}

/// The display form of a signature: name, parameter list, then the return
/// type after one space when there is one.
pub open spec fn sig_full_name(s: SigV) -> Seq<char> {
    s.name + s.params + (match s.ret {
        Some(r) => seq![' '] + r,
        None => Seq::empty(),
    })
}

/// The display forms of a method list.
pub open spec fn method_full_names(ms: Seq<SigV>) -> Seq<Seq<char>> {
    ms.map_values(|m: SigV| sig_full_name(m))
}

/// Association candidates: a type appearing in a return-type position points
/// back at the producing type.
pub open spec fn au_rels(target: Seq<char>, ps: Seq<Seq<char>>) -> Seq<EntityV> {
    ps.map_values(
        |p: Seq<char>|
            EntityV::Rel(RelV { from: p, to: target, kind: UMLRelationKind::UMLAssociationUni }),
    )
}

/// Dependency candidates: the block's type depends on every type referenced
/// in a parameter list or a body.
pub open spec fn dep_rels(owner: Seq<char>, ps: Seq<Seq<char>>) -> Seq<EntityV> {
    ps.map_values(
        |p: Seq<char>|
            EntityV::Rel(RelV { from: owner, to: p, kind: UMLRelationKind::UMLDependency }),
    )
}

/// Strictly sorted in the lexicographic order (so also duplicate-free).
pub open spec fn strictly_sorted(v: Seq<Seq<char>>) -> bool {
    forall|i: int, j: int| 0 <= i < j < v.len() ==> lex_lt(#[trigger] v[i], #[trigger] v[j])
}

/// What follows the relation candidates of a method block: a realization
/// relation when the block implements an interface, else the type entity
/// that carries the block's method signatures.
pub open spec fn impl_tail(d: ImplV) -> Seq<EntityV> {
    let sname = upto_char(d.self_ty, '<');
    match d.trait_ty {
        Some(t) => seq![
            EntityV::Rel(
                RelV { from: sname, to: upto_char(t, '<'), kind: UMLRelationKind::UMLRealization },
            ),
        ],
        None => seq![
            EntityV::Class(
                ClassV {
                    name: sname,
                    fields: Seq::empty(),
                    methods: method_full_names(d.methods),
                    kind: UMLClassKind::UMLClass,
                },
            ),
        ],
    }
}

/// What a method block contributes: one association candidate per
/// return-type path, then one dependency candidate per referenced path that
/// appears in no return type — deduplicated and sorted, so the result is
/// deterministic — and finally [`impl_tail`]. The sorted dependency list
/// `ds` is unique: it is pinned by its order and its membership.
pub open spec fn impl_obs_ok(d: ImplV, out: Seq<EntityV>) -> bool {
    let sname = upto_char(d.self_ty, '<');
    exists|ds: Seq<Seq<char>>|
        {
            &&& strictly_sorted(ds)
            &&& (forall|x: Seq<char>|
                #[trigger] ds.contains(x) <==> ((d.param_paths + d.body_paths).contains(x)
                    && !d.ret_paths.contains(x)))
            &&& out == au_rels(sname, d.ret_paths) + dep_rels(sname, ds) + impl_tail(d)
        }
}

/// The called name recorded for a call expression: the callee text cut
/// before any `(`, then cut before any path qualifier.
pub open spec fn call_root(t: Seq<char>) -> Seq<char> {
    upto_char(upto_char(t, '('), ':')
}

/// What a free-function declaration contributes: one dependency candidate
/// per call expression in its body, then the function entity itself.
pub open spec fn fn_obs(d: FnDeclV) -> Seq<EntityV> {
    d.calls.map_values(
        |t: Seq<char>|
            EntityV::Rel(
                RelV { from: d.sig.name, to: call_root(t), kind: UMLRelationKind::UMLDependency },
            ),
    ) + seq![EntityV::Fn(FnV { name: d.sig.name, full_name: sig_full_name(d.sig) })]
}

/// The origin scope of a nested import leaf: its enclosing group paths,
/// each with `::` rewritten to `.`, joined with dots.
pub open spec fn scope_join(anc: Seq<Seq<char>>) -> Seq<char>
    decreases anc.len(),
{
    if anc.len() == 0 {
        Seq::empty()
    } else if anc.len() == 1 {
        dotted(anc[0])
    } else {
        scope_join(anc.drop_last()) + seq!['.'] + dotted(anc.last())
    }
}

/// What one import leaf contributes: an external placeholder. A leaf inside
/// a grouped import is named by its own text and scoped by its enclosing
/// groups; a plain import is split at the last separator of its own path.
pub open spec fn leaf_obs(l: LeafV) -> EntityV {
    if l.ancestors.len() > 0 {
        EntityV::Outer(OuterV { name: l.text, mod_name: scope_join(l.ancestors) })
    } else {
        EntityV::Outer(
            OuterV {
                name: after_last_dot(dotted(l.text)),
                mod_name: before_last_dot(dotted(l.text)),
            },
        )
    }
}

/// What an import statement contributes: one placeholder per leaf.
pub open spec fn use_obs(ls: Seq<LeafV>) -> Seq<EntityV> {
    ls.map_values(|l: LeafV| leaf_obs(l))
}

/// Membership in a concatenation is membership in either part.
proof fn lemma_contains_add<A>(a: Seq<A>, b: Seq<A>, x: A)
    ensures
        (a + b).contains(x) <==> (a.contains(x) || b.contains(x)),
{
    if a.contains(x) {
        let i = choose|i: int| 0 <= i < a.len() && a[i] == x;
        assert((a + b)[i] == x);
    }
    if b.contains(x) {
        let i = choose|i: int| 0 <= i < b.len() && b[i] == x;
        assert((a + b)[a.len() + i] == x);
    }
    if (a + b).contains(x) {
        let i = choose|i: int| 0 <= i < (a + b).len() && (a + b)[i] == x;
        if i < a.len() {
            assert(a[i] == x);
        } else {
            assert(b[i - a.len()] == x);
        }
    }
}

/// True iff some string of `v` reads as `s`.
fn contains_string(v: &Vec<String>, s: &String) -> (r: bool)
    ensures
        r == str_views(v@).contains(s@),
{
    let mut i: usize = 0;
    while i < v.len()
        invariant
            i <= v.len(),
            forall|k: int| 0 <= k < i ==> str_views(v@)[k] != s@,
        decreases v.len() - i,
    {
        if v[i] == *s {
            proof {
                assert(str_views(v@)[i as int] == s@);
            }
            return true;
        }
        i += 1;
    }
    proof {
        if str_views(v@).contains(s@) {
            let k = choose|k: int| 0 <= k < str_views(v@).len() && str_views(v@)[k] == s@;
        }
    }
    false
}

/// Inserts a copy of `s` into a strictly sorted list, keeping it strictly
/// sorted; a string already present is not duplicated.
fn insert_sorted_unique(v: &mut Vec<String>, s: &String)
    requires
        strictly_sorted(str_views(old(v)@)),
    ensures
        strictly_sorted(str_views(final(v)@)),
        forall|x: Seq<char>|
            #[trigger] str_views(final(v)@).contains(x) <==> (str_views(old(v)@).contains(x) || x
                == s@),
{
    let ghost ov = str_views(v@);
    let mut i: usize = 0;
    while i < v.len()
        invariant
            i <= v.len(),
            str_views(v@) == ov,
            ov == str_views(old(v)@),
            strictly_sorted(ov),
            forall|k: int| 0 <= k < i ==> lex_lt(#[trigger] ov[k], s@),
        decreases v.len() - i,
    {
        let c = crate::text::str_cmp(v[i].as_str(), s.as_str());
        proof {
            assert(ov[i as int] == v@[i as int]@);
        }
        if c == 0 {
            proof {
                assert(ov[i as int] == s@);
                assert(ov.contains(s@));
                assert forall|x: Seq<char>|
                    #[trigger] str_views(v@).contains(x) <==> (ov.contains(x) || x == s@) by {
                    if x == s@ {
                        assert(str_views(v@).contains(s@));
                    }
                }
            }
            return ;
        }
        if c == 1 {
            // the existing string sorts after the new one: insert here
            v.insert(i, s.clone());
            proof {
                let ghost ii = i as int;
                let ghost ins = ov.insert(ii, s@);
                assert(str_views(v@) =~= ins);
                crate::text::lemma_insert_index(ov, ii, s@);
                let nv = str_views(v@);
                assert forall|p: int, q: int| 0 <= p < q < nv.len() implies lex_lt(
                    #[trigger] nv[p],
                    #[trigger] nv[q],
                ) by {
                    if p < ii {
                        assert(ins[p] == ov[p]);
                        if q < ii {
                            assert(ins[q] == ov[q]);
                            assert(lex_lt(ov[p], ov[q]));
                        } else if q == ii {
                            assert(ins[q] == s@);
                        } else {
                            assert(ins[q] == ov[q - 1]);
                            assert(lex_lt(ov[p], ov[q - 1]));
                        }
                    } else if p == ii {
                        assert(ins[p] == s@);
                        assert(ins[q] == ov[q - 1]);
                        if q - 1 > ii {
                            crate::text::lemma_lex_trans(s@, ov[ii], ov[q - 1]);
                        }
                    } else {
                        assert(ins[p] == ov[p - 1]);
                        assert(ins[q] == ov[q - 1]);
                        assert(lex_lt(ov[p - 1], ov[q - 1]));
                    }
                }
                assert forall|x: Seq<char>|
                    #[trigger] nv.contains(x) implies (ov.contains(x) || x == s@) by {
                    let k = choose|k: int| 0 <= k < nv.len() && nv[k] == x;
                    if k < ii {
                        assert(ins[k] == ov[k]);
                        assert(ov[k] == x);
                    } else if k > ii {
                        assert(ins[k] == ov[k - 1]);
                        assert(ov[k - 1] == x);
                    }
                }
                assert forall|x: Seq<char>|
                    (ov.contains(x) || x == s@) implies #[trigger] nv.contains(x) by {
                    if x == s@ {
                        assert(ins[ii] == x);
                        assert(nv[ii] == x);
                    } else {
                        let k = choose|k: int| 0 <= k < ov.len() && ov[k] == x;
                        if k < ii {
                            assert(ins[k] == x);
                            assert(nv[k] == x);
                        } else {
                            assert(ins[k + 1] == x);
                            assert(nv[k + 1] == x);
                        }
                    }
                }
            }
            return ;
        }
        i += 1;
    }
    v.push(s.clone());
    proof {
        assert(str_views(v@) =~= ov.push(s@));
        let nv = str_views(v@);
        assert forall|p: int, q: int| 0 <= p < q < nv.len() implies lex_lt(
            #[trigger] nv[p],
            #[trigger] nv[q],
        ) by {
            assert(nv[p] == ov[p]);
            if q < ov.len() {
                assert(nv[q] == ov[q]);
            }
        }
        assert forall|x: Seq<char>| #[trigger] nv.contains(x) implies (ov.contains(x) || x
            == s@) by {
            let k = choose|k: int| 0 <= k < nv.len() && nv[k] == x;
            if k < ov.len() {
                assert(ov[k] == x);
            }
        }
        assert forall|x: Seq<char>| (ov.contains(x) || x == s@) implies #[trigger] nv.contains(
            x,
        ) by {
            if x == s@ {
                assert(nv[ov.len() as int] == x);
            } else {
                let k = choose|k: int| 0 <= k < ov.len() && ov[k] == x;
                assert(nv[k] == x);
            }
        }
    }
}

/// The deduplicated, sorted dependency targets of a method block: every path
/// seen in a parameter list or a body that appears in no return type.
fn sorted_dep_set(params: &Vec<String>, body: &Vec<String>, rets: &Vec<String>) -> (r: Vec<String>)
    ensures
        strictly_sorted(str_views(r@)),
        forall|x: Seq<char>|
            #[trigger] str_views(r@).contains(x) <==> ((str_views(params@) + str_views(
                body@,
            )).contains(x) && !str_views(rets@).contains(x)),
{
    let ghost pv = str_views(params@);
    let ghost bv = str_views(body@);
    let ghost rv = str_views(rets@);
    let mut out: Vec<String> = Vec::new();
    let mut i: usize = 0;
    proof {
        assert(str_views(out@) =~= Seq::<Seq<char>>::empty());
    }
    while i < params.len()
        invariant
            i <= params.len(),
            pv == str_views(params@),
            bv == str_views(body@),
            rv == str_views(rets@),
            strictly_sorted(str_views(out@)),
            forall|x: Seq<char>|
                #[trigger] str_views(out@).contains(x) <==> (pv.take(i as int).contains(x)
                    && !rv.contains(x)),
        decreases params.len() - i,
    {
        let ghost pre = str_views(out@);
        if !contains_string(rets, &params[i]) {
            insert_sorted_unique(&mut out, &params[i]);
        }
        proof {
            assert(pv[i as int] == params@[i as int]@);
            assert forall|x: Seq<char>|
                #[trigger] str_views(out@).contains(x) <==> (pv.take(i + 1).contains(x)
                    && !rv.contains(x)) by {
                assert(pv.take(i + 1) =~= pv.take(i as int).push(pv[i as int]));
                lemma_contains_add(pv.take(i as int), seq![pv[i as int]], x);
                assert(pv.take(i as int).push(pv[i as int]) =~= pv.take(i as int) + seq![
                    pv[i as int],
                ]);
                if x == pv[i as int] {
                    assert(seq![pv[i as int]][0] == x);
                    assert(seq![pv[i as int]].contains(x));
                } else if seq![pv[i as int]].contains(x) {
                    assert(seq![pv[i as int]][0] == x);
                }
            }
        }
        i += 1;
    }
    proof {
        assert(pv.take(pv.len() as int) =~= pv);
    }
    let mut j: usize = 0;
    while j < body.len()
        invariant
            j <= body.len(),
            pv == str_views(params@),
            bv == str_views(body@),
            rv == str_views(rets@),
            strictly_sorted(str_views(out@)),
            forall|x: Seq<char>|
                #[trigger] str_views(out@).contains(x) <==> ((pv + bv.take(j as int)).contains(x)
                    && !rv.contains(x)),
        decreases body.len() - j,
    {
        if !contains_string(rets, &body[j]) {
            insert_sorted_unique(&mut out, &body[j]);
        }
        proof {
            assert(bv[j as int] == body@[j as int]@);
            assert forall|x: Seq<char>|
                #[trigger] str_views(out@).contains(x) <==> ((pv + bv.take(j + 1)).contains(x)
                    && !rv.contains(x)) by {
                lemma_contains_add(pv, bv.take(j as int), x);
                lemma_contains_add(pv, bv.take(j + 1), x);
                assert(bv.take(j + 1) =~= bv.take(j as int) + seq![bv[j as int]]);
                lemma_contains_add(bv.take(j as int), seq![bv[j as int]], x);
                if x == bv[j as int] {
                    assert(seq![bv[j as int]][0] == x);
                    assert(seq![bv[j as int]].contains(x));
                } else if seq![bv[j as int]].contains(x) {
                    assert(seq![bv[j as int]][0] == x);
                }
            }
        }
        j += 1;
    }
    proof {
        assert(bv.take(bv.len() as int) =~= bv);
        assert forall|x: Seq<char>|
            #[trigger] str_views(out@).contains(x) <==> ((pv + bv).contains(x) && !rv.contains(
                x,
            )) by {
            lemma_contains_add(pv, bv, x);
            lemma_contains_add(pv, bv.take(bv.len() as int), x);
        }
    }
    out
}

/// What one declaration contributes, by its category.
pub open spec fn decl_obs_ok(d: crate::decl::DeclV, out: Seq<EntityV>) -> bool {
    match d {
        crate::decl::DeclV::Type(t) => out == struct_obs(t),
        crate::decl::DeclV::Interface(t) => out == interface_obs(t),
        crate::decl::DeclV::ImplBlock(b) => impl_obs_ok(b, out),
        crate::decl::DeclV::Func(f) => out == fn_obs(f),
        crate::decl::DeclV::Import(ls) => out == use_obs(ls),
    }
}

/// The display forms of the block's method signatures.
fn collect_method_names(methods: &Vec<crate::decl::MethodSig>) -> (r: Vec<String>)
    ensures
        str_views(r@) == method_full_names(methods@.map_values(|m: crate::decl::MethodSig| m@)),
{
    let ghost mv = methods@.map_values(|m: crate::decl::MethodSig| m@);
    let mut out: Vec<String> = Vec::new();
    let mut i: usize = 0;
    proof {
        assert(str_views(out@) =~= method_full_names(mv.take(0)));
    }
    while i < methods.len()
        invariant
            i <= methods.len(),
            mv == methods@.map_values(|m: crate::decl::MethodSig| m@),
            str_views(out@) == method_full_names(mv.take(i as int)),
        decreases methods.len() - i,
    {
        let ghost pre = out@;
        let disp = sig_display(&methods[i]);
        out.push(disp);
        proof {
            assert(str_views(out@) =~= str_views(pre).push(sig_full_name(mv[i as int])));
            assert(method_full_names(mv.take(i + 1)) =~= method_full_names(mv.take(i as int)).push(
                sig_full_name(mv[i as int]),
            ));
        }
        i += 1;
    }
    proof {
        assert(mv.take(mv.len() as int) =~= mv);
    }
    out
}

/// Classifies a method-implementation block: association candidates from
/// return types take precedence over dependency candidates for the same
/// name; dependencies are deduplicated and sorted; a block implementing an
/// interface contributes one realization relation instead of re-declaring
/// the type.
pub fn impl_entities(d: &ImplDecl) -> (r: Vec<UMLEntity>)
    ensures
        impl_obs_ok(d@, entity_views(r@)),
{
    let sname = strip_trait_bound(d.self_ty.as_str());
    let ghost sv = upto_char(d@.self_ty, '<');
    let ghost rv = str_views(d.ret_paths@);
    let mut out: Vec<UMLEntity> = Vec::new();
    let mut i: usize = 0;
    proof {
        assert(entity_views(out@) =~= au_rels(sv, rv.take(0)));
    }
    while i < d.ret_paths.len()
        invariant
            i <= d.ret_paths.len(),
            sname@ == sv,
            rv == str_views(d.ret_paths@),
            entity_views(out@) == au_rels(sv, rv.take(i as int)),
        decreases d.ret_paths.len() - i,
    {
        let ghost pre = entity_views(out@);
        out.push(
            UMLEntity::UMLRelation(
                UMLRelation::new(
                    d.ret_paths[i].as_str(),
                    sname.as_str(),
                    UMLRelationKind::UMLAssociationUni,
                ),
            ),
        );
        proof {
            assert(rv[i as int] == d.ret_paths@[i as int]@);
            assert(entity_views(out@) =~= pre.push(
                EntityV::Rel(
                    RelV {
                        from: rv[i as int],
                        to: sv,
                        kind: UMLRelationKind::UMLAssociationUni,
                    },
                ),
            ));
            assert(au_rels(sv, rv.take(i + 1)) =~= au_rels(sv, rv.take(i as int)).push(
                EntityV::Rel(
                    RelV {
                        from: rv[i as int],
                        to: sv,
                        kind: UMLRelationKind::UMLAssociationUni,
                    },
                ),
            ));
        }
        i += 1;
    }
    proof {
        assert(rv.take(rv.len() as int) =~= rv);
    }
    let deps = sorted_dep_set(&d.param_paths, &d.body_paths, &d.ret_paths);
    let ghost ds = str_views(deps@);
    let mut j: usize = 0;
    proof {
        assert(entity_views(out@) + dep_rels(sv, ds.take(0)) =~= entity_views(out@));
        assert(entity_views(out@) =~= au_rels(sv, rv) + dep_rels(sv, ds.take(0)));
    }
    while j < deps.len()
        invariant
            j <= deps.len(),
            sname@ == sv,
            rv == str_views(d.ret_paths@),
            ds == str_views(deps@),
            entity_views(out@) == au_rels(sv, rv) + dep_rels(sv, ds.take(j as int)),
        decreases deps.len() - j,
    {
        let ghost pre = entity_views(out@);
        out.push(
            UMLEntity::UMLRelation(
                UMLRelation::new(sname.as_str(), deps[j].as_str(), UMLRelationKind::UMLDependency),
            ),
        );
        proof {
            assert(ds[j as int] == deps@[j as int]@);
            assert(entity_views(out@) =~= pre.push(
                EntityV::Rel(
                    RelV { from: sv, to: ds[j as int], kind: UMLRelationKind::UMLDependency },
                ),
            ));
            assert(dep_rels(sv, ds.take(j + 1)) =~= dep_rels(sv, ds.take(j as int)).push(
                EntityV::Rel(
                    RelV { from: sv, to: ds[j as int], kind: UMLRelationKind::UMLDependency },
                ),
            ));
            assert(au_rels(sv, rv) + dep_rels(sv, ds.take(j + 1)) =~= pre.push(
                EntityV::Rel(
                    RelV { from: sv, to: ds[j as int], kind: UMLRelationKind::UMLDependency },
                ),
            ));
        }
        j += 1;
    }
    proof {
        assert(ds.take(ds.len() as int) =~= ds);
    }
    let ghost pre_tail = entity_views(out@);
    match &d.trait_ty {
        Some(t) => {
            let tname = strip_trait_bound(t.as_str());
            out.push(
                UMLEntity::UMLRelation(
                    UMLRelation::new(
                        sname.as_str(),
                        tname.as_str(),
                        UMLRelationKind::UMLRealization,
                    ),
                ),
            );
            proof {
                assert(entity_views(out@) =~= pre_tail + impl_tail(d@));
            }
        },
        None => {
            let methods = collect_method_names(&d.methods);
            out.push(
                UMLEntity::UMLClass(
                    UMLClass::new(sname.as_str(), Vec::new(), methods, UMLClassKind::UMLClass),
                ),
            );
            proof {
                assert(str_views(Seq::<String>::empty()) =~= Seq::<Seq<char>>::empty());
                assert(entity_views(out@) =~= pre_tail + impl_tail(d@));
            }
        },
    }
    proof {
        assert(entity_views(out@) =~= au_rels(sv, rv) + dep_rels(sv, ds) + impl_tail(d@));
        assert(impl_obs_ok(d@, entity_views(out@))) by {
            assert(strictly_sorted(ds) && (forall|x: Seq<char>|
                #[trigger] ds.contains(x) <==> ((d@.param_paths + d@.body_paths).contains(x)
                    && !d@.ret_paths.contains(x))) && entity_views(out@) == au_rels(
                sv,
                d@.ret_paths,
            ) + dep_rels(sv, ds) + impl_tail(d@));
        }
    }
    out
}

/// Builds the dotted scope of a nested import leaf.
fn join_scope(ancestors: &Vec<String>) -> (r: String)
    requires
        ancestors.len() > 0,
    ensures
        r@ == scope_join(str_views(ancestors@)),
{
    let ghost av = str_views(ancestors@);
    let mut s = replace_coloncolon(ancestors[0].as_str());
    let mut k: usize = 1;
    proof {
        assert(av.take(1).len() == 1);
        assert(av.take(1)[0] == av[0]);
        assert(s@ == scope_join(av.take(1)));
    }
    while k < ancestors.len()
        invariant
            1 <= k <= ancestors.len(),
            av == str_views(ancestors@),
            s@ == scope_join(av.take(k as int)),
        decreases ancestors.len() - k,
    {
        let ghost pre = s@;
        s.append(".");
        let d = replace_coloncolon(ancestors[k].as_str());
        s.append(d.as_str());
        proof {
            reveal_strlit(".");
            assert("."@ =~= seq!['.']);
            assert(av.take(k + 1).drop_last() =~= av.take(k as int));
            assert(av.take(k + 1).last() == av[k as int]);
            assert(scope_join(av.take(k + 1)) == scope_join(av.take(k as int)) + seq!['.'] + dotted(
                av[k as int],
            ));
            assert(s@ =~= pre + seq!['.'] + dotted(av[k as int]));
        }
        k += 1;
    }
    proof {
        assert(av.take(av.len() as int) =~= av);
    }
    s
}

/// Classifies an import statement: one external placeholder per leaf of the
/// import tree.
pub fn use_entities(leaves: &Vec<ImportLeaf>) -> (r: Vec<UMLEntity>)
    ensures
        entity_views(r@) == use_obs(leaves@.map_values(|l: ImportLeaf| l@)),
{
    let ghost lv = leaves@.map_values(|l: ImportLeaf| l@);
    let mut out: Vec<UMLEntity> = Vec::new();
    let mut i: usize = 0;
    proof {
        assert(entity_views(out@) =~= use_obs(lv.take(0)));
    }
    while i < leaves.len()
        invariant
            i <= leaves.len(),
            lv == leaves@.map_values(|l: ImportLeaf| l@),
            entity_views(out@) == use_obs(lv.take(i as int)),
        decreases leaves.len() - i,
    {
        let ghost pre = entity_views(out@);
        let leaf = &leaves[i];
        if leaf.ancestors.len() > 0 {
            let scope = join_scope(&leaf.ancestors);
            out.push(
                UMLEntity::UMLOuterEntity(
                    UMLOuterEntity::new(leaf.text.as_str(), scope.as_str()),
                ),
            );
        } else {
            let dp = replace_coloncolon(leaf.text.as_str());
            let (scope, name) = rsplit_dot(dp.as_str());
            out.push(
                UMLEntity::UMLOuterEntity(UMLOuterEntity::new(name.as_str(), scope.as_str())),
            );
        }
        proof {
            assert(lv[i as int] == leaves@[i as int]@);
            assert(entity_views(out@) =~= pre.push(leaf_obs(lv[i as int])));
            assert(use_obs(lv.take(i + 1)) =~= use_obs(lv.take(i as int)).push(
                leaf_obs(lv[i as int]),
            ));
        }
        i += 1;
    }
    proof {
        assert(lv.take(lv.len() as int) =~= lv);
    }
    out
}

impl Decl {
    /// The provisional entities and candidate relations this declaration
    /// contributes, in discovery order.
    pub fn get_uml_entities(&self) -> (r: Vec<UMLEntity>)
        ensures
            decl_obs_ok(self@, entity_views(r@)),
    {
        match self {
            Decl::Type(t) => struct_entities(t),
            Decl::Interface(t) => trait_entities(t),
            Decl::ImplBlock(b) => impl_entities(b),
            Decl::Func(f) => fn_entities(f),
            Decl::Import(ls) => use_entities(ls),
        }
    }
}

/// Appends the ownership relations of one field list to `out`.
fn push_field_rels(out: &mut Vec<UMLEntity>, owner: &String, fields: &Vec<FieldDecl>)
    ensures
        entity_views(final(out)@) == entity_views(old(out)@) + rels_of_fields(
            owner@,
            fields@.map_values(|f: FieldDecl| f@),
        ),
{
    let ghost base = entity_views(out@);
    let ghost fv = fields@.map_values(|f: FieldDecl| f@);
    let mut i: usize = 0;
    proof {
        assert(base + rels_of_fields(owner@, fv.take(0)) =~= base);
    }
    while i < fields.len()
        invariant
            i <= fields.len(),
            fv == fields@.map_values(|f: FieldDecl| f@),
            entity_views(out@) == base + rels_of_fields(owner@, fv.take(i as int)),
        decreases fields.len() - i,
    {
        let f = &fields[i];
        let kind = if f.is_pointer {
            UMLRelationKind::UMLAggregation
        } else {
            UMLRelationKind::UMLComposition
        };
        let ghost mid = entity_views(out@);
        let mut j: usize = 0;
        proof {
            assert(mid + rels_of_field(owner@, fv[i as int]).take(0) =~= mid);
        }
        while j < f.paths.len()
            invariant
                j <= f.paths.len(),
                i < fields.len(),
                fv == fields@.map_values(|f: FieldDecl| f@),
                f == &fields@[i as int],
                kind == field_rel_kind(fv[i as int]),
                entity_views(out@) == mid + rels_of_field(owner@, fv[i as int]).take(j as int),
            decreases f.paths.len() - j,
        {
            let ghost pre = entity_views(out@);
            out.push(
                UMLEntity::UMLRelation(UMLRelation::new(owner.as_str(), f.paths[j].as_str(), kind)),
            );
            proof {
                assert(fv[i as int].paths[j as int] == f.paths@[j as int]@);
                assert(entity_views(out@) =~= pre.push(
                    EntityV::Rel(
                        RelV { from: owner@, to: fv[i as int].paths[j as int], kind: kind },
                    ),
                ));
                assert(rels_of_field(owner@, fv[i as int]).take(j + 1) =~= rels_of_field(
                    owner@,
                    fv[i as int],
                ).take(j as int).push(
                    EntityV::Rel(
                        RelV { from: owner@, to: fv[i as int].paths[j as int], kind: kind },
                    ),
                ));
                assert(mid + rels_of_field(owner@, fv[i as int]).take(j + 1) =~= entity_views(
                    out@,
                ));
            }
            j += 1;
        }
        proof {
            assert(rels_of_field(owner@, fv[i as int]).take(
                rels_of_field(owner@, fv[i as int]).len() as int,
            ) =~= rels_of_field(owner@, fv[i as int]));
            assert(fv.take(i + 1).drop_last() =~= fv.take(i as int));
            assert(fv.take(i + 1).last() == fv[i as int]);
            assert(rels_of_fields(owner@, fv.take(i + 1)) == rels_of_fields(
                owner@,
                fv.take(i as int),
            ) + rels_of_field(owner@, fv[i as int]));
            assert(base + rels_of_fields(owner@, fv.take(i + 1)) =~= entity_views(out@));
        }
        i += 1;
    }
    proof {
        assert(fv.take(fv.len() as int) =~= fv);
    }
}

/// The display texts of the fields, as fresh strings.
fn collect_field_texts(fields: &Vec<FieldDecl>) -> (r: Vec<String>)
    ensures
        str_views(r@) == field_texts(fields@.map_values(|f: FieldDecl| f@)),
{
    let ghost fv = fields@.map_values(|f: FieldDecl| f@);
    let mut out: Vec<String> = Vec::new();
    let mut i: usize = 0;
    proof {
        assert(str_views(out@) =~= field_texts(fv.take(0)));
    }
    while i < fields.len()
        invariant
            i <= fields.len(),
            fv == fields@.map_values(|f: FieldDecl| f@),
            str_views(out@) == field_texts(fv.take(i as int)),
        decreases fields.len() - i,
    {
        let ghost pre = out@;
        out.push(fields[i].text.clone());
        proof {
            assert(str_views(out@) =~= str_views(pre).push(fv[i as int].text));
            assert(field_texts(fv.take(i + 1)) =~= field_texts(fv.take(i as int)).push(
                fv[i as int].text,
            ));
        }
        i += 1;
    }
    proof {
        assert(fv.take(fv.len() as int) =~= fv);
    }
    out
}

/// Classifies a concrete type declaration: one ownership relation per named
/// type in each field, then the type entity itself.
pub fn struct_entities(d: &TypeDecl) -> (r: Vec<UMLEntity>)
    ensures
        entity_views(r@) == struct_obs(d@),
{
    let mut out: Vec<UMLEntity> = Vec::new();
    push_field_rels(&mut out, &d.name, &d.fields);
    let ghost pre = entity_views(out@);
    let texts = collect_field_texts(&d.fields);
    out.push(
        UMLEntity::UMLClass(
            UMLClass::new(d.name.as_str(), texts, Vec::new(), UMLClassKind::UMLClass),
        ),
    );
    proof {
        assert(str_views(Seq::<String>::empty()) =~= Seq::<Seq<char>>::empty());
        assert(entity_views(out@) =~= pre.push(
            EntityV::Class(
                ClassV {
                    name: d@.name,
                    fields: field_texts(d@.fields),
                    methods: Seq::empty(),
                    kind: UMLClassKind::UMLClass,
                },
            ),
        ));
        assert(entity_views(out@) =~= struct_obs(d@));
    }
    out
}

/// Classifies an interface declaration: the interface entity, then one
/// ownership relation per named type in each declared field.
pub fn trait_entities(d: &TypeDecl) -> (r: Vec<UMLEntity>)
    ensures
        entity_views(r@) == interface_obs(d@),
{
    let mut out: Vec<UMLEntity> = Vec::new();
    out.push(
        UMLEntity::UMLClass(
            UMLClass::new(d.name.as_str(), Vec::new(), Vec::new(), UMLClassKind::UMLTrait),
        ),
    );
    proof {
        assert(str_views(Seq::<String>::empty()) =~= Seq::<Seq<char>>::empty());
        assert(entity_views(out@) =~= seq![
            EntityV::Class(
                ClassV {
                    name: d@.name,
                    fields: Seq::empty(),
                    methods: Seq::empty(),
                    kind: UMLClassKind::UMLTrait,
                },
            ),
        ]);
    }
    push_field_rels(&mut out, &d.name, &d.fields);
    out
}

/// The display form of one signature.
fn sig_display(sig: &crate::decl::MethodSig) -> (r: String)
    ensures
        r@ == sig_full_name(sig@),
{
    let mut s = sig.name.clone();
    s.append(sig.params.as_str());
    match &sig.ret {
        Some(ret) => {
            s.append(" ");
            s.append(ret.as_str());
            proof {
                reveal_strlit(" ");
                assert(" "@ =~= seq![' ']);
                assert(s@ =~= sig_full_name(sig@));
            }
        },
        None => {
            proof {
                assert(s@ + Seq::<char>::empty() =~= s@);
            }
        },
    }
    s
}

/// Classifies a free-function declaration: one dependency per call
/// expression in its body, then the function entity.
pub fn fn_entities(d: &FnDecl) -> (r: Vec<UMLEntity>)
    ensures
        entity_views(r@) == fn_obs(d@),
{
    let ghost cv = str_views(d.calls@);
    let mut out: Vec<UMLEntity> = Vec::new();
    let mut i: usize = 0;
    let ghost dep_of = |t: Seq<char>|
        EntityV::Rel(
            RelV { from: d@.sig.name, to: call_root(t), kind: UMLRelationKind::UMLDependency },
        );
    proof {
        assert(entity_views(out@) =~= cv.take(0).map_values(dep_of));
    }
    while i < d.calls.len()
        invariant
            i <= d.calls.len(),
            cv == str_views(d.calls@),
            dep_of == (|t: Seq<char>|
                EntityV::Rel(
                    RelV {
                        from: d@.sig.name,
                        to: call_root(t),
                        kind: UMLRelationKind::UMLDependency,
                    },
                )),
            entity_views(out@) == cv.take(i as int).map_values(dep_of),
        decreases d.calls.len() - i,
    {
        let ghost pre = entity_views(out@);
        let head = prefix_before(d.calls[i].as_str(), '(');
        let root = prefix_before(head.as_str(), ':');
        out.push(
            UMLEntity::UMLRelation(
                UMLRelation::new(
                    d.sig.name.as_str(),
                    root.as_str(),
                    UMLRelationKind::UMLDependency,
                ),
            ),
        );
        proof {
            assert(root@ == call_root(cv[i as int]));
            assert(entity_views(out@) =~= pre.push(dep_of(cv[i as int])));
            assert(cv.take(i + 1).map_values(dep_of) =~= cv.take(i as int).map_values(
                dep_of,
            ).push(dep_of(cv[i as int])));
        }
        i += 1;
    }
    let full = sig_display(&d.sig);
    let ghost pre = entity_views(out@);
    out.push(UMLEntity::UMLFn(UMLFn::new(d.sig.name.as_str(), full.as_str())));
    proof {
        assert(cv.take(cv.len() as int) =~= cv);
        assert(entity_views(out@) =~= pre.push(
            EntityV::Fn(FnV { name: d@.sig.name, full_name: sig_full_name(d@.sig) }),
        ));
        assert(entity_views(out@) =~= fn_obs(d@));
    }
    out
}

} // verus!
