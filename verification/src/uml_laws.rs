//! The guarantees of the resolution engine, stated and proved once and for
//! all over the engine's own specification functions.

use vstd::prelude::*;

verus! {

use crate::uml_class::ClassV;
use crate::uml_graph::{
    GraphV, has_pair, has_rev_au, is_outer_name, knows_name, outer_rel_visible, rel_visible,
    rels_ok, rev_au_at, spec_add_relation, spec_add_struct, unique_struct_names,
    visible_rels, rel_vis_pred,
};
use crate::uml_relation::{RelV, UMLRelationKind, kind_priority, same_pair};

/// Merge idempotence: adding a type declaration under a fresh name and then
/// a second declaration with the same name yields one entity whose method
/// list is the concatenation of both contributions, with the fields of the
/// first declaration kept; every other entity is untouched.
pub proof fn lemma_merge_idempotence(cs: Seq<ClassV>, c1: ClassV, c2: ClassV)
    requires
        unique_struct_names(cs),
        c1.name == c2.name,
        forall|i: int| 0 <= i < cs.len() ==> (#[trigger] cs[i]).name != c1.name,
    ensures
        ({
            let r = spec_add_struct(spec_add_struct(cs, c1), c2);
            &&& r.len() == cs.len() + 1
            &&& r[cs.len() as int] == (ClassV { methods: c1.methods + c2.methods, ..c1 })
            &&& forall|i: int| 0 <= i < cs.len() ==> r[i] == cs[i]
        }),
{
    let n = cs.len() as int;
    let cs1 = spec_add_struct(cs, c1);
    if exists|i: int| 0 <= i < cs.len() && (#[trigger] cs[i]).name == c1.name {
        let i = choose|i: int| 0 <= i < cs.len() && (#[trigger] cs[i]).name == c1.name;
        assert(false);
    }
    assert(cs1 == cs.push(c1));
    assert(cs1[n].name == c2.name);
    assert(exists|i: int| 0 <= i < cs1.len() && (#[trigger] cs1[i]).name == c2.name);
    let k = choose|i: int| 0 <= i < cs1.len() && (#[trigger] cs1[i]).name == c2.name;
    if k < n {
        assert(cs1[k] == cs[k]);
        assert(false);
    }
    assert(spec_add_struct(cs1, c2) == cs1.update(
        n,
        ClassV { methods: cs1[n].methods + c2.methods, ..cs1[n] },
    ));
}

/// Relation uniqueness: the engine's invariants — no self-relations, at most
/// one stored relation per unordered pair — are kept by every
/// `add_relation` call, whatever the candidate.
pub proof fn lemma_relation_uniqueness(rs: Seq<RelV>, c: RelV)
    requires
        rels_ok(rs),
    ensures
        rels_ok(spec_add_relation(rs, c)),
{
    let r = spec_add_relation(rs, c);
    if c.from == c.to {
    } else if c.kind == UMLRelationKind::UMLAssociationUni && has_rev_au(rs, c) {
        let i = choose|i: int| 0 <= i < rs.len() && rev_au_at(rs, c, i);
        assert(r == rs.update(i, RelV { kind: UMLRelationKind::UMLAssociationBi, ..rs[i] }));
        assert forall|p: int, q: int| 0 <= p < q < r.len() implies !same_pair(
            #[trigger] r[p],
            #[trigger] r[q],
        ) by {
            assert(!same_pair(rs[p], rs[q]));
        }
    } else if has_pair(rs, c) {
        let i = choose|i: int| 0 <= i < rs.len() && same_pair(rs[i], c);
        if kind_priority(c.kind) > kind_priority(rs[i].kind) {
            assert(r == rs.update(i, RelV { kind: c.kind, ..rs[i] }));
            assert forall|p: int, q: int| 0 <= p < q < r.len() implies !same_pair(
                #[trigger] r[p],
                #[trigger] r[q],
            ) by {
                assert(!same_pair(rs[p], rs[q]));
            }
        }
    } else {
        assert(r == rs.push(c));
        assert forall|p: int, q: int| 0 <= p < q < r.len() implies !same_pair(
            #[trigger] r[p],
            #[trigger] r[q],
        ) by {
            if q < rs.len() {
                assert(!same_pair(rs[p], rs[q]));
            } else {
                assert(!has_pair(rs, c));
                assert(r[q] == c);
                if same_pair(r[p], c) {
                    assert(0 <= p < rs.len() && same_pair(rs[p], c));
                }
            }
        }
    }
}

/// Relation uniqueness over a whole run: resolving any sequence of
/// candidates against a store that obeys the engine's invariants leaves a
/// store that still obeys them — for any unordered pair of names, at most
/// one relation is ever stored.
pub proof fn lemma_relation_uniqueness_run(g: GraphV, rs: Seq<RelV>)
    requires
        rels_ok(g.relations),
    ensures
        rels_ok(crate::parser::pass_relations(g, rs).relations),
    decreases rs.len(),
{
    if rs.len() > 0 {
        lemma_relation_uniqueness_run(g, rs.drop_last());
        lemma_relation_uniqueness(
            crate::parser::pass_relations(g, rs.drop_last()).relations,
            rs.last(),
        );
    }
}

/// Priority monotonicity: once a relation is stored for a pair, a later
/// candidate of lower or equal priority never changes the stored kind, and a
/// strictly higher-priority candidate replaces exactly the kind, in place,
/// keeping the stored direction. The one exception, stated separately in
/// [`lemma_uni_bi_upgrade`], is a one-directional association meeting its
/// exact reverse, which is excluded here.
pub proof fn lemma_priority_monotonicity(rs: Seq<RelV>, c: RelV, i: int)
    requires
        rels_ok(rs),
        0 <= i < rs.len(),
        same_pair(rs[i], c),
        !(c.kind == UMLRelationKind::UMLAssociationUni && rev_au_at(rs, c, i)),
    ensures
        kind_priority(c.kind) <= kind_priority(rs[i].kind) ==> spec_add_relation(rs, c) == rs,
        kind_priority(c.kind) > kind_priority(rs[i].kind) ==> spec_add_relation(rs, c)
            == rs.update(i, RelV { kind: c.kind, ..rs[i] }),
{
    if c.from == c.to {
        assert(rs[i].from != rs[i].to);
        assert(!same_pair(rs[i], c));
    } else {
        if c.kind == UMLRelationKind::UMLAssociationUni && has_rev_au(rs, c) {
            let k = choose|k: int| 0 <= k < rs.len() && rev_au_at(rs, c, k);
            assert(same_pair(rs[k], c));
            if k != i {
                assert(same_pair(rs[k], rs[i]));
                assert(false);
            }
            assert(false);
        }
        assert(has_pair(rs, c));
        let k = choose|k: int| 0 <= k < rs.len() && same_pair(rs[k], c);
        if k != i {
            assert(same_pair(rs[k], rs[i]));
            assert(false);
        }
    }
}

/// Uni-to-bi upgrade: adding `(a, b, AssociationUni)` to a graph with no
/// relation yet on the pair, then `(b, a, AssociationUni)`, stores exactly
/// one relation `(a, b, AssociationBi)`: the direction of the first
/// insertion is kept and nothing else changes.
pub proof fn lemma_uni_bi_upgrade(rs: Seq<RelV>, a: Seq<char>, b: Seq<char>)
    requires
        rels_ok(rs),
        a != b,
        !has_pair(rs, RelV { from: a, to: b, kind: UMLRelationKind::UMLAssociationUni }),
    ensures
        ({
            let c1 = RelV { from: a, to: b, kind: UMLRelationKind::UMLAssociationUni };
            let c2 = RelV { from: b, to: a, kind: UMLRelationKind::UMLAssociationUni };
            spec_add_relation(spec_add_relation(rs, c1), c2) == rs.push(
                RelV { from: a, to: b, kind: UMLRelationKind::UMLAssociationBi },
            )
        }),
{
    let n = rs.len() as int;
    let c1 = RelV { from: a, to: b, kind: UMLRelationKind::UMLAssociationUni };
    let c2 = RelV { from: b, to: a, kind: UMLRelationKind::UMLAssociationUni };
    if has_rev_au(rs, c1) {
        let k = choose|k: int| 0 <= k < rs.len() && rev_au_at(rs, c1, k);
        assert(same_pair(rs[k], c1));
        assert(false);
    }
    let r1 = spec_add_relation(rs, c1);
    assert(r1 == rs.push(c1));
    lemma_relation_uniqueness(rs, c1);
    assert(rev_au_at(r1, c2, n));
    assert(has_rev_au(r1, c2));
    let k = choose|k: int| 0 <= k < r1.len() && rev_au_at(r1, c2, k);
    assert(same_pair(r1[k], c2));
    if k != n {
        assert(same_pair(r1[k], r1[n]));
        assert(false);
    }
    assert(spec_add_relation(r1, c2) == r1.update(
        n,
        RelV { kind: UMLRelationKind::UMLAssociationBi, ..r1[n] },
    ));
    assert(r1.update(n, RelV { kind: UMLRelationKind::UMLAssociationBi, ..r1[n] }) =~= rs.push(
        RelV { from: a, to: b, kind: UMLRelationKind::UMLAssociationBi },
    ));
}

/// Visibility gating: a name that is neither a known entity nor an external
/// placeholder never appears as an endpoint of `relations()`, and no stored
/// relation touching it qualifies for `outer_relations()`.
pub proof fn lemma_visibility_gating(g: GraphV, b: Seq<char>)
    requires
        !knows_name(g, b),
        !is_outer_name(g, b),
    ensures
        forall|k: int|
            0 <= k < visible_rels(g).len() ==> (#[trigger] visible_rels(g)[k]).from != b
                && visible_rels(g)[k].to != b,
        forall|k: int|
            0 <= k < g.relations.len() && ((#[trigger] g.relations[k]).from == b
                || g.relations[k].to == b) ==> !outer_rel_visible(g, g.relations[k]),
{
    assert forall|k: int| 0 <= k < visible_rels(g).len() implies (#[trigger] visible_rels(
        g,
    )[k]).from != b && visible_rels(g)[k].to != b by {
        g.relations.lemma_filter_pred(rel_vis_pred(g), k);
        assert(rel_visible(g, visible_rels(g)[k]));
    }
}

} // verus!
