use rudg::{AstParser, StringParser, UMLClass, UMLClassKind, UMLFn, UMLGraph, UMLRelation,
    UMLRelationKind};

#[test]
fn merge_keeps_one_entity_per_name() {
    let mut g = UMLGraph::new("");
    g.add_struct(UMLClass::new(
        "A",
        vec![String::from("x: u8")],
        vec![String::from("one()")],
        UMLClassKind::UMLClass,
    ));
    g.add_struct(UMLClass::new(
        "A",
        vec![String::from("ignored: u8")],
        vec![String::from("two()")],
        UMLClassKind::UMLClass,
    ));
    let structs = g.structs();
    assert_eq!(structs.len(), 1);
    assert_eq!(structs[0].get_method_names(), vec![String::from("one()"), String::from("two()")]);
    // the fields of the first declaration are kept
    assert_eq!(structs[0].get_field_names(), vec![String::from("x: u8")]);
}

#[test]
fn one_relation_per_pair() {
    let mut g = UMLGraph::new("");
    g.add_struct(UMLClass::new("A", vec![], vec![], UMLClassKind::UMLClass));
    g.add_struct(UMLClass::new("B", vec![], vec![], UMLClassKind::UMLClass));
    g.add_relation(UMLRelation::new("A", "B", UMLRelationKind::UMLDependency));
    g.add_relation(UMLRelation::new("B", "A", UMLRelationKind::UMLComposition));
    g.add_relation(UMLRelation::new("A", "B", UMLRelationKind::UMLAggregation));
    let rels = g.relations();
    assert_eq!(rels.len(), 1);
    // the first stored direction wins; the highest priority kind is kept
    assert_eq!(rels[0], UMLRelation::new("A", "B", UMLRelationKind::UMLComposition));
}

#[test]
fn lower_priority_never_downgrades() {
    let mut g = UMLGraph::new("");
    g.add_struct(UMLClass::new("A", vec![], vec![], UMLClassKind::UMLClass));
    g.add_struct(UMLClass::new("B", vec![], vec![], UMLClassKind::UMLClass));
    g.add_relation(UMLRelation::new("A", "B", UMLRelationKind::UMLComposition));
    g.add_relation(UMLRelation::new("A", "B", UMLRelationKind::UMLDependency));
    g.add_relation(UMLRelation::new("B", "A", UMLRelationKind::UMLAggregation));
    let rels = g.relations();
    assert_eq!(rels.len(), 1);
    assert_eq!(rels[0], UMLRelation::new("A", "B", UMLRelationKind::UMLComposition));
}

#[test]
fn uni_then_reverse_uni_becomes_bi() {
    let mut g = UMLGraph::new("");
    g.add_struct(UMLClass::new("A", vec![], vec![], UMLClassKind::UMLClass));
    g.add_struct(UMLClass::new("B", vec![], vec![], UMLClassKind::UMLClass));
    g.add_relation(UMLRelation::new("A", "B", UMLRelationKind::UMLAssociationUni));
    g.add_relation(UMLRelation::new("B", "A", UMLRelationKind::UMLAssociationUni));
    let rels = g.relations();
    assert_eq!(rels.len(), 1);
    // the direction of the first insertion is kept
    assert_eq!(rels[0], UMLRelation::new("A", "B", UMLRelationKind::UMLAssociationBi));
}

#[test]
fn self_relations_are_rejected() {
    let mut g = UMLGraph::new("");
    g.add_struct(UMLClass::new("A", vec![], vec![], UMLClassKind::UMLClass));
    g.add_relation(UMLRelation::new("A", "A", UMLRelationKind::UMLDependency));
    assert_eq!(g.relations().len(), 0);
    assert_eq!(g.outer_relations().len(), 0);
}

#[test]
fn unknown_names_stay_invisible() {
    let mut g = UMLGraph::new("");
    g.add_fn(UMLFn::new("known", "known()"));
    g.add_relation(UMLRelation::new("known", "unknown", UMLRelationKind::UMLDependency));
    g.add_relation(UMLRelation::new("unknown", "known", UMLRelationKind::UMLComposition));
    assert_eq!(g.relations().len(), 0);
    assert_eq!(g.outer_relations().len(), 0);
    // the widest view also shows nothing, since no external placeholder is involved
    assert_eq!(g.outer_relations_new().len(), 0);
}

#[test]
fn import_qualified_names_leave_local_views() {
    let mut g = UMLGraph::new("");
    g.add_outer_class("Far", UMLClassKind::UMLClass, "other");
    g.add_outer_fn("far_fn", "other");
    assert_eq!(g.structs().len(), 0);
    assert_eq!(g.fns().len(), 0);
}

#[test]
fn cross_module_import_yields_qualified_dependencies() {
    let code: &str = r#"
        use hello::{Hello, hello};

        fn mock() -> () {
            Hello::new();
            hello();
        }
        "#;
    let parsed = AstParser::parse_string(code);
    let outer = parsed.outer_relations();
    assert_eq!(outer.len(), 2);
    assert_eq!(outer[0], UMLRelation::new("mock", "hello.Hello", UMLRelationKind::UMLDependency));
    assert_eq!(outer[1], UMLRelation::new("mock", "hello.hello", UMLRelationKind::UMLDependency));
    assert_eq!(parsed.relations().len(), 0);
}

#[test]
fn plain_import_splits_scope_at_last_separator() {
    let code: &str = r#"
        use std::fmt::Debug;
        "#;
    let parsed = AstParser::parse_string(code);
    let outers = parsed.outer_entities();
    assert_eq!(outers.len(), 1);
    assert_eq!(outers[0].name, "Debug");
    assert_eq!(outers[0].mod_name, "std.fmt");
}

#[test]
fn modules_are_sorted_and_replaced_by_name() {
    let mut g = UMLGraph::new("");
    let mut mb = UMLGraph::new("beta");
    mb.add_fn(UMLFn::new("b", "b()"));
    let ma = UMLGraph::new("alpha");
    g.add_module(mb);
    g.add_module(ma);
    let mut mb2 = UMLGraph::new("beta");
    mb2.add_fn(UMLFn::new("b2", "b2()"));
    g.add_module(mb2);
    let names: Vec<String> = g.modules().iter().map(|m| m.name().clone()).collect();
    assert_eq!(names, vec![String::from("alpha"), String::from("beta")]);
    assert_eq!(g.modules()[1].fns().len(), 1);
    assert_eq!(g.modules()[1].fns()[0].name, "b2");
}

#[test]
fn interface_entities_keep_their_kind_through_merges() {
    let mut g = UMLGraph::new("");
    g.add_struct(UMLClass::new("I", vec![], vec![], UMLClassKind::UMLTrait));
    g.add_struct(UMLClass::new(
        "I",
        vec![],
        vec![String::from("m()")],
        UMLClassKind::UMLClass,
    ));
    let structs = g.structs();
    assert_eq!(structs.len(), 1);
    assert_eq!(structs[0].kind, UMLClassKind::UMLTrait);
    assert_eq!(structs[0].get_method_names(), vec![String::from("m()")]);
}

#[test]
fn widest_view_shows_every_placeholder_relation() {
    let mut g = UMLGraph::new("");
    g.add_outer_entity(rudg::UMLOuterEntity::new("far", "scope"));
    g.add_relation(UMLRelation::new("far", "nowhere", UMLRelationKind::UMLDependency));
    // the checked view demands a known counterpart, the widest view does not
    assert_eq!(g.outer_relations().len(), 0);
    let wide = g.outer_relations_new();
    assert_eq!(wide.len(), 1);
    assert_eq!(wide[0], UMLRelation::new("scope.far", "nowhere", UMLRelationKind::UMLDependency));
}

#[test]
fn renderability_is_decidable_up_front() {
    let mut good = UMLGraph::new("");
    let mut m = UMLGraph::new("mod_1");
    m.add_struct(UMLClass::new("Ok_name", vec![], vec![], UMLClassKind::UMLClass));
    good.add_module(m);
    assert!(good.is_renderable());

    let mut bad = UMLGraph::new("");
    bad.add_fn(UMLFn::new("has space", "has space()"));
    assert!(!bad.is_renderable());

    let mut bad_mod = UMLGraph::new("");
    bad_mod.add_module(UMLGraph::new("mod name"));
    assert!(!bad_mod.is_renderable());
}
