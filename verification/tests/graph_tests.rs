use rudg::{UMLClass, UMLClassKind, UMLFn, UMLGraph, UMLOuterEntity, UMLRelation, UMLRelationKind};

#[test]
fn test_add_relations() {
    let mut uml_graph = UMLGraph::new("");
    uml_graph.add_struct(UMLClass::new("Mock", vec![], vec![], UMLClassKind::UMLClass));
    uml_graph.add_relation(UMLRelation::new("main", "Mock", UMLRelationKind::UMLDependency));
    uml_graph.add_relation(UMLRelation::new("outer_main", "Mock", UMLRelationKind::UMLDependency));
    // a relation whose endpoint is not in scope stays invisible
    assert_eq!(uml_graph.relations().len(), 0);

    // relations surface once both endpoints are in scope
    uml_graph.add_fn(UMLFn::new("main", "main()"));
    assert_eq!(uml_graph.relations().len(), 1);
    assert_eq!(uml_graph.relations().get(0).unwrap().from, "main");
}

#[test]
fn test_add_outer_relations() {
    let mut uml_graph = UMLGraph::new("");
    uml_graph.add_struct(UMLClass::new("Main", vec![], vec![], UMLClassKind::UMLClass));
    uml_graph.add_relation(UMLRelation::new("Main", "outer_mock", UMLRelationKind::UMLDependency));
    // a relation with an unknown endpoint appears in neither view
    assert_eq!(uml_graph.relations().len(), 0);
    assert_eq!(uml_graph.outer_relations().len(), 0);

    // outer relations use the notation "mod"."struct/fn name"
    uml_graph.add_outer_entity(UMLOuterEntity::new("outer_mock", "mock"));
    assert_eq!(uml_graph.outer_relations().len(), 1);
    assert_eq!(uml_graph.relations().len(), 0);
    assert_eq!(uml_graph.outer_relations().get(0).unwrap().from, "Main");
    assert_eq!(uml_graph.outer_relations().get(0).unwrap().to, "mock.outer_mock");
}

#[test]
fn test_add_and_get_outer_relations() {
    let mut uml_graph = UMLGraph::new("");
    uml_graph.add_outer_entity(UMLOuterEntity::new("outer_entity", "Mod1"));
    uml_graph.add_fn(UMLFn::new("mock", "mock() -> ()"));
    uml_graph.add_relation(UMLRelation::new("mock", "outer_entity", UMLRelationKind::UMLDependency));

    assert_eq!(uml_graph.outer_relations().len(), 1);
    assert_eq!(
        uml_graph.outer_relations()[0],
        UMLRelation::new("mock", "Mod1.outer_entity", UMLRelationKind::UMLDependency)
    );
}
