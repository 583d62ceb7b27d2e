use rudg::{AstParser, StringParser, UMLClass, UMLClassKind, UMLFn, UMLGraph, UMLRelation,
    UMLRelationKind};

#[test]
fn ast_parser_test_parse_fn() {
    let code: &str = r#"
        fn main() {
            println!("Hello, world!");
        }
        "#;
    let parsed_graph = AstParser::parse_string(code);
    let mut target_graph: UMLGraph = UMLGraph::new("");
    target_graph.add_fn(UMLFn::new("main", "main()"));
    assert_eq!(parsed_graph, target_graph);
}

#[test]
fn test_parse_struct() {
    let code: &str = r#"
        pub struct Mock;
            impl Mock {
                pub fn mock_fn() {}
            }
        "#;
    let parsed_graph = AstParser::parse_string(code);
    let mut target_graph: UMLGraph = UMLGraph::new("");
    target_graph.add_struct(UMLClass::new(
        "Mock",
        vec![],
        vec![String::from("mock_fn()")],
        UMLClassKind::UMLClass,
    ));
    assert_eq!(parsed_graph, target_graph);
}

#[test]
fn ast_parser_test_fn_dependency() {
    let code: &str = r#"
            fn main() {
                hello();
            }
            fn hello() {}
        "#;
    let parsed_graph = AstParser::parse_string(code);
    let mut target_graph: UMLGraph = UMLGraph::new("");

    target_graph.add_fn(UMLFn::new("main", "main()"));
    target_graph.add_fn(UMLFn::new("hello", "hello()"));
    target_graph.add_relation(UMLRelation::new("main", "hello", UMLRelationKind::UMLDependency));

    assert_eq!(parsed_graph, target_graph);
}

#[test]
fn test_class_dependency() {
    let code: &str = r#"
        pub struct Mock;
        impl Mock {
            pub fn mock_fn() { f1(f2()) }    
        }
        fn f1(i: usize) {}
        fn f2() -> usize { 0 }
        "#;
    let parsed_graph = AstParser::parse_string(code);
    let mut target_graph: UMLGraph = UMLGraph::new("");

    target_graph.add_struct(UMLClass::new(
        "Mock",
        vec![],
        vec![String::from("mock_fn()")],
        UMLClassKind::UMLClass,
    ));
    target_graph.add_fn(UMLFn::new("f1", "f1(i: usize)"));
    target_graph.add_fn(UMLFn::new("f2", "f2() -> usize"));
    target_graph.add_relation(UMLRelation::new("Mock", "f1", UMLRelationKind::UMLDependency));
    target_graph.add_relation(UMLRelation::new("Mock", "f2", UMLRelationKind::UMLDependency));

    assert_eq!(parsed_graph, target_graph);
}

#[test]
fn ast_parser_test_aggregation() {
    let code: &str = r#"
        struct Amut {
            b: *mut B,
        }
        
        struct Aconst {
            b: *const B,
        }
        
        struct B {
        }
        "#;
    let parsed_graph = AstParser::parse_string(code);
    let mut target_graph: UMLGraph = UMLGraph::new("");

    target_graph.add_struct(UMLClass::new(
        "Amut",
        vec![String::from(r"b: *mut B")],
        vec![],
        UMLClassKind::UMLClass,
    ));
    target_graph.add_struct(UMLClass::new(
        "Aconst",
        vec![String::from(r"b: *const B")],
        vec![],
        UMLClassKind::UMLClass,
    ));
    target_graph.add_struct(UMLClass::new("B", vec![], vec![], UMLClassKind::UMLClass));
    target_graph.add_relation(UMLRelation::new("Amut", "B", UMLRelationKind::UMLAggregation));
    target_graph.add_relation(UMLRelation::new("Aconst", "B", UMLRelationKind::UMLAggregation));

    assert_eq!(parsed_graph, target_graph);
}

#[test]
fn ast_parser_test_composition() {
    let code: &str = r#"
        struct A {
            b: B,
        }
        
        struct B {
        }
        "#;
    let parsed_graph = AstParser::parse_string(code);
    let mut target_graph: UMLGraph = UMLGraph::new("");

    target_graph.add_struct(UMLClass::new(
        "A",
        vec![String::from(r"b: B")],
        vec![],
        UMLClassKind::UMLClass,
    ));
    target_graph.add_struct(UMLClass::new("B", vec![], vec![], UMLClassKind::UMLClass));
    target_graph.add_relation(UMLRelation::new("A", "B", UMLRelationKind::UMLComposition));

    assert_eq!(parsed_graph, target_graph);
}

#[test]
fn ast_parser_test_realization() {
    let code: &str = r#"
        use std::fmt::Debug;

        #[derive(Debug)]
        struct A<T> where T: Debug {
            a: T,
        }

        impl<T> A<T> where T: Debug {
            fn a(a: T) -> Self {
                A {
                    a: a,
                }
            }
        }

        impl <T>B<T> for A<T> where T: Debug {
            fn a(&self) -> Option<T> {
                None
            }
        }

        trait B<T> : Debug where T: Debug {
            fn a(&self) -> Option<T>;
        }

        impl <T>B<T> {
            fn a(&self) -> Option<T> {
                None
            }
        }
        "#;
    let parsed_graph = AstParser::parse_string(code);
    let mut target_graph: UMLGraph = UMLGraph::new("");

    target_graph.add_struct(UMLClass::new(
        "A",
        vec![String::from(r"a: T")],
        vec![String::from(r"a(a: T) -> Self")],
        UMLClassKind::UMLClass,
    ));
    target_graph.add_struct(UMLClass::new(
        "B",
        vec![],
        vec![String::from(r"a(&self) -> Option<T>")],
        UMLClassKind::UMLTrait,
    ));
    target_graph.add_relation(UMLRelation::new("A", "B", UMLRelationKind::UMLRealization));

    // relations with an endpoint that names no entity are stored but cannot
    // be reached through the visible views
    assert_eq!(parsed_graph.structs(), target_graph.structs());
    assert_eq!(parsed_graph.fns(), target_graph.fns());
    assert_eq!(parsed_graph.relations(), target_graph.relations());
}

#[test]
fn ast_parser_test_association() {
    let code: &str = r#"
        struct A {
        }
        
        impl A {
            fn b() -> B {
                B {
                }
            }
        }
        
        struct Ab {
        }
        
        impl Ab {
            fn b() -> B {
                B {
                }
            }
        }
        
        struct B {
        }
        
        impl B {
            fn a() -> Ab {
                Ab {
                }
            }
        }
        "#;
    let parsed_graph = AstParser::parse_string(code);
    let mut target_graph: UMLGraph = UMLGraph::new("");

    target_graph.add_struct(UMLClass::new(
        "A",
        vec![],
        vec![String::from(r"b() -> B")],
        UMLClassKind::UMLClass,
    ));
    target_graph.add_struct(UMLClass::new(
        "Ab",
        vec![],
        vec![String::from(r"b() -> B")],
        UMLClassKind::UMLClass,
    ));
    target_graph.add_struct(UMLClass::new(
        "B",
        vec![],
        vec![String::from(r"a() -> Ab")],
        UMLClassKind::UMLClass,
    ));
    target_graph.add_relation(UMLRelation::new("B", "A", UMLRelationKind::UMLAssociationUni));
    target_graph.add_relation(UMLRelation::new("B", "Ab", UMLRelationKind::UMLAssociationBi));

    assert_eq!(parsed_graph, target_graph);
}
