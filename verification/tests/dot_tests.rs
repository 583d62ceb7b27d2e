use rudg::dot::{edge, edge_with_arrows, Arrow, ArrowShape, DefaultStyleGraph, Id, Kind,
    LabelledGraph, Side, Style};
use rudg::dot::graph_to_string;

fn test_input(g: LabelledGraph) -> Result<String, ()> {
    graph_to_string(g)
}

// All of the tests use raw-strings as the format for the expected outputs,
// so that you can cut-and-paste the content into a .dot file yourself to
// see what the graphviz visualizer would produce.

#[test]
fn empty_graph() {
    let r = test_input(LabelledGraph::new("empty_graph", vec![], vec![], None));
    assert_eq!(
        r.unwrap(),
        r#"digraph empty_graph {
}
"#
    );
}

#[test]
fn single_node() {
    let r = test_input(LabelledGraph::new("single_node", vec![None], vec![], None));
    assert_eq!(
        r.unwrap(),
        r#"digraph single_node {
    N0[label="N0"];
}
"#
    );
}

#[test]
fn single_node_with_style() {
    let styles = Some(vec![Style::Dashed]);
    let r = test_input(LabelledGraph::new("single_node", vec![None], vec![], styles));
    assert_eq!(
        r.unwrap(),
        r#"digraph single_node {
    N0[label="N0"][style="dashed"];
}
"#
    );
}

#[test]
fn single_edge() {
    let result = test_input(LabelledGraph::new(
        "single_edge",
        vec![None, None],
        vec![edge(0, 1, "E", Style::Unstyled, None)],
        None,
    ));
    assert_eq!(
        result.unwrap(),
        r#"digraph single_edge {
    N0[label="N0"];
    N1[label="N1"];
    N0 -> N1[label="E"];
}
"#
    );
}

#[test]
fn single_edge_with_style() {
    let result = test_input(LabelledGraph::new(
        "single_edge",
        vec![None, None],
        vec![edge(0, 1, "E", Style::Bold, Some("red"))],
        None,
    ));
    assert_eq!(
        result.unwrap(),
        r#"digraph single_edge {
    N0[label="N0"];
    N1[label="N1"];
    N0 -> N1[label="E"][style="bold"][color="red"];
}
"#
    );
}

#[test]
fn test_some_labelled() {
    let styles = Some(vec![Style::Unstyled, Style::Dotted]);
    let result = test_input(LabelledGraph::new(
        "test_some_labelled",
        vec![Some("A"), None],
        vec![edge(0, 1, "A-1", Style::Unstyled, None)],
        styles,
    ));
    assert_eq!(
        result.unwrap(),
        r#"digraph test_some_labelled {
    N0[label="A"];
    N1[label="N1"][style="dotted"];
    N0 -> N1[label="A-1"];
}
"#
    );
}

#[test]
fn single_cyclic_node() {
    let r = test_input(LabelledGraph::new(
        "single_cyclic_node",
        vec![None],
        vec![edge(0, 0, "E", Style::Unstyled, None)],
        None,
    ));
    assert_eq!(
        r.unwrap(),
        r#"digraph single_cyclic_node {
    N0[label="N0"];
    N0 -> N0[label="E"];
}
"#
    );
}

#[test]
fn hasse_diagram() {
    let r = test_input(LabelledGraph::new(
        "hasse_diagram",
        vec![Some("{x,y}"), Some("{x}"), Some("{y}"), Some("{}")],
        vec![
            edge(0, 1, "", Style::Unstyled, Some("green")),
            edge(0, 2, "", Style::Unstyled, Some("blue")),
            edge(1, 3, "", Style::Unstyled, Some("red")),
            edge(2, 3, "", Style::Unstyled, Some("black")),
        ],
        None,
    ));
    assert_eq!(
        r.unwrap(),
        r#"digraph hasse_diagram {
    N0[label="{x,y}"];
    N1[label="{x}"];
    N2[label="{y}"];
    N3[label="{}"];
    N0 -> N1[label=""][color="green"];
    N0 -> N2[label=""][color="blue"];
    N1 -> N3[label=""][color="red"];
    N2 -> N3[label=""][color="black"];
}
"#
    );
}

#[test]
fn left_aligned_text() {
    let g = LabelledGraph::new(
        "syntax_tree",
        vec![
            Some(
                r#"if test {
\l    branch1
\l} else {
\l    branch2
\l}
\lafterward
\l"#,
            ),
            Some("branch1"),
            Some("branch2"),
            Some("afterward"),
        ],
        vec![
            edge(0, 1, "then", Style::Unstyled, None),
            edge(0, 2, "else", Style::Unstyled, None),
            edge(1, 3, ";", Style::Unstyled, None),
            edge(2, 3, ";", Style::Unstyled, None),
        ],
        None,
    );

    let r = graph_to_string(g).unwrap();

    assert_eq!(
        r,
        r#"digraph syntax_tree {
    N0[label="if test {
\l    branch1
\l} else {
\l    branch2
\l}
\lafterward
\l"];
    N1[label="branch1"];
    N2[label="branch2"];
    N3[label="afterward"];
    N0 -> N1[label="then"];
    N0 -> N2[label="else"];
    N1 -> N3[label=";"];
    N2 -> N3[label=";"];
}
"#
    );
}

#[test]
fn simple_id_construction() {
    let id1 = Id::new("hello");
    match id1 {
        Ok(_) => {}
        Err(..) => panic!("'hello' is not a valid value for id anymore"),
    }
}

#[test]
fn test_some_arrow() {
    let styles = Some(vec![Style::Unstyled, Style::Dotted]);
    let start = Arrow::default();
    let end = Arrow::from_arrow(ArrowShape::crow());
    let result = test_input(LabelledGraph::new(
        "test_some_labelled",
        vec![Some("A"), None],
        vec![edge_with_arrows(0, 1, "A-1", Style::Unstyled, start, end, None)],
        styles,
    ));
    assert_eq!(
        result.unwrap(),
        r#"digraph test_some_labelled {
    N0[label="A"];
    N1[label="N1"][style="dotted"];
    N0 -> N1[label="A-1"][arrowhead="crow"];
}
"#
    );
}

#[test]
fn test_some_arrows() {
    let styles = Some(vec![Style::Unstyled, Style::Dotted]);
    let start = Arrow::from_arrow(ArrowShape::tee());
    let end = Arrow::from_arrow(ArrowShape::Crow(Side::Left));
    let result = test_input(LabelledGraph::new(
        "test_some_labelled",
        vec![Some("A"), None],
        vec![edge_with_arrows(0, 1, "A-1", Style::Unstyled, start, end, None)],
        styles,
    ));
    assert_eq!(
        result.unwrap(),
        r#"digraph test_some_labelled {
    N0[label="A"];
    N1[label="N1"][style="dotted"];
    N0 -> N1[label="A-1"][arrowhead="lcrow" dir="both" arrowtail="tee"];
}
"#
    );
}

#[test]
fn invisible() {
    let r = test_input(LabelledGraph::new(
        "single_cyclic_node",
        vec![None],
        vec![edge(0, 0, "E", Style::Invisible, None)],
        Some(vec![Style::Invisible]),
    ));
    assert_eq!(
        r.unwrap(),
        r#"digraph single_cyclic_node {
    N0[label="N0"][style="invis"];
    N0 -> N0[label="E"][style="invis"];
}
"#
    );
}

#[test]
fn badly_formatted_id() {
    let id2 = Id::new("Weird { struct : ure } !!!");
    match id2 {
        Ok(_) => panic!("graphviz id suddenly allows spaces, brackets and stuff"),
        Err(..) => {}
    }
}

fn test_input_default(g: DefaultStyleGraph) -> Result<String, ()> {
    let mut writer = String::new();
    rudg::dot::render(&g, &mut writer);
    Ok(writer)
}

#[test]
fn default_style_graph() {
    let r = test_input_default(DefaultStyleGraph::new(
        "g",
        4,
        vec![(0, 1), (0, 2), (1, 3), (2, 3)],
        Kind::Graph,
    ));
    assert_eq!(
        r.unwrap(),
        r#"graph g {
    N0[label="N0"];
    N1[label="N1"];
    N2[label="N2"];
    N3[label="N3"];
    N0 -- N1[label=""];
    N0 -- N2[label=""];
    N1 -- N3[label=""];
    N2 -- N3[label=""];
}
"#
    );
}

#[test]
fn default_style_digraph() {
    let r = test_input_default(DefaultStyleGraph::new(
        "di",
        4,
        vec![(0, 1), (0, 2), (1, 3), (2, 3)],
        Kind::Digraph,
    ));
    assert_eq!(
        r.unwrap(),
        r#"digraph di {
    N0[label="N0"];
    N1[label="N1"];
    N2[label="N2"];
    N3[label="N3"];
    N0 -> N1[label=""];
    N0 -> N2[label=""];
    N1 -> N3[label=""];
    N2 -> N3[label=""];
}
"#
    );
}
