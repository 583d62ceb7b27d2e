use rudg::classifier::strip_trait_bound;
use rudg::dot::{escape_html, quote_string, Arrow, ArrowShape, Fill, LabelText, Side, Style};
use rudg::UMLRelationKind;

#[test]
fn strip_trait_bound_cuts_generic_arguments() {
    assert_eq!(strip_trait_bound("B<T>"), "B");
    assert_eq!(strip_trait_bound("Vec<Option<T>>"), "Vec");
    assert_eq!(strip_trait_bound("Plain"), "Plain");
    assert_eq!(strip_trait_bound(""), "");
}

#[test]
fn escape_html_escapes_tags() {
    assert_eq!(escape_html("<a&b>"), "&lt;a&amp;b&gt;");
    assert_eq!(escape_html(r#"say "hi""#), "say &quot;hi&quot;");
    assert_eq!(escape_html("plain"), "plain");
}

#[test]
fn quote_string_wraps_in_quotes() {
    assert_eq!(quote_string(String::from("x")), "\"x\"");
    assert_eq!(quote_string(String::new()), "\"\"");
}

#[test]
fn label_text_renders_with_delimiters() {
    assert_eq!(LabelText::LabelStr(String::from("a\\b")).to_dot_string(), r#""a\\b""#);
    assert_eq!(LabelText::EscStr(String::from("a\\l")).to_dot_string(), r#""a\l""#);
    assert_eq!(LabelText::HtmlStr(String::from("<b>x</b>")).to_dot_string(), "<<b>x</b>>");
    assert_eq!(LabelText::LabelStr(String::from("tab\there")).to_dot_string(), "\"tab\\there\"");
}

#[test]
fn arrow_shapes_render_with_modifiers() {
    assert_eq!(ArrowShape::Diamond(Fill::Open, Side::Both).to_dot_string(), "odiamond");
    assert_eq!(ArrowShape::Diamond(Fill::Filled, Side::Left).to_dot_string(), "ldiamond");
    assert_eq!(ArrowShape::Normal(Fill::Open, Side::Right).to_dot_string(), "ornormal");
    assert_eq!(ArrowShape::Crow(Side::Both).to_dot_string(), "crow");
    assert_eq!(ArrowShape::NoArrow.to_dot_string(), "none");
    assert_eq!(ArrowShape::vee().to_dot_string(), "vee");
    assert_eq!(ArrowShape::tee().to_dot_string(), "tee");
    assert_eq!(ArrowShape::boxed().to_dot_string(), "box");
    assert_eq!(ArrowShape::curve().to_dot_string(), "curve");
    assert_eq!(ArrowShape::icurve().to_dot_string(), "icurve");
    assert_eq!(ArrowShape::inv().to_dot_string(), "inv");
    assert_eq!(ArrowShape::dot().to_dot_string(), "dot");
    assert_eq!(ArrowShape::Dot(Fill::Open).to_dot_string(), "odot");
}

#[test]
fn arrows_concatenate_their_shapes() {
    assert_eq!(Arrow::default().to_dot_string(), "");
    assert!(Arrow::default().is_default());
    assert_eq!(Arrow::none().to_dot_string(), "none");
    assert_eq!(Arrow::normal().to_dot_string(), "normal");
    assert_eq!(Arrow::from_arrow(ArrowShape::crow()).to_dot_string(), "crow");
    assert!(!Arrow::none().is_default());
}

#[test]
fn styles_render_their_graphviz_names() {
    assert_eq!(Style::Unstyled.as_slice(), "");
    assert_eq!(Style::Invisible.as_slice(), "invis");
    assert_eq!(Style::Dashed.as_slice(), "dashed");
    assert_eq!(Style::Bold.as_slice(), "bold");
}

#[test]
fn relation_kinds_are_ordered_by_priority() {
    assert_eq!(UMLRelationKind::UMLDependency.priority(), 0);
    assert_eq!(UMLRelationKind::UMLAssociationUni.priority(), 1);
    assert_eq!(UMLRelationKind::UMLAssociationBi.priority(), 2);
    assert_eq!(UMLRelationKind::UMLAggregation.priority(), 3);
    assert_eq!(UMLRelationKind::UMLComposition.priority(), 4);
    assert_eq!(UMLRelationKind::UMLRealization.priority(), 5);
}
