//! A small Graphviz-description builder: nodes, edges, arrow shapes, styles
//! and identifiers, and a renderer that writes a graph in DOT syntax with a
//! very regular structure.

pub mod arrow;
pub mod edge;
pub mod graph;
pub mod id;
pub mod label_text;
pub mod node;
pub mod render;
pub mod style;

pub use arrow::{Arrow, ArrowShape, Fill, Side};
pub use edge::{Edge, EdgeTrait, edge, edge_with_arrows};
pub use graph::{DefaultStyleGraph, GraphWalk, Kind, LabelledGraph};
pub use id::{Id, id_name};
pub use label_text::{LabelText, escape_html};
pub use node::Node;
pub use render::{RenderOption, default_options, graph_to_string, indent, quote_string, render,
    render_opts};
pub use style::Style;
