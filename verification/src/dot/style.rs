//! The style of a node or an edge, as Graphviz names it.

use vstd::prelude::*;

verus! {

/// The style for a node or edge; not all of these are valid for edges.
/// `Unstyled` renders as nothing.
#[derive(Copy, Clone, PartialEq, Eq, Structural, Debug)]
pub enum Style {
    Unstyled,
    Invisible,
    Solid,
    Dashed,
    Dotted,
    Bold,
    Rounded,
    Diagonals,
    Filled,
    Striped,
    Wedged,
}

/// The Graphviz name of a style; empty for `Unstyled`.
pub open spec fn style_text(s: Style) -> Seq<char> {
    match s {
        Style::Unstyled => ""@,
        Style::Invisible => "invis"@,
        Style::Solid => "solid"@,
        Style::Dashed => "dashed"@,
        Style::Dotted => "dotted"@,
        Style::Bold => "bold"@,
        Style::Rounded => "rounded"@,
        Style::Diagonals => "diagonals"@,
        Style::Filled => "filled"@,
        Style::Striped => "striped"@,
        Style::Wedged => "wedged"@,
    }
}

impl Style {
    /// The Graphviz name of this style.
    pub fn as_slice(self) -> (r: &'static str)
        ensures
            r@ == style_text(self),
    {
        match self {
            Style::Unstyled => "",
            Style::Invisible => "invis",
            Style::Solid => "solid",
            Style::Dashed => "dashed",
            Style::Dotted => "dotted",
            Style::Bold => "bold",
            Style::Rounded => "rounded",
            Style::Diagonals => "diagonals",
            Style::Filled => "filled",
            Style::Striped => "striped",
            Style::Wedged => "wedged",
        }
    }
}

} // verus!
