//! One node of a graph: a generated identifier, a label, and optional
//! style, color and shape attributes.

use vstd::prelude::*;

verus! {

use vstd::string::StringExecFns;
use crate::dot::id::{id_name, spec_id_name};
use crate::dot::render::{RenderOption, has_opt, quoted};
use crate::dot::style::{Style, style_text};

/// The mathematical value of a node.
pub ghost struct NodeV {
    pub name: Seq<char>,
    pub label: Seq<char>,
    pub style: Style,
    pub color: Option<Seq<char>>,
    pub index: nat,
    pub shape: Option<Seq<char>>,
}

/// One graph node; its name is derived from its index.
pub struct Node {
    pub name: String,
    pub label: String,
    pub style: Style,
    pub color: Option<String>,
    pub index: usize,
    pub shape: Option<String>,
}

impl View for Node {
    type V = NodeV;

    open spec fn view(&self) -> NodeV {
        NodeV {
            name: self.name@,
            label: self.label@,
            style: self.style,
            color: match self.color {
                Some(ref c) => Some(c@),
                None => None,
            },
            index: self.index as nat,
            shape: match self.shape {
                Some(ref s) => Some(s@),
                None => None,
            },
        }
    }
}

/// The views of a list of nodes.
pub open spec fn node_views(ns: Seq<Node>) -> Seq<NodeV> {
    ns.map_values(|n: Node| n@)
}

/// One node statement, without the indent and the line break: the node's
/// name followed by its attributes, each in brackets, ended by a semicolon.
pub open spec fn node_dot(n: NodeV, opts: Seq<RenderOption>) -> Seq<char> {
    n.name + (if !opts.contains(RenderOption::NoNodeLabels) {
        "[label="@ + quoted(n.label) + "]"@
    } else {
        Seq::empty()
    }) + (if !opts.contains(RenderOption::NoNodeStyles) && n.style != Style::Unstyled {
        "[style=\""@ + style_text(n.style) + "\"]"@
    } else {
        Seq::empty()
    }) + (match n.color {
        Some(c) => if !opts.contains(RenderOption::NoNodeColors) {
            "[color="@ + quoted(c) + "]"@
        } else {
            Seq::empty()
        },
        None => Seq::empty(),
    }) + (match n.shape {
        Some(s) => "[shape="@ + s + "]"@,
        None => Seq::empty(),
    }) + ";"@
}

impl Node {
    /// A node for index `index`, named `N<index>`.
    pub fn new(index: usize, label: &str, style: Style, color: Option<&str>) -> (r: Node)
        ensures
            r@ == (NodeV {
                name: spec_id_name(index as nat),
                label: label@,
                style,
                color: match color {
                    Some(c) => Some(c@),
                    None => None,
                },
                index: index as nat,
                shape: None,
            }),
    {
        let name = id_name(index).name();
        let c = match color {
            Some(c) => Some(c.to_owned()),
            None => None,
        };
        Node { name, label: label.to_owned(), style, color: c, index, shape: None }
    }

    /// The node's identifier text.
    pub fn node_id(&self) -> (r: &str)
        ensures
            r@ == self@.name,
    {
        self.name.as_str()
    }

    /// Renders this node as one DOT statement.
    #[verifier::rlimit(60)]
    pub fn to_dot_string(&self, options: &[RenderOption]) -> (r: String)
        ensures
            r@ == node_dot(self@, options@),
    {
        let mut text = self.name.clone();
        if !has_opt(options, RenderOption::NoNodeLabels) {
            let escaped = crate::dot::render::quote_string(self.label.clone());
            text.append("[label=");
            text.append(escaped.as_str());
            text.append("]");
        } else {
            proof {
                assert(text@ + Seq::<char>::empty() =~= text@);
            }
        }
        if !has_opt(options, RenderOption::NoNodeStyles) && !(self.style == Style::Unstyled) {
            text.append("[style=\"");
            text.append(self.style.as_slice());
            text.append("\"]");
        } else {
            proof {
                assert(text@ + Seq::<char>::empty() =~= text@);
            }
        }
        let ghost mid = text@;
        match &self.color {
            Some(c) => {
                if !has_opt(options, RenderOption::NoNodeColors) {
                    let colorstring = crate::dot::render::quote_string(c.clone());
                    text.append("[color=");
                    text.append(colorstring.as_str());
                    text.append("]");
                } else {
                    proof {
                        assert(text@ + Seq::<char>::empty() =~= text@);
                    }
                }
            },
            None => {
                proof {
                    assert(text@ + Seq::<char>::empty() =~= text@);
                }
            },
        }
        match &self.shape {
            Some(s) => {
                text.append("[shape=");
                text.append(s.as_str());
                text.append("]");
            },
            None => {
                proof {
                    assert(text@ + Seq::<char>::empty() =~= text@);
                }
            },
        }
        text.append(";");
        proof {
            assert(text@ =~= node_dot(self@, options@));
        }
        text
    }
}

} // verus!
