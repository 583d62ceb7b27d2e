//! One edge of a graph, between two node indices, with optional label,
//! style, color and arrow attributes.

use vstd::prelude::*;

verus! {

use vstd::string::StringExecFns;
use crate::dot::arrow::{Arrow, ArrowShape, arrow_text};
use crate::dot::id::spec_id_name;
use crate::dot::render::{RenderOption, has_opt, quoted};
use crate::dot::style::{Style, style_text};

/// The mathematical value of an edge.
pub ghost struct EdgeV {
    pub from: nat,
    pub to: nat,
    pub label: Seq<char>,
    pub style: Style,
    pub start_arrow: Seq<ArrowShape>,
    pub end_arrow: Seq<ArrowShape>,
    pub color: Option<Seq<char>>,
}

/// One edge between two node indices.
pub struct Edge {
    pub from: usize,
    pub to: usize,
    pub label: String,
    pub style: Style,
    pub start_arrow: Arrow,
    pub end_arrow: Arrow,
    pub color: Option<String>,
}

impl View for Edge {
    type V = EdgeV;

    open spec fn view(&self) -> EdgeV {
        EdgeV {
            from: self.from as nat,
            to: self.to as nat,
            label: self.label@,
            style: self.style,
            start_arrow: self.start_arrow@,
            end_arrow: self.end_arrow@,
            color: match self.color {
                Some(ref c) => Some(c@),
                None => None,
            },
        }
    }
}

/// The views of a list of edges.
pub open spec fn edge_views(es: Seq<Edge>) -> Seq<EdgeV> {
    es.map_values(|e: Edge| e@)
}

/// The arrow attributes of one edge: the head when the end arrow is not the
/// default, then the tail with a `dir="both"` marker when the start arrow is
/// not the default.
pub open spec fn edge_arrows(e: EdgeV) -> Seq<char> {
    if e.start_arrow.len() > 0 || e.end_arrow.len() > 0 {
        "["@ + (if e.end_arrow.len() > 0 {
            "arrowhead=\""@ + arrow_text(e.end_arrow) + "\""@
        } else {
            Seq::empty()
        }) + (if e.start_arrow.len() > 0 {
            " dir=\"both\" arrowtail=\""@ + arrow_text(e.start_arrow) + "\""@
        } else {
            Seq::empty()
        }) + "]"@
    } else {
        Seq::empty()
    }
}

/// One edge statement, without the indent and the line break.
pub open spec fn edge_dot(e: EdgeV, sym: Seq<char>, opts: Seq<RenderOption>) -> Seq<char> {
    spec_id_name(e.from) + " "@ + sym + " "@ + spec_id_name(e.to) + (if !opts.contains(
        RenderOption::NoEdgeLabels,
    ) {
        "[label="@ + quoted(e.label) + "]"@
    } else {
        Seq::empty()
    }) + (if !opts.contains(RenderOption::NoEdgeStyles) && e.style != Style::Unstyled {
        "[style=\""@ + style_text(e.style) + "\"]"@
    } else {
        Seq::empty()
    }) + (match e.color {
        Some(c) => if !opts.contains(RenderOption::NoEdgeColors) {
            "[color="@ + quoted(c) + "]"@
        } else {
            Seq::empty()
        },
        None => Seq::empty(),
    }) + (if !opts.contains(RenderOption::NoArrows) {
        edge_arrows(e)
    } else {
        Seq::empty()
    }) + ";"@
}

/// What an edge renders as, one DOT statement at a time.
pub trait EdgeTrait {
    /// The mathematical value of this edge.
    spec fn edge_view(&self) -> EdgeV;

    /// Renders this edge as one DOT statement, using the given edge
    /// operator.
    fn to_dot_string(&self, edge_symbol: &str, options: &[RenderOption]) -> (r: String)
        ensures
            r@ == edge_dot(self.edge_view(), edge_symbol@, options@),
    ;
}

impl EdgeTrait for Edge {
    open spec fn edge_view(&self) -> EdgeV {
        self@
    }

    #[verifier::rlimit(60)]
    fn to_dot_string(&self, edge_symbol: &str, options: &[RenderOption]) -> (r: String) {
        let ghost e = self@;
        let ghost sym = edge_symbol@;
        let ghost opts = options@;
        let source_id = crate::dot::id::id_name(self.from);
        let target_id = crate::dot::id::id_name(self.to);
        let mut text = source_id.name();
        text.append(" ");
        text.append(edge_symbol);
        text.append(" ");
        text.append(target_id.as_slice());
        let ghost s1 = spec_id_name(e.from) + " "@ + sym + " "@ + spec_id_name(e.to);
        proof {
            assert(text@ =~= s1);
        }
        if !has_opt(options, RenderOption::NoEdgeLabels) {
            let escaped_label = crate::dot::render::quote_string(self.label.clone());
            text.append("[label=");
            text.append(escaped_label.as_str());
            text.append("]");
        } else {
            proof {
                assert(text@ + Seq::<char>::empty() =~= text@);
            }
        }
        let ghost s2 = s1 + (if !opts.contains(RenderOption::NoEdgeLabels) {
            "[label="@ + quoted(e.label) + "]"@
        } else {
            Seq::<char>::empty()
        });
        proof {
            assert(text@ =~= s2);
        }
        if !has_opt(options, RenderOption::NoEdgeStyles) && !(self.style == Style::Unstyled) {
            text.append("[style=\"");
            text.append(self.style.as_slice());
            text.append("\"]");
        } else {
            proof {
                assert(text@ + Seq::<char>::empty() =~= text@);
            }
        }
        let ghost s3 = s2 + (if !opts.contains(RenderOption::NoEdgeStyles) && e.style
            != Style::Unstyled {
            "[style=\""@ + style_text(e.style) + "\"]"@
        } else {
            Seq::<char>::empty()
        });
        proof {
            assert(text@ =~= s3);
        }
        match &self.color {
            Some(c) => {
                if !has_opt(options, RenderOption::NoEdgeColors) {
                    let colorstring = crate::dot::render::quote_string(c.clone());
                    text.append("[color=");
                    text.append(colorstring.as_str());
                    text.append("]");
                } else {
                    proof {
                        assert(text@ + Seq::<char>::empty() =~= text@);
                    }
                }
            },
            None => {
                proof {
                    assert(text@ + Seq::<char>::empty() =~= text@);
                }
            },
        }
        let ghost s4 = s3 + (match e.color {
            Some(c) => if !opts.contains(RenderOption::NoEdgeColors) {
                "[color="@ + quoted(c) + "]"@
            } else {
                Seq::<char>::empty()
            },
            None => Seq::<char>::empty(),
        });
        proof {
            assert(text@ =~= s4);
        }
        if !has_opt(options, RenderOption::NoArrows) {
            let start_default = self.start_arrow.is_default();
            let end_default = self.end_arrow.is_default();
            if !start_default || !end_default {
                text.append("[");
                if !end_default {
                    let end_arrow_s = self.end_arrow.to_dot_string();
                    text.append("arrowhead=\"");
                    text.append(end_arrow_s.as_str());
                    text.append("\"");
                } else {
                    proof {
                        assert(text@ + Seq::<char>::empty() =~= text@);
                    }
                }
                if !start_default {
                    let start_arrow_s = self.start_arrow.to_dot_string();
                    text.append(" dir=\"both\" arrowtail=\"");
                    text.append(start_arrow_s.as_str());
                    text.append("\"");
                } else {
                    proof {
                        assert(text@ + Seq::<char>::empty() =~= text@);
                    }
                }
                text.append("]");
            } else {
                proof {
                    assert(text@ + Seq::<char>::empty() =~= text@);
                }
            }
        } else {
            proof {
                assert(text@ + Seq::<char>::empty() =~= text@);
            }
        }
        let ghost s5 = s4 + (if !opts.contains(RenderOption::NoArrows) {
            edge_arrows(e)
        } else {
            Seq::<char>::empty()
        });
        proof {
            assert(text@ =~= s5);
        }
        text.append(";");
        proof {
            assert(text@ =~= edge_dot(self@, edge_symbol@, options@));
        }
        text
    }
}

/// An edge with default arrows.
pub fn edge(from: usize, to: usize, label: &str, style: Style, color: Option<&str>) -> (r: Edge)
    ensures
        r@ == (EdgeV {
            from: from as nat,
            to: to as nat,
            label: label@,
            style,
            start_arrow: Seq::empty(),
            end_arrow: Seq::empty(),
            color: match color {
                Some(c) => Some(c@),
                None => None,
            },
        }),
{
    let c = match color {
        Some(c) => Some(c.to_owned()),
        None => None,
    };
    Edge {
        from,
        to,
        label: label.to_owned(),
        style,
        start_arrow: Arrow::default(),
        end_arrow: Arrow::default(),
        color: c,
    }
}

/// An edge with explicit start and end arrows.
pub fn edge_with_arrows(
    from: usize,
    to: usize,
    label: &str,
    style: Style,
    start_arrow: Arrow,
    end_arrow: Arrow,
    color: Option<&str>,
) -> (r: Edge)
    ensures
        r@ == (EdgeV {
            from: from as nat,
            to: to as nat,
            label: label@,
            style,
            start_arrow: start_arrow@,
            end_arrow: end_arrow@,
            color: match color {
                Some(c) => Some(c@),
                None => None,
            },
        }),
{
    let c = match color {
        Some(c) => Some(c.to_owned()),
        None => None,
    };
    Edge { from, to, label: label.to_owned(), style, start_arrow, end_arrow, color: c }
}

} // verus!
