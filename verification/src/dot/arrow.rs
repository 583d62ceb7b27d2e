//! Arrow shapes for edge ends, as defined by Graphviz: a base shape, an
//! optional open/filled modifier, and an optional side-clip modifier.

use vstd::prelude::*;

verus! {

use vstd::string::StringExecFns;

/// Whether the shape is drawn open or filled.
#[derive(Clone, Copy, PartialEq, Eq, Structural, Debug)]
pub enum Fill {
    Open,
    Filled,
}

/// The Graphviz modifier of a fill: `o` for open, nothing for filled.
pub open spec fn fill_text(f: Fill) -> Seq<char> {
    match f {
        Fill::Open => "o"@,
        Fill::Filled => ""@,
    }
}

impl Fill {
    /// The Graphviz modifier of this fill.
    pub fn as_slice(self) -> (r: &'static str)
        ensures
            r@ == fill_text(self),
    {
        match self {
            Fill::Open => "o",
            Fill::Filled => "",
        }
    }
}

/// Which side of the shape is kept; `Both` keeps the whole shape.
#[derive(Clone, Copy, PartialEq, Eq, Structural, Debug)]
pub enum Side {
    Left,
    Right,
    Both,
}

/// The Graphviz modifier of a side clip: `l`, `r`, or nothing.
pub open spec fn side_text(s: Side) -> Seq<char> {
    match s {
        Side::Left => "l"@,
        Side::Right => "r"@,
        Side::Both => ""@,
    }
}

impl Side {
    /// The Graphviz modifier of this side clip.
    pub fn as_slice(self) -> (r: &'static str)
        ensures
            r@ == side_text(self),
    {
        match self {
            Side::Left => "l",
            Side::Right => "r",
            Side::Both => "",
        }
    }
}

/// One arrow shape, with its modifiers where Graphviz supports them.
#[derive(Clone, Copy, PartialEq, Eq, Structural, Debug)]
pub enum ArrowShape {
    NoArrow,
    Normal(Fill, Side),
    Box(Fill, Side),
    Crow(Side),
    Curve(Side),
    ICurve(Fill, Side),
    Diamond(Fill, Side),
    Dot(Fill),
    Inv(Fill, Side),
    Tee(Side),
    Vee(Side),
}

/// The side modifier as rendered: left and right are written, both is not.
pub open spec fn side_mod(s: Side) -> Seq<char> {
    if s == Side::Both {
        Seq::empty()
    } else {
        side_text(s)
    }
}

/// The Graphviz text of one arrow shape: modifiers first, then the shape
/// keyword.
pub open spec fn shape_text(s: ArrowShape) -> Seq<char> {
    match s {
        ArrowShape::NoArrow => "none"@,
        ArrowShape::Normal(f, sd) => fill_text(f) + side_mod(sd) + "normal"@,
        ArrowShape::Box(f, sd) => fill_text(f) + side_mod(sd) + "box"@,
        ArrowShape::Crow(sd) => side_mod(sd) + "crow"@,
        ArrowShape::Curve(sd) => side_mod(sd) + "curve"@,
        ArrowShape::ICurve(f, sd) => fill_text(f) + side_mod(sd) + "icurve"@,
        ArrowShape::Diamond(f, sd) => fill_text(f) + side_mod(sd) + "diamond"@,
        ArrowShape::Dot(f) => fill_text(f) + "dot"@,
        ArrowShape::Inv(f, sd) => fill_text(f) + side_mod(sd) + "inv"@,
        ArrowShape::Tee(sd) => side_mod(sd) + "tee"@,
        ArrowShape::Vee(sd) => side_mod(sd) + "vee"@,
    }
}

fn push_mods(s: &mut String, f: Fill, sd: Side)
    ensures
        final(s)@ == old(s)@ + fill_text(f) + side_mod(sd),
{
    s.append(f.as_slice());
    if !(sd == Side::Both) {
        s.append(sd.as_slice());
    } else {
        proof {
            assert(s@ + Seq::<char>::empty() =~= s@);
        }
    }
}

fn push_side(s: &mut String, sd: Side)
    ensures
        final(s)@ == old(s)@ + side_mod(sd),
{
    if !(sd == Side::Both) {
        s.append(sd.as_slice());
    } else {
        proof {
            assert(s@ + Seq::<char>::empty() =~= s@);
        }
    }
}

impl ArrowShape {
    /// Constructor which returns no arrow.
    pub fn none() -> (r: ArrowShape)
        ensures
            r == ArrowShape::NoArrow,
    {
        ArrowShape::NoArrow
    }

    /// Constructor which returns a normal triangle arrow.
    pub fn normal() -> (r: ArrowShape)
        ensures
            r == ArrowShape::Normal(Fill::Filled, Side::Both),
    {
        ArrowShape::Normal(Fill::Filled, Side::Both)
    }

    /// Constructor which returns a regular box arrow.
    pub fn boxed() -> (r: ArrowShape)
        ensures
            r == ArrowShape::Box(Fill::Filled, Side::Both),
    {
        ArrowShape::Box(Fill::Filled, Side::Both)
    }

    /// Constructor which returns a regular crow arrow.
    pub fn crow() -> (r: ArrowShape)
        ensures
            r == ArrowShape::Crow(Side::Both),
    {
        ArrowShape::Crow(Side::Both)
    }

    /// Constructor which returns a regular curve arrow.
    pub fn curve() -> (r: ArrowShape)
        ensures
            r == ArrowShape::Curve(Side::Both),
    {
        ArrowShape::Curve(Side::Both)
    }

    /// Constructor which returns an inverted curve arrow.
    pub fn icurve() -> (r: ArrowShape)
        ensures
            r == ArrowShape::ICurve(Fill::Filled, Side::Both),
    {
        ArrowShape::ICurve(Fill::Filled, Side::Both)
    }

    /// Constructor which returns a diamond arrow.
    pub fn diamond() -> (r: ArrowShape)
        ensures
            r == ArrowShape::Diamond(Fill::Filled, Side::Both),
    {
        ArrowShape::Diamond(Fill::Filled, Side::Both)
    }

    /// Constructor which returns a circle-shaped arrow.
    pub fn dot() -> (r: ArrowShape)
        ensures
            r == ArrowShape::Dot(Fill::Filled),
    {
        ArrowShape::Dot(Fill::Filled)
    }

    /// Constructor which returns an inverted triangle arrow.
    pub fn inv() -> (r: ArrowShape)
        ensures
            r == ArrowShape::Inv(Fill::Filled, Side::Both),
    {
        ArrowShape::Inv(Fill::Filled, Side::Both)
    }

    /// Constructor which returns a T-shaped arrow.
    pub fn tee() -> (r: ArrowShape)
        ensures
            r == ArrowShape::Tee(Side::Both),
    {
        ArrowShape::Tee(Side::Both)
    }

    /// Constructor which returns a V-shaped arrow.
    pub fn vee() -> (r: ArrowShape)
        ensures
            r == ArrowShape::Vee(Side::Both),
    {
        ArrowShape::Vee(Side::Both)
    }

    /// Renders this arrow shape for display.
    pub fn to_dot_string(&self) -> (r: String)
        ensures
            r@ == shape_text(*self),
    {
        let mut res = String::new();
        proof {
            assert(res@ + ""@ =~= ""@);
        }
        match *self {
            ArrowShape::NoArrow => {
                res.append("none");
                proof {
                    assert(res@ =~= "none"@);
                }
            },
            ArrowShape::Normal(f, sd) => {
                push_mods(&mut res, f, sd);
                res.append("normal");
            },
            ArrowShape::Box(f, sd) => {
                push_mods(&mut res, f, sd);
                res.append("box");
            },
            ArrowShape::Crow(sd) => {
                push_side(&mut res, sd);
                res.append("crow");
            },
            ArrowShape::Curve(sd) => {
                push_side(&mut res, sd);
                res.append("curve");
            },
            ArrowShape::ICurve(f, sd) => {
                push_mods(&mut res, f, sd);
                res.append("icurve");
            },
            ArrowShape::Diamond(f, sd) => {
                push_mods(&mut res, f, sd);
                res.append("diamond");
            },
            ArrowShape::Dot(f) => {
                res.append(f.as_slice());
                res.append("dot");
            },
            ArrowShape::Inv(f, sd) => {
                push_mods(&mut res, f, sd);
                res.append("inv");
            },
            ArrowShape::Tee(sd) => {
                push_side(&mut res, sd);
                res.append("tee");
            },
            ArrowShape::Vee(sd) => {
                push_side(&mut res, sd);
                res.append("vee");
            },
        }
        res
    }
}

/// All the information describing an arrow attached to one end of an edge.
#[derive(Clone, PartialEq, Eq, Debug)]
pub struct Arrow {
    pub arrows: Vec<ArrowShape>,
}

impl View for Arrow {
    type V = Seq<ArrowShape>;

    open spec fn view(&self) -> Seq<ArrowShape> {
        self.arrows@
    }
}

/// The Graphviz text of a whole arrow: its shapes rendered in order.
pub open spec fn arrow_text(shapes: Seq<ArrowShape>) -> Seq<char>
    decreases shapes.len(),
{
    if shapes.len() == 0 {
        Seq::empty()
    } else {
        arrow_text(shapes.drop_last()) + shape_text(shapes.last())
    }
}

impl Arrow {
    /// True iff this is the default arrow, which renders as nothing.
    pub fn is_default(&self) -> (r: bool)
        ensures
            r == (self@.len() == 0),
    {
        self.arrows.len() == 0
    }

    /// The default arrow.
    pub fn default() -> (r: Arrow)
        ensures
            r@ == Seq::<ArrowShape>::empty(),
    {
        Arrow { arrows: vec![] }
    }

    /// An explicitly empty arrow.
    pub fn none() -> (r: Arrow)
        ensures
            r@ == seq![ArrowShape::NoArrow],
    {
        let r = Arrow { arrows: vec![ArrowShape::NoArrow] };
        proof {
            assert(r@ =~= seq![ArrowShape::NoArrow]);
        }
        r
    }

    /// A regular triangle arrow, without modifiers.
    pub fn normal() -> (r: Arrow)
        ensures
            r@ == seq![ArrowShape::Normal(Fill::Filled, Side::Both)],
    {
        let r = Arrow { arrows: vec![ArrowShape::normal()] };
        proof {
            assert(r@ =~= seq![ArrowShape::Normal(Fill::Filled, Side::Both)]);
        }
        r
    }

    /// An arrow made of the one given shape.
    pub fn from_arrow(arrow: ArrowShape) -> (r: Arrow)
        ensures
            r@ == seq![arrow],
    {
        let r = Arrow { arrows: vec![arrow] };
        proof {
            assert(r@ =~= seq![arrow]);
        }
        r
    }

    /// Renders this arrow for display.
    pub fn to_dot_string(&self) -> (r: String)
        ensures
            r@ == arrow_text(self@),
    {
        let mut cow = String::new();
        let mut i: usize = 0;
        proof {
            assert(cow@ =~= arrow_text(self@.take(0)));
        }
        while i < self.arrows.len()
            invariant
                i <= self.arrows.len(),
                cow@ == arrow_text(self@.take(i as int)),
            decreases self.arrows.len() - i,
        {
            let t = self.arrows[i].to_dot_string();
            cow.append(t.as_str());
            proof {
                assert(self@.take(i + 1).drop_last() =~= self@.take(i as int));
                assert(self@.take(i + 1).last() == self@[i as int]);
            }
            i += 1;
        }
        proof {
            assert(self@.take(self@.len() as int) =~= self@);
        }
        cow
    }
}

} // verus!
