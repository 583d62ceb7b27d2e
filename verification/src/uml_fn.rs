//! A free-function summary: the bare name used for resolution, and a full
//! signature text used only for display.

use vstd::prelude::*;

verus! {

/// The mathematical value of a function summary.
pub ghost struct FnV {
    pub name: Seq<char>,
    pub full_name: Seq<char>,
}

/// A free-function summary.
#[derive(Clone, PartialEq, Debug)]
pub struct UMLFn {
    pub name: String,
    pub full_name: String,
}

impl View for UMLFn {
    type V = FnV;

    open spec fn view(&self) -> FnV {
        FnV { name: self.name@, full_name: self.full_name@ }
    }
}

impl UMLFn {
    /// A new function summary.
    pub fn new(name: &str, full_name: &str) -> (r: UMLFn)
        ensures
            r@ == (FnV { name: name@, full_name: full_name@ }),
    {
        UMLFn { name: name.to_owned(), full_name: full_name.to_owned() }
    }
}

} // verus!
