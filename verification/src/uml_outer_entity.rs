//! A placeholder for a name that is known only through an import statement:
//! it carries the module/path the import claims the name comes from, so that
//! cross-module relations can be given a scope-qualified display name.

use vstd::prelude::*;

verus! {

/// The mathematical value of an external placeholder.
pub ghost struct OuterV {
    pub name: Seq<char>,
    pub mod_name: Seq<char>,
}

/// A name bound by an import, together with its origin scope.
#[derive(Clone, PartialEq, Debug)]
pub struct UMLOuterEntity {
    pub name: String,
    pub mod_name: String,
}

impl View for UMLOuterEntity {
    type V = OuterV;

    open spec fn view(&self) -> OuterV {
        OuterV { name: self.name@, mod_name: self.mod_name@ }
    }
}

impl UMLOuterEntity {
    /// A new placeholder for `name`, imported from scope `mod_name`.
    pub fn new(name: &str, mod_name: &str) -> (r: UMLOuterEntity)
        ensures
            r@ == (OuterV { name: name@, mod_name: mod_name@ }),
    {
        UMLOuterEntity { name: name.to_owned(), mod_name: mod_name.to_owned() }
    }
}

} // verus!
