//! A class-like type summary: a name, display-only field descriptions, the
//! method signatures contributed by one or more associated blocks, and a
//! kind telling a concrete type from an interface.

use vstd::prelude::*;

verus! {

use crate::text::str_views;

/// A class-like entity is either a concrete type or an interface.
#[derive(Clone, Copy, PartialEq, Eq, Structural, Debug)]
pub enum UMLClassKind {
    UMLClass,
    UMLTrait,
}

/// The mathematical value of a class-like entity.
pub ghost struct ClassV {
    pub name: Seq<char>,
    pub fields: Seq<Seq<char>>,
    pub methods: Seq<Seq<char>>,
    pub kind: UMLClassKind,
}

/// A class-like type summary.
#[derive(Clone, PartialEq, Debug)]
pub struct UMLClass {
    pub name: String,
    pub method_names: Vec<String>,
    pub fields: Vec<String>,
    pub kind: UMLClassKind,
}

impl View for UMLClass {
    type V = ClassV;

    open spec fn view(&self) -> ClassV {
        ClassV {
            name: self.name@,
            fields: str_views(self.fields@),
            methods: str_views(self.method_names@),
            kind: self.kind,
        }
    }
}

impl UMLClass {
    /// A new class-like entity with the given display fields and methods.
    pub fn new(name: &str, fields: Vec<String>, method_names: Vec<String>, kind: UMLClassKind) -> (r:
        UMLClass)
        ensures
            r@ == (ClassV {
                name: name@,
                fields: str_views(fields@),
                methods: str_views(method_names@),
                kind,
            }),
    {
        UMLClass { name: name.to_owned(), method_names, fields, kind }
    }

    /// Moves the method names of `from` onto the end of this entity's method
    /// list; fields and kind are untouched.
    pub fn merge_method_names_from(&mut self, from: &mut UMLClass)
        ensures
            final(self)@ == (ClassV {
                methods: old(self)@.methods + old(from)@.methods,
                ..old(self)@
            }),
            final(from)@ == (ClassV { methods: Seq::empty(), ..old(from)@ }),
    {
        self.method_names.append(&mut from.method_names);
        proof {
            assert(str_views(old(self).method_names@ + old(from).method_names@) =~= str_views(
                old(self).method_names@,
            ) + str_views(old(from).method_names@));
            assert(str_views(Seq::<String>::empty()) =~= Seq::<Seq<char>>::empty());
        }
    }

    /// Moves the method names of `from` onto the end of this entity's method
    /// list, as [`UMLClass::merge_method_names_from`] does.
    pub fn merge_from(&mut self, from: &mut UMLClass)
        ensures
            final(self)@ == (ClassV {
                methods: old(self)@.methods + old(from)@.methods,
                ..old(self)@
            }),
            final(from)@ == (ClassV { methods: Seq::empty(), ..old(from)@ }),
    {
        self.merge_method_names_from(from)
    }

    /// A copy of the method-signature list.
    pub fn get_method_names(&self) -> (r: Vec<String>)
        ensures
            str_views(r@) == self@.methods,
    {
        crate::text::clone_strings(&self.method_names)
    }

    /// A copy of the display-field list.
    pub fn get_field_names(&self) -> (r: Vec<String>)
        ensures
            str_views(r@) == self@.fields,
    {
        crate::text::clone_strings(&self.fields)
    }
}

} // verus!
