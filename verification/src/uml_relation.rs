//! A relation is a directed, typed edge between two named entities. Relation
//! kinds form a total order that the resolution engine uses as a merge
//! priority.

use vstd::prelude::*;

verus! {

/// The kinds of UML relations, ordered by merge priority (lowest first):
/// `Dependency < AssociationUni < AssociationBi < Aggregation < Composition
/// < Realization`.
#[derive(Clone, Copy, PartialEq, Eq, Structural, Debug)]
pub enum UMLRelationKind {
    UMLDependency,
    UMLAssociationUni,
    UMLAssociationBi,
    UMLAggregation,
    UMLComposition,
    UMLRealization,
}

/// The merge priority of a relation kind.
pub open spec fn kind_priority(k: UMLRelationKind) -> nat {
    match k {
        UMLRelationKind::UMLDependency => 0,
        UMLRelationKind::UMLAssociationUni => 1,
        UMLRelationKind::UMLAssociationBi => 2,
        UMLRelationKind::UMLAggregation => 3,
        UMLRelationKind::UMLComposition => 4,
        UMLRelationKind::UMLRealization => 5,
    }
}

impl UMLRelationKind {
    /// The merge priority of this kind, lowest first.
    pub fn priority(&self) -> (r: u8)
        ensures
            r as nat == kind_priority(*self),
    {
        match self {
            UMLRelationKind::UMLDependency => 0,
            UMLRelationKind::UMLAssociationUni => 1,
            UMLRelationKind::UMLAssociationBi => 2,
            UMLRelationKind::UMLAggregation => 3,
            UMLRelationKind::UMLComposition => 4,
            UMLRelationKind::UMLRealization => 5,
        }
    }
}

/// The mathematical value of a stored relation.
pub ghost struct RelV {
    pub from: Seq<char>,
    pub to: Seq<char>,
    pub kind: UMLRelationKind,
}

/// A directed, typed edge between two named entities.
#[derive(Clone, PartialEq, Debug)]
pub struct UMLRelation {
    pub from: String,
    pub to: String,
    pub kind: UMLRelationKind,
}

impl View for UMLRelation {
    type V = RelV;

    open spec fn view(&self) -> RelV {
        RelV { from: self.from@, to: self.to@, kind: self.kind }
    }
}

/// Two relation values describe the same unordered pair of names.
pub open spec fn same_pair(a: RelV, b: RelV) -> bool {
    (a.from == b.from && a.to == b.to) || (a.from == b.to && a.to == b.from)
}

impl UMLRelation {
    /// A new relation with the given endpoints and kind.
    pub fn new(from: &str, to: &str, kind: UMLRelationKind) -> (r: UMLRelation)
        ensures
            r@ == (RelV { from: from@, to: to@, kind }),
    {
        UMLRelation { from: from.to_owned(), to: to.to_owned(), kind }
    }

    /// True iff `other` relates the same two names in the same direction.
    pub fn same_objects(&self, other: &UMLRelation) -> (r: bool)
        ensures
            r == (self@.from == other@.from && self@.to == other@.to),
    {
        self.from == other.from && self.to == other.to
    }

    /// True iff `other` relates the same two names in the opposite direction.
    pub fn opposite_objects(&self, other: &UMLRelation) -> (r: bool)
        ensures
            r == (self@.from == other@.to && self@.to == other@.from),
    {
        self.from == other.to && self.to == other.from
    }

    /// Replaces the kind, keeping the endpoints.
    pub fn change_relation_kind(&mut self, new_relation_kind: UMLRelationKind)
        ensures
            final(self)@ == (RelV { kind: new_relation_kind, ..old(self)@ }),
    {
        self.kind = new_relation_kind
    }

    /// Replaces both endpoint names, keeping the kind.
    pub fn update_relation_names(&mut self, from: &str, to: &str)
        ensures
            final(self)@ == (RelV { from: from@, to: to@, kind: old(self)@.kind }),
    {
        self.from = from.to_owned();
        self.to = to.to_owned();
    }
}

} // verus!
