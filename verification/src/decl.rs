//! The library's own model of one parsed declaration: the classifier works
//! on these plain values, so that every classification decision is made by
//! verified code. Each record carries exactly what the classification rules
//! read from a syntax sub-tree.

use vstd::prelude::*;

verus! {

use crate::text::str_views;
use crate::uml_class::UMLClass;
use crate::uml_class::ClassV;
use crate::uml_fn::UMLFn;
use crate::uml_fn::FnV;
use crate::uml_outer_entity::UMLOuterEntity;
use crate::uml_outer_entity::OuterV;
use crate::uml_relation::UMLRelation;
use crate::uml_relation::RelV;

/// The mathematical value of one field declaration.
pub ghost struct FieldV {
    pub text: Seq<char>,
    pub is_pointer: bool,
    pub paths: Seq<Seq<char>>,
}

/// One field of a type declaration: its display text, whether its type is a
/// raw pointer, and the named-type paths its type expression mentions.
pub struct FieldDecl {
    pub text: String,
    pub is_pointer: bool,
    pub paths: Vec<String>,
}

impl View for FieldDecl {
    type V = FieldV;

    open spec fn view(&self) -> FieldV {
        FieldV { text: self.text@, is_pointer: self.is_pointer, paths: str_views(self.paths@) }
    }
}

/// The mathematical value of a type or interface declaration.
pub ghost struct TypeDeclV {
    pub name: Seq<char>,
    pub fields: Seq<FieldV>,
}

/// A type or interface declaration: a name and its fields.
pub struct TypeDecl {
    pub name: String,
    pub fields: Vec<FieldDecl>,
}

impl View for TypeDecl {
    type V = TypeDeclV;

    open spec fn view(&self) -> TypeDeclV {
        TypeDeclV { name: self.name@, fields: self.fields@.map_values(|f: FieldDecl| f@) }
    }
}

/// The mathematical value of one function signature.
pub ghost struct SigV {
    pub name: Seq<char>,
    pub params: Seq<char>,
    pub ret: Option<Seq<char>>,
}

/// One function signature: the bare name, the parameter-list text, and the
/// return-type text when there is one.
pub struct MethodSig {
    pub name: String,
    pub params: String,
    pub ret: Option<String>,
}

impl View for MethodSig {
    type V = SigV;

    open spec fn view(&self) -> SigV {
        SigV {
            name: self.name@,
            params: self.params@,
            ret: match self.ret {
                Some(ref r) => Some(r@),
                None => None,
            },
        }
    }
}

/// The mathematical value of a method-implementation block.
pub ghost struct ImplV {
    pub self_ty: Seq<char>,
    pub trait_ty: Option<Seq<char>>,
    pub methods: Seq<SigV>,
    pub param_paths: Seq<Seq<char>>,
    pub body_paths: Seq<Seq<char>>,
    pub ret_paths: Seq<Seq<char>>,
}

/// A method-implementation block: the implementing type's text, the
/// implemented interface's text if any, the method signatures, and the
/// named-type paths seen in parameter lists, bodies and return types.
pub struct ImplDecl {
    pub self_ty: String,
    pub trait_ty: Option<String>,
    pub methods: Vec<MethodSig>,
    pub param_paths: Vec<String>,
    pub body_paths: Vec<String>,
    pub ret_paths: Vec<String>,
}

impl View for ImplDecl {
    type V = ImplV;

    open spec fn view(&self) -> ImplV {
        ImplV {
            self_ty: self.self_ty@,
            trait_ty: match self.trait_ty {
                Some(ref t) => Some(t@),
                None => None,
            },
            methods: self.methods@.map_values(|m: MethodSig| m@),
            param_paths: str_views(self.param_paths@),
            body_paths: str_views(self.body_paths@),
            ret_paths: str_views(self.ret_paths@),
        }
    }
}

/// The mathematical value of a free-function declaration.
pub ghost struct FnDeclV {
    pub sig: SigV,
    pub calls: Seq<Seq<char>>,
}

/// A free-function declaration: its signature and the callee texts of the
/// call expressions in its body.
pub struct FnDecl {
    pub sig: MethodSig,
    pub calls: Vec<String>,
}

impl View for FnDecl {
    type V = FnDeclV;

    open spec fn view(&self) -> FnDeclV {
        FnDeclV { sig: self.sig@, calls: str_views(self.calls@) }
    }
}

/// The mathematical value of one leaf of an import tree.
pub ghost struct LeafV {
    pub text: Seq<char>,
    pub ancestors: Seq<Seq<char>>,
}

/// One leaf of a (possibly nested) import tree: the leaf's own path text and
/// the path texts of its enclosing groups, outermost first.
pub struct ImportLeaf {
    pub text: String,
    pub ancestors: Vec<String>,
}

impl View for ImportLeaf {
    type V = LeafV;

    open spec fn view(&self) -> LeafV {
        LeafV { text: self.text@, ancestors: str_views(self.ancestors@) }
    }
}

/// One declaration of a source unit, as the classifier sees it.
pub enum Decl {
    /// A concrete type declaration.
    Type(TypeDecl),
    /// An interface declaration.
    Interface(TypeDecl),
    /// A method-implementation block.
    ImplBlock(ImplDecl),
    /// A free function.
    Func(FnDecl),
    /// An import statement, flattened to its leaves.
    Import(Vec<ImportLeaf>),
}

/// The mathematical value of one declaration.
pub ghost enum DeclV {
    Type(TypeDeclV),
    Interface(TypeDeclV),
    ImplBlock(ImplV),
    Func(FnDeclV),
    Import(Seq<LeafV>),
}

impl View for Decl {
    type V = DeclV;

    open spec fn view(&self) -> DeclV {
        match self {
            Decl::Type(t) => DeclV::Type(t@),
            Decl::Interface(t) => DeclV::Interface(t@),
            Decl::ImplBlock(b) => DeclV::ImplBlock(b@),
            Decl::Func(f) => DeclV::Func(f@),
            Decl::Import(ls) => DeclV::Import(ls@.map_values(|l: ImportLeaf| l@)),
        }
    }
}

/// The views of a sequence of declarations.
pub open spec fn decl_views(ds: Seq<Decl>) -> Seq<DeclV> {
    ds.map_values(|d: Decl| d@)
}

/// The mathematical value of one provisional observation.
pub ghost enum EntityV {
    Class(ClassV),
    Fn(FnV),
    Rel(RelV),
    Outer(OuterV),
}

/// One provisional observation yielded by the classifier: an entity or a
/// candidate relation, to be fed into the resolution engine.
pub enum UMLEntity {
    UMLClass(UMLClass),
    UMLFn(UMLFn),
    UMLRelation(UMLRelation),
    UMLOuterEntity(UMLOuterEntity),
}

impl View for UMLEntity {
    type V = EntityV;

    open spec fn view(&self) -> EntityV {
        match self {
            UMLEntity::UMLClass(c) => EntityV::Class(c@),
            UMLEntity::UMLFn(f) => EntityV::Fn(f@),
            UMLEntity::UMLRelation(r) => EntityV::Rel(r@),
            UMLEntity::UMLOuterEntity(o) => EntityV::Outer(o@),
        }
    }
}

/// The views of a sequence of observations.
pub open spec fn entity_views(es: Seq<UMLEntity>) -> Seq<EntityV> {
    es.map_values(|e: UMLEntity| e@)
}

} // verus!
