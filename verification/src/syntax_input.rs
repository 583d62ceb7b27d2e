//! The boundary to the syntax-tree parser: each function here makes one kind
//! of read on an already-parsed tree and converts what it finds into the
//! library's own declaration model. Nothing here decides anything; every
//! classification decision is taken later, by verified code, on the plain
//! values these readers hand back.

use vstd::prelude::*;

verus! {

use ra_ap_syntax::ast;
use ra_ap_syntax::ast::AstNode;
use ra_ap_syntax::ast::HasModuleItem;
use ra_ap_syntax::ast::HasName;
use crate::decl::{Decl, DeclV, FieldDecl, FnDecl, ImplDecl, ImportLeaf, MethodSig, TypeDecl};

#[verifier::external_type_specification]
#[verifier::external_body]
pub struct ExItem(ast::Item);

#[verifier::external_type_specification]
#[verifier::external_body]
pub struct ExStruct(ast::Struct);

#[verifier::external_type_specification]
#[verifier::external_body]
pub struct ExTrait(ast::Trait);

#[verifier::external_type_specification]
#[verifier::external_body]
pub struct ExImpl(ast::Impl);

#[verifier::external_type_specification]
#[verifier::external_body]
pub struct ExAstFn(ast::Fn);

#[verifier::external_type_specification]
#[verifier::external_body]
pub struct ExUse(ast::Use);

#[verifier::external_type_specification]
#[verifier::external_body]
pub struct ExUseTree(ast::UseTree);

#[verifier::external_type_specification]
#[verifier::external_body]
pub struct ExRecordField(ast::RecordField);

/// The top-level items the external parser yields for a source text. The
/// parse is deterministic and error-tolerant, so the items are a function of
/// the text alone.
pub uninterp spec fn source_items(code: Seq<char>) -> Seq<ast::Item>;

/// What the readers of this module take from one item: the declaration it
/// contributes to the model, or nothing for an item kind outside the model
/// or a declaration without a name.
pub uninterp spec fn item_decl(item: ast::Item) -> Option<DeclV>;

/// Relies on `ra_ap_syntax::SourceFile::parse`: parses a source text and
/// hands back its top-level items, which the parse determines from the text
/// alone.
#[verifier::external_body]
pub(crate) fn parse_items(code: &str) -> (r: Vec<ast::Item>)
    ensures
        r@ == source_items(code@),
{
    let parse = ra_ap_syntax::SourceFile::parse(code, ra_ap_syntax::Edition::CURRENT);
    let file = parse.tree();
    file.items().collect()
}

/// Relies on `ra_ap_syntax::ast::RecordField`: reads one field's display
/// text, whether its type is a raw pointer, and the paths its type mentions.
#[verifier::external_body]
fn field_info(rf: &ast::RecordField) -> FieldDecl {
    FieldDecl {
        text: rf.to_string(),
        is_pointer: matches!(rf.ty(), Some(ast::Type::PtrType(_))),
        paths: rf.syntax().descendants().filter_map(ast::Path::cast).map(
            |p| p.to_string(),
        ).collect(),
    }
}

/// Relies on `ra_ap_syntax::ast::Struct`: reads the declared name and the
/// record fields. A declaration without a name is skipped.
#[verifier::external_body]
fn struct_to_decl(st: &ast::Struct) -> Option<Decl> {
    let name = st.name()?.text().to_string();
    let fields = st.syntax().descendants().filter_map(ast::RecordField::cast).map(
        |rf| field_info(&rf),
    ).collect();
    Some(Decl::Type(TypeDecl { name, fields }))
}

/// Relies on `ra_ap_syntax::ast::Trait`: reads the declared name and any
/// record fields. A declaration without a name is skipped.
#[verifier::external_body]
fn trait_to_decl(tt: &ast::Trait) -> Option<Decl> {
    let name = tt.name()?.text().to_string();
    let fields = tt.syntax().descendants().filter_map(ast::RecordField::cast).map(
        |rf| field_info(&rf),
    ).collect();
    Some(Decl::Interface(TypeDecl { name, fields }))
}

/// Relies on `ra_ap_syntax::ast::Fn`: reads the bare name, the
/// parameter-list text and the return-type text of one function.
#[verifier::external_body]
fn sig_info(f: &ast::Fn) -> MethodSig {
    MethodSig {
        name: f.name().map(|n| n.text().to_string()).unwrap_or_default(),
        params: f.param_list().map(|p| p.to_string()).unwrap_or_default(),
        ret: f.ret_type().map(|r| r.to_string()),
    }
}

/// Relies on `ra_ap_syntax::ast::Impl`: walks the block and reads the paths
/// seen in parameter lists, bodies and return types, in that grouping.
#[verifier::external_body]
fn impl_paths(ip: &ast::Impl) -> (Vec<String>, Vec<String>, Vec<String>) {
    let (mut params, mut bodies, mut rets) = (Vec::new(), Vec::new(), Vec::new());
    for node in ip.syntax().descendants() {
        let dest = if ast::ParamList::cast(node.clone()).is_some() {
            &mut params
        } else if ast::BlockExpr::cast(node.clone()).is_some() {
            &mut bodies
        } else if ast::RetType::cast(node.clone()).is_some() {
            &mut rets
        } else {
            continue ;
        };
        dest.extend(node.descendants().filter_map(ast::Path::cast).map(|p| p.to_string()));
    }
    (params, bodies, rets)
}

/// Relies on `ra_ap_syntax::ast::Impl`: reads the signatures of the
/// functions declared inside the block.
#[verifier::external_body]
fn impl_methods(ip: &ast::Impl) -> Vec<MethodSig> {
    ip.syntax().descendants().filter_map(ast::Fn::cast).map(|f| sig_info(&f)).collect()
}

/// Relies on `ra_ap_syntax::ast::Impl`: reads the implementing type's text
/// and the implemented interface's text, if any. A block without a self type
/// is skipped.
#[verifier::external_body]
fn impl_to_decl(ip: &ast::Impl) -> Option<Decl> {
    let self_ty = ip.self_ty()?.to_string();
    let trait_ty = ip.trait_().map(|t| t.to_string());
    let methods = impl_methods(ip);
    let (param_paths, body_paths, ret_paths) = impl_paths(ip);
    Some(Decl::ImplBlock(ImplDecl { self_ty, trait_ty, methods, param_paths, body_paths, ret_paths }))
}

/// Relies on `ra_ap_syntax::ast::Fn`: reads the callee text of every call
/// expression in the body. A declaration without a name is skipped.
#[verifier::external_body]
fn fn_to_decl(f: &ast::Fn) -> Option<Decl> {
    f.name()?;
    let calls = f.syntax().descendants().filter_map(ast::CallExpr::cast).filter_map(
        |c| c.expr(),
    ).map(|e| e.to_string()).collect();
    Some(Decl::Func(FnDecl { sig: sig_info(f), calls }))
}

/// Relies on `ra_ap_syntax::ast::UseTree`: flattens a (possibly nested)
/// import tree into its leaves, each with the path texts of its enclosing
/// groups, outermost first.
#[verifier::external_body]
fn collect_use_leaves(ut: &ast::UseTree, ancestors: &Vec<String>, out: &mut Vec<ImportLeaf>) {
    let path = ut.path().map(|p| p.to_string()).unwrap_or_default();
    match ut.use_tree_list() {
        Some(list) => {
            let mut anc = ancestors.clone();
            anc.push(path);
            for sub in list.use_trees() {
                collect_use_leaves(&sub, &anc, out);
            }
        },
        None => out.push(ImportLeaf { text: path, ancestors: ancestors.clone() }),
    }
}

/// Relies on `ra_ap_syntax::ast::Use`: reads the import tree of one import
/// statement. A statement without a tree is skipped.
#[verifier::external_body]
fn use_to_decl(u: &ast::Use) -> Option<Decl> {
    let ut = u.use_tree()?;
    let mut leaves = Vec::new();
    collect_use_leaves(&ut, &Vec::new(), &mut leaves);
    Some(Decl::Import(leaves))
}

/// Relies on `ra_ap_syntax::ast::Item`: tells the declaration categories
/// apart and hands each to its reader; other item kinds contribute nothing.
/// What comes back is what this item reads as.
#[verifier::external_body]
pub(crate) fn item_to_decl(item: &ast::Item) -> (r: Option<Decl>)
    ensures
        match r {
            Some(d) => item_decl(*item) == Some(d@),
            None => item_decl(*item) == None::<DeclV>,
        },
{
    match item {
        ast::Item::Fn(f) => fn_to_decl(f),
        ast::Item::Impl(ip) => impl_to_decl(ip),
        ast::Item::Struct(st) => struct_to_decl(st),
        ast::Item::Trait(tt) => trait_to_decl(tt),
        ast::Item::Use(u) => use_to_decl(u),
        _ => None,
    }
}

} // verus!
