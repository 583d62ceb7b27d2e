//! Static-analysis library that turns parsed Rust declarations into a
//! normalized UML-style entity/relation graph and renders it as a Graphviz
//! description.
//!
//! The heart of the crate is the resolution engine in [`uml_graph`]: it
//! reconciles an unordered stream of observed relations into a
//! duplicate-free, priority-ordered graph with deterministic visibility
//! rules.

use vstd::prelude::*;

pub mod classifier;
pub mod decl;
pub mod dot;
pub mod dot_out;
pub mod graph_exporter;
pub mod parser;
pub mod syntax_input;
pub mod text;
pub mod uml_class;
pub mod uml_fn;
pub mod uml_graph;
pub mod uml_laws;
pub mod uml_outer_entity;
pub mod uml_relation;

pub use decl::{Decl, FieldDecl, FnDecl, ImplDecl, ImportLeaf, MethodSig, TypeDecl, UMLEntity};
pub use parser::{AstParser, StringParser};
pub use uml_class::{UMLClass, UMLClassKind};
pub use uml_fn::UMLFn;
pub use uml_graph::UMLGraph;
pub use uml_outer_entity::UMLOuterEntity;
pub use uml_relation::{UMLRelation, UMLRelationKind};

verus! {

use crate::decl::EntityV;
use crate::graph_exporter::{plain_digraph, to_plain_digraph};
use crate::parser::{build_graph, source_decls, stream_obs_ok};

/// Parses one source unit and renders the resolved graph as a plain
/// Graphviz digraph description: the result is the rendering of the graph
/// built from the observation stream of the text's declarations.
pub fn code_to_dot_digraph(code: &str) -> (r: String)
    ensures
        exists|obs: Seq<EntityV>|
            #![auto]
            stream_obs_ok(source_decls(code@), obs) && r@ == plain_digraph(
                build_graph(Seq::empty(), obs),
            ),
{
    let uml_graph = AstParser::parse_string(code);
    let r = to_plain_digraph(&uml_graph);
    proof {
        let obs = choose|obs: Seq<EntityV>|
            #![auto]
            stream_obs_ok(source_decls(code@), obs) && uml_graph@ == build_graph(
                Seq::empty(),
                obs,
            );
        assert(stream_obs_ok(source_decls(code@), obs) && r@ == plain_digraph(
            build_graph(Seq::empty(), obs),
        ));
    }
    r
}

} // verus!
