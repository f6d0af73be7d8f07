//! Runtime core of a component/template language: it walks a parsed
//! document, resolves cross-file component imports through a dependency
//! graph, assigns stable identifiers for reconciliation, aggregates the
//! scoped stylesheets reachable from a document, and re-evaluates exactly
//! the documents that depend on an edited file.

pub mod ast;
pub mod base;
pub mod css_ast;
pub mod css_eval;
pub mod css_virt;
pub mod engine;
pub mod evaluator;
pub mod graph;
pub mod hash;
pub mod js_ast;
pub mod js_eval;
pub mod js_virt;
pub mod laws;
pub mod text;
pub mod virt;
