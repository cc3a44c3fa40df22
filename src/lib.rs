//! Lambda-calculus terms with named binders, their translation to de Bruijn
//! indices, and a weak-head evaluator for the indexed form.
pub mod lambda;
