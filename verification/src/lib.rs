//! Procedural generator of arithmetic expression trees and a code emitter
//! that lowers each tree to an expression in a shading language.
//!
//! The tree generator builds a depth-bounded abstract syntax tree from a
//! pseudo-random source; the emitter renders a finished tree to a fully
//! parenthesized textual expression.

mod ast;
mod emit;
mod gen;
mod props;
mod shader;
mod text;

pub use ast::NodeBinop;
pub use ast::NodeKind;
pub use ast::NodeUnop;
pub use emit::generate_shader_code;
pub use emit::spec_render;
pub use gen::generate_tree;
pub use gen::leaf_for;
pub use gen::spec_tree_from;
pub use gen::tree_from_draws;
pub use props::balanced;
pub use props::cfree;
pub use props::count_char;
pub use props::lemma_render_balanced;
pub use props::lemma_render_cfree;
pub use props::lemma_render_sqrt_guarded;
pub use props::placeholder_free;
pub use props::sqrt_guarded;
pub use shader::contains_at;
pub use shader::generate_shader_source;
pub use shader::lemma_case_clause_count;
pub use shader::lemma_shader_source_case_count;
pub use shader::lemma_shader_source_contains_clause;
pub use shader::spec_case_clause;
pub use shader::spec_shader_source;
