//! Semantic checks and editor queries over QBE intermediate-language syntax trees.
pub mod span;
pub mod text;
pub mod syntax;
pub mod semantic_analyze;
pub mod ast;
pub mod semantic_token;
