//! Semantic and diagnostic core of a compiler front end for a statically
//! typed, C-like language: source text and byte-offset spans, a lexer that
//! produces spanned tokens, a static type model with canonical textual
//! forms, a coercion engine, and the diagnostic model that ties every
//! outcome to a precise source location.

pub mod error;
pub mod lexer;
pub mod span;
pub mod text;
pub mod token;
pub mod types;
