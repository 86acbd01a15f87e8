//! A compile-time source rewriter for function mocking.
//!
//! The library works on a flat lexical token model: a function item's token
//! sequence is scanned by a small state machine, split into a signature part
//! and an original-body part, and reassembled as source text for two sibling
//! functions: the renamed original (made public) and a dispatcher that calls
//! either a mock or the renamed original, depending on the build mode.
//!
//! Tokenizing source text and the attribute-macro plumbing are left to the
//! surrounding toolchain; the library itself is pure token and text logic.

pub mod token;
pub mod text;
pub mod params;
pub mod args;
pub mod visibility;
pub mod rewrite;
