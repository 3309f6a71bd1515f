//! A parser for a line-oriented, statement-based game-scripting
//! language: `;`-terminated statements of whitespace-separated
//! tokens, with block comments, numeric literals, three register
//! families, three variable forms, 21 typed-identifier categories,
//! and bare identifiers resolved lazily against a caller-supplied
//! symbol table at projection time.
//!
//! The grammar engine (`scanner`), the token classifier (`classify`)
//! and the AST builder (`parser`) are verified against a small-step
//! definition of the grammar: the classifier's contract says, for
//! every token, exactly which parameter it becomes or which error it
//! raises and where, and the parser's contract says it succeeds
//! exactly on well-formed sources, that each statement carries its
//! clause's leading identifier and parameter tokens in source order,
//! and which fault — at which line and column — aborts it otherwise.
//! Projection into a host runtime stays outside this crate.

pub mod ast;
pub mod classify;
pub mod digits;
pub mod errors;
pub mod laws;
pub mod parser;
pub mod scanner;
pub mod text;
