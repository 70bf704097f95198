//! The core of an interactive command-line interpreter: quote-aware
//! tokenization, operator validation, line assembly, path expansion,
//! redirection resolution and the wiring plan of a pipeline.
//!
//! Every function works on the characters of a line (`Seq<char>` in
//! contracts); offsets are character offsets.

pub mod text;
pub mod quote;
pub mod tokenizer;
pub mod syntax;
pub mod assembler;
pub mod expand;
pub mod decompose;
pub mod error;
pub mod redirect;
pub mod pipeline;
pub mod prompt;
