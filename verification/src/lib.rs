//! Core engine of a small interactive command shell: a lexer for the shell's
//! line syntax, a parser that folds token streams into command lists, the
//! builtin catalog with its tab-completion trees, and the decision logic of
//! the execution pipeline (joiner gating, dispatch, stdio wiring, exit-code
//! accounting). Process spawning, terminal handling and file access live in
//! the surrounding binary; this crate holds the logic and its proofs.

pub mod builtin;
pub mod builtins;
pub mod chars;
pub mod completion;
pub mod context;
pub mod lexer;
pub mod options;
pub mod parser;
pub mod pipeline;
pub mod strmap;
pub mod sys;
pub mod tokenize;
pub mod valid;
