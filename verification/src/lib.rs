//! A small shell core: variable substitution, a compiler from words to a
//! statement tree, and an evaluator that says which processes to start and
//! how to connect them.

pub mod agreement;
pub mod environment;
pub mod errors;
pub mod evaluator;
pub mod grammar;
pub mod interpreter;
pub mod physical;
pub mod semantics;
pub mod statement;
pub mod stream;
pub mod substitution;
pub mod text;
pub mod tokens;
