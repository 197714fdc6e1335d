//! SQL dialects as a closed capability interface.
//!
//! A tokenizer and a parser consult a `Dialect` at fixed decision points:
//! which characters quote or form identifiers, which optional constructs are
//! legal, and whether the dialect takes a statement before the generic
//! grammar does. `GenericDialect` is the conservative default and
//! `SQLiteDialect` the dialect of SQLite.
pub mod ast;
pub mod dialect;
pub mod parser;
pub mod tokenizer;
