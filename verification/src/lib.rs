//! A compiler front end and code generator for a small statically typed
//! language. Source text is tokenized, parsed into a syntax tree, its
//! declarations are collected into a symbol table, and the tree is lowered
//! into a declaration unit and an implementation unit of C++ text.
//!
//! The stages, in order: [`tokenizer`], [`parser`] (whose grammar is
//! [`grammar`]), [`symbols`], [`codegen`] (which writes what [`lowering`]
//! says). [`compiler`] runs them one after another, and [`report`] turns
//! an error into text.
//!
//! [`printer`] writes a syntax tree back as source text. That what was
//! parsed, printed and parsed again comes back as it was is proved in
//! [`round_trip`]; the modules whose names begin with `read_`, `parsed_`
//! and `spell` hold the steps of that proof, with [`carry`] and [`shape`].
//! [`progress`] proves that every construct of the grammar holds a token.

pub mod ast;
pub mod carry;
pub mod checked;
pub mod codegen;
pub mod compiler;
pub mod error;
pub mod grammar;
pub mod lowering;
pub mod parsed_expressions;
pub mod parsed_follow;
pub mod parsed_statements;
pub mod parsed_types;
pub mod parsed_units;
pub mod parser;
pub mod printer;
pub mod progress;
pub mod read_expressions;
pub mod read_statements;
pub mod read_text;
pub mod read_types;
pub mod read_units;
pub mod report;
pub mod round_trip;
pub mod shape;
pub mod span;
pub mod spelled_tokens;
pub mod spelling;
pub mod symbols;
pub mod text;
pub mod token;
pub mod tokenizer;
