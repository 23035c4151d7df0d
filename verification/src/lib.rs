//! A whole-program compiler for a tiny statically typed imperative language.
//!
//! Source text is lexed into tokens, parsed and type-checked into statements
//! and a symbol table, and turned into x86-64 NASM assembly whose exit code is
//! the value of the variable referenced last.
//!
//! Each stage is defined by a specification and computed by verified code:
//! `lexer` computes what `lexer::lex` defines, `parser` what `grammar`
//! defines, and `backend` what `codegen` defines; `compiler` puts the stages
//! together. `theorems` holds what is proved of the specifications.

pub mod ast_printer;
pub mod backend;
pub mod codegen;
pub mod compiler;
pub mod error;
pub mod grammar;
pub mod lexer;
pub mod parser;
pub mod representations;
pub mod symbols;
pub mod text;
pub mod theorems;
