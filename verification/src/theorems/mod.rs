//! What holds of every program: laws of the lexer, the grammar and the code
//! generator, proved from their definitions.

pub mod acceptance;
pub mod declared;
pub mod layout;
pub mod lexing;
pub mod programs;
pub mod progress;
pub mod registers;
pub mod rejection;
pub mod scope;
pub mod typing;
pub mod written;
