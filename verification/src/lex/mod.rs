//! The lexer: a byte scanner, the hand-written sub-lexers and the token dispatcher.

pub mod ascii;
pub mod scanner;
pub mod text;
pub mod hand;
pub mod scan;
pub mod laws;
