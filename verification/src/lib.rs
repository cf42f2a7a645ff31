//! A JavaScript front end: a byte-level lexer and the driver's settings.

pub mod lex;
pub mod run;
pub mod bind;
