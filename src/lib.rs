//! A tokenizer for a small Go-like language: a hand-written maximal-munch
//! scanner whose every step is specified by the grammar model in `grammar`.

pub mod classes;
pub mod token;
pub mod grammar;
pub mod parse_token;
pub mod lexer;
pub mod laws;

pub use lexer::Lexer;
pub use parse_token::{
    newline_parse, parse_float, parse_identifier, parse_interger, parse_rune, parse_string,
};
pub use token::{Kind, Lexeme, MyGOError, MyGoToken, ParseData};
