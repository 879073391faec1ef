//! Lexical front end of a small language: turns source text into located tokens,
//! and renders source locations for diagnostics.

pub mod text;
pub mod cursor;
pub mod location;
pub mod token;
pub mod error;
pub mod grammar;
pub mod lexer;
pub mod ast;
pub mod laws;

pub use ast::{BinaryOp, Parse, Type, TypeStruct, UnaryOp};
pub use cursor::Cursor;
pub use error::{GenerateErrorMessage, LexError, LexErrorType, ParseError, ParseErrorType};
pub use lexer::{Lexer, Tokenize};
pub use location::SourceCodeLocation;
pub use token::{Keyword, Token, TokenKind};
