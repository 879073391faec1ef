//! The vocabulary of the syntax tree that a parser builds from the tokens.

use vstd::prelude::*;
use crate::error::ParseError;
use crate::location::SourceCodeLocation;
use crate::token::Token;

verus! {

/// Parsers that turn their input into a list of located items, or fail with an error.
pub trait Parse {
    type Type;

    fn parse(self) -> Result<Vec<Self::Type>, ParseError>;
}

/// All binary operations.
#[derive(Clone, Copy, Debug, PartialEq, Eq, Structural)]
pub enum BinaryOp {
    Add,
    Sub,
    Div,
    Mul,
    Rem,
    GreaterThan,
    LessThan,
    GreaterThanOrEq,
    LessThanOrEq,
    NotEq,
    Eq,
    And,
    Or,
}

/// All unary operations.
#[derive(Clone, Copy, Debug, PartialEq, Eq, Structural)]
pub enum UnaryOp {
    NegBool,
    NegNum,
}

/// All the types a program can name.
#[derive(Debug)]
pub enum Type {
    /// `str` type.
    String,
    /// `int` type.
    Int,
    /// `float` type.
    Float,
    /// `bool` type.
    Bool,
    /// `(...)` type.
    Tuple(Vec<Type>),
    /// `[]type` type.
    Array(Box<Type>),
    /// `enum` type.
    Enum(String),
    /// `struct` type.
    Struct(String),
    /// `\(...) -> type` type.
    Func {
        /// Function parameters.
        args: Vec<Type>,
        /// The return type of the function.
        return_type: Option<Box<Type>>,
    },
    /// Method for `struct` or `enum`.
    Method {
        /// The parent type.
        boss: Box<Type>,
        /// Method parameters.
        args: Vec<Type>,
        /// The return type of the method.
        return_type: Option<Box<Type>>,
    },
    /// `Self` type.
    BigSelf,
    /// `self`.
    LilSelf,
}

/// A type, with where it was written.
#[derive(Debug)]
pub struct TypeStruct {
    pub loc: SourceCodeLocation,
    pub ty: Type,
}

impl From<TypeStruct> for SourceCodeLocation {
    fn from(t: TypeStruct) -> (r: SourceCodeLocation)
        ensures
            r == t.loc,
    {
        t.loc
    }
}

impl vstd::std_specs::convert::FromSpecImpl<TypeStruct> for SourceCodeLocation {
    open spec fn obeys_from_spec() -> bool {
        true
    }

    open spec fn from_spec(t: TypeStruct) -> SourceCodeLocation {
        t.loc
    }
}

impl From<Token> for SourceCodeLocation {
    fn from(t: Token) -> (r: SourceCodeLocation)
        ensures
            r == t.loc,
    {
        t.loc
    }
}

impl vstd::std_specs::convert::FromSpecImpl<Token> for SourceCodeLocation {
    open spec fn obeys_from_spec() -> bool {
        true
    }

    open spec fn from_spec(t: Token) -> SourceCodeLocation {
        t.loc
    }
}

} // verus!
