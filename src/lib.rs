//! Transparent wrapper types: a conversion trait, and a parser and generator
//! for the one-line declarations from which such types are produced.

pub mod decl;
pub mod emit;
pub mod laws;
pub mod scan;
pub mod syntax;
pub mod token;
pub mod wrapper;

pub use decl::{Decl, Param, ParamKind, ParseError, parse_decl};
pub use emit::{emit, newtype};
pub use token::{Delim, Tok};
pub use wrapper::Wrapper;
