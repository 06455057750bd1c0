//! Command line arguments: what a program accepts is declared, a command
//! line is read against the declarations, and the usage line and the help
//! page are written from them.
//!
//! Reading a command line has no effect on the outside: [`ArgParser::parse`]
//! returns the values or the first thing that was wrong, and leaves it to
//! the program to print and to end.

pub mod arg;
pub mod argmap;
pub mod error;
pub mod group;
pub mod laws;
pub mod number;
pub mod parser;
pub mod render;
pub mod scan;
pub mod text;

pub use crate::arg::{Arg, ArgKind};
pub use crate::argmap::{ArgMap, ArgValue};
pub use crate::error::ArgError;
pub use crate::group::{ArgGroup, GroupKind};
pub use crate::parser::ArgParser;
