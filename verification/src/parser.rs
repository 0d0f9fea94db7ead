//! The reader: syntax trees and the functions that produce them from text.

pub mod ast;
pub mod grammar;
pub mod parse;
pub mod render;
pub mod laws;

pub use ast::{Atom, AtomView, Sexpr, SexprView};
pub use parse::{parse, parse_atom, parse_sexpr, parse_toplevel, ws};
pub use render::render;
