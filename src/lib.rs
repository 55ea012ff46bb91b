//! A compiler for a compact option-specification language: clauses such as
//! `-i --ignore *= NAME "..."` are resolved into option specifications and
//! registered, in order, on a `getopts::Options`.

pub mod token;
pub mod resolve;
pub mod clause;
pub mod registry;
pub mod emit;
pub mod laws;

pub use token::{Token, tokenize};
pub use resolve::{ErrorKind, Occurrence, OptionName, OptionSpec, ValueKind, resolve_clause};
pub use clause::{Clause, CompileError, compile, split_clauses};
pub use registry::GetOptsExt;
pub use emit::{
    BuildError, DirectiveEffect, Primitive, RegistryRejection, build_options, directive_of, emit,
    options_from_text, primitive_for,
};
