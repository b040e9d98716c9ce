//! Types for the variables of shell scripts, written in comments.
//!
//! A scan infers the type of every variable assignment of a script from its
//! right-hand side, holds it against the type annotations written in `#/`
//! comments and the directives written in `#[...]` comments, and records one
//! binding per variable together with a list of diagnostics.

pub mod annotation;
pub mod declaration;
pub mod diagnostic;
pub mod grammar;
pub mod lattice;
pub mod laws;
pub mod reading;
pub mod scan;
pub mod syntax;
pub mod text;
pub mod walk;

pub use crate::declaration::Method;
pub use crate::declaration::TypeDeclaration;
pub use crate::lattice::BashType;
pub use crate::scan::FileInfo;
