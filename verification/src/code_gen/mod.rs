//! The decisions behind the code that `#[derive(EagerLoading)]` and the Diesel helper macros
//! write: which association a field is, which names and types the generated impls use, and how
//! parents and children are paired.

pub mod derive;
pub mod diesel;
pub mod field_args;
pub mod names;
pub mod rust_type;
