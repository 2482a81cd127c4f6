//! What a target tells of how it was built: the compiler and the
//! dependencies.

pub mod compiler;
pub mod krate;
pub mod paths;
pub mod version;
